//! The errors of the engine: what stops a compilation, what fails one file,
//! and what ends a run.

use vstd::prelude::*;
use vstd::string::*;

use crate::scanner::{Token, TokenView};

verus! {

/// The kinds of I/O failure are those of the standard library; the engine
/// only carries them from the place where a `stat` failed to the report.
#[verifier::external_type_specification]
#[verifier::external_body]
pub struct ExIoErrorKind(std::io::ErrorKind);

/// An error raised while a program runs: a type error on a special value, a
/// division by zero, an assignment to an array name, a variable that was
/// never resolved.
#[derive(Debug)]
pub struct RuntimeError {
    msg: String,
}

impl View for RuntimeError {
    type V = Seq<char>;

    closed spec fn view(&self) -> Seq<char> {
        self.msg@
    }
}

impl Clone for RuntimeError {
    fn clone(&self) -> (r: Self)
        ensures
            r@ == self@,
    {
        RuntimeError { msg: self.msg.clone() }
    }
}

impl RuntimeError {
    pub fn new(msg: &str) -> (r: Self)
        ensures
            r@ == msg@,
    {
        RuntimeError { msg: msg.to_owned() }
    }

    /// The message without the prefix of the report.
    pub fn message(&self) -> (r: &String)
        ensures
            r@ == self@,
    {
        &self.msg
    }

    /// The line that reports this error.
    pub fn to_text(&self) -> (r: String)
        ensures
            r@ == runtime_error_text(self@),
    {
        let mut s: String = "Runtime error: ".to_owned();
        s.append(self.msg.as_str());
        s
    }
}

pub open spec fn runtime_error_text(msg: Seq<char>) -> Seq<char> {
    "Runtime error: "@ + msg
}

pub open spec fn msg_special_as_boolean() -> Seq<char> {
    "Cannot evaluate a special value as a boolean"@
}

pub open spec fn msg_special_as_integer() -> Seq<char> {
    "Cannot evaluate a special value as an integer"@
}

pub open spec fn msg_special_operator() -> Seq<char> {
    "Cannot apply this operator to a special value"@
}

pub open spec fn msg_special_negative() -> Seq<char> {
    "Cannot compare a special value to a negative integer"@
}

pub open spec fn msg_special_mismatch() -> Seq<char> {
    "Cannot compare a special value to a value of another type"@
}

pub open spec fn msg_division_by_zero() -> Seq<char> {
    "Division by zero"@
}

pub open spec fn msg_unresolved() -> Seq<char> {
    "Attempted to use an unresolved variable"@
}

pub open spec fn msg_assign_array() -> Seq<char> {
    "Cannot assign to an array name"@
}

pub open spec fn msg_assign_unlocked() -> Seq<char> {
    "Cannot assign through a borrowed view of the variables"@
}

pub open spec fn msg_attribute_in_begin_or_end() -> Seq<char> {
    "Error: attempt to query a file attribute in a BEGIN or END block."@
}

/// Everything that can go wrong between the source text and the end of a run.
#[derive(Debug)]
pub enum Error {
    /// The program text is not a program: the message, and the token at
    /// which the compiler stopped.
    CompileError((String, Token)),
    /// A file attribute was read where there is no file to read it from.
    AttributeInBeginOrEnd,
    /// The metadata of a file could not be had.
    IoError(std::io::ErrorKind),
    Runtime(RuntimeError),
}

pub enum ErrorView {
    CompileError(Seq<char>, TokenView),
    AttributeInBeginOrEnd,
    IoError(std::io::ErrorKind),
    Runtime(Seq<char>),
}

impl View for Error {
    type V = ErrorView;

    open spec fn view(&self) -> ErrorView {
        match self {
            Error::CompileError(p) => ErrorView::CompileError(p.0@, p.1@),
            Error::AttributeInBeginOrEnd => ErrorView::AttributeInBeginOrEnd,
            Error::IoError(k) => ErrorView::IoError(*k),
            Error::Runtime(r) => ErrorView::Runtime(r@),
        }
    }
}

/// What `Debug`, as the standard library derives it for `Token`, writes for
/// a token: the name of the variant, and in parentheses what the variant
/// holds, written by `Debug` in turn.
pub uninterp spec fn token_debug(t: TokenView) -> Seq<char>;

/// `Debug` formatting of a token through `format!`: the text that names the
/// token in a compile error. The text depends on the token alone, so it is
/// given the name `token_debug`; nothing else is claimed of it.
#[verifier::external_body]
fn token_debug_text(tok: &Token) -> (r: String)
    ensures
        r@ == token_debug(tok@),
{
    format!("{:?}", tok)
}

/// `Display` formatting of `std::io::ErrorKind`: the standard name of the
/// kind of failure. Nothing is claimed of it.
#[verifier::external_body]
fn io_error_kind_text(kind: std::io::ErrorKind) -> (r: String) {
    format!("{}", kind)
}

/// The report of a compile error: the message, and on a line of its own
/// the token at which the compiler stopped.
pub open spec fn syntax_error_text(msg: Seq<char>, token: Seq<char>) -> Seq<char> {
    syntax_error_prefix(msg) + token
}

/// The report of a compile error up to the token.
pub open spec fn syntax_error_prefix(msg: Seq<char>) -> Seq<char> {
    "Error: "@ + msg + "\nUnexpected token: "@
}

/// The report of a compile error with the given message, at the token with
/// the given text.
pub fn syntax_error_report(msg: &str, token: &str) -> (r: String)
    ensures
        r@ == syntax_error_text(msg@, token@),
{
    let mut s: String = "Error: ".to_owned();
    s.append(msg);
    s.append("\nUnexpected token: ");
    s.append(token);
    s
}

impl Error {
    /// The report of this error. A compile error names the message and then
    /// the token, as `Debug` writes it; a runtime error carries its prefix; an
    /// I/O error is the standard name of its kind, of which nothing is
    /// stated.
    pub fn to_text(&self) -> (r: String)
        ensures
            match self@ {
                ErrorView::CompileError(msg, tok) => r@ == syntax_error_text(
                    msg,
                    token_debug(tok),
                ),
                ErrorView::AttributeInBeginOrEnd => r@ == msg_attribute_in_begin_or_end(),
                ErrorView::IoError(_) => true,
                ErrorView::Runtime(msg) => r@ == runtime_error_text(msg),
            },
    {
        match self {
            Error::CompileError(p) => {
                let t = token_debug_text(&p.1);
                syntax_error_report(p.0.as_str(), t.as_str())
            },
            Error::AttributeInBeginOrEnd => {
                "Error: attempt to query a file attribute in a BEGIN or END block.".to_owned()
            },
            Error::IoError(k) => io_error_kind_text(*k),
            Error::Runtime(r) => r.to_text(),
        }
    }
}

/// What remains of an outcome once the errors that only concern one file are
/// taken out.
pub open spec fn fatal_part(res: Result<(), ErrorView>) -> Result<(), Seq<char>> {
    match res {
        Err(ErrorView::Runtime(msg)) => Err(msg),
        _ => Ok(()),
    }
}

pub open spec fn unit_result_view(res: Result<(), Error>) -> Result<(), ErrorView> {
    match res {
        Ok(_) => Ok(()),
        Err(e) => Err(e@),
    }
}

pub open spec fn runtime_result_view(res: Result<(), RuntimeError>) -> Result<(), Seq<char>> {
    match res {
        Ok(_) => Ok(()),
        Err(e) => Err(e@),
    }
}

/// Keeps the runtime errors, which end a run, and absorbs the others.
pub fn filter_non_fatal_errors(res: Result<(), Error>) -> (r: Result<(), RuntimeError>)
    ensures
        runtime_result_view(r) == fatal_part(unit_result_view(res)),
{
    match res {
        Err(Error::Runtime(r)) => Err(r),
        _ => Ok(()),
    }
}

} // verus!
