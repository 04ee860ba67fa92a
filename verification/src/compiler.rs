//! From tokens to a program: the grammar of the language and the parser
//! that follows it.

use vstd::prelude::*;
use vstd::string::*;

use crate::analysis::{analyze, analyze_program, names_view, AnalyzedView};
use crate::ast::{
    action_option_view, exprs_view, routines_view, statements_view, Action, ActionView,
    Assignment, BinaryOp, Condition, Expression, ExprView, OpKind, Program, Routine, RoutineView,
    Statement, StatementView, VarView,
};
use crate::errors::{Error, ErrorView};
use crate::program_state::{DiagnosticView, ProgramState};
use crate::scanner::{token_views, tokens_from, Scanner, Token, TokenView};
use crate::text::same_text;
use crate::variables::{empty_arrays, zeros, ArraySubscript, Variable};

verus! {

pub fn syntax_error(msg: &str, t: &Token) -> (r: Error)
    ensures
        r@ == ErrorView::CompileError(msg@, t@),
{
    Error::CompileError((msg.to_owned(), t.clone()))
}

/// Where a parse stands: the position of the next token, and the names that
/// are known to be arrays, each at the index that is its id.
pub struct ParseState {
    pub pos: int,
    pub arrays: Seq<Seq<char>>,
}

/// A compile error: the message and the token at which the parse stopped.
pub type ParseError = (Seq<char>, TokenView);

/// The token at a position; `Eof` beyond the last token.
pub open spec fn peek(toks: Seq<TokenView>, pos: int) -> TokenView {
    if 0 <= pos < toks.len() {
        toks[pos]
    } else {
        TokenView::Eof
    }
}

/// The position after a token is taken; there is no position beyond the end.
pub open spec fn step(toks: Seq<TokenView>, st: ParseState) -> ParseState {
    ParseState {
        pos: if 0 <= st.pos < toks.len() {
            st.pos + 1
        } else {
            st.pos
        },
        arrays: st.arrays,
    }
}

/// How many tokens are left at a position.
pub open spec fn tokens_left(toks: Seq<TokenView>, pos: int) -> nat {
    if 0 <= pos <= toks.len() {
        (toks.len() - pos) as nat
    } else {
        0
    }
}

/// Whether fewer tokens are left at `after` than at `before`.
pub open spec fn advanced(toks: Seq<TokenView>, before: ParseState, after: ParseState) -> bool {
    tokens_left(toks, after.pos) < tokens_left(toks, before.pos)
}

/// How tightly an operator binds. `*` and `/` bind tightest, then `+` and
/// `-`, then the comparisons, then `and` and `or`.
pub open spec fn precedence(op: OpKind) -> nat {
    match op {
        OpKind::Multiply => 3,
        OpKind::Divide => 3,
        OpKind::Plus => 2,
        OpKind::Minus => 2,
        OpKind::Greater => 1,
        OpKind::GreaterEqual => 1,
        OpKind::Less => 1,
        OpKind::LessEqual => 1,
        OpKind::EqualEqual => 1,
        OpKind::And => 0,
        OpKind::Or => 0,
    }
}

/// The index of the first occurrence of a name; the length of the list
/// where the name does not occur.
pub open spec fn name_index(names: Seq<Seq<char>>, name: Seq<char>) -> int
    decreases names.len(),
{
    if names.len() == 0 {
        0
    } else if names[0] == name {
        0
    } else {
        1 + name_index(names.drop_first(), name)
    }
}

/// The id of an array name, and the names after it was met: a new name gets
/// the next id.
pub open spec fn add_array(arrays: Seq<Seq<char>>, name: Seq<char>) -> (int, Seq<Seq<char>>) {
    let i = name_index(arrays, name);
    if i < arrays.len() {
        (i, arrays)
    } else {
        (arrays.len() as int, arrays.push(name))
    }
}

pub open spec fn msg_begin_brace() -> Seq<char> {
    "Expected '{' after 'BEGIN'"@
}

pub open spec fn msg_end_brace() -> Seq<char> {
    "Expected '{' after 'END'"@
}

pub open spec fn msg_after_condition() -> Seq<char> {
    "Expected '{' or end of input after a condition"@
}

pub open spec fn msg_close_action() -> Seq<char> {
    "Expected '}' after end of action block"@
}

pub open spec fn msg_after_statement() -> Seq<char> {
    "Expected either ';' or '}' after a statement"@
}

pub open spec fn msg_assignment() -> Seq<char> {
    "Expected an assignment after identifier"@
}

pub open spec fn msg_statement() -> Seq<char> {
    "Expected beginning of statement"@
}

pub open spec fn msg_factor() -> Seq<char> {
    "Expected value, attribute, or identifier"@
}

pub open spec fn msg_close_subscript() -> Seq<char> {
    "Expected ']' after array subscript expression"@
}

pub open spec fn msg_close_paren() -> Seq<char> {
    "Expected ')' after expression"@
}

/// Takes the next token, which has to be `expected`.
pub open spec fn eat(toks: Seq<TokenView>, st: ParseState, expected: TokenView, msg: Seq<char>)
    -> Result<ParseState, ParseError> {
    let t = peek(toks, st.pos);
    if t == expected {
        Ok(step(toks, st))
    } else {
        Err((msg, t))
    }
}

/// A factor: a literal, an attribute, a variable, or an expression in
/// parentheses.
pub open spec fn parse_factor(toks: Seq<TokenView>, st: ParseState) -> Result<
    (ExprView, ParseState),
    ParseError,
>
    decreases tokens_left(toks, st.pos), 2nat,
{
    let st1 = step(toks, st);
    match peek(toks, st.pos) {
        TokenView::Value(v) => Ok((ExprView::Atom(v), st1)),
        TokenView::Attr(a) => Ok((ExprView::Attr(a), st1)),
        TokenView::Identifier(name) => match parse_variable(toks, name, st1) {
            Err(e) => Err(e),
            Ok((v, st2)) => Ok((ExprView::Var(v), st2)),
        },
        TokenView::LeftParen => match parse_expression(toks, st1, 0) {
            Err(e) => Err(e),
            Ok((e, st2)) => match eat(toks, st2, TokenView::RightParen, msg_close_paren()) {
                Err(x) => Err(x),
                Ok(st3) => Ok((e, st3)),
            },
        },
        t => Err((msg_factor(), t)),
    }
}

/// A variable whose name was just taken: an entry of an array where a
/// subscript in brackets follows, and else a name for analysis to resolve.
pub open spec fn parse_variable(toks: Seq<TokenView>, name: Seq<char>, st: ParseState) -> Result<
    (VarView, ParseState),
    ParseError,
>
    decreases tokens_left(toks, st.pos), 4nat,
{
    match peek(toks, st.pos) {
        TokenView::LeftBracket => {
            let (id, arrays) = add_array(st.arrays, name);
            let st1 = ParseState { pos: step(toks, st).pos, arrays: arrays };
            match parse_expression(toks, st1, 0) {
                Err(e) => Err(e),
                Ok((e, st2)) => match eat(
                    toks,
                    st2,
                    TokenView::RightBracket,
                    msg_close_subscript(),
                ) {
                    Err(x) => Err(x),
                    Ok(st3) => Ok((VarView::ArrSub(id, Box::new(e)), st3)),
                },
            }
        },
        _ => Ok((VarView::NotYetKnown(name), st)),
    }
}

/// An expression of operators that bind at least as tightly as `min`.
/// Operators of one precedence group from the left.
pub open spec fn parse_expression(toks: Seq<TokenView>, st: ParseState, min: nat) -> Result<
    (ExprView, ParseState),
    ParseError,
>
    decreases tokens_left(toks, st.pos), 3nat,
{
    match parse_factor(toks, st) {
        Err(e) => Err(e),
        Ok((l, st1)) => if advanced(toks, st, st1) {
            parse_operators(toks, l, st1, min)
        } else {
            Ok((l, st1))
        },
    }
}

/// The operators and right operands that follow a left operand.
pub open spec fn parse_operators(toks: Seq<TokenView>, l: ExprView, st: ParseState, min: nat)
    -> Result<(ExprView, ParseState), ParseError>
    decreases tokens_left(toks, st.pos), 5nat,
{
    match peek(toks, st.pos) {
        TokenView::BinOp(op) => if precedence(op) < min {
            Ok((l, st))
        } else {
            match parse_expression(toks, step(toks, st), precedence(op) + 1) {
                Err(e) => Err(e),
                Ok((r, st2)) => {
                    let e = ExprView::Bin(op, Box::new(l), Box::new(r));
                    if advanced(toks, st, st2) {
                        parse_operators(toks, e, st2, min)
                    } else {
                        Ok((e, st2))
                    }
                },
            }
        },
        _ => Ok((l, st)),
    }
}

/// The expressions of a `print`, up to the `;` or `}` that ends the
/// statement. Commas between them are passed over.
pub open spec fn parse_expressions(toks: Seq<TokenView>, st: ParseState, acc: Seq<ExprView>)
    -> Result<(Seq<ExprView>, ParseState), ParseError>
    decreases tokens_left(toks, st.pos),
{
    match peek(toks, st.pos) {
        TokenView::Comma => parse_expressions(toks, step(toks, st), acc),
        TokenView::RightBrace => Ok((acc, st)),
        TokenView::Semicolon => Ok((acc, st)),
        _ => match parse_expression(toks, st, 0) {
            Err(e) => Err(e),
            Ok((e, st1)) => if advanced(toks, st, st1) {
                parse_expressions(toks, st1, acc.push(e))
            } else {
                Ok((acc.push(e), st1))
            },
        },
    }
}

/// The right-hand side of `+=` or `-=`: the target, the operator, and the
/// expression that follows.
pub open spec fn parse_compound(toks: Seq<TokenView>, lhs: VarView, op: OpKind, st: ParseState)
    -> Result<(Option<StatementView>, ParseState), ParseError> {
    match parse_expression(toks, st, 0) {
        Err(e) => Err(e),
        Ok((r, st1)) => Ok(
            (
                Some(
                    StatementView::Assignment(
                        lhs,
                        ExprView::Bin(op, Box::new(ExprView::Var(lhs)), Box::new(r)),
                    ),
                ),
                st1,
            ),
        ),
    }
}

/// A statement: an assignment, a `print`, or nothing where a `;` or `}`
/// comes at once.
pub open spec fn parse_statement(toks: Seq<TokenView>, st: ParseState) -> Result<
    (Option<StatementView>, ParseState),
    ParseError,
> {
    match peek(toks, st.pos) {
        TokenView::Identifier(name) => match parse_variable(toks, name, step(toks, st)) {
            Err(e) => Err(e),
            Ok((lhs, st2)) => {
                let st3 = step(toks, st2);
                match peek(toks, st2.pos) {
                    TokenView::Equal => match parse_expression(toks, st3, 0) {
                        Err(e) => Err(e),
                        Ok((rhs, st4)) => Ok((Some(StatementView::Assignment(lhs, rhs)), st4)),
                    },
                    TokenView::PlusEqual => parse_compound(toks, lhs, OpKind::Plus, st3),
                    TokenView::MinusEqual => parse_compound(toks, lhs, OpKind::Minus, st3),
                    t => Err((msg_assignment(), t)),
                }
            },
        },
        TokenView::Print => match parse_expressions(toks, step(toks, st), Seq::empty()) {
            Err(e) => Err(e),
            Ok((es, st2)) => Ok((Some(StatementView::Print(es)), st2)),
        },
        TokenView::RightBrace => Ok((None, st)),
        TokenView::Semicolon => Ok((None, st)),
        t => Err((msg_statement(), t)),
    }
}

pub open spec fn with_statement(acc: Seq<StatementView>, s: Option<StatementView>) -> Seq<
    StatementView,
> {
    match s {
        Some(x) => acc.push(x),
        None => acc,
    }
}

/// The statements of a block, `;` between them, up to the `}` that closes
/// the block.
pub open spec fn parse_statements(toks: Seq<TokenView>, st: ParseState, acc: Seq<StatementView>)
    -> Result<(Seq<StatementView>, ParseState), ParseError>
    decreases tokens_left(toks, st.pos),
{
    match parse_statement(toks, st) {
        Err(e) => Err(e),
        Ok((s, st1)) => match peek(toks, st1.pos) {
            TokenView::RightBrace => Ok((with_statement(acc, s), st1)),
            TokenView::Semicolon => if advanced(toks, st, step(toks, st1)) {
                parse_statements(toks, step(toks, st1), with_statement(acc, s))
            } else {
                Ok((with_statement(acc, s), st1))
            },
            t => Err((msg_after_statement(), t)),
        },
    }
}

/// A block whose `{` was just taken. An empty block is the action without
/// statements.
pub open spec fn parse_action(toks: Seq<TokenView>, st: ParseState) -> Result<
    (ActionView, ParseState),
    ParseError,
> {
    match peek(toks, st.pos) {
        TokenView::RightBrace => Ok((ActionView { statements: None }, step(toks, st))),
        _ => match parse_statements(toks, st, Seq::empty()) {
            Err(e) => Err(e),
            Ok((sts, st1)) => match eat(toks, st1, TokenView::RightBrace, msg_close_action()) {
                Err(x) => Err(x),
                Ok(st2) => Ok((ActionView { statements: Some(sts) }, st2)),
            },
        },
    }
}

/// A routine: a condition, unless a `{` comes at once, and then a block,
/// unless the input ends there.
pub open spec fn parse_routine(toks: Seq<TokenView>, st: ParseState) -> Result<
    (RoutineView, ParseState),
    ParseError,
> {
    let c = match peek(toks, st.pos) {
        TokenView::LeftBrace => Ok((None, st)),
        _ => match parse_expression(toks, st, 0) {
            Err(e) => Err(e),
            Ok((e, st1)) => Ok((Some(e), st1)),
        },
    };
    match c {
        Err(e) => Err(e),
        Ok((cond, st1)) => match peek(toks, st1.pos) {
            TokenView::LeftBrace => match parse_action(toks, step(toks, st1)) {
                Err(e) => Err(e),
                Ok((a, st2)) => Ok((RoutineView { cond: cond, action: a }, st2)),
            },
            TokenView::Eof => Ok(
                (RoutineView { cond: cond, action: ActionView { statements: None } }, st1),
            ),
            t => Err((msg_after_condition(), t)),
        },
    }
}

/// What the parser makes of a program text.
pub struct ParsedView {
    pub begin: Option<ActionView>,
    pub end: Option<ActionView>,
    pub routines: Seq<RoutineView>,
}

/// The BEGIN blocks, END blocks and routines of a program, up to the end of
/// the input. Of several BEGIN blocks, and of several END blocks, the last
/// one counts.
pub open spec fn parse_items(toks: Seq<TokenView>, st: ParseState, acc: ParsedView) -> Result<
    (ParsedView, ParseState),
    ParseError,
>
    decreases tokens_left(toks, st.pos),
{
    match peek(toks, st.pos) {
        TokenView::Eof => Ok((acc, st)),
        TokenView::Begin => match eat(
            toks,
            step(toks, st),
            TokenView::LeftBrace,
            msg_begin_brace(),
        ) {
            Err(e) => Err(e),
            Ok(st2) => match parse_action(toks, st2) {
                Err(e) => Err(e),
                Ok((a, st3)) => if advanced(toks, st, st3) {
                    parse_items(toks, st3, ParsedView { begin: Some(a), ..acc })
                } else {
                    Ok((ParsedView { begin: Some(a), ..acc }, st3))
                },
            },
        },
        TokenView::End => match eat(toks, step(toks, st), TokenView::LeftBrace, msg_end_brace()) {
            Err(e) => Err(e),
            Ok(st2) => match parse_action(toks, st2) {
                Err(e) => Err(e),
                Ok((a, st3)) => if advanced(toks, st, st3) {
                    parse_items(toks, st3, ParsedView { end: Some(a), ..acc })
                } else {
                    Ok((ParsedView { end: Some(a), ..acc }, st3))
                },
            },
        },
        _ => match parse_routine(toks, st) {
            Err(e) => Err(e),
            Ok((r, st1)) => if advanced(toks, st, st1) {
                parse_items(toks, st1, ParsedView { routines: acc.routines.push(r), ..acc })
            } else {
                Ok((ParsedView { routines: acc.routines.push(r), ..acc }, st1))
            },
        },
    }
}

/// The routine of a program that has none: it prints the path of every file.
pub open spec fn default_routine() -> RoutineView {
    RoutineView { cond: None, action: ActionView { statements: None } }
}

/// The program that the tokens from `st` on stand for, with the number of
/// scalar slots and the number of arrays that it needs: the parse, a default
/// routine where there is no routine, and then the analysis. A text that
/// does not parse is an error, and so is a program that assigns to the name
/// of an array.
pub open spec fn compile_spec(toks: Seq<TokenView>, st: ParseState) -> Result<
    AnalyzedView,
    ParseError,
> {
    match parse_items(
        toks,
        st,
        ParsedView { begin: None, end: None, routines: Seq::empty() },
    ) {
        Err(e) => Err(e),
        Ok((parsed, st)) => analyze_program(
            st.arrays,
            parsed.begin,
            parsed.end,
            if parsed.routines.len() == 0 {
                seq![default_routine()]
            } else {
                parsed.routines
            },
        ),
    }
}

pub open spec fn error_of(e: ParseError) -> ErrorView {
    ErrorView::CompileError(e.0, e.1)
}

pub proof fn lemma_name_index_found(names: Seq<Seq<char>>, name: Seq<char>, i: int)
    requires
        0 <= i < names.len(),
        names[i] == name,
        forall|j: int| 0 <= j < i ==> #[trigger] names[j] != name,
    ensures
        name_index(names, name) == i,
    decreases i,
{
    if i > 0 {
        let rest = names.drop_first();
        assert forall|j: int| 0 <= j < i - 1 implies #[trigger] rest[j] != name by {
            assert(rest[j] == names[j + 1]);
        }
        lemma_name_index_found(rest, name, i - 1);
    }
}

pub proof fn lemma_name_index_missing(names: Seq<Seq<char>>, name: Seq<char>)
    requires
        forall|j: int| 0 <= j < names.len() ==> #[trigger] names[j] != name,
    ensures
        name_index(names, name) == names.len(),
    decreases names.len(),
{
    if names.len() > 0 {
        let rest = names.drop_first();
        assert forall|j: int| 0 <= j < rest.len() implies #[trigger] rest[j] != name by {
            assert(rest[j] == names[j + 1]);
        }
        lemma_name_index_missing(rest, name);
    }
}

/// The index of a name in a list of names; the length of the list where the
/// name does not occur.
pub fn find_name(names: &Vec<String>, name: &str) -> (r: usize)
    ensures
        r == name_index(names_view(names@), name@),
        r <= names@.len(),
{
    let ghost view = names_view(names@);
    let mut i: usize = 0;
    while i < names.len()
        invariant
            i <= names.len(),
            view == names_view(names@),
            forall|j: int| 0 <= j < i ==> #[trigger] view[j] != name@,
        decreases names.len() - i,
    {
        if same_text(names[i].as_str(), name) {
            proof {
                assert(view[i as int] == names@[i as int]@);
                lemma_name_index_found(view, name@, i as int);
            }
            return i;
        }
        assert(view[i as int] == names@[i as int]@);
        i = i + 1;
    }
    proof {
        lemma_name_index_missing(view, name@);
    }
    i
}

pub struct Compiler {
    tokens: Vec<Token>,
    pos: usize,
    eof: Token,
    /// When array identifiers (e.g., `arr` in `arr["key"]`) are met while
    /// compiling, they are added to `known_arrays`, each at the index that
    /// is its id. Identifiers that no subscript follows are resolved to an
    /// array or a scalar in a later pass, since it is not known at once
    /// which of the two they are.
    known_arrays: Vec<String>,
}

impl Compiler {
    pub closed spec fn toks(&self) -> Seq<TokenView> {
        token_views(self.tokens@)
    }

    pub closed spec fn state(&self) -> ParseState {
        ParseState { pos: self.pos as int, arrays: names_view(self.known_arrays@) }
    }

    pub closed spec fn well_formed(&self) -> bool {
        self.pos <= self.tokens@.len() && self.eof@ == TokenView::Eof
    }

    /// Whether the compiler is in the state that follows `old`, the parse
    /// having come to `st`.
    pub open spec fn follows(&self, old: &Compiler, st: ParseState) -> bool {
        self.well_formed() && self.toks() == old.toks() && self.state() == st
    }

    pub fn new(scanner: Scanner) -> (r: Self)
        requires
            scanner.well_formed(),
        ensures
            r.well_formed(),
            r.toks() == tokens_from(scanner.source(), scanner.position()),
            r.state() == (ParseState { pos: 0, arrays: Seq::empty() }),
    {
        let mut scanner = scanner;
        let tokens = scanner.tokens();
        let r = Compiler { tokens, pos: 0, eof: Token::Eof, known_arrays: Vec::new() };
        assert(names_view(r.known_arrays@) =~= Seq::<Seq<char>>::empty());
        r
    }

    /// Compiles the program: parses it, gives it the default routine if it
    /// has none, and resolves its variables.
    pub fn compile(&mut self) -> (r: Result<Program, Error>)
        requires
            old(self).well_formed(),
        ensures
            match compile_spec(old(self).toks(), old(self).state()) {
                Ok(a) => r matches Ok(p) && action_option_view(p.begin) == a.begin
                    && action_option_view(p.end) == a.end && routines_view(p.routines@)
                    == a.routines && p.prog_state.well_formed() && p.prog_state@.store.scalars
                    == zeros(a.num_scalars) && p.prog_state@.store.arrays == empty_arrays(
                    a.num_arrays,
                ) && p.prog_state@.out == Seq::<u8>::empty() && p.prog_state@.diagnostics
                    == Seq::<DiagnosticView>::empty() && p.prog_state@.runtime_error is None,
                Err(e) => r matches Err(x) && x@ == error_of(e),
            },
    {
        let (mut begin, mut end, mut routines) = self.items()?;
        // If the input holds no routine, the program is a single default routine:
        if routines.len() == 0 {
            routines.push(Routine::new(None, Action { statements: None }));
            assert(routines_view(routines@) =~= seq![default_routine()]);
        }
        let num_arrays = self.known_arrays.len();
        let num_scalars = analyze(&self.known_arrays, &mut begin, &mut end, &mut routines)?;
        Ok(Program { begin, end, routines, prog_state: ProgramState::new(num_scalars, num_arrays) })
    }

    /// The BEGIN blocks, END blocks and routines of the program.
    fn items(&mut self) -> (r: Result<(Option<Action>, Option<Action>, Vec<Routine>), Error>)
        requires
            old(self).well_formed(),
        ensures
            match parse_items(
                old(self).toks(),
                old(self).state(),
                ParsedView { begin: None, end: None, routines: Seq::empty() },
            ) {
                Ok((v, st)) => r matches Ok(x) && action_option_view(x.0) == v.begin
                    && action_option_view(x.1) == v.end && routines_view(x.2@) == v.routines
                    && final(self).follows(old(self), st),
                Err(e) => r matches Err(x) && x@ == error_of(e),
            },
    {
        let mut begin: Option<Action> = None;
        let mut end: Option<Action> = None;
        let mut routines: Vec<Routine> = Vec::new();
        assert(routines_view(routines@) =~= Seq::<RoutineView>::empty());
        loop
            invariant
                self.well_formed(),
                self.toks() == old(self).toks(),
                parse_items(
                    old(self).toks(),
                    old(self).state(),
                    ParsedView { begin: None, end: None, routines: Seq::empty() },
                ) == parse_items(
                    self.toks(),
                    self.state(),
                    ParsedView {
                        begin: action_option_view(begin),
                        end: action_option_view(end),
                        routines: routines_view(routines@),
                    },
                ),
            decreases tokens_left(self.toks(), self.state().pos),
        {
            let ghost acc = ParsedView {
                begin: action_option_view(begin),
                end: action_option_view(end),
                routines: routines_view(routines@),
            };
            let kind: u8 = match self.peek() {
                Token::Eof => 0,
                Token::Begin => 1,
                Token::End => 2,
                _ => 3,
            };
            if kind == 0 {
                return Ok((begin, end, routines));
            } else if kind == 1 {
                begin = Some(self.block("Expected '{' after 'BEGIN'")?);
            } else if kind == 2 {
                end = Some(self.block("Expected '{' after 'END'")?);
            } else {
                let r = self.routine()?;
                let ghost rv = r@;
                routines.push(r);
                assert(routines_view(routines@) =~= acc.routines.push(rv));
            }
        }
    }

    /// The block of a BEGIN or an END, from the keyword on.
    fn block(&mut self, msg: &str) -> (r: Result<Action, Error>)
        requires
            old(self).well_formed(),
            !(peek(old(self).toks(), old(self).state().pos) is Eof),
        ensures
            match eat(
                old(self).toks(),
                step(old(self).toks(), old(self).state()),
                TokenView::LeftBrace,
                msg@,
            ) {
                Err(e) => r matches Err(x) && x@ == error_of(e),
                Ok(st2) => match parse_action(old(self).toks(), st2) {
                    Ok((v, st)) => r matches Ok(x) && x@ == v && final(self).follows(
                        old(self),
                        st,
                    ),
                    Err(e) => r matches Err(x) && x@ == error_of(e),
                },
            },
            r is Ok ==> old(self).state().pos < final(self).state().pos,
    {
        self.next();
        self.eat(Token::LeftBrace, msg)?;
        self.action()
    }

    fn eat(&mut self, tok: Token, msg: &str) -> (r: Result<(), Error>)
        requires
            old(self).well_formed(),
        ensures
            match eat(old(self).toks(), old(self).state(), tok@, msg@) {
                Ok(st) => r is Ok && final(self).follows(old(self), st),
                Err(e) => r matches Err(x) && x@ == error_of(e),
            },
            final(self).well_formed(),
            final(self).toks() == old(self).toks(),
            final(self).state().pos >= old(self).state().pos,
    {
        let next = self.next();
        if !next.same(&tok) {
            return Err(syntax_error(msg, &next));
        }
        Ok(())
    }

    fn peek(&self) -> (r: &Token)
        requires
            self.well_formed(),
        ensures
            r@ == peek(self.toks(), self.state().pos),
    {
        if self.pos < self.tokens.len() {
            &self.tokens[self.pos]
        } else {
            &self.eof
        }
    }

    fn next(&mut self) -> (r: Token)
        requires
            old(self).well_formed(),
        ensures
            r@ == peek(old(self).toks(), old(self).state().pos),
            final(self).follows(old(self), step(old(self).toks(), old(self).state())),
    {
        if self.pos < self.tokens.len() {
            let t = self.tokens[self.pos].clone();
            self.pos = self.pos + 1;
            t
        } else {
            Token::Eof
        }
    }

    fn routine(&mut self) -> (r: Result<Routine, Error>)
        requires
            old(self).well_formed(),
            !(peek(old(self).toks(), old(self).state().pos) is Eof),
        ensures
            match parse_routine(old(self).toks(), old(self).state()) {
                Ok((v, st)) => r matches Ok(x) && x@ == v && final(self).follows(old(self), st),
                Err(e) => r matches Err(x) && x@ == error_of(e),
            },
            r is Ok ==> old(self).state().pos < final(self).state().pos,
    {
        let cond = match self.peek() {
            Token::LeftBrace => None,
            _ => Some(Condition { expr: self.expression(0)? }),
        };
        let is_brace = match self.peek() {
            Token::LeftBrace => true,
            _ => false,
        };
        let is_eof = match self.peek() {
            Token::Eof => true,
            _ => false,
        };
        let action = if is_brace {
            self.next();
            self.action()?
        } else if is_eof {
            Action::new(None)
        } else {
            return Err(
                syntax_error("Expected '{' or end of input after a condition", self.peek()),
            );
        };
        Ok(Routine::new(cond, action))
    }

    fn action(&mut self) -> (r: Result<Action, Error>)
        requires
            old(self).well_formed(),
        ensures
            match parse_action(old(self).toks(), old(self).state()) {
                Ok((v, st)) => r matches Ok(x) && x@ == v && final(self).follows(old(self), st),
                Err(e) => r matches Err(x) && x@ == error_of(e),
            },
            r is Ok ==> old(self).state().pos < final(self).state().pos,
    {
        let is_close = match self.peek() {
            Token::RightBrace => true,
            _ => false,
        };
        if is_close {
            self.next();
            Ok(Action::new(None))
        } else {
            let action = Action::new(Some(self.statements()?));
            self.eat(Token::RightBrace, "Expected '}' after end of action block")?;
            Ok(action)
        }
    }

    fn statements(&mut self) -> (r: Result<Vec<Statement>, Error>)
        requires
            old(self).well_formed(),
        ensures
            match parse_statements(old(self).toks(), old(self).state(), Seq::empty()) {
                Ok((v, st)) => r matches Ok(x) && statements_view(x@) == v && final(self).follows(old(self), st),
                Err(e) => r matches Err(x) && x@ == error_of(e),
            },
            r is Ok ==> old(self).state().pos <= final(self).state().pos,
    {
        let mut statements: Vec<Statement> = Vec::new();
        assert(statements_view(statements@) =~= Seq::<StatementView>::empty());
        loop
            invariant
                self.well_formed(),
                self.toks() == old(self).toks(),
                old(self).state().pos <= self.state().pos,
                parse_statements(old(self).toks(), old(self).state(), Seq::empty())
                    == parse_statements(self.toks(), self.state(), statements_view(statements@)),
            decreases tokens_left(self.toks(), self.state().pos),
        {
            let ghost acc = statements_view(statements@);
            if let Some(st) = self.statement()? {
                let ghost sv = st@;
                statements.push(st);
                assert(statements_view(statements@) =~= acc.push(sv));
            };
            let is_close = match self.peek() {
                Token::RightBrace => true,
                _ => false,
            };
            let is_semicolon = match self.peek() {
                Token::Semicolon => true,
                _ => false,
            };
            if is_close {
                return Ok(statements);
            } else if is_semicolon {
                self.next();
            } else {
                return Err(
                    syntax_error("Expected either ';' or '}' after a statement", self.peek()),
                );
            }
        }
    }

    fn statement(&mut self) -> (r: Result<Option<Statement>, Error>)
        requires
            old(self).well_formed(),
        ensures
            match parse_statement(old(self).toks(), old(self).state()) {
                Ok((v, st)) => r matches Ok(x) && (match x {
                    Some(s) => Some(s@),
                    None => None,
                }) == v && final(self).follows(old(self), st),
                Err(e) => r matches Err(x) && x@ == error_of(e),
            },
            r is Ok ==> old(self).state().pos <= final(self).state().pos,
    {
        let t = self.peek().clone();
        match t {
            Token::Identifier(name) => {
                self.next();
                let lhs = self.variable(name)?;
                let op = self.next();
                let rhs = match op {
                    Token::Equal => self.expression(0)?,
                    Token::PlusEqual => self.compound_assignment(lhs.clone(), Token::PlusEqual)?,
                    Token::MinusEqual => self.compound_assignment(
                        lhs.clone(),
                        Token::MinusEqual,
                    )?,
                    tok => {
                        return Err(syntax_error("Expected an assignment after identifier", &tok));
                    },
                };
                Ok(Some(Statement::Assignment(Assignment { lhs, rhs })))
            },
            Token::Print => {
                self.next();
                Ok(Some(Statement::Print(self.expressions()?)))
            },
            Token::RightBrace => Ok(None),
            Token::Semicolon => Ok(None),
            tok => Err(syntax_error("Expected beginning of statement", &tok)),
        }
    }

    fn compound_assignment(&mut self, var: Variable, tok: Token) -> (r: Result<Expression, Error>)
        requires
            old(self).well_formed(),
            tok@ == TokenView::PlusEqual || tok@ == TokenView::MinusEqual,
        ensures
            match parse_expression(old(self).toks(), old(self).state(), 0) {
                Ok((v, st)) => r matches Ok(x) && x@ == ExprView::Bin(
                    if tok@ == TokenView::PlusEqual {
                        OpKind::Plus
                    } else {
                        OpKind::Minus
                    },
                    Box::new(ExprView::Var(var@)),
                    Box::new(v),
                ) && final(self).follows(old(self), st),
                Err(e) => r matches Err(x) && x@ == error_of(e),
            },
            r is Ok ==> old(self).state().pos < final(self).state().pos,
    {
        let kind = match tok {
            Token::PlusEqual => OpKind::Plus,
            _ => OpKind::Minus,
        };
        let right = self.expression(0)?;
        let ghost vv = var@;
        let target = Expression::Var(var);
        assert(target@ == ExprView::Var(vv));
        Ok(Expression::Bin(BinaryOp { kind, left: Box::new(target), right: Box::new(right) }))
    }

    fn expressions(&mut self) -> (r: Result<Vec<Expression>, Error>)
        requires
            old(self).well_formed(),
        ensures
            match parse_expressions(old(self).toks(), old(self).state(), Seq::empty()) {
                Ok((v, st)) => r matches Ok(x) && exprs_view(x@) == v && final(self).follows(
                    old(self),
                    st,
                ),
                Err(e) => r matches Err(x) && x@ == error_of(e),
            },
            r is Ok ==> old(self).state().pos <= final(self).state().pos,
    {
        let mut exprs: Vec<Expression> = Vec::new();
        assert(exprs_view(exprs@) =~= Seq::<ExprView>::empty());
        loop
            invariant
                self.well_formed(),
                self.toks() == old(self).toks(),
                old(self).state().pos <= self.state().pos,
                parse_expressions(old(self).toks(), old(self).state(), Seq::empty())
                    == parse_expressions(self.toks(), self.state(), exprs_view(exprs@)),
            decreases tokens_left(self.toks(), self.state().pos),
        {
            let ghost acc = exprs_view(exprs@);
            let kind: u8 = match self.peek() {
                Token::Comma => 0,
                Token::RightBrace => 1,
                Token::Semicolon => 1,
                _ => 2,
            };
            if kind == 0 {
                self.next();
            } else if kind == 1 {
                return Ok(exprs);
            } else {
                let e = self.expression(0)?;
                let ghost ev = e@;
                exprs.push(e);
                assert(exprs_view(exprs@) =~= acc.push(ev));
            }
        }
    }

    fn expression(&mut self, min_precedence: u8) -> (r: Result<Expression, Error>)
        requires
            old(self).well_formed(),
        ensures
            match parse_expression(old(self).toks(), old(self).state(), min_precedence as nat) {
                Ok((v, st)) => r matches Ok(x) && x@ == v && final(self).follows(old(self), st),
                Err(e) => r matches Err(x) && x@ == error_of(e),
            },
            r is Ok ==> old(self).state().pos < final(self).state().pos,
        decreases tokens_left(old(self).toks(), old(self).state().pos), 3nat,
    {
        let mut left = self.factor()?;
        loop
            invariant
                self.well_formed(),
                self.toks() == old(self).toks(),
                old(self).state().pos < self.state().pos,
                parse_expression(old(self).toks(), old(self).state(), min_precedence as nat)
                    == parse_operators(self.toks(), left@, self.state(), min_precedence as nat),
            decreases tokens_left(self.toks(), self.state().pos),
        {
            let op = match self.peek() {
                Token::BinOp(op) => *op,
                _ => {
                    return Ok(left);
                },
            };
            if Self::op_precedence(op) < min_precedence {
                return Ok(left);
            }
            self.next();
            let right = self.expression(Self::op_precedence(op) + 1)?;
            left =
            Expression::Bin(BinaryOp { kind: op, left: Box::new(left), right: Box::new(right) });
        }
    }

    fn op_precedence(op: OpKind) -> (r: u8)
        ensures
            r == precedence(op),
    {
        match op {
            OpKind::Multiply => 3,
            OpKind::Divide => 3,
            OpKind::Plus => 2,
            OpKind::Minus => 2,
            OpKind::Greater => 1,
            OpKind::GreaterEqual => 1,
            OpKind::Less => 1,
            OpKind::LessEqual => 1,
            OpKind::EqualEqual => 1,
            OpKind::And => 0,
            OpKind::Or => 0,
        }
    }

    fn factor(&mut self) -> (r: Result<Expression, Error>)
        requires
            old(self).well_formed(),
        ensures
            match parse_factor(old(self).toks(), old(self).state()) {
                Ok((v, st)) => r matches Ok(x) && x@ == v && final(self).follows(old(self), st),
                Err(e) => r matches Err(x) && x@ == error_of(e),
            },
            r is Ok ==> old(self).state().pos < final(self).state().pos,
        decreases tokens_left(old(self).toks(), old(self).state().pos), 2nat,
    {
        match self.next() {
            Token::Value(v) => Ok(Expression::Atom(v)),
            Token::Attr(a) => Ok(Expression::Attr(a)),
            Token::Identifier(name) => Ok(Expression::Var(self.variable(name)?)),
            Token::LeftParen => {
                let e = self.expression(0)?;
                self.eat(Token::RightParen, "Expected ')' after expression")?;
                Ok(e)
            },
            t => Err(syntax_error("Expected value, attribute, or identifier", &t)),
        }
    }

    fn variable(&mut self, name: String) -> (r: Result<Variable, Error>)
        requires
            old(self).well_formed(),
        ensures
            match parse_variable(old(self).toks(), name@, old(self).state()) {
                Ok((v, st)) => r matches Ok(x) && x@ == v && final(self).follows(old(self), st),
                Err(e) => r matches Err(x) && x@ == error_of(e),
            },
            r is Ok ==> old(self).state().pos <= final(self).state().pos,
        decreases tokens_left(old(self).toks(), old(self).state().pos), 4nat,
    {
        let is_open = match self.peek() {
            Token::LeftBracket => true,
            _ => false,
        };
        if is_open {
            let id = self.add_array(name);
            self.next();
            let e = self.expression(0)?;
            self.eat(Token::RightBracket, "Expected ']' after array subscript expression")?;
            Ok(Variable::ArrSub(ArraySubscript { id: id, subscript: Box::new(e) }))
        } else {
            Ok(Variable::NotYetKnown(name))
        }
    }

    fn add_array(&mut self, new_array: String) -> (r: usize)
        requires
            old(self).well_formed(),
        ensures
            final(self).well_formed(),
            final(self).toks() == old(self).toks(),
            final(self).state().pos == old(self).state().pos,
            (r as int, final(self).state().arrays) == add_array(
                old(self).state().arrays,
                new_array@,
            ),
    {
        let i = find_name(&self.known_arrays, new_array.as_str());
        if i == self.known_arrays.len() {
            let ghost before = names_view(self.known_arrays@);
            self.known_arrays.push(new_array);
            assert(names_view(self.known_arrays@) =~= before.push(new_array@));
        }
        i
    }
}


/// The start of a parse: the first token, and no array known.
pub open spec fn initial_state() -> ParseState {
    ParseState { pos: 0, arrays: Seq::empty() }
}

/// Compiles a program text.
pub fn compile(source: &str) -> (r: Result<Program, Error>)
    ensures
        match compile_spec(tokens_from(source@, 0), initial_state()) {
            Ok(a) => r matches Ok(p) && action_option_view(p.begin) == a.begin
                && action_option_view(p.end) == a.end && routines_view(p.routines@) == a.routines
                && p.prog_state.well_formed() && p.prog_state@.store.scalars == zeros(
                a.num_scalars,
            ) && p.prog_state@.store.arrays == empty_arrays(a.num_arrays) && p.prog_state@.out
                == Seq::<u8>::empty() && p.prog_state@.diagnostics == Seq::<
                DiagnosticView,
            >::empty() && p.prog_state@.runtime_error is None,
            Err(e) => r matches Err(x) && x@ == error_of(e),
        },
{
    let scanner = Scanner::new(source);
    let mut compiler = Compiler::new(scanner);
    compiler.compile()
}

} // verus!
