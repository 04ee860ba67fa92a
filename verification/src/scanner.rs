//! From source text to tokens.

use vstd::prelude::*;

use vstd::string::*;

use crate::ast::OpKind;
use crate::text::{is_digit, parse_i64_chars, parse_int, same_text, string_from_chars};
use crate::types::{attribute_named, Attribute, Value, ValueView};

verus! {

#[derive(Debug, PartialEq)]
pub enum Token {
    Begin,
    End,
    Equal,
    PlusEqual,
    MinusEqual,
    LeftBrace,
    RightBrace,
    LeftBracket,
    RightBracket,
    LeftParen,
    RightParen,
    Semicolon,
    Comma,
    Print,
    Value(Value),
    BinOp(OpKind),
    Attr(Attribute),
    Identifier(String),
    Eof,
    Error(String),
}

pub enum TokenView {
    Begin,
    End,
    Equal,
    PlusEqual,
    MinusEqual,
    LeftBrace,
    RightBrace,
    LeftBracket,
    RightBracket,
    LeftParen,
    RightParen,
    Semicolon,
    Comma,
    Print,
    Value(ValueView),
    BinOp(OpKind),
    Attr(Attribute),
    Identifier(Seq<char>),
    Eof,
    Error(Seq<char>),
}

impl View for Token {
    type V = TokenView;

    open spec fn view(&self) -> TokenView {
        match self {
            Token::Begin => TokenView::Begin,
            Token::End => TokenView::End,
            Token::Equal => TokenView::Equal,
            Token::PlusEqual => TokenView::PlusEqual,
            Token::MinusEqual => TokenView::MinusEqual,
            Token::LeftBrace => TokenView::LeftBrace,
            Token::RightBrace => TokenView::RightBrace,
            Token::LeftBracket => TokenView::LeftBracket,
            Token::RightBracket => TokenView::RightBracket,
            Token::LeftParen => TokenView::LeftParen,
            Token::RightParen => TokenView::RightParen,
            Token::Semicolon => TokenView::Semicolon,
            Token::Comma => TokenView::Comma,
            Token::Print => TokenView::Print,
            Token::Value(v) => TokenView::Value(v@),
            Token::BinOp(op) => TokenView::BinOp(*op),
            Token::Attr(a) => TokenView::Attr(*a),
            Token::Identifier(s) => TokenView::Identifier(s@),
            Token::Eof => TokenView::Eof,
            Token::Error(s) => TokenView::Error(s@),
        }
    }
}

impl Clone for Token {
    fn clone(&self) -> (r: Self)
        ensures
            r@ == self@,
    {
        match self {
            Token::Begin => Token::Begin,
            Token::End => Token::End,
            Token::Equal => Token::Equal,
            Token::PlusEqual => Token::PlusEqual,
            Token::MinusEqual => Token::MinusEqual,
            Token::LeftBrace => Token::LeftBrace,
            Token::RightBrace => Token::RightBrace,
            Token::LeftBracket => Token::LeftBracket,
            Token::RightBracket => Token::RightBracket,
            Token::LeftParen => Token::LeftParen,
            Token::RightParen => Token::RightParen,
            Token::Semicolon => Token::Semicolon,
            Token::Comma => Token::Comma,
            Token::Print => Token::Print,
            Token::Value(v) => Token::Value(v.clone()),
            Token::BinOp(op) => Token::BinOp(*op),
            Token::Attr(a) => Token::Attr(*a),
            Token::Identifier(s) => Token::Identifier(s.clone()),
            Token::Eof => Token::Eof,
            Token::Error(s) => Token::Error(s.clone()),
        }
    }
}


/// White space as the standard library's `char::is_whitespace` has it: the
/// characters with the Unicode property `White_Space`.
pub open spec fn is_space(c: char) -> bool {
    let n = c as int;
    (0x9 <= n <= 0xd) || n == 0x20 || n == 0x85 || n == 0xa0 || n == 0x1680 || (0x2000 <= n
        <= 0x200a) || n == 0x2028 || n == 0x2029 || n == 0x202f || n == 0x205f || n == 0x3000
}

pub open spec fn is_alpha(c: char) -> bool {
    ('a' <= c <= 'z') || ('A' <= c <= 'Z')
}

pub open spec fn is_alnum(c: char) -> bool {
    is_alpha(c) || is_digit(c)
}

/// The first position at or after `pos` that holds no white space.
pub open spec fn skip_spaces(src: Seq<char>, pos: int) -> int
    decreases src.len() - pos,
{
    if 0 <= pos < src.len() && is_space(src[pos]) {
        skip_spaces(src, pos + 1)
    } else {
        pos
    }
}

/// The first position at or after `pos` that holds no letter and no digit.
pub open spec fn alnum_end(src: Seq<char>, pos: int) -> int
    decreases src.len() - pos,
{
    if 0 <= pos < src.len() && is_alnum(src[pos]) {
        alnum_end(src, pos + 1)
    } else {
        pos
    }
}

/// The position of the first double quote at or after `pos`; the length of
/// the text if there is none.
pub open spec fn quote_pos(src: Seq<char>, pos: int) -> int
    decreases src.len() - pos,
{
    if 0 <= pos < src.len() && src[pos] != '"' {
        quote_pos(src, pos + 1)
    } else {
        pos
    }
}

pub open spec fn msg_unexpected_character(c: char) -> Seq<char> {
    "Unexpected character: "@ + seq![c]
}

pub open spec fn msg_unterminated_string() -> Seq<char> {
    "Unexpected end of input while parsing a string"@
}

pub open spec fn msg_unknown_attribute(text: Seq<char>) -> Seq<char> {
    "Unknown attribute '"@ + text + seq!['\'']
}

pub open spec fn msg_bad_number(text: Seq<char>) -> Seq<char> {
    "Could not parse number from '"@ + text + seq!['\'']
}

/// The token that a word is: a keyword, or else an identifier.
pub open spec fn word_token(text: Seq<char>) -> TokenView {
    if text == "BEGIN"@ || text == "begin"@ {
        TokenView::Begin
    } else if text == "END"@ || text == "end"@ {
        TokenView::End
    } else if text == "print"@ {
        TokenView::Print
    } else if text == "and"@ {
        TokenView::BinOp(OpKind::And)
    } else if text == "or"@ {
        TokenView::BinOp(OpKind::Or)
    } else {
        TokenView::Identifier(text)
    }
}

/// The token that a dot and the letters and digits after it are.
pub open spec fn attribute_token(text: Seq<char>) -> TokenView {
    match attribute_named(text) {
        Some(a) => TokenView::Attr(a),
        None => TokenView::Error(msg_unknown_attribute(text)),
    }
}

/// The token that a digit and the letters and digits after it are.
pub open spec fn number_token(text: Seq<char>) -> TokenView {
    match parse_int(text) {
        Some(i) => TokenView::Value(ValueView::Int(i)),
        None => TokenView::Error(msg_bad_number(text)),
    }
}

/// The token of one character, or of that character and `second` where
/// `second` follows it.
pub open spec fn one_or_two(src: Seq<char>, p: int, second: char, yes: TokenView, no: TokenView)
    -> (TokenView, int) {
    if p + 1 < src.len() && src[p + 1] == second {
        (yes, p + 2)
    } else {
        (no, p + 1)
    }
}

/// The token that starts at `p`, which holds a character that is no white
/// space, and the position after it.
pub open spec fn scan_at(src: Seq<char>, p: int) -> (TokenView, int) {
    let c = src[p];
    if c == '=' {
        one_or_two(src, p, '=', TokenView::BinOp(OpKind::EqualEqual), TokenView::Equal)
    } else if c == '>' {
        one_or_two(
            src,
            p,
            '=',
            TokenView::BinOp(OpKind::GreaterEqual),
            TokenView::BinOp(OpKind::Greater),
        )
    } else if c == '<' {
        one_or_two(
            src,
            p,
            '=',
            TokenView::BinOp(OpKind::LessEqual),
            TokenView::BinOp(OpKind::Less),
        )
    } else if c == '+' {
        one_or_two(src, p, '=', TokenView::PlusEqual, TokenView::BinOp(OpKind::Plus))
    } else if c == '-' {
        one_or_two(src, p, '=', TokenView::MinusEqual, TokenView::BinOp(OpKind::Minus))
    } else if c == '*' {
        (TokenView::BinOp(OpKind::Multiply), p + 1)
    } else if c == '/' {
        (TokenView::BinOp(OpKind::Divide), p + 1)
    } else if c == '{' {
        (TokenView::LeftBrace, p + 1)
    } else if c == '}' {
        (TokenView::RightBrace, p + 1)
    } else if c == '[' {
        (TokenView::LeftBracket, p + 1)
    } else if c == ']' {
        (TokenView::RightBracket, p + 1)
    } else if c == '(' {
        (TokenView::LeftParen, p + 1)
    } else if c == ')' {
        (TokenView::RightParen, p + 1)
    } else if c == ';' {
        (TokenView::Semicolon, p + 1)
    } else if c == ',' {
        (TokenView::Comma, p + 1)
    } else if c == '"' {
        let q = quote_pos(src, p + 1);
        if q < src.len() {
            (TokenView::Value(ValueView::String(src.subrange(p + 1, q))), q + 1)
        } else {
            (TokenView::Error(msg_unterminated_string()), q)
        }
    } else if c == '.' {
        let e = alnum_end(src, p + 1);
        (attribute_token(src.subrange(p, e)), e)
    } else if is_digit(c) {
        let e = alnum_end(src, p + 1);
        (number_token(src.subrange(p, e)), e)
    } else if is_alpha(c) {
        let e = alnum_end(src, p + 1);
        (word_token(src.subrange(p, e)), e)
    } else {
        (TokenView::Error(msg_unexpected_character(c)), p + 1)
    }
}

/// The next token at or after `pos`, and the position after it. White space
/// before the token is passed over; at the end of the text the token is
/// `Eof`.
pub open spec fn scan(src: Seq<char>, pos: int) -> (TokenView, int) {
    let p = skip_spaces(src, pos);
    if p >= src.len() {
        (TokenView::Eof, p)
    } else {
        scan_at(src, p)
    }
}

/// The tokens from `pos` to the end of the text; the last one is `Eof`.
pub open spec fn tokens_from(src: Seq<char>, pos: int) -> Seq<TokenView>
    decreases src.len() - pos,
{
    let (t, p) = scan(src, pos);
    if t is Eof || p <= pos || p > src.len() {
        seq![TokenView::Eof]
    } else {
        seq![t] + tokens_from(src, p)
    }
}

pub proof fn lemma_skip_spaces_bounds(src: Seq<char>, pos: int)
    requires
        0 <= pos <= src.len(),
    ensures
        pos <= skip_spaces(src, pos) <= src.len(),
    decreases src.len() - pos,
{
    if pos < src.len() && is_space(src[pos]) {
        lemma_skip_spaces_bounds(src, pos + 1);
    }
}

pub proof fn lemma_alnum_end_bounds(src: Seq<char>, pos: int)
    requires
        0 <= pos <= src.len(),
    ensures
        pos <= alnum_end(src, pos) <= src.len(),
    decreases src.len() - pos,
{
    if pos < src.len() && is_alnum(src[pos]) {
        lemma_alnum_end_bounds(src, pos + 1);
    }
}

pub proof fn lemma_quote_pos_bounds(src: Seq<char>, pos: int)
    requires
        0 <= pos <= src.len(),
    ensures
        pos <= quote_pos(src, pos) <= src.len(),
    decreases src.len() - pos,
{
    if pos < src.len() && src[pos] != '"' {
        lemma_quote_pos_bounds(src, pos + 1);
    }
}

/// Every token but `Eof` takes at least one character, and no token reaches
/// beyond the end of the text.
pub proof fn lemma_scan_progress(src: Seq<char>, pos: int)
    requires
        0 <= pos <= src.len(),
    ensures
        pos <= scan(src, pos).1 <= src.len(),
        !(scan(src, pos).0 is Eof) ==> pos < scan(src, pos).1,
{
    lemma_skip_spaces_bounds(src, pos);
    let p = skip_spaces(src, pos);
    if p < src.len() {
        lemma_alnum_end_bounds(src, p + 1);
        lemma_quote_pos_bounds(src, p + 1);
    }
}

/// Whatever the text, its tokens are at least one, and the last of them is
/// `Eof`.
pub proof fn tokens_end_with_eof(src: Seq<char>, pos: int)
    requires
        0 <= pos <= src.len(),
    ensures
        tokens_from(src, pos).len() >= 1,
        tokens_from(src, pos).last() is Eof,
    decreases src.len() - pos,
{
    lemma_scan_progress(src, pos);
    let (t, p) = scan(src, pos);
    if !(t is Eof || p <= pos || p > src.len()) {
        tokens_end_with_eof(src, p);
        let rest = tokens_from(src, p);
        assert((seq![t] + rest).last() == rest.last());
    }
}

pub struct Scanner {
    chars: Vec<char>,
    current: usize,
}

impl Scanner {
    /// The text that is scanned.
    pub closed spec fn source(&self) -> Seq<char> {
        self.chars@
    }

    /// How far into the text the scanner has come.
    pub closed spec fn position(&self) -> int {
        self.current as int
    }

    pub closed spec fn well_formed(&self) -> bool {
        self.current <= self.chars@.len()
    }

    pub fn new(source: &str) -> (r: Scanner)
        ensures
            r.source() == source@,
            r.position() == 0,
            r.well_formed(),
    {
        Scanner { chars: crate::text::string_chars(source), current: 0 }
    }

    pub fn next_token(&mut self) -> (r: Token)
        requires
            old(self).well_formed(),
        ensures
            final(self).well_formed(),
            final(self).source() == old(self).source(),
            (r@, final(self).position()) == scan(old(self).source(), old(self).position()),
    {
        self.skip_whitespace();
        proof {
            lemma_skip_spaces_bounds(self.chars@, old(self).current as int);
        }
        if self.current >= self.chars.len() {
            return Token::Eof;
        }
        let ind = self.current;
        let ch = self.chars[ind];
        self.current = ind + 1;
        proof {
            lemma_alnum_end_bounds(self.chars@, ind + 1);
            lemma_quote_pos_bounds(self.chars@, ind + 1);
        }
        if ch == '=' {
            self.oneplus_token('=', Token::BinOp(OpKind::EqualEqual), Token::Equal)
        } else if ch == '>' {
            self.oneplus_token(
                '=',
                Token::BinOp(OpKind::GreaterEqual),
                Token::BinOp(OpKind::Greater),
            )
        } else if ch == '<' {
            self.oneplus_token('=', Token::BinOp(OpKind::LessEqual), Token::BinOp(OpKind::Less))
        } else if ch == '+' {
            self.oneplus_token('=', Token::PlusEqual, Token::BinOp(OpKind::Plus))
        } else if ch == '-' {
            self.oneplus_token('=', Token::MinusEqual, Token::BinOp(OpKind::Minus))
        } else if ch == '*' {
            Token::BinOp(OpKind::Multiply)
        } else if ch == '/' {
            Token::BinOp(OpKind::Divide)
        } else if ch == '{' {
            Token::LeftBrace
        } else if ch == '}' {
            Token::RightBrace
        } else if ch == '[' {
            Token::LeftBracket
        } else if ch == ']' {
            Token::RightBracket
        } else if ch == '(' {
            Token::LeftParen
        } else if ch == ')' {
            Token::RightParen
        } else if ch == ';' {
            Token::Semicolon
        } else if ch == ',' {
            Token::Comma
        } else if ch == '"' {
            self.string()
        } else if ch == '.' {
            self.attribute(ind)
        } else if ch >= '0' && ch <= '9' {
            self.number(ind)
        } else if (ch >= 'a' && ch <= 'z') || (ch >= 'A' && ch <= 'Z') {
            self.word(ind)
        } else {
            let mut m: String = "Unexpected character: ".to_owned();
            m.push(ch);
            assert(m@ =~= msg_unexpected_character(ch));
            Token::Error(m)
        }
    }

    fn oneplus_token(&mut self, next_char: char, yes: Token, no: Token) -> (r: Token)
        requires
            1 <= old(self).current <= old(self).chars@.len(),
        ensures
            final(self).well_formed(),
            final(self).source() == old(self).source(),
            (r@, final(self).position()) == one_or_two(
                old(self).source(),
                old(self).position() - 1,
                next_char,
                yes@,
                no@,
            ),
    {
        if self.current < self.chars.len() && self.chars[self.current] == next_char {
            self.current = self.current + 1;
            yes
        } else {
            no
        }
    }

    /// A string, from the character after its opening quote.
    fn string(&mut self) -> (r: Token)
        requires
            old(self).well_formed(),
        ensures
            final(self).well_formed(),
            final(self).source() == old(self).source(),
            ({
                let src = old(self).source();
                let q = quote_pos(src, old(self).position());
                if q < src.len() {
                    r@ == TokenView::Value(
                        ValueView::String(src.subrange(old(self).position(), q)),
                    ) && final(self).position() == q + 1
                } else {
                    r@ == TokenView::Error(msg_unterminated_string()) && final(self).position()
                        == q
                }
            }),
    {
        let start = self.current;
        while self.current < self.chars.len() && self.chars[self.current] != '"'
            invariant
                start <= self.current <= self.chars@.len(),
                self.chars == old(self).chars,
                quote_pos(self.chars@, start as int) == quote_pos(
                    self.chars@,
                    self.current as int,
                ),
            decreases self.chars@.len() - self.current,
        {
            self.current = self.current + 1;
        }
        if self.current < self.chars.len() {
            let s = string_from_chars(&self.chars, start, self.current);
            self.current = self.current + 1;
            Token::Value(Value::String(s))
        } else {
            Token::Error("Unexpected end of input while parsing a string".to_owned())
        }
    }

    /// Passes over letters and digits.
    fn skip_alphanumeric(&mut self)
        requires
            old(self).well_formed(),
        ensures
            final(self).well_formed(),
            final(self).chars == old(self).chars,
            final(self).current >= old(self).current,
            final(self).position() == alnum_end(old(self).source(), old(self).position()),
    {
        while self.current < self.chars.len() && Self::is_alphanumeric(self.chars[self.current])
            invariant
                old(self).current <= self.current <= self.chars@.len(),
                self.chars == old(self).chars,
                alnum_end(self.chars@, old(self).current as int) == alnum_end(
                    self.chars@,
                    self.current as int,
                ),
            decreases self.chars@.len() - self.current,
        {
            self.current = self.current + 1;
        }
    }

    fn is_alphanumeric(c: char) -> (r: bool)
        ensures
            r == is_alnum(c),
    {
        (c >= 'a' && c <= 'z') || (c >= 'A' && c <= 'Z') || (c >= '0' && c <= '9')
    }

    fn is_whitespace(c: char) -> (r: bool)
        ensures
            r == is_space(c),
    {
        let n: u32 = c as u32;
        (0x9 <= n && n <= 0xd) || n == 0x20 || n == 0x85 || n == 0xa0 || n == 0x1680 || (0x2000
            <= n && n <= 0x200a) || n == 0x2028 || n == 0x2029 || n == 0x202f || n == 0x205f || n
            == 0x3000
    }

    /// An attribute, which started with the dot at `start`.
    fn attribute(&mut self, start: usize) -> (r: Token)
        requires
            old(self).well_formed(),
            old(self).current == start + 1,
        ensures
            final(self).well_formed(),
            final(self).source() == old(self).source(),
            final(self).position() == alnum_end(old(self).source(), start + 1),
            r@ == attribute_token(
                old(self).source().subrange(start as int, final(self).position()),
            ),
    {
        self.skip_alphanumeric();
        let a = string_from_chars(&self.chars, start, self.current);
        match Attribute::from_str(a.as_str()) {
            Some(a) => Token::Attr(a),
            None => {
                let mut m: String = "Unknown attribute '".to_owned();
                m.append(a.as_str());
                m.push('\'');
                assert(m@ =~= msg_unknown_attribute(a@));
                Token::Error(m)
            },
        }
    }

    /// A word, which started with the letter at `start`.
    fn word(&mut self, start: usize) -> (r: Token)
        requires
            old(self).well_formed(),
            old(self).current == start + 1,
        ensures
            final(self).well_formed(),
            final(self).source() == old(self).source(),
            final(self).position() == alnum_end(old(self).source(), start + 1),
            r@ == word_token(old(self).source().subrange(start as int, final(self).position())),
    {
        self.skip_alphanumeric();
        let a = string_from_chars(&self.chars, start, self.current);
        if same_text(a.as_str(), "BEGIN") || same_text(a.as_str(), "begin") {
            Token::Begin
        } else if same_text(a.as_str(), "END") || same_text(a.as_str(), "end") {
            Token::End
        } else if same_text(a.as_str(), "print") {
            Token::Print
        } else if same_text(a.as_str(), "and") {
            Token::BinOp(OpKind::And)
        } else if same_text(a.as_str(), "or") {
            Token::BinOp(OpKind::Or)
        } else {
            self.identifier(a)
        }
    }

    fn identifier(&mut self, s: String) -> (r: Token)
        ensures
            *final(self) == *old(self),
            r@ == TokenView::Identifier(s@),
    {
        Token::Identifier(s)
    }

    /// A number, which started with the digit at `start`.
    fn number(&mut self, start: usize) -> (r: Token)
        requires
            old(self).well_formed(),
            old(self).current == start + 1,
        ensures
            final(self).well_formed(),
            final(self).source() == old(self).source(),
            final(self).position() == alnum_end(old(self).source(), start + 1),
            r@ == number_token(old(self).source().subrange(start as int, final(self).position())),
    {
        self.skip_alphanumeric();
        let text = string_from_chars(&self.chars, start, self.current);
        let v = crate::text::string_chars(text.as_str());
        match parse_i64_chars(&v) {
            Some(num) => Token::Value(Value::Int(num)),
            None => {
                let mut m: String = "Could not parse number from '".to_owned();
                m.append(text.as_str());
                m.push('\'');
                assert(m@ =~= msg_bad_number(text@));
                Token::Error(m)
            },
        }
    }

    fn skip_whitespace(&mut self)
        requires
            old(self).well_formed(),
        ensures
            final(self).well_formed(),
            final(self).chars == old(self).chars,
            final(self).position() == skip_spaces(old(self).source(), old(self).position()),
    {
        while self.current < self.chars.len() && Self::is_whitespace(self.chars[self.current])
            invariant
                self.current <= self.chars@.len(),
                self.chars == old(self).chars,
                skip_spaces(self.chars@, old(self).current as int) == skip_spaces(
                    self.chars@,
                    self.current as int,
                ),
            decreases self.chars@.len() - self.current,
        {
            self.current = self.current + 1;
        }
    }

    /// All the tokens that are left, the closing `Eof` included.
    pub fn tokens(&mut self) -> (r: Vec<Token>)
        requires
            old(self).well_formed(),
        ensures
            final(self).well_formed(),
            final(self).source() == old(self).source(),
            token_views(r@) == tokens_from(old(self).source(), old(self).position()),
    {
        let mut out: Vec<Token> = Vec::new();
        loop
            invariant
                self.well_formed(),
                self.source() == old(self).source(),
                tokens_from(old(self).source(), old(self).position()) == token_views(out@)
                    + tokens_from(self.source(), self.position()),
            decreases self.source().len() - self.position(),
        {
            let ghost before = token_views(out@);
            let ghost pos = self.position();
            proof {
                lemma_scan_progress(self.source(), pos);
            }
            let t = self.next_token();
            let done = match t {
                Token::Eof => true,
                _ => false,
            };
            out.push(t);
            proof {
                assert(token_views(out@) =~= before.push(t@));
                if done {
                    assert(before + seq![TokenView::Eof] =~= token_views(out@));
                } else {
                    assert(before + (seq![t@] + tokens_from(self.source(), self.position()))
                        =~= token_views(out@) + tokens_from(self.source(), self.position()));
                }
            }
            if done {
                return out;
            }
        }
    }

    /// The number of variables that the scanner has numbered. It numbers
    /// none: variables get their slots in the analysis.
    pub fn num_vars(&self) -> (r: usize)
        ensures
            r == 0,
    {
        0
    }
}

impl Token {
    /// Whether two tokens are the same token.
    pub fn same(&self, other: &Token) -> (r: bool)
        ensures
            r == (self@ == other@),
    {
        match (self, other) {
            (Token::Begin, Token::Begin) => true,
            (Token::End, Token::End) => true,
            (Token::Equal, Token::Equal) => true,
            (Token::PlusEqual, Token::PlusEqual) => true,
            (Token::MinusEqual, Token::MinusEqual) => true,
            (Token::LeftBrace, Token::LeftBrace) => true,
            (Token::RightBrace, Token::RightBrace) => true,
            (Token::LeftBracket, Token::LeftBracket) => true,
            (Token::RightBracket, Token::RightBracket) => true,
            (Token::LeftParen, Token::LeftParen) => true,
            (Token::RightParen, Token::RightParen) => true,
            (Token::Semicolon, Token::Semicolon) => true,
            (Token::Comma, Token::Comma) => true,
            (Token::Print, Token::Print) => true,
            (Token::Value(a), Token::Value(b)) => a.same(b),
            (Token::BinOp(a), Token::BinOp(b)) => *a == *b,
            (Token::Attr(a), Token::Attr(b)) => *a == *b,
            (Token::Identifier(a), Token::Identifier(b)) => same_text(a.as_str(), b.as_str()),
            (Token::Eof, Token::Eof) => true,
            (Token::Error(a), Token::Error(b)) => same_text(a.as_str(), b.as_str()),
            _ => false,
        }
    }
}

pub open spec fn token_views(s: Seq<Token>) -> Seq<TokenView> {
    s.map_values(|t: Token| t@)
}

} // verus!
