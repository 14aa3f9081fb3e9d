//! The token grammar, as spec functions over the source characters.
//!
//! `lex_from(s, p)` is the token that a scan starting at index `p` of `s`
//! produces, together with the index at which the next scan starts.
use vstd::prelude::*;

use crate::lexer::{LexErrorKind, Symbol};

verus! {

/// Space, tab, carriage return and line feed separate tokens.
pub open spec fn is_blank(c: char) -> bool {
    c == ' ' || c == '\t' || c == '\r' || c == '\n'
}

pub open spec fn is_letter(c: char) -> bool {
    ('a' <= c && c <= 'z') || ('A' <= c && c <= 'Z')
}

pub open spec fn is_digit(c: char) -> bool {
    '0' <= c && c <= '9'
}

/// What may follow the first letter of an identifier.
pub open spec fn is_ident_char(c: char) -> bool {
    is_letter(c) || is_digit(c) || c == '_'
}

/// The single-character tokens, each with its symbol.
pub open spec fn punctuation_symbol(c: char) -> Option<Symbol> {
    if c == '(' {
        Some(Symbol::LParen)
    } else if c == ')' {
        Some(Symbol::RParen)
    } else if c == '[' {
        Some(Symbol::LBracket)
    } else if c == ']' {
        Some(Symbol::RBracket)
    } else if c == '{' {
        Some(Symbol::LBrace)
    } else if c == '}' {
        Some(Symbol::RBrace)
    } else if c == '.' {
        Some(Symbol::Period)
    } else if c == ';' {
        Some(Symbol::Semicolon)
    } else if c == '#' {
        Some(Symbol::Hash)
    } else if c == '<' {
        Some(Symbol::LT)
    } else if c == '>' {
        Some(Symbol::GT)
    } else if c == '$' {
        Some(Symbol::DollarSign)
    } else if c == '!' {
        Some(Symbol::Bang)
    } else {
        None
    }
}

/// The text of the message that an error of `kind` carries; `partial` is
/// what an unterminated construct had accumulated.
pub open spec fn error_text(kind: LexErrorKind, partial: Seq<char>) -> Seq<char> {
    match kind {
        LexErrorKind::UnexpectedCharacter(c) => "unexpected character "@ + seq![c],
        LexErrorKind::UnterminatedString => "unterminated string constant: "@ + partial,
        LexErrorKind::UnterminatedComment => "unterminated comment: "@ + partial,
    }
}

/// The outcome of one scan.
pub enum Lexeme {
    /// A token of kind `symbol` whose value is `value`.
    Tok { symbol: Symbol, value: Seq<char> },
    /// An error of `kind` found at index `at`; `partial` is what an
    /// unterminated construct had accumulated.
    Fail { kind: LexErrorKind, at: int, partial: Seq<char> },
}

/// One scan: its outcome, and the index at which the next scan starts.
pub struct Step {
    pub lexeme: Lexeme,
    pub next: int,
}

/// The end of the run of identifier characters that starts at `i`.
pub open spec fn ident_end(s: Seq<char>, i: int) -> int
    decreases s.len() - i,
{
    if 0 <= i < s.len() && is_ident_char(s[i]) {
        ident_end(s, i + 1)
    } else {
        i
    }
}

/// The end of the run of decimal digits that starts at `i`.
pub open spec fn digits_end(s: Seq<char>, i: int) -> int
    decreases s.len() - i,
{
    if 0 <= i < s.len() && is_digit(s[i]) {
        digits_end(s, i + 1)
    } else {
        i
    }
}

/// The end of a number's fraction after its integer digits end at `a`: a `.`
/// belongs to the number only when a digit follows it.
pub open spec fn fraction_end(s: Seq<char>, a: int) -> int {
    if a + 1 < s.len() && s[a] == '.' && is_digit(s[a + 1]) {
        digits_end(s, a + 1)
    } else {
        a
    }
}

/// Where the digits of an exponent start, if an exponent starts at `b`: an
/// `e`, an optional sign, then at least one digit.
pub open spec fn exponent_digits(s: Seq<char>, b: int) -> int {
    if b + 1 < s.len() && (s[b + 1] == '-' || s[b + 1] == '+') {
        b + 2
    } else {
        b + 1
    }
}

pub open spec fn exponent_end(s: Seq<char>, b: int) -> int {
    let d = exponent_digits(s, b);
    if 0 <= b < s.len() && s[b] == 'e' && d < s.len() && is_digit(s[d]) {
        digits_end(s, d)
    } else {
        b
    }
}

/// The end of the numeric literal that starts with a digit at `p`.
pub open spec fn number_end(s: Seq<char>, p: int) -> int {
    exponent_end(s, fraction_end(s, digits_end(s, p)))
}

/// A scan of the body of a `'` literal.
pub struct Quoted {
    /// The decoded value: a doubled `'` stands for one, carriage returns are dropped.
    pub value: Seq<char>,
    /// The index just past the closing quote, or the length of the input.
    pub end: int,
    /// Whether a closing quote was found.
    pub closed: bool,
}

/// Scans the body of a `'` literal from index `i`, just past the opening quote.
pub open spec fn scan_quoted(s: Seq<char>, i: int) -> Quoted
    decreases s.len() - i,
{
    if i < 0 || i >= s.len() {
        Quoted { value: seq![], end: s.len() as int, closed: false }
    } else if s[i] == '\'' {
        if i + 1 < s.len() && s[i + 1] == '\'' {
            let rest = scan_quoted(s, i + 2);
            Quoted { value: seq!['\''] + rest.value, end: rest.end, closed: rest.closed }
        } else {
            Quoted { value: seq![], end: i + 1, closed: true }
        }
    } else if s[i] == '\r' {
        scan_quoted(s, i + 1)
    } else {
        let rest = scan_quoted(s, i + 1);
        Quoted { value: seq![s[i]] + rest.value, end: rest.end, closed: rest.closed }
    }
}

/// The identifier or keyword segment that starts with a letter at `p`.
pub open spec fn word_at(s: Seq<char>, p: int) -> Step {
    let e = ident_end(s, p + 1);
    if e >= s.len() || is_blank(s[e]) {
        Step { lexeme: Lexeme::Tok { symbol: Symbol::Identifier, value: s.subrange(p, e) }, next: e }
    } else if s[e] == ':' {
        Step { lexeme: Lexeme::Tok { symbol: Symbol::Keyword, value: s.subrange(p, e) }, next: e + 1 }
    } else {
        Step {
            lexeme: Lexeme::Fail { kind: LexErrorKind::UnexpectedCharacter(s[e]), at: e, partial: seq![] },
            next: e,
        }
    }
}

/// The string literal whose opening quote stands at `p`.
pub open spec fn string_at(s: Seq<char>, p: int) -> Step {
    let q = scan_quoted(s, p + 1);
    if q.closed {
        Step { lexeme: Lexeme::Tok { symbol: Symbol::StringLiteral, value: q.value }, next: q.end }
    } else {
        Step {
            lexeme: Lexeme::Fail { kind: LexErrorKind::UnterminatedString, at: p, partial: q.value },
            next: q.end,
        }
    }
}

/// The token that starts at `p`, where `s[p]` is neither blank nor `"`.
pub open spec fn token_at(s: Seq<char>, p: int) -> Step {
    let c = s[p];
    if is_digit(c) {
        let e = number_end(s, p);
        Step { lexeme: Lexeme::Tok { symbol: Symbol::Number, value: s.subrange(p, e) }, next: e }
    } else if is_letter(c) {
        word_at(s, p)
    } else if c == '\'' {
        string_at(s, p)
    } else if let Some(symbol) = punctuation_symbol(c) {
        Step { lexeme: Lexeme::Tok { symbol, value: seq![c] }, next: p + 1 }
    } else {
        Step {
            lexeme: Lexeme::Fail { kind: LexErrorKind::UnexpectedCharacter(c), at: p, partial: seq![] },
            next: p + 1,
        }
    }
}

/// The scan that starts at `p`: blanks are skipped, comments are skipped,
/// and the first token after them is produced; at the end of the input it is
/// `EndOfFile` with an empty value.
pub open spec fn lex_from(s: Seq<char>, p: int) -> Step
    decreases s.len() - p, 1int,
{
    if p >= s.len() {
        Step { lexeme: Lexeme::Tok { symbol: Symbol::EndOfFile, value: seq![] }, next: p }
    } else if is_blank(s[p]) {
        lex_from(s, p + 1)
    } else if s[p] == '"' {
        after_comment(s, p, p + 1)
    } else {
        token_at(s, p)
    }
}

/// The rest of a scan inside the comment opened at `start`, at index `i`.
pub open spec fn after_comment(s: Seq<char>, start: int, i: int) -> Step
    decreases s.len() - i, 0int,
{
    if i >= s.len() {
        Step {
            lexeme: Lexeme::Fail {
                kind: LexErrorKind::UnterminatedComment,
                at: start,
                partial: s.subrange(start + 1, s.len() as int),
            },
            next: s.len() as int,
        }
    } else if s[i] == '"' {
        lex_from(s, i + 1)
    } else {
        after_comment(s, start, i + 1)
    }
}

/// The number of line feeds before index `p`.
pub open spec fn newlines_before(s: Seq<char>, p: int) -> int
    decreases p,
{
    if p <= 0 {
        0
    } else {
        newlines_before(s, p - 1) + if s[p - 1] == '\n' { 1int } else { 0int }
    }
}

/// The index at which the line holding index `p` starts.
pub open spec fn line_start(s: Seq<char>, p: int) -> int
    decreases p,
{
    if p <= 0 {
        0
    } else if s[p - 1] == '\n' {
        p
    } else {
        line_start(s, p - 1)
    }
}

/// The 1-based line of index `p`.
pub open spec fn line_of(s: Seq<char>, p: int) -> int {
    newlines_before(s, p) + 1
}

/// The 1-based column of index `p`.
pub open spec fn column_of(s: Seq<char>, p: int) -> int {
    p - line_start(s, p) + 1
}

} // verus!
