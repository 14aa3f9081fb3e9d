//! The tokenizer: a cursor over the characters of one source text that hands
//! out one token per call of `next_token`.
use vstd::prelude::*;

use crate::grammar::{
    after_comment, column_of, digits_end, error_text, exponent_digits, exponent_end, fraction_end,
    ident_end, is_blank, is_digit, is_ident_char, is_letter, lex_from, line_of, line_start,
    newlines_before, number_end, punctuation_symbol, scan_quoted, string_at, token_at, word_at,
    Lexeme,
};
use crate::laws::scan_moves_forward;

verus! {

/// The kind of a token. `next_token` skips comments rather than surfacing
/// them, so it never produces `Comment`.
#[derive(PartialEq, Eq, Structural, Clone, Copy, Debug)]
pub enum Symbol {
    Identifier,
    Keyword,
    Number,
    LParen,
    RParen,
    LBracket,
    RBracket,
    Period,
    Semicolon,
    Hash,
    LT,
    GT,
    StringLiteral,
    Comment,
    LBrace,
    RBrace,
    DollarSign,
    Bang,
    EndOfFile,
}

/// What went wrong in a scan.
#[derive(PartialEq, Eq, Structural, Clone, Copy, Debug)]
pub enum LexErrorKind {
    /// A character that no construct accepts where it stands.
    UnexpectedCharacter(char),
    /// A `'` literal that reaches the end of the input.
    UnterminatedString,
    /// A `"` comment that reaches the end of the input.
    UnterminatedComment,
}

pub fn is_blank_char(c: char) -> (r: bool)
    ensures
        r == is_blank(c),
{
    c == ' ' || c == '\t' || c == '\r' || c == '\n'
}

pub fn is_letter_char(c: char) -> (r: bool)
    ensures
        r == is_letter(c),
{
    ('a' <= c && c <= 'z') || ('A' <= c && c <= 'Z')
}

pub fn is_digit_char(c: char) -> (r: bool)
    ensures
        r == is_digit(c),
{
    '0' <= c && c <= '9'
}

pub fn is_ident_continue(c: char) -> (r: bool)
    ensures
        r == is_ident_char(c),
{
    is_letter_char(c) || is_digit_char(c) || c == '_'
}

pub fn punctuation(c: char) -> (r: Option<Symbol>)
    ensures
        r == punctuation_symbol(c),
{
    match c {
        '(' => Some(Symbol::LParen),
        ')' => Some(Symbol::RParen),
        '[' => Some(Symbol::LBracket),
        ']' => Some(Symbol::RBracket),
        '{' => Some(Symbol::LBrace),
        '}' => Some(Symbol::RBrace),
        '.' => Some(Symbol::Period),
        ';' => Some(Symbol::Semicolon),
        '#' => Some(Symbol::Hash),
        '<' => Some(Symbol::LT),
        '>' => Some(Symbol::GT),
        '$' => Some(Symbol::DollarSign),
        '!' => Some(Symbol::Bang),
        _ => None,
    }
}

/// A token: its kind, and the text or decoded payload that goes with it.
pub struct Token {
    pub symbol: Symbol,
    pub value: String,
}

/// A failed scan: what went wrong, a message that says so, and the 1-based
/// line and column of the offending character or of the opening delimiter
/// of an unterminated construct.
#[derive(Debug)]
pub struct LexerError {
    pub kind: LexErrorKind,
    pub message: String,
    pub line: u64,
    pub column: u64,
}

/// Whether `r` is what the scan outcome `lexeme` over source `s` comes to.
pub open spec fn reports(s: Seq<char>, lexeme: Lexeme, r: Result<Token, LexerError>) -> bool {
    match lexeme {
        Lexeme::Tok { symbol, value } => match r {
            Ok(t) => t.symbol == symbol && t.value@ == value,
            Err(_) => false,
        },
        Lexeme::Fail { kind, at, partial } => match r {
            Ok(_) => false,
            Err(e) => {
                &&& e.kind == kind
                &&& e.line == line_of(s, at)
                &&& e.column == column_of(s, at)
                &&& e.message@ == error_text(kind, partial)
            },
        },
    }
}

/// The abstract state of a tokenizer: the source characters and the index
/// of the next one to be read.
pub struct Cursor {
    pub text: Seq<char>,
    pub pos: int,
}

/// A tokenizer over one source text.
pub struct LexerInstance {
    chars: Vec<char>,
    pos: usize,
    /// Line feeds read so far.
    lines: usize,
    /// Index of the first character of the current line.
    line_begin: usize,
}

/// Relies on `String::push`: appends one character.
#[verifier::external_body]
fn push_char(s: &mut String, c: char)
    ensures
        final(s)@ == old(s)@.push(c),
{
    s.push(c);
}

fn generate_token(symbol: Symbol, value: String) -> (t: Token)
    ensures
        t.symbol == symbol,
        t.value == value,
{
    Token { symbol, value }
}

fn unexpected_character(c: char, line: u64, column: u64) -> (e: LexerError)
    ensures
        e.kind == LexErrorKind::UnexpectedCharacter(c),
        e.line == line,
        e.column == column,
        e.message@ == error_text(LexErrorKind::UnexpectedCharacter(c), seq![]),
{
    let mut message = String::from_str("unexpected character ");
    push_char(&mut message, c);
    LexerError { kind: LexErrorKind::UnexpectedCharacter(c), message, line, column }
}

impl View for LexerInstance {
    type V = Cursor;

    closed spec fn view(&self) -> Cursor {
        Cursor { text: self.chars@, pos: self.pos as int }
    }
}

impl LexerInstance {
    /// The cursor stands within the text, and the line bookkeeping agrees
    /// with what lies before it.
    pub closed spec fn wf(&self) -> bool {
        &&& self.pos <= self.chars@.len()
        &&& self.lines == newlines_before(self.chars@, self.pos as int)
        &&& self.lines <= self.pos
        &&& self.line_begin == line_start(self.chars@, self.pos as int)
        &&& self.line_begin <= self.pos
    }

    /// A tokenizer at the start of `text`.
    pub fn from_source(text: &str) -> (r: LexerInstance)
        ensures
            r.wf(),
            r@.text == text@,
            r@.pos == 0,
    {
        let mut chars: Vec<char> = Vec::new();
        for c in it: text.chars()
            invariant
                chars@ == it.seq().take(it.index()),
        {
            chars.push(c);
        }
        proof {
            broadcast use vstd::string::axiom_spec_iter;
            assert(chars@ =~= text@);
        }
        LexerInstance { chars, pos: 0, lines: 0, line_begin: 0 }
    }

    /// The character at `k` places past the cursor, if there is one.
    fn peek_at(&self, k: usize) -> (r: Option<char>)
        requires
            self.wf(),
        ensures
            self@.pos + k < self@.text.len() ==> r == Some(self@.text[self@.pos + k]),
            self@.pos + k >= self@.text.len() ==> r is None,
    {
        if k < self.chars.len() - self.pos {
            Some(self.chars[self.pos + k])
        } else {
            None
        }
    }

    fn peek(&self) -> (r: Option<char>)
        requires
            self.wf(),
        ensures
            self@.pos < self@.text.len() ==> r == Some(self@.text[self@.pos]),
            self@.pos >= self@.text.len() ==> r is None,
    {
        self.peek_at(0)
    }

    fn peek_is(&self, k: usize, c: char) -> (r: bool)
        requires
            self.wf(),
        ensures
            r == (self@.pos + k < self@.text.len() && self@.text[self@.pos + k] == c),
    {
        match self.peek_at(k) {
            Some(d) => d == c,
            None => false,
        }
    }

    fn peek_digit(&self, k: usize) -> (r: bool)
        requires
            self.wf(),
        ensures
            r == (self@.pos + k < self@.text.len() && is_digit(self@.text[self@.pos + k])),
    {
        match self.peek_at(k) {
            Some(d) => is_digit_char(d),
            None => false,
        }
    }

    /// The line and column of the character under the cursor.
    fn location(&self) -> (r: (u64, u64))
        requires
            self.wf(),
            self@.pos < self@.text.len(),
        ensures
            r.0 == line_of(self@.text, self@.pos),
            r.1 == column_of(self@.text, self@.pos),
    {
        let n = self.chars.len();
        assert(self.pos < n);
        ((self.lines + 1) as u64, (self.pos - self.line_begin + 1) as u64)
    }

    /// Reads the character under the cursor and moves past it.
    fn get_char(&mut self) -> (r: Option<char>)
        requires
            old(self).wf(),
        ensures
            final(self).wf(),
            final(self)@.text == old(self)@.text,
            old(self)@.pos < old(self)@.text.len() ==> r == Some(old(self)@.text[old(self)@.pos])
                && final(self)@.pos == old(self)@.pos + 1,
            old(self)@.pos >= old(self)@.text.len() ==> r is None && final(self)@.pos
                == old(self)@.pos,
    {
        if self.pos < self.chars.len() {
            let c = self.chars[self.pos];
            if c == '\n' {
                self.lines = self.lines + 1;
                self.line_begin = self.pos + 1;
            }
            self.pos = self.pos + 1;
            Some(c)
        } else {
            None
        }
    }

    /// Moves past the character under the cursor and appends it to `value`.
    fn take_char(&mut self, value: &mut String)
        requires
            old(self).wf(),
            old(self)@.pos < old(self)@.text.len(),
        ensures
            final(self).wf(),
            final(self)@.text == old(self)@.text,
            final(self)@.pos == old(self)@.pos + 1,
            final(value)@ == old(value)@.push(old(self)@.text[old(self)@.pos]),
    {
        if let Some(c) = self.get_char() {
            push_char(value, c);
        }
    }

    /// Moves past a maximal run of blanks.
    fn skip_whitespace(&mut self)
        requires
            old(self).wf(),
        ensures
            final(self).wf(),
            final(self)@.text == old(self)@.text,
            old(self)@.pos <= final(self)@.pos <= final(self)@.text.len(),
            final(self)@.pos == final(self)@.text.len() || !is_blank(
                final(self)@.text[final(self)@.pos],
            ),
            forall|k: int|
                old(self)@.pos <= k < final(self)@.pos ==> is_blank(#[trigger] final(self)@.text[k]),
            lex_from(final(self)@.text, final(self)@.pos) == lex_from(old(self)@.text, old(self)@.pos),
    {
        while self.pos < self.chars.len() && is_blank_char(self.chars[self.pos])
            invariant
                self.wf(),
                self@.text == old(self)@.text,
                old(self)@.pos <= self@.pos,
                forall|k: int| old(self)@.pos <= k < self@.pos ==> is_blank(#[trigger] self@.text[k]),
                lex_from(self@.text, self@.pos) == lex_from(old(self)@.text, old(self)@.pos),
            decreases self@.text.len() - self@.pos,
        {
            self.get_char();
        }
    }
    /// Scans an identifier, or a keyword segment ending in `:`.
    fn handle_alpha(&mut self) -> (r: Result<Token, LexerError>)
        requires
            old(self).wf(),
            old(self)@.pos < old(self)@.text.len(),
            is_letter(old(self)@.text[old(self)@.pos]),
        ensures
            final(self).wf(),
            final(self)@.text == old(self)@.text,
            final(self)@.pos == word_at(old(self)@.text, old(self)@.pos).next,
            reports(old(self)@.text, word_at(old(self)@.text, old(self)@.pos).lexeme, r),
    {
        let ghost s = self@.text;
        let ghost start = self@.pos;
        let mut value = String::new();
        self.take_char(&mut value);
        assert(value@ =~= s.subrange(start, self@.pos));
        loop
            invariant
                self.wf(),
                self@.text == s,
                s == old(self)@.text,
                start == old(self)@.pos,
                start < self@.pos <= s.len(),
                ident_end(s, self@.pos) == ident_end(s, start + 1),
                value@ == s.subrange(start, self@.pos),
            decreases s.len() - self@.pos,
        {
            match self.peek() {
                None => {
                    return Ok(generate_token(Symbol::Identifier, value));
                },
                Some(c) => {
                    if is_blank_char(c) {
                        return Ok(generate_token(Symbol::Identifier, value));
                    } else if is_ident_continue(c) {
                        self.take_char(&mut value);
                        assert(value@ =~= s.subrange(start, self@.pos));
                    } else if c == ':' {
                        self.get_char();
                        return Ok(generate_token(Symbol::Keyword, value));
                    } else {
                        let (line, column) = self.location();
                        return Err(unexpected_character(c, line, column));
                    }
                },
            }
        }
    }

    /// Scans a `'` literal: a doubled quote stands for one quote, carriage
    /// returns are dropped, line feeds are kept.
    fn handle_string(&mut self) -> (r: Result<Token, LexerError>)
        requires
            old(self).wf(),
            old(self)@.pos < old(self)@.text.len(),
            old(self)@.text[old(self)@.pos] == '\'',
        ensures
            final(self).wf(),
            final(self)@.text == old(self)@.text,
            final(self)@.pos == string_at(old(self)@.text, old(self)@.pos).next,
            reports(old(self)@.text, string_at(old(self)@.text, old(self)@.pos).lexeme, r),
    {
        let ghost s = self@.text;
        let ghost start = self@.pos;
        let (line, column) = self.location();
        self.get_char();
        let mut value = String::new();
        loop
            invariant
                self.wf(),
                self@.text == s,
                s == old(self)@.text,
                start == old(self)@.pos,
                start < self@.pos <= s.len(),
                line == line_of(s, start),
                column == column_of(s, start),
                scan_quoted(s, start + 1).value == value@ + scan_quoted(s, self@.pos).value,
                scan_quoted(s, start + 1).end == scan_quoted(s, self@.pos).end,
                scan_quoted(s, start + 1).closed == scan_quoted(s, self@.pos).closed,
            decreases s.len() - self@.pos,
        {
            let ghost p = self@.pos;
            match self.get_char() {
                None => {
                    assert(value@ + scan_quoted(s, p).value =~= value@);
                    let mut message = String::from_str("unterminated string constant: ");
                    message.append(value.as_str());
                    return Err(
                        LexerError { kind: LexErrorKind::UnterminatedString, message, line, column },
                    );
                },
                Some(c) => {
                    if c == '\'' {
                        if self.peek_is(0, '\'') {
                            let ghost before = value@;
                            self.take_char(&mut value);
                            assert(before + scan_quoted(s, p).value =~= value@ + scan_quoted(
                                s,
                                self@.pos,
                            ).value);
                        } else {
                            assert(value@ + scan_quoted(s, p).value =~= value@);
                            return Ok(generate_token(Symbol::StringLiteral, value));
                        }
                    } else if c != '\r' {
                        let ghost before = value@;
                        push_char(&mut value, c);
                        assert(before + scan_quoted(s, p).value =~= value@ + scan_quoted(
                            s,
                            self@.pos,
                        ).value);
                    }
                },
            }
        }
    }

    /// Moves past a run of digits, appending them to `value`.
    fn take_digits(&mut self, value: &mut String)
        requires
            old(self).wf(),
        ensures
            final(self).wf(),
            final(self)@.text == old(self)@.text,
            old(self)@.pos <= final(self)@.pos <= final(self)@.text.len(),
            final(self)@.pos == digits_end(old(self)@.text, old(self)@.pos),
            final(value)@ == old(value)@ + old(self)@.text.subrange(
                old(self)@.pos,
                final(self)@.pos,
            ),
    {
        let ghost s = self@.text;
        let ghost start = self@.pos;
        assert(value@ =~= old(value)@ + s.subrange(start, start));
        while self.peek_digit(0)
            invariant
                self.wf(),
                self@.text == s,
                s == old(self)@.text,
                start == old(self)@.pos,
                start <= self@.pos <= s.len(),
                digits_end(s, self@.pos) == digits_end(s, start),
                value@ == old(value)@ + s.subrange(start, self@.pos),
            decreases s.len() - self@.pos,
        {
            self.take_char(value);
            assert(value@ =~= old(value)@ + s.subrange(start, self@.pos));
        }
    }

    /// Scans a numeric literal: digits, then a fraction only where a digit
    /// follows the `.`, then an exponent only where a digit follows the `e`
    /// and its optional sign.
    fn handle_number(&mut self) -> (r: Result<Token, LexerError>)
        requires
            old(self).wf(),
            old(self)@.pos < old(self)@.text.len(),
            is_digit(old(self)@.text[old(self)@.pos]),
        ensures
            final(self).wf(),
            final(self)@.text == old(self)@.text,
            final(self)@.pos == number_end(old(self)@.text, old(self)@.pos),
            r matches Ok(t) && t.symbol == Symbol::Number && t.value@ == old(self)@.text.subrange(
                old(self)@.pos,
                number_end(old(self)@.text, old(self)@.pos),
            ),
    {
        let ghost s = self@.text;
        let ghost start = self@.pos;
        let mut value = String::new();
        self.take_digits(&mut value);
        let ghost a = self@.pos;
        assert(value@ =~= s.subrange(start, a));
        if self.peek_is(0, '.') && self.peek_digit(1) {
            self.take_char(&mut value);
            assert(value@ =~= s.subrange(start, self@.pos));
            let ghost mid = self@.pos;
            self.take_digits(&mut value);
            assert(value@ =~= s.subrange(start, mid) + s.subrange(mid, self@.pos));
            assert(value@ =~= s.subrange(start, self@.pos));
        }
        let ghost b = self@.pos;
        assert(b == fraction_end(s, a));
        if self.peek_is(0, 'e') {
            let signed = self.peek_is(1, '-') || self.peek_is(1, '+');
            let k: usize = if signed { 2 } else { 1 };
            assert(self@.pos + k == exponent_digits(s, b));
            if self.peek_digit(k) {
                self.take_char(&mut value);
                assert(value@ =~= s.subrange(start, self@.pos));
                if signed {
                    self.take_char(&mut value);
                    assert(value@ =~= s.subrange(start, self@.pos));
                }
                let ghost mid = self@.pos;
                self.take_digits(&mut value);
                assert(value@ =~= s.subrange(start, mid) + s.subrange(mid, self@.pos));
                assert(value@ =~= s.subrange(start, self@.pos));
            }
        }
        assert(self@.pos == exponent_end(s, b));
        Ok(generate_token(Symbol::Number, value))
    }

    /// Moves past a `"` comment, which is discarded; fails where the input
    /// ends before its closing `"`.
    fn handle_comment(&mut self) -> (r: Result<(), LexerError>)
        requires
            old(self).wf(),
            old(self)@.pos < old(self)@.text.len(),
            old(self)@.text[old(self)@.pos] == '"',
        ensures
            final(self).wf(),
            final(self)@.text == old(self)@.text,
            match r {
                Ok(_) => old(self)@.pos < final(self)@.pos && lex_from(final(self)@.text, final(self)@.pos)
                    == lex_from(old(self)@.text, old(self)@.pos),
                Err(e) => final(self)@.pos == lex_from(old(self)@.text, old(self)@.pos).next
                    && reports(old(self)@.text, lex_from(old(self)@.text, old(self)@.pos).lexeme, Err(e)),
            },
    {
        let ghost s = self@.text;
        let ghost start = self@.pos;
        let (line, column) = self.location();
        self.get_char();
        let mut text = String::new();
        loop
            invariant
                self.wf(),
                self@.text == s,
                s == old(self)@.text,
                start == old(self)@.pos,
                start < self@.pos <= s.len(),
                line == line_of(s, start),
                column == column_of(s, start),
                after_comment(s, start, self@.pos) == lex_from(s, start),
                text@ == s.subrange(start + 1, self@.pos),
            decreases s.len() - self@.pos,
        {
            match self.get_char() {
                None => {
                    let mut message = String::from_str("unterminated comment: ");
                    message.append(text.as_str());
                    return Err(
                        LexerError { kind: LexErrorKind::UnterminatedComment, message, line, column },
                    );
                },
                Some(c) => {
                    if c == '"' {
                        return Ok(());
                    }
                    push_char(&mut text, c);
                    assert(text@ =~= s.subrange(start + 1, self@.pos));
                },
            }
        }
    }
    /// Produces the next token. Blanks and `"` comments before it are
    /// skipped; at the end of the input the token is `EndOfFile` with an empty
    /// value, on every call.
    pub fn next_token(&mut self) -> (r: Result<Token, LexerError>)
        requires
            old(self).wf(),
        ensures
            final(self).wf(),
            final(self)@.text == old(self)@.text,
            final(self)@.pos == lex_from(old(self)@.text, old(self)@.pos).next,
            old(self)@.pos <= final(self)@.pos <= final(self)@.text.len(),
            reports(old(self)@.text, lex_from(old(self)@.text, old(self)@.pos).lexeme, r),
    {
        let ghost s = self@.text;
        proof {
            scan_moves_forward(s, self@.pos);
        }
        loop
            invariant
                self.wf(),
                self@.text == s,
                s == old(self)@.text,
                lex_from(s, self@.pos) == lex_from(s, old(self)@.pos),
                old(self)@.pos <= lex_from(s, old(self)@.pos).next <= s.len(),
            decreases s.len() - self@.pos,
        {
            self.skip_whitespace();
            match self.peek() {
                None => {
                    return Ok(generate_token(Symbol::EndOfFile, String::new()));
                },
                Some(c) => {
                    if c == '"' {
                        match self.handle_comment() {
                            Ok(()) => {},
                            Err(e) => {
                                return Err(e);
                            },
                        }
                    } else {
                        assert(lex_from(s, self@.pos) == token_at(s, self@.pos));
                        if is_digit_char(c) {
                            return self.handle_number();
                        } else if is_letter_char(c) {
                            return self.handle_alpha();
                        } else if c == '\'' {
                            return self.handle_string();
                        } else {
                            let (line, column) = self.location();
                            self.get_char();
                            return match punctuation(c) {
                                Some(symbol) => {
                                    let mut value = String::new();
                                    push_char(&mut value, c);
                                    assert(value@ =~= seq![c]);
                                    Ok(generate_token(symbol, value))
                                },
                                None => Err(unexpected_character(c, line, column)),
                            };
                        }
                    }
                },
            }
        }
    }
}

} // verus!

