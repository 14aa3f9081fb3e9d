//! Laws of the token grammar, proved over the spec functions that
//! `LexerInstance::next_token` is proved against.
use vstd::prelude::*;

use crate::grammar::{
    after_comment, digits_end, exponent_digits, fraction_end, ident_end, is_blank,
    is_ident_char, is_letter, lex_from, number_end, scan_quoted, token_at, Lexeme, Quoted, Step,
};
use crate::lexer::{LexErrorKind, Symbol};

verus! {

/// The source form of `v` inside a `'` literal: each `'` is doubled.
pub open spec fn escape(v: Seq<char>) -> Seq<char>
    decreases v.len(),
{
    if v.len() == 0 {
        seq![]
    } else {
        (if v[0] == '\'' {
            seq!['\'', '\'']
        } else {
            seq![v[0]]
        }) + escape(v.drop_first())
    }
}

/// `v` written as a `'` literal.
pub open spec fn quote(v: Seq<char>) -> Seq<char> {
    seq!['\''] + escape(v) + seq!['\'']
}

/// `v` with its carriage returns dropped.
pub open spec fn without_cr(v: Seq<char>) -> Seq<char>
    decreases v.len(),
{
    if v.len() == 0 {
        seq![]
    } else if v[0] == '\r' {
        without_cr(v.drop_first())
    } else {
        seq![v[0]] + without_cr(v.drop_first())
    }
}

/// The step that a scan at the end of the input takes.
pub open spec fn end_step(s: Seq<char>) -> Step {
    Step { lexeme: Lexeme::Tok { symbol: Symbol::EndOfFile, value: seq![] }, next: s.len() as int }
}

/// A run of blanks changes nothing of the scan that follows it.
pub proof fn lemma_blank_run(s: Seq<char>, q: int, p: int)
    requires
        0 <= q <= p <= s.len(),
        forall|k: int| q <= k < p ==> is_blank(#[trigger] s[k]),
    ensures
        lex_from(s, q) == lex_from(s, p),
    decreases p - q,
{
    if q < p {
        lemma_blank_run(s, q + 1, p);
    }
}

/// A source text made of blanks alone, the empty one included, lexes to
/// `EndOfFile` with an empty value, and that is its only token: the scan
/// after it yields `EndOfFile` again.
pub proof fn blank_source_is_end_of_file(s: Seq<char>)
    requires
        forall|k: int| 0 <= k < s.len() ==> is_blank(#[trigger] s[k]),
    ensures
        lex_from(s, 0) == end_step(s),
        lex_from(s, lex_from(s, 0).next) == end_step(s),
{
    lemma_blank_run(s, 0, s.len() as int);
}

proof fn lemma_ident_end(s: Seq<char>, i: int, e: int)
    requires
        0 <= i <= e <= s.len(),
        forall|k: int| i <= k < e ==> is_ident_char(#[trigger] s[k]),
        e == s.len() || !is_ident_char(s[e]),
    ensures
        ident_end(s, i) == e,
    decreases e - i,
{
    if i < e {
        lemma_ident_end(s, i + 1, e);
    }
}

/// A letter followed by a run of letters, digits and underscores, and then by
/// a blank or the end of the input, lexes to an `Identifier` whose value is
/// exactly that run; blanks before it are skipped.
pub proof fn identifier_law(s: Seq<char>, q: int, p: int, e: int)
    requires
        0 <= q <= p < e <= s.len(),
        forall|k: int| q <= k < p ==> is_blank(#[trigger] s[k]),
        is_letter(s[p]),
        forall|k: int| p < k < e ==> is_ident_char(#[trigger] s[k]),
        e == s.len() || is_blank(s[e]),
    ensures
        lex_from(s, q) == (Step {
            lexeme: Lexeme::Tok { symbol: Symbol::Identifier, value: s.subrange(p, e) },
            next: e,
        }),
{
    lemma_blank_run(s, q, p);
    lemma_ident_end(s, p + 1, e);
}

/// A letter followed by a run of letters, digits and underscores, and then by
/// `:`, lexes to a `Keyword` whose value is that run without the colon; the
/// colon is consumed.
pub proof fn keyword_law(s: Seq<char>, q: int, p: int, e: int)
    requires
        0 <= q <= p < e < s.len(),
        forall|k: int| q <= k < p ==> is_blank(#[trigger] s[k]),
        is_letter(s[p]),
        forall|k: int| p < k < e ==> is_ident_char(#[trigger] s[k]),
        s[e] == ':',
    ensures
        lex_from(s, q) == (Step {
            lexeme: Lexeme::Tok { symbol: Symbol::Keyword, value: s.subrange(p, e) },
            next: e + 1,
        }),
{
    lemma_blank_run(s, q, p);
    lemma_ident_end(s, p + 1, e);
}

proof fn lemma_scan_escaped(s: Seq<char>, i: int, v: Seq<char>)
    requires
        0 <= i,
        i + escape(v).len() < s.len(),
        s.subrange(i, i + escape(v).len()) == escape(v),
        s[i + escape(v).len()] == '\'',
        i + escape(v).len() + 1 == s.len() || s[i + escape(v).len() + 1] != '\'',
    ensures
        scan_quoted(s, i) == (Quoted {
            value: without_cr(v),
            end: i + escape(v).len() + 1,
            closed: true,
        }),
    decreases v.len(),
{
    let n = escape(v).len() as int;
    if v.len() > 0 {
        let w = v.drop_first();
        let h: int = if v[0] == '\'' { 2 } else { 1 };
        assert(escape(v).len() == h + escape(w).len());
        assert(s[i] == s.subrange(i, i + n)[0]);
        if h == 2 {
            assert(s[i + 1] == s.subrange(i, i + n)[1]);
        }
        assert(s.subrange(i + h, i + n) =~= escape(v).subrange(h, n));
        assert(escape(v).subrange(h, n) =~= escape(w));
        lemma_scan_escaped(s, i + h, w);
    }
}

/// A value written as a `'` literal, with each `'` doubled, lexes back to one
/// `StringLiteral` whose value is the original with its carriage returns
/// dropped (line feeds are kept), whatever follows the literal but another `'`.
pub proof fn quoted_literal_law(v: Seq<char>, rest: Seq<char>)
    requires
        rest.len() == 0 || rest[0] != '\'',
    ensures
        lex_from(quote(v) + rest, 0) == (Step {
            lexeme: Lexeme::Tok { symbol: Symbol::StringLiteral, value: without_cr(v) },
            next: quote(v).len() as int,
        }),
{
    let s = quote(v) + rest;
    let n = escape(v).len() as int;
    assert(s[0] == '\'');
    assert(s.subrange(1, 1 + n) =~= escape(v));
    assert(s[1 + n] == '\'');
    if 2 + n < s.len() {
        assert(s[2 + n] == rest[0]);
    }
    lemma_scan_escaped(s, 1, v);
}

proof fn lemma_scan_unterminated(s: Seq<char>, i: int)
    requires
        0 <= i <= s.len(),
        forall|k: int| i <= k < s.len() ==> #[trigger] s[k] != '\'',
    ensures
        scan_quoted(s, i) == (Quoted {
            value: without_cr(s.subrange(i, s.len() as int)),
            end: s.len() as int,
            closed: false,
        }),
    decreases s.len() - i,
{
    if i < s.len() {
        lemma_scan_unterminated(s, i + 1);
        assert(s.subrange(i, s.len() as int).drop_first() =~= s.subrange(i + 1, s.len() as int));
    } else {
        assert(s.subrange(i, s.len() as int) =~= seq![]);
    }
}

/// A `'` with no other `'` after it fails as an unterminated literal, never
/// a token; the error carries what the literal had accumulated.
pub proof fn unterminated_literal_law(b: Seq<char>)
    requires
        forall|k: int| 0 <= k < b.len() ==> #[trigger] b[k] != '\'',
    ensures
        lex_from(seq!['\''] + b, 0) == (Step {
            lexeme: Lexeme::Fail {
                kind: LexErrorKind::UnterminatedString,
                at: 0,
                partial: without_cr(b),
            },
            next: b.len() + 1 as int,
        }),
{
    let s = seq!['\''] + b;
    assert(s[0] == '\'');
    assert forall|k: int| 1 <= k < s.len() implies #[trigger] s[k] != '\'' by {
        assert(s[k] == b[k - 1]);
    }
    lemma_scan_unterminated(s, 1);
    assert(s.subrange(1, s.len() as int) =~= b);
}

proof fn lemma_end_from(s: Seq<char>, p: int)
    requires
        0 <= p <= s.len(),
        lex_from(s, p).lexeme matches Lexeme::Tok { symbol: Symbol::EndOfFile, .. },
    ensures
        lex_from(s, p) == end_step(s),
    decreases s.len() - p, 1int,
{
    if p < s.len() {
        if is_blank(s[p]) {
            lemma_end_from(s, p + 1);
        } else if s[p] == '"' {
            lemma_end_after_comment(s, p, p + 1);
        }
    }
}

proof fn lemma_end_after_comment(s: Seq<char>, start: int, i: int)
    requires
        0 <= i <= s.len(),
        after_comment(s, start, i).lexeme matches Lexeme::Tok { symbol: Symbol::EndOfFile, .. },
    ensures
        after_comment(s, start, i) == end_step(s),
    decreases s.len() - i, 0int,
{
    if i < s.len() {
        if s[i] == '"' {
            lemma_end_from(s, i + 1);
        } else {
            lemma_end_after_comment(s, start, i + 1);
        }
    }
}

/// Once a scan yields `EndOfFile`, it has reached the end of the input, its
/// value is empty, and the scan after it yields the same `EndOfFile` again.
pub proof fn end_of_file_is_stable(s: Seq<char>, p: int)
    requires
        0 <= p <= s.len(),
        lex_from(s, p).lexeme matches Lexeme::Tok { symbol: Symbol::EndOfFile, .. },
    ensures
        lex_from(s, p) == end_step(s),
        lex_from(s, lex_from(s, p).next) == lex_from(s, p),
{
    lemma_end_from(s, p);
}

proof fn lemma_ident_end_bounds(s: Seq<char>, i: int)
    requires
        0 <= i <= s.len(),
    ensures
        i <= ident_end(s, i) <= s.len(),
    decreases s.len() - i,
{
    if i < s.len() {
        lemma_ident_end_bounds(s, i + 1);
    }
}

proof fn lemma_digits_end_bounds(s: Seq<char>, i: int)
    requires
        0 <= i <= s.len(),
    ensures
        i <= digits_end(s, i) <= s.len(),
    decreases s.len() - i,
{
    if i < s.len() {
        lemma_digits_end_bounds(s, i + 1);
    }
}

proof fn lemma_number_end_bounds(s: Seq<char>, p: int)
    requires
        0 <= p <= s.len(),
    ensures
        digits_end(s, p) <= number_end(s, p) <= s.len(),
{
    lemma_digits_end_bounds(s, p);
    let a = digits_end(s, p);
    if a + 1 < s.len() {
        lemma_digits_end_bounds(s, a + 1);
    }
    let b = fraction_end(s, a);
    let d = exponent_digits(s, b);
    if d < s.len() {
        lemma_digits_end_bounds(s, d);
    }
}

proof fn lemma_scan_quoted_bounds(s: Seq<char>, i: int)
    requires
        0 <= i <= s.len(),
    ensures
        i <= scan_quoted(s, i).end <= s.len(),
    decreases s.len() - i,
{
    if i < s.len() {
        if i + 2 <= s.len() {
            lemma_scan_quoted_bounds(s, i + 2);
        }
        lemma_scan_quoted_bounds(s, i + 1);
    }
}

proof fn lemma_token_at_bounds(s: Seq<char>, p: int)
    requires
        0 <= p < s.len(),
    ensures
        p < token_at(s, p).next <= s.len(),
{
    lemma_number_end_bounds(s, p);
    lemma_digits_end_bounds(s, p + 1);
    lemma_ident_end_bounds(s, p + 1);
    lemma_scan_quoted_bounds(s, p + 1);
}

proof fn lemma_advance_after_comment(s: Seq<char>, start: int, i: int)
    requires
        0 <= start < i <= s.len(),
    ensures
        i <= after_comment(s, start, i).next <= s.len(),
        after_comment(s, start, i).lexeme != end_step(s).lexeme ==> start < after_comment(
            s,
            start,
            i,
        ).next,
    decreases s.len() - i, 0int,
{
    if i < s.len() {
        if s[i] == '"' {
            scan_moves_forward(s, i + 1);
        } else {
            lemma_advance_after_comment(s, start, i + 1);
        }
    }
}

/// A scan never moves the cursor backward nor past the end of the input, and
/// every scan but the one at the end of the input moves it forward.
pub proof fn scan_moves_forward(s: Seq<char>, p: int)
    requires
        0 <= p <= s.len(),
    ensures
        p <= lex_from(s, p).next <= s.len(),
        lex_from(s, p).lexeme != end_step(s).lexeme ==> p < lex_from(s, p).next,
    decreases s.len() - p, 1int,
{
    if p < s.len() {
        if is_blank(s[p]) {
            scan_moves_forward(s, p + 1);
        } else if s[p] == '"' {
            lemma_advance_after_comment(s, p, p + 1);
        } else {
            lemma_token_at_bounds(s, p);
        }
    }
}

} // verus!
