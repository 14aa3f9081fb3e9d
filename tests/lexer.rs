use stlexer::lexer::{LexErrorKind, LexerError, LexerInstance, Symbol, Token};

fn lex_all(source: &str) -> Vec<(Symbol, String)> {
    let mut instance = LexerInstance::from_source(source);
    let mut out = Vec::new();
    loop {
        let token = instance.next_token().expect("unable to get token");
        let done = token.symbol == Symbol::EndOfFile;
        out.push((token.symbol, token.value));
        if done {
            return out;
        }
    }
}

fn first_error(source: &str) -> LexerError {
    let mut instance = LexerInstance::from_source(source);
    loop {
        match instance.next_token() {
            Ok(Token { symbol: Symbol::EndOfFile, .. }) => panic!("no error in {:?}", source),
            Ok(_) => {}
            Err(e) => return e,
        }
    }
}

fn pair(symbol: Symbol, value: &str) -> (Symbol, String) {
    (symbol, value.to_string())
}

#[test]
fn test_empty_source_file() {
    let mut instance = LexerInstance::from_source("");

    let token = instance.next_token().expect("unable to get token");
    assert_eq!(Symbol::EndOfFile, token.symbol);
}

#[test]
fn test_identifier() {
    let mut instance = LexerInstance::from_source("Foobar");

    let token = instance.next_token().expect("unable to get token");
    assert_eq!(Symbol::Identifier, token.symbol);
    assert_eq!("Foobar", token.value);
}

#[test]
fn test_strings() {
    let source = "'This is a string'.\n'This is a string ''inside a string'''.\n'This is a\nmultiline\nstring'.\n";
    let mut instance = LexerInstance::from_source(source);

    let token = instance.next_token().expect("unable to get token");
    assert_eq!(Symbol::StringLiteral, token.symbol);
    assert_eq!("This is a string", token.value);

    let token = instance.next_token().expect("unable to get token");
    assert_eq!(Symbol::Period, token.symbol);

    let token = instance.next_token().expect("unable to get token");
    assert_eq!(Symbol::StringLiteral, token.symbol);
    assert_eq!("This is a string 'inside a string'", token.value);

    let token = instance.next_token().expect("unable to get token");
    assert_eq!(Symbol::Period, token.symbol);

    let token = instance.next_token().expect("unable to get token");
    assert_eq!(Symbol::StringLiteral, token.symbol);
    assert_eq!("This is a\nmultiline\nstring", token.value);

    let token = instance.next_token().expect("unable to get token");
    assert_eq!(Symbol::Period, token.symbol);

    let token = instance.next_token().expect("unable to get token");
    assert_eq!(Symbol::EndOfFile, token.symbol);
}

#[test]
fn blank_source_yields_only_end_of_file() {
    for source in ["", " ", "\t\r\n", "  \n\n\t  \r\n "] {
        assert_eq!(lex_all(source), vec![pair(Symbol::EndOfFile, "")]);
    }
}

#[test]
fn identifier_value_is_the_exact_run() {
    assert_eq!(
        lex_all("  foo_Bar9 x1\n"),
        vec![
            pair(Symbol::Identifier, "foo_Bar9"),
            pair(Symbol::Identifier, "x1"),
            pair(Symbol::EndOfFile, ""),
        ]
    );
}

#[test]
fn keyword_segment_drops_its_colon() {
    assert_eq!(
        lex_all("foo:"),
        vec![pair(Symbol::Keyword, "foo"), pair(Symbol::EndOfFile, "")]
    );
    assert_eq!(
        lex_all("at:put:"),
        vec![
            pair(Symbol::Keyword, "at"),
            pair(Symbol::Keyword, "put"),
            pair(Symbol::EndOfFile, ""),
        ]
    );
}

#[test]
fn doubled_quote_is_one_quote() {
    assert_eq!(
        lex_all("'It''s here'"),
        vec![pair(Symbol::StringLiteral, "It's here"), pair(Symbol::EndOfFile, "")]
    );
    assert_eq!(
        lex_all("''''"),
        vec![pair(Symbol::StringLiteral, "'"), pair(Symbol::EndOfFile, "")]
    );
    assert_eq!(
        lex_all("''"),
        vec![pair(Symbol::StringLiteral, ""), pair(Symbol::EndOfFile, "")]
    );
}

#[test]
fn literal_keeps_line_feeds_and_drops_carriage_returns() {
    assert_eq!(
        lex_all("'line1\nline2'"),
        vec![pair(Symbol::StringLiteral, "line1\nline2"), pair(Symbol::EndOfFile, "")]
    );
    assert_eq!(
        lex_all("'line1\r\nline2'"),
        vec![pair(Symbol::StringLiteral, "line1\nline2"), pair(Symbol::EndOfFile, "")]
    );
}

#[test]
fn literal_of_other_scripts() {
    assert_eq!(
        lex_all("'héllo wörld'"),
        vec![pair(Symbol::StringLiteral, "héllo wörld"), pair(Symbol::EndOfFile, "")]
    );
}

#[test]
fn unterminated_literal_is_an_error() {
    let e = first_error("'abc");
    assert_eq!(e.kind, LexErrorKind::UnterminatedString);
    assert_eq!(e.message, "unterminated string constant: abc");
    assert_eq!((e.line, e.column), (1, 1));

    let e = first_error("'a'.\n  'It''s\r\nopen");
    assert_eq!(e.kind, LexErrorKind::UnterminatedString);
    assert_eq!(e.message, "unterminated string constant: It's\nopen");
    assert_eq!((e.line, e.column), (2, 3));
}

#[test]
fn period_right_after_a_literal() {
    assert_eq!(
        lex_all("'a'.'b'."),
        vec![
            pair(Symbol::StringLiteral, "a"),
            pair(Symbol::Period, "."),
            pair(Symbol::StringLiteral, "b"),
            pair(Symbol::Period, "."),
            pair(Symbol::EndOfFile, ""),
        ]
    );
}

#[test]
fn end_of_file_repeats() {
    let mut instance = LexerInstance::from_source("foo ");
    let token = instance.next_token().expect("unable to get token");
    assert_eq!(Symbol::Identifier, token.symbol);
    for _ in 0..3 {
        let token = instance.next_token().expect("unable to get token");
        assert_eq!(Symbol::EndOfFile, token.symbol);
        assert_eq!("", token.value);
    }
}

#[test]
fn numbers() {
    assert_eq!(
        lex_all("123 3.14 2e10 2e-5 1.5e+3 0"),
        vec![
            pair(Symbol::Number, "123"),
            pair(Symbol::Number, "3.14"),
            pair(Symbol::Number, "2e10"),
            pair(Symbol::Number, "2e-5"),
            pair(Symbol::Number, "1.5e+3"),
            pair(Symbol::Number, "0"),
            pair(Symbol::EndOfFile, ""),
        ]
    );
}

#[test]
fn number_leaves_a_trailing_period() {
    assert_eq!(
        lex_all("42."),
        vec![pair(Symbol::Number, "42"), pair(Symbol::Period, "."), pair(Symbol::EndOfFile, "")]
    );
    assert_eq!(
        lex_all("1.2."),
        vec![pair(Symbol::Number, "1.2"), pair(Symbol::Period, "."), pair(Symbol::EndOfFile, "")]
    );
}

#[test]
fn number_leaves_an_exponent_marker_without_digits() {
    assert_eq!(
        lex_all("2e 7ex"),
        vec![
            pair(Symbol::Number, "2"),
            pair(Symbol::Identifier, "e"),
            pair(Symbol::Number, "7"),
            pair(Symbol::Identifier, "ex"),
            pair(Symbol::EndOfFile, ""),
        ]
    );
    let e = first_error("7e-");
    assert_eq!(e.kind, LexErrorKind::UnexpectedCharacter('-'));
    assert_eq!((e.line, e.column), (1, 3));
}

#[test]
fn comments_are_skipped() {
    assert_eq!(
        lex_all("\"a comment\" foo \"another\nline\"bar:\"\""),
        vec![
            pair(Symbol::Identifier, "foo"),
            pair(Symbol::Keyword, "bar"),
            pair(Symbol::EndOfFile, ""),
        ]
    );
    assert_eq!(lex_all("\"only a comment\""), vec![pair(Symbol::EndOfFile, "")]);
}

#[test]
fn unterminated_comment_is_an_error() {
    let e = first_error("foo \"never closed");
    assert_eq!(e.kind, LexErrorKind::UnterminatedComment);
    assert_eq!(e.message, "unterminated comment: never closed");
    assert_eq!((e.line, e.column), (1, 5));
}

#[test]
fn punctuation_tokens() {
    assert_eq!(
        lex_all("()[]{};#<>$!."),
        vec![
            pair(Symbol::LParen, "("),
            pair(Symbol::RParen, ")"),
            pair(Symbol::LBracket, "["),
            pair(Symbol::RBracket, "]"),
            pair(Symbol::LBrace, "{"),
            pair(Symbol::RBrace, "}"),
            pair(Symbol::Semicolon, ";"),
            pair(Symbol::Hash, "#"),
            pair(Symbol::LT, "<"),
            pair(Symbol::GT, ">"),
            pair(Symbol::DollarSign, "$"),
            pair(Symbol::Bang, "!"),
            pair(Symbol::Period, "."),
            pair(Symbol::EndOfFile, ""),
        ]
    );
}

#[test]
fn unexpected_character_is_consumed_and_reported() {
    let mut instance = LexerInstance::from_source("a\n  @ b");
    let token = instance.next_token().expect("unable to get token");
    assert_eq!(Symbol::Identifier, token.symbol);
    let e = instance.next_token().err().expect("an error");
    assert_eq!(e.kind, LexErrorKind::UnexpectedCharacter('@'));
    assert_eq!(e.message, "unexpected character @");
    assert_eq!((e.line, e.column), (2, 3));
    let token = instance.next_token().expect("unable to get token");
    assert_eq!(Symbol::Identifier, token.symbol);
    assert_eq!("b", token.value);
}

#[test]
fn identifier_followed_by_a_stranger_is_an_error() {
    let e = first_error("foo+bar");
    assert_eq!(e.kind, LexErrorKind::UnexpectedCharacter('+'));
    assert_eq!(e.message, "unexpected character +");
    assert_eq!((e.line, e.column), (1, 4));
}

#[test]
fn column_counts_every_character_but_line_feed() {
    let e = first_error("ab\r\n\tcd %");
    assert_eq!(e.kind, LexErrorKind::UnexpectedCharacter('%'));
    assert_eq!((e.line, e.column), (2, 5));
}
