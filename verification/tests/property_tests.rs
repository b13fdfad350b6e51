//! Runtime checks of the token-stream properties on a spread of
//! inputs: the stream ends with exactly one `EOF`, and token
//! positions never move backwards.

use cfront::lexer::Lexer;
use cfront::token::{SpannedToken, Token};

fn tokens_of(input: &str) -> Vec<SpannedToken> {
    let mut l = Lexer::new(input);
    l.collect_spanned_tokens()
}

fn sample_inputs() -> Vec<&'static str> {
    vec![
        "",
        "   \t\n  ",
        "// only a comment",
        "/* unterminated block comment runs to the end",
        "int main() { return 0; }",
        "'x",
        "123abc!@#",
        "a+b*c-d/e%f",
        "x<=y>=z==w!=v",
        "&&||&|^!",
        "'a''b''c'",
        "9999999999999999999999999",
        "line1\nline2\n\n  line4",
        "int x = 42; // trailing comment",
    ]
}

#[test]
fn token_stream_ends_with_eof_exactly_once() {
    for input in sample_inputs() {
        let toks = tokens_of(input);
        assert!(!toks.is_empty(), "empty stream for {:?}", input);
        assert!(
            matches!(toks.last().unwrap().kind, Token::EOF),
            "stream for {:?} does not end with EOF",
            input
        );
        for t in &toks[..toks.len() - 1] {
            assert!(
                !matches!(t.kind, Token::EOF),
                "EOF before the end in stream for {:?}",
                input
            );
        }
    }
}

#[test]
fn token_positions_never_move_backwards() {
    for input in sample_inputs() {
        let toks = tokens_of(input);
        for pair in toks.windows(2) {
            let a = &pair[0];
            let b = &pair[1];
            let ordered = a.line < b.line || (a.line == b.line && a.column <= b.column);
            assert!(
                ordered,
                "positions move backwards in {:?}: ({}, {}) then ({}, {})",
                input, a.line, a.column, b.line, b.column
            );
        }
    }
}

#[test]
fn keywords_are_distinguished_from_identifiers() {
    let toks = tokens_of("int char void if else while for return break continue intx");
    let kinds: Vec<Token> = toks.into_iter().map(|t| t.kind).collect();
    assert_eq!(
        kinds,
        vec![
            Token::Int,
            Token::Char,
            Token::Void,
            Token::If,
            Token::Else,
            Token::While,
            Token::For,
            Token::Return,
            Token::Break,
            Token::Continue,
            Token::Ident("intx".into()),
            Token::EOF,
        ]
    );
}
