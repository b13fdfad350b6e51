use cfront::lexer::Lexer;
use cfront::token::{LexError, Token};

/// Collects the token kinds for the whole input.
fn collect_tokens(input: &str) -> Vec<Token> {
    let mut l = Lexer::new(input);
    l.collect_spanned_tokens().into_iter().map(|tok| tok.kind).collect()
}

#[test]
fn simple_tokens() {
    let input = "+ - * / % = == != < <= > >= & && | || ; , ( ) { } [ ]";
    let expected = vec![
        Token::Plus,
        Token::Minus,
        Token::Asterisk,
        Token::Slash,
        Token::Percent,
        Token::Assign,
        Token::Equal,
        Token::NotEqual,
        Token::Lt,
        Token::Le,
        Token::Gt,
        Token::Ge,
        Token::Ampersand,
        Token::And,
        Token::BitOr,
        Token::Or,
        Token::Semicolon,
        Token::Comma,
        Token::LParen,
        Token::RParen,
        Token::LBrace,
        Token::RBrace,
        Token::LBracket,
        Token::RBracket,
        Token::EOF,
    ];
    assert_eq!(collect_tokens(input), expected);
}

#[test]
fn identifiers_and_numbers() {
    let input = "foo _bar Baz123 42 007";
    let expected = vec![
        Token::Ident("foo".into()),
        Token::Ident("_bar".into()),
        Token::Ident("Baz123".into()),
        Token::IntLiteral(42),
        Token::IntLiteral(7),
        Token::EOF,
    ];
    assert_eq!(collect_tokens(input), expected);
}

#[test]
fn char_literals_and_errors() {
    let input = r"'a' '\n' '\0' 'x";
    let expected = vec![
        Token::CharLiteral('a'),
        Token::CharLiteral('\n'),
        Token::CharLiteral('\0'),
        Token::Error(LexError::UnterminatedCharLiteral),
        Token::EOF,
    ];
    assert_eq!(collect_tokens(input), expected);
}

#[test]
fn comments_and_whitespace() {
    let input = "
        // single line comment
        foo /* multi
                 line */ 123
    ";
    let expected = vec![
        Token::Ident("foo".into()),
        Token::IntLiteral(123),
        Token::EOF,
    ];
    assert_eq!(collect_tokens(input), expected);
}

#[test]
fn numeric_literal_overflow() {
    let tokens = collect_tokens("9223372036854775807 9223372036854775808");
    assert_eq!(tokens[0], Token::IntLiteral(i64::MAX));
    assert_eq!(
        tokens[1],
        Token::Error(LexError::InvalidNumericLiteral("9223372036854775808".into()))
    );
    assert_eq!(tokens[2], Token::EOF);
}

#[test]
fn unknown_escape_and_illegal_char() {
    let tokens = collect_tokens(r"'\x' @");
    assert_eq!(tokens[0], Token::CharLiteral('x'));
    assert_eq!(tokens[1], Token::Illegal('@'));
    assert_eq!(tokens[2], Token::EOF);
}

#[test]
fn token_spans_are_line_and_column() {
    let mut l = Lexer::new("int x;\n  y = 1;");
    let toks = l.collect_spanned_tokens();
    assert_eq!((toks[0].line, toks[0].column), (1, 1)); // int
    assert_eq!((toks[1].line, toks[1].column), (1, 5)); // x
    assert_eq!((toks[2].line, toks[2].column), (1, 6)); // ;
    assert_eq!((toks[3].line, toks[3].column), (2, 3)); // y
    assert_eq!((toks[4].line, toks[4].column), (2, 5)); // =
    assert_eq!((toks[5].line, toks[5].column), (2, 7)); // 1
    assert_eq!((toks[6].line, toks[6].column), (2, 8)); // ;
}
