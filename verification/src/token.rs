//! Lexical tokens, lexical errors, and the keyword table.

use vstd::prelude::*;
use vstd::string::StringExecFns;

verus! {

/// Errors the lexer can detect inside a single token.
#[derive(Debug)]
pub enum LexError {
    /// A character literal with no closing quote.
    UnterminatedCharLiteral,
    /// A run of digits that does not fit a signed 64-bit integer.
    InvalidNumericLiteral(String),
}

/// Mathematical image of a [`LexError`]: string payloads become
/// character sequences.
pub enum LexErrorModel {
    UnterminatedCharLiteral,
    InvalidNumericLiteral(Seq<char>),
}

impl View for LexError {
    type V = LexErrorModel;

    open spec fn view(&self) -> LexErrorModel {
        match self {
            LexError::UnterminatedCharLiteral => LexErrorModel::UnterminatedCharLiteral,
            LexError::InvalidNumericLiteral(s) => LexErrorModel::InvalidNumericLiteral(s@),
        }
    }
}

impl Clone for LexError {
    fn clone(&self) -> (r: Self)
        ensures
            r == *self,
    {
        match self {
            LexError::UnterminatedCharLiteral => LexError::UnterminatedCharLiteral,
            LexError::InvalidNumericLiteral(s) => LexError::InvalidNumericLiteral(s.clone()),
        }
    }
}

impl PartialEq for LexError {
    fn eq(&self, other: &LexError) -> (r: bool) {
        match (self, other) {
            (LexError::UnterminatedCharLiteral, LexError::UnterminatedCharLiteral) => true,
            (LexError::InvalidNumericLiteral(a), LexError::InvalidNumericLiteral(b)) => a.eq(b),
            _ => false,
        }
    }
}

impl vstd::std_specs::cmp::PartialEqSpecImpl for LexError {
    open spec fn obeys_eq_spec() -> bool {
        true
    }

    open spec fn eq_spec(&self, other: &LexError) -> bool {
        self@ == other@
    }
}

/// The lexical categories of the language.
#[derive(Debug)]
pub enum Token {
    EOF,
    Error(LexError),
    Illegal(char),
    Ident(String),
    IntLiteral(i64),
    CharLiteral(char),
    Plus,
    Minus,
    Asterisk,
    Slash,
    Percent,
    Equal,
    NotEqual,
    Lt,
    Gt,
    Le,
    Ge,
    Assign,
    And,
    Or,
    Not,
    Ampersand,
    BitOr,
    BitXor,
    Semicolon,
    Comma,
    LParen,
    RParen,
    LBrace,
    RBrace,
    LBracket,
    RBracket,
    If,
    Else,
    While,
    For,
    Return,
    Break,
    Continue,
    Int,
    Char,
    Void,
    Increment,
    Decrement,
    PlusAssign,
    MinusAssign,
    AsteriskAssign,
    SlashAssign,
    ModuloAssign,
    BitOrAssign,
    BitAndAssign,
    BitXorAssign,
}

/// Mathematical image of a [`Token`]: identifier and error payloads
/// become character sequences.
pub enum TokenModel {
    EOF,
    Error(LexErrorModel),
    Illegal(char),
    Ident(Seq<char>),
    IntLiteral(i64),
    CharLiteral(char),
    Plus,
    Minus,
    Asterisk,
    Slash,
    Percent,
    Equal,
    NotEqual,
    Lt,
    Gt,
    Le,
    Ge,
    Assign,
    And,
    Or,
    Not,
    Ampersand,
    BitOr,
    BitXor,
    Semicolon,
    Comma,
    LParen,
    RParen,
    LBrace,
    RBrace,
    LBracket,
    RBracket,
    If,
    Else,
    While,
    For,
    Return,
    Break,
    Continue,
    Int,
    Char,
    Void,
    Increment,
    Decrement,
    PlusAssign,
    MinusAssign,
    AsteriskAssign,
    SlashAssign,
    ModuloAssign,
    BitOrAssign,
    BitAndAssign,
    BitXorAssign,
}

impl View for Token {
    type V = TokenModel;

    open spec fn view(&self) -> TokenModel {
        match self {
            Token::EOF => TokenModel::EOF,
            Token::Error(e) => TokenModel::Error(e@),
            Token::Illegal(c) => TokenModel::Illegal(*c),
            Token::Ident(s) => TokenModel::Ident(s@),
            Token::IntLiteral(v) => TokenModel::IntLiteral(*v),
            Token::CharLiteral(c) => TokenModel::CharLiteral(*c),
            Token::Plus => TokenModel::Plus,
            Token::Minus => TokenModel::Minus,
            Token::Asterisk => TokenModel::Asterisk,
            Token::Slash => TokenModel::Slash,
            Token::Percent => TokenModel::Percent,
            Token::Equal => TokenModel::Equal,
            Token::NotEqual => TokenModel::NotEqual,
            Token::Lt => TokenModel::Lt,
            Token::Gt => TokenModel::Gt,
            Token::Le => TokenModel::Le,
            Token::Ge => TokenModel::Ge,
            Token::Assign => TokenModel::Assign,
            Token::And => TokenModel::And,
            Token::Or => TokenModel::Or,
            Token::Not => TokenModel::Not,
            Token::Ampersand => TokenModel::Ampersand,
            Token::BitOr => TokenModel::BitOr,
            Token::BitXor => TokenModel::BitXor,
            Token::Semicolon => TokenModel::Semicolon,
            Token::Comma => TokenModel::Comma,
            Token::LParen => TokenModel::LParen,
            Token::RParen => TokenModel::RParen,
            Token::LBrace => TokenModel::LBrace,
            Token::RBrace => TokenModel::RBrace,
            Token::LBracket => TokenModel::LBracket,
            Token::RBracket => TokenModel::RBracket,
            Token::If => TokenModel::If,
            Token::Else => TokenModel::Else,
            Token::While => TokenModel::While,
            Token::For => TokenModel::For,
            Token::Return => TokenModel::Return,
            Token::Break => TokenModel::Break,
            Token::Continue => TokenModel::Continue,
            Token::Int => TokenModel::Int,
            Token::Char => TokenModel::Char,
            Token::Void => TokenModel::Void,
            Token::Increment => TokenModel::Increment,
            Token::Decrement => TokenModel::Decrement,
            Token::PlusAssign => TokenModel::PlusAssign,
            Token::MinusAssign => TokenModel::MinusAssign,
            Token::AsteriskAssign => TokenModel::AsteriskAssign,
            Token::SlashAssign => TokenModel::SlashAssign,
            Token::ModuloAssign => TokenModel::ModuloAssign,
            Token::BitOrAssign => TokenModel::BitOrAssign,
            Token::BitAndAssign => TokenModel::BitAndAssign,
            Token::BitXorAssign => TokenModel::BitXorAssign,
        }
    }
}

impl Clone for Token {
    fn clone(&self) -> (r: Self)
        ensures
            r == *self,
    {
        match self {
            Token::EOF => Token::EOF,
            Token::Error(e) => Token::Error(e.clone()),
            Token::Illegal(c) => Token::Illegal(*c),
            Token::Ident(s) => Token::Ident(s.clone()),
            Token::IntLiteral(v) => Token::IntLiteral(*v),
            Token::CharLiteral(c) => Token::CharLiteral(*c),
            Token::Plus => Token::Plus,
            Token::Minus => Token::Minus,
            Token::Asterisk => Token::Asterisk,
            Token::Slash => Token::Slash,
            Token::Percent => Token::Percent,
            Token::Equal => Token::Equal,
            Token::NotEqual => Token::NotEqual,
            Token::Lt => Token::Lt,
            Token::Gt => Token::Gt,
            Token::Le => Token::Le,
            Token::Ge => Token::Ge,
            Token::Assign => Token::Assign,
            Token::And => Token::And,
            Token::Or => Token::Or,
            Token::Not => Token::Not,
            Token::Ampersand => Token::Ampersand,
            Token::BitOr => Token::BitOr,
            Token::BitXor => Token::BitXor,
            Token::Semicolon => Token::Semicolon,
            Token::Comma => Token::Comma,
            Token::LParen => Token::LParen,
            Token::RParen => Token::RParen,
            Token::LBrace => Token::LBrace,
            Token::RBrace => Token::RBrace,
            Token::LBracket => Token::LBracket,
            Token::RBracket => Token::RBracket,
            Token::If => Token::If,
            Token::Else => Token::Else,
            Token::While => Token::While,
            Token::For => Token::For,
            Token::Return => Token::Return,
            Token::Break => Token::Break,
            Token::Continue => Token::Continue,
            Token::Int => Token::Int,
            Token::Char => Token::Char,
            Token::Void => Token::Void,
            Token::Increment => Token::Increment,
            Token::Decrement => Token::Decrement,
            Token::PlusAssign => Token::PlusAssign,
            Token::MinusAssign => Token::MinusAssign,
            Token::AsteriskAssign => Token::AsteriskAssign,
            Token::SlashAssign => Token::SlashAssign,
            Token::ModuloAssign => Token::ModuloAssign,
            Token::BitOrAssign => Token::BitOrAssign,
            Token::BitAndAssign => Token::BitAndAssign,
            Token::BitXorAssign => Token::BitXorAssign,
        }
    }
}

impl PartialEq for Token {
    #[verifier::rlimit(60)]
    fn eq(&self, other: &Token) -> (r: bool) {
        match (self, other) {
            (Token::EOF, Token::EOF) => true,
            (Token::Error(a), Token::Error(b)) => a.eq(b),
            (Token::Illegal(a), Token::Illegal(b)) => *a == *b,
            (Token::Ident(a), Token::Ident(b)) => a.eq(b),
            (Token::IntLiteral(a), Token::IntLiteral(b)) => *a == *b,
            (Token::CharLiteral(a), Token::CharLiteral(b)) => *a == *b,
            (Token::Plus, Token::Plus) => true,
            (Token::Minus, Token::Minus) => true,
            (Token::Asterisk, Token::Asterisk) => true,
            (Token::Slash, Token::Slash) => true,
            (Token::Percent, Token::Percent) => true,
            (Token::Equal, Token::Equal) => true,
            (Token::NotEqual, Token::NotEqual) => true,
            (Token::Lt, Token::Lt) => true,
            (Token::Gt, Token::Gt) => true,
            (Token::Le, Token::Le) => true,
            (Token::Ge, Token::Ge) => true,
            (Token::Assign, Token::Assign) => true,
            (Token::And, Token::And) => true,
            (Token::Or, Token::Or) => true,
            (Token::Not, Token::Not) => true,
            (Token::Ampersand, Token::Ampersand) => true,
            (Token::BitOr, Token::BitOr) => true,
            (Token::BitXor, Token::BitXor) => true,
            (Token::Semicolon, Token::Semicolon) => true,
            (Token::Comma, Token::Comma) => true,
            (Token::LParen, Token::LParen) => true,
            (Token::RParen, Token::RParen) => true,
            (Token::LBrace, Token::LBrace) => true,
            (Token::RBrace, Token::RBrace) => true,
            (Token::LBracket, Token::LBracket) => true,
            (Token::RBracket, Token::RBracket) => true,
            (Token::If, Token::If) => true,
            (Token::Else, Token::Else) => true,
            (Token::While, Token::While) => true,
            (Token::For, Token::For) => true,
            (Token::Return, Token::Return) => true,
            (Token::Break, Token::Break) => true,
            (Token::Continue, Token::Continue) => true,
            (Token::Int, Token::Int) => true,
            (Token::Char, Token::Char) => true,
            (Token::Void, Token::Void) => true,
            (Token::Increment, Token::Increment) => true,
            (Token::Decrement, Token::Decrement) => true,
            (Token::PlusAssign, Token::PlusAssign) => true,
            (Token::MinusAssign, Token::MinusAssign) => true,
            (Token::AsteriskAssign, Token::AsteriskAssign) => true,
            (Token::SlashAssign, Token::SlashAssign) => true,
            (Token::ModuloAssign, Token::ModuloAssign) => true,
            (Token::BitOrAssign, Token::BitOrAssign) => true,
            (Token::BitAndAssign, Token::BitAndAssign) => true,
            (Token::BitXorAssign, Token::BitXorAssign) => true,
            _ => false,
        }
    }
}

impl vstd::std_specs::cmp::PartialEqSpecImpl for Token {
    open spec fn obeys_eq_spec() -> bool {
        true
    }

    open spec fn eq_spec(&self, other: &Token) -> bool {
        self@ == other@
    }
}

/// A token together with the line and column at which it starts.
/// Lines and columns are 1-based.
#[derive(Debug, Clone)]
pub struct SpannedToken {
    pub kind: Token,
    pub line: usize,
    pub column: usize,
}

/// Mathematical image of a [`SpannedToken`].
pub struct SpannedTokenModel {
    pub kind: TokenModel,
    pub line: int,
    pub column: int,
}

impl View for SpannedToken {
    type V = SpannedTokenModel;

    open spec fn view(&self) -> SpannedTokenModel {
        SpannedTokenModel { kind: self.kind@, line: self.line as int, column: self.column as int }
    }
}

/// What an identifier-shaped word denotes: one of the ten reserved
/// words, or an identifier.
pub open spec fn keyword_or_ident(s: Seq<char>) -> TokenModel {
    if s == "int"@ {
        TokenModel::Int
    } else if s == "char"@ {
        TokenModel::Char
    } else if s == "void"@ {
        TokenModel::Void
    } else if s == "if"@ {
        TokenModel::If
    } else if s == "else"@ {
        TokenModel::Else
    } else if s == "while"@ {
        TokenModel::While
    } else if s == "for"@ {
        TokenModel::For
    } else if s == "return"@ {
        TokenModel::Return
    } else if s == "break"@ {
        TokenModel::Break
    } else if s == "continue"@ {
        TokenModel::Continue
    } else {
        TokenModel::Ident(s)
    }
}

/// Maps a word to its keyword token, or wraps it as an identifier.
pub fn lookup_ident(ident: &str) -> (r: Token)
    ensures
        r@ == keyword_or_ident(ident@),
{
    let s = String::from_str(ident);
    if s == String::from_str("int") {
        Token::Int
    } else if s == String::from_str("char") {
        Token::Char
    } else if s == String::from_str("void") {
        Token::Void
    } else if s == String::from_str("if") {
        Token::If
    } else if s == String::from_str("else") {
        Token::Else
    } else if s == String::from_str("while") {
        Token::While
    } else if s == String::from_str("for") {
        Token::For
    } else if s == String::from_str("return") {
        Token::Return
    } else if s == String::from_str("break") {
        Token::Break
    } else if s == String::from_str("continue") {
        Token::Continue
    } else {
        Token::Ident(s)
    }
}

} // verus!
