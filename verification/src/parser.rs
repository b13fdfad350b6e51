//! The parser's cursor over the token stream, and its low-level
//! helpers: inspecting, consuming and expecting tokens.

use vstd::prelude::*;
use vstd::string::StringExecFns;
use crate::token::{SpannedToken, Token, TokenModel};
use crate::parse_error::{ParseResult, ParserError, ParserErrorModel};

verus! {

/// The kind of the token at position `i`, or `EOF` past the end.
pub open spec fn tok_at(toks: Seq<SpannedToken>, i: int) -> TokenModel {
    if 0 <= i < toks.len() {
        toks[i].kind@
    } else {
        TokenModel::EOF
    }
}

/// The span reported for position `i`: the token's own span, or
/// `(0, 0)` past the end.
pub open spec fn span_at(toks: Seq<SpannedToken>, i: int) -> (int, int) {
    if 0 <= i < toks.len() {
        (toks[i].line as int, toks[i].column as int)
    } else {
        (0, 0)
    }
}

/// A short printable description of a token, used in end-of-input
/// diagnostics.
pub open spec fn token_desc(t: TokenModel) -> Seq<char> {
    match t {
        TokenModel::EOF => "end of file"@,
        TokenModel::Error(_) => "lexical error"@,
        TokenModel::Illegal(_) => "illegal character"@,
        TokenModel::Ident(_) => "identifier"@,
        TokenModel::IntLiteral(_) => "integer literal"@,
        TokenModel::CharLiteral(_) => "char literal"@,
        TokenModel::Plus => "`+`"@,
        TokenModel::Minus => "`-`"@,
        TokenModel::Asterisk => "`*`"@,
        TokenModel::Slash => "`/`"@,
        TokenModel::Percent => "`%`"@,
        TokenModel::Equal => "`==`"@,
        TokenModel::NotEqual => "`!=`"@,
        TokenModel::Lt => "`<`"@,
        TokenModel::Gt => "`>`"@,
        TokenModel::Le => "`<=`"@,
        TokenModel::Ge => "`>=`"@,
        TokenModel::Assign => "`=`"@,
        TokenModel::And => "`&&`"@,
        TokenModel::Or => "`||`"@,
        TokenModel::Not => "`!`"@,
        TokenModel::Ampersand => "`&`"@,
        TokenModel::BitOr => "`|`"@,
        TokenModel::BitXor => "`^`"@,
        TokenModel::Semicolon => "`;`"@,
        TokenModel::Comma => "`,`"@,
        TokenModel::LParen => "`(`"@,
        TokenModel::RParen => "`)`"@,
        TokenModel::LBrace => "`{`"@,
        TokenModel::RBrace => "`}`"@,
        TokenModel::LBracket => "`[`"@,
        TokenModel::RBracket => "`]`"@,
        TokenModel::If => "`if`"@,
        TokenModel::Else => "`else`"@,
        TokenModel::While => "`while`"@,
        TokenModel::For => "`for`"@,
        TokenModel::Return => "`return`"@,
        TokenModel::Break => "`break`"@,
        TokenModel::Continue => "`continue`"@,
        TokenModel::Int => "`int`"@,
        TokenModel::Char => "`char`"@,
        TokenModel::Void => "`void`"@,
        TokenModel::Increment => "`++`"@,
        TokenModel::Decrement => "`--`"@,
        TokenModel::PlusAssign => "`+=`"@,
        TokenModel::MinusAssign => "`-=`"@,
        TokenModel::AsteriskAssign => "`*=`"@,
        TokenModel::SlashAssign => "`/=`"@,
        TokenModel::ModuloAssign => "`%=`"@,
        TokenModel::BitOrAssign => "`|=`"@,
        TokenModel::BitAndAssign => "`&=`"@,
        TokenModel::BitXorAssign => "`^=`"@,
    }
}

/// A short printable description of `t`, for diagnostics.
pub fn describe_token(t: &Token) -> (r: String)
    ensures
        r@ == token_desc(t@),
{
    match t {
        Token::EOF => String::from_str("end of file"),
        Token::Error(_) => String::from_str("lexical error"),
        Token::Illegal(_) => String::from_str("illegal character"),
        Token::Ident(_) => String::from_str("identifier"),
        Token::IntLiteral(_) => String::from_str("integer literal"),
        Token::CharLiteral(_) => String::from_str("char literal"),
        Token::Plus => String::from_str("`+`"),
        Token::Minus => String::from_str("`-`"),
        Token::Asterisk => String::from_str("`*`"),
        Token::Slash => String::from_str("`/`"),
        Token::Percent => String::from_str("`%`"),
        Token::Equal => String::from_str("`==`"),
        Token::NotEqual => String::from_str("`!=`"),
        Token::Lt => String::from_str("`<`"),
        Token::Gt => String::from_str("`>`"),
        Token::Le => String::from_str("`<=`"),
        Token::Ge => String::from_str("`>=`"),
        Token::Assign => String::from_str("`=`"),
        Token::And => String::from_str("`&&`"),
        Token::Or => String::from_str("`||`"),
        Token::Not => String::from_str("`!`"),
        Token::Ampersand => String::from_str("`&`"),
        Token::BitOr => String::from_str("`|`"),
        Token::BitXor => String::from_str("`^`"),
        Token::Semicolon => String::from_str("`;`"),
        Token::Comma => String::from_str("`,`"),
        Token::LParen => String::from_str("`(`"),
        Token::RParen => String::from_str("`)`"),
        Token::LBrace => String::from_str("`{`"),
        Token::RBrace => String::from_str("`}`"),
        Token::LBracket => String::from_str("`[`"),
        Token::RBracket => String::from_str("`]`"),
        Token::If => String::from_str("`if`"),
        Token::Else => String::from_str("`else`"),
        Token::While => String::from_str("`while`"),
        Token::For => String::from_str("`for`"),
        Token::Return => String::from_str("`return`"),
        Token::Break => String::from_str("`break`"),
        Token::Continue => String::from_str("`continue`"),
        Token::Int => String::from_str("`int`"),
        Token::Char => String::from_str("`char`"),
        Token::Void => String::from_str("`void`"),
        Token::Increment => String::from_str("`++`"),
        Token::Decrement => String::from_str("`--`"),
        Token::PlusAssign => String::from_str("`+=`"),
        Token::MinusAssign => String::from_str("`-=`"),
        Token::AsteriskAssign => String::from_str("`*=`"),
        Token::SlashAssign => String::from_str("`/=`"),
        Token::ModuloAssign => String::from_str("`%=`"),
        Token::BitOrAssign => String::from_str("`|=`"),
        Token::BitAndAssign => String::from_str("`&=`"),
        Token::BitXorAssign => String::from_str("`^=`"),
    }
}

/// The recursive-descent parser: a token vector and a cursor into it.
pub struct Parser {
    tokens: Vec<SpannedToken>,
    pos: usize,
    eof: Token,
}

impl Parser {
    /// The tokens being parsed.
    pub closed spec fn toks(&self) -> Seq<SpannedToken> {
        self.tokens@
    }

    /// The cursor position.
    pub closed spec fn at(&self) -> int {
        self.pos as int
    }

    /// The out-of-range placeholder the cursor hands out is `EOF`.
    pub closed spec fn eof_ok(&self) -> bool {
        self.eof == Token::EOF
    }

    /// The cursor stays within the token vector.
    pub open spec fn wf(&self) -> bool {
        self.at() <= self.toks().len() && self.eof_ok()
    }

    /// The kind of the current token, `EOF` when past the end.
    pub open spec fn cur(&self) -> TokenModel {
        tok_at(self.toks(), self.at())
    }

    /// Creates a parser at the start of the token vector.
    pub fn new(tokens: Vec<SpannedToken>) -> (r: Parser)
        ensures
            r.wf(),
            r.toks() == tokens@,
            r.at() == 0,
    {
        Parser { tokens, pos: 0, eof: Token::EOF }
    }

    /// The current token, or `EOF` when the cursor is past the end.
    pub fn current_token(&self) -> (r: &Token)
        requires
            self.wf(),
        ensures
            r@ == self.cur(),
    {
        if self.pos < self.tokens.len() {
            &self.tokens[self.pos].kind
        } else {
            &self.eof
        }
    }

    /// The line and column of the current token, or `(0, 0)` past the
    /// end.
    pub fn current_span(&self) -> (r: (usize, usize))
        requires
            self.wf(),
        ensures
            (r.0 as int, r.1 as int) == span_at(self.toks(), self.at()),
    {
        if self.pos < self.tokens.len() {
            (self.tokens[self.pos].line, self.tokens[self.pos].column)
        } else {
            (0, 0)
        }
    }

    /// The token after the current one, or `EOF`.
    pub fn peek_token(&self) -> (r: &Token)
        requires
            self.wf(),
        ensures
            r@ == tok_at(self.toks(), self.at() + 1),
    {
        if self.pos < self.tokens.len() && self.pos + 1 < self.tokens.len() {
            &self.tokens[self.pos + 1].kind
        } else {
            &self.eof
        }
    }

    /// Advances the cursor by one token, saturating at the end.
    pub fn next_token(&mut self)
        requires
            old(self).wf(),
        ensures
            final(self).wf(),
            final(self).toks() == old(self).toks(),
            final(self).at() == if old(self).at() < old(self).toks().len() {
                old(self).at() + 1
            } else {
                old(self).at()
            },
    {
        if self.pos < self.tokens.len() {
            self.pos = self.pos + 1;
        }
    }

    /// Fails with an end-of-input error naming what was required.
    pub fn unexpected_eof<T>(&self, expected: String) -> (r: ParseResult<T>)
        requires
            self.wf(),
        ensures
            r matches Err(e) && e@ == (ParserErrorModel::UnexpectedEOF {
                expected: expected@,
                line: span_at(self.toks(), self.at()).0,
                col: span_at(self.toks(), self.at()).1,
            }),
    {
        let (line, col) = self.current_span();
        Err(ParserError::UnexpectedEOF { expected, line, col })
    }

    /// Fails because the current token is not the expected one.
    pub fn unexpected_token<T>(&self, expected: Token) -> (r: ParseResult<T>)
        requires
            self.wf(),
        ensures
            r matches Err(e) && e@ == (ParserErrorModel::UnexpectedToken {
                expected: expected@,
                found: self.cur(),
                line: span_at(self.toks(), self.at()).0,
                col: span_at(self.toks(), self.at()).1,
            }),
    {
        let (line, col) = self.current_span();
        let found = self.current_token().clone();
        Err(ParserError::UnexpectedToken { expected, found, line, col })
    }

    /// Fails because no production matches the current token.
    pub fn unsupported_token<T>(&self) -> (r: ParseResult<T>)
        requires
            self.wf(),
        ensures
            r matches Err(e) && e@ == (ParserErrorModel::UnsupportedToken {
                found: self.cur(),
                line: span_at(self.toks(), self.at()).0,
                col: span_at(self.toks(), self.at()).1,
            }),
    {
        let (line, col) = self.current_span();
        let found = self.current_token().clone();
        Err(ParserError::UnsupportedToken { found, line, col })
    }

    /// Consumes the current token if it equals `expected`; otherwise
    /// reports what was found.
    pub fn expect(&mut self, expected: Token) -> (r: ParseResult<()>)
        requires
            old(self).wf(),
        ensures
            final(self).wf(),
            final(self).toks() == old(self).toks(),
            match r {
                Ok(()) => old(self).cur() == expected@ && final(self).at() == if old(self).at()
                    < old(self).toks().len() {
                    old(self).at() + 1
                } else {
                    old(self).at()
                },
                Err(e) => {
                    &&& old(self).cur() != expected@
                    &&& final(self).at() == old(self).at()
                    &&& if old(self).cur() is EOF {
                        e@ == (ParserErrorModel::UnexpectedEOF {
                            expected: token_desc(expected@),
                            line: span_at(old(self).toks(), old(self).at()).0,
                            col: span_at(old(self).toks(), old(self).at()).1,
                        })
                    } else {
                        e@ == (ParserErrorModel::UnexpectedToken {
                            expected: expected@,
                            found: old(self).cur(),
                            line: span_at(old(self).toks(), old(self).at()).0,
                            col: span_at(old(self).toks(), old(self).at()).1,
                        })
                    }
                },
            },
    {
        if self.current_token().eq(&expected) {
            self.next_token();
            Ok(())
        } else if self.current_token().eq(&Token::EOF) {
            let msg = describe_token(&expected);
            self.unexpected_eof(msg)
        } else {
            self.unexpected_token(expected)
        }
    }

    /// Consumes an identifier and yields its name.
    pub fn expect_ident(&mut self) -> (r: ParseResult<String>)
        requires
            old(self).wf(),
        ensures
            final(self).wf(),
            final(self).toks() == old(self).toks(),
            match r {
                Ok(name) => {
                    &&& old(self).cur() == TokenModel::Ident(name@)
                    &&& final(self).at() == old(self).at() + 1
                    &&& old(self).at() < old(self).toks().len()
                },
                Err(e) => {
                    &&& !(old(self).cur() is Ident)
                    &&& final(self).at() == old(self).at()
                    &&& if old(self).cur() is EOF {
                        e@ == (ParserErrorModel::UnexpectedEOF {
                            expected: "identifier"@,
                            line: span_at(old(self).toks(), old(self).at()).0,
                            col: span_at(old(self).toks(), old(self).at()).1,
                        })
                    } else {
                        e@ == (ParserErrorModel::UnexpectedToken {
                            expected: old(self).cur(),
                            found: old(self).cur(),
                            line: span_at(old(self).toks(), old(self).at()).0,
                            col: span_at(old(self).toks(), old(self).at()).1,
                        })
                    }
                },
            },
    {
        let is_ident = matches!(self.current_token(), Token::Ident(_));
        if is_ident {
            let name = match self.current_token() {
                Token::Ident(n) => n.clone(),
                _ => {
                    proof {
                        assert(false);
                    }
                    String::new()
                },
            };
            self.next_token();
            Ok(name)
        } else if self.current_token().eq(&Token::EOF) {
            self.unexpected_eof(String::from_str("identifier"))
        } else {
            let found = self.current_token().clone();
            self.unexpected_token(found)
        }
    }

    /// Consumes an integer literal and yields its value.
    pub fn expect_int_literal(&mut self) -> (r: ParseResult<i64>)
        requires
            old(self).wf(),
        ensures
            final(self).wf(),
            final(self).toks() == old(self).toks(),
            match r {
                Ok(v) => {
                    &&& old(self).cur() == TokenModel::IntLiteral(v)
                    &&& final(self).at() == old(self).at() + 1
                    &&& old(self).at() < old(self).toks().len()
                },
                Err(e) => {
                    &&& !(old(self).cur() is IntLiteral)
                    &&& final(self).at() == old(self).at()
                    &&& if old(self).cur() is EOF {
                        e@ == (ParserErrorModel::UnexpectedEOF {
                            expected: "integer literal"@,
                            line: span_at(old(self).toks(), old(self).at()).0,
                            col: span_at(old(self).toks(), old(self).at()).1,
                        })
                    } else {
                        e@ == (ParserErrorModel::UnexpectedToken {
                            expected: old(self).cur(),
                            found: old(self).cur(),
                            line: span_at(old(self).toks(), old(self).at()).0,
                            col: span_at(old(self).toks(), old(self).at()).1,
                        })
                    }
                },
            },
    {
        let value: Option<i64> = match self.current_token() {
            Token::IntLiteral(v) => Some(*v),
            _ => None,
        };
        match value {
            Some(v) => {
                self.next_token();
                Ok(v)
            },
            None => {
                if self.current_token().eq(&Token::EOF) {
                    self.unexpected_eof(String::from_str("integer literal"))
                } else {
                    let found = self.current_token().clone();
                    self.unexpected_token(found)
                }
            },
        }
    }

    /// Consumes a character literal and yields its value.
    pub fn expect_char_literal(&mut self) -> (r: ParseResult<char>)
        requires
            old(self).wf(),
        ensures
            final(self).wf(),
            final(self).toks() == old(self).toks(),
            match r {
                Ok(v) => {
                    &&& old(self).cur() == TokenModel::CharLiteral(v)
                    &&& final(self).at() == old(self).at() + 1
                    &&& old(self).at() < old(self).toks().len()
                },
                Err(e) => {
                    &&& !(old(self).cur() is CharLiteral)
                    &&& final(self).at() == old(self).at()
                    &&& if old(self).cur() is EOF {
                        e@ == (ParserErrorModel::UnexpectedEOF {
                            expected: "char literal"@,
                            line: span_at(old(self).toks(), old(self).at()).0,
                            col: span_at(old(self).toks(), old(self).at()).1,
                        })
                    } else {
                        e@ == (ParserErrorModel::UnexpectedToken {
                            expected: old(self).cur(),
                            found: old(self).cur(),
                            line: span_at(old(self).toks(), old(self).at()).0,
                            col: span_at(old(self).toks(), old(self).at()).1,
                        })
                    }
                },
            },
    {
        let value: Option<char> = match self.current_token() {
            Token::CharLiteral(v) => Some(*v),
            _ => None,
        };
        match value {
            Some(v) => {
                self.next_token();
                Ok(v)
            },
            None => {
                if self.current_token().eq(&Token::EOF) {
                    self.unexpected_eof(String::from_str("char literal"))
                } else {
                    let found = self.current_token().clone();
                    self.unexpected_token(found)
                }
            },
        }
    }
}

} // verus!
