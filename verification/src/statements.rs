//! Statement parsing: blocks, control flow, declarations and
//! expression statements.
//!
//! The `sp_*` spec functions state the statement grammar as
//! mathematics; each executable parser below is proved to compute
//! exactly its model.

use vstd::prelude::*;
use vstd::string::StringExecFns;
use crate::ast::{Block, Declarator, DeclaratorModel, Stmt, StmtModel, declarator_model,
    decls_model, stmt_model, stmts_model, lemma_decls_model_push, lemma_stmts_model_push};
use crate::token::{SpannedToken, Token, TokenModel};
use crate::parse_error::{ParseResult, ParserErrorModel};
use crate::parser::{Parser, span_at, tok_at};
use crate::expression::{expect_m, sp_expr, sp_initializer};
use crate::function::sp_type;

verus! {

/// The model of consuming one identifier, as `expect_ident` does.
pub open spec fn ident_m(toks: Seq<SpannedToken>, i: int) -> Result<
    (Seq<char>, int),
    ParserErrorModel,
> {
    match tok_at(toks, i) {
        TokenModel::Ident(name) => Ok((name, i + 1)),
        TokenModel::EOF => Err(
            ParserErrorModel::UnexpectedEOF {
                expected: "identifier"@,
                line: span_at(toks, i).0,
                col: span_at(toks, i).1,
            },
        ),
        t => Err(
            ParserErrorModel::UnexpectedToken {
                expected: t,
                found: t,
                line: span_at(toks, i).0,
                col: span_at(toks, i).1,
            },
        ),
    }
}

/// The model of consuming one integer literal.
pub open spec fn int_lit_m(toks: Seq<SpannedToken>, i: int) -> Result<
    (i64, int),
    ParserErrorModel,
> {
    match tok_at(toks, i) {
        TokenModel::IntLiteral(v) => Ok((v, i + 1)),
        TokenModel::EOF => Err(
            ParserErrorModel::UnexpectedEOF {
                expected: "integer literal"@,
                line: span_at(toks, i).0,
                col: span_at(toks, i).1,
            },
        ),
        t => Err(
            ParserErrorModel::UnexpectedToken {
                expected: t,
                found: t,
                line: span_at(toks, i).0,
                col: span_at(toks, i).1,
            },
        ),
    }
}

/// The model of one statement of any kind.
pub open spec fn sp_statement(toks: Seq<SpannedToken>, i: int) -> Result<
    (StmtModel, int),
    ParserErrorModel,
>
    decreases toks.len() - i, 20int,
{
    match tok_at(toks, i) {
        TokenModel::LBrace => match sp_block(toks, i) {
            Err(e) => Err(e),
            Ok((items, j)) => Ok((StmtModel::Block(items), j)),
        },
        TokenModel::If => sp_if(toks, i),
        TokenModel::While => sp_while(toks, i),
        TokenModel::For => sp_for(toks, i),
        TokenModel::Return => sp_return(toks, i),
        TokenModel::Break => sp_break(toks, i),
        TokenModel::Continue => sp_continue(toks, i),
        TokenModel::Int => sp_decl_stmt(toks, i),
        TokenModel::Char => sp_decl_stmt(toks, i),
        _ => sp_expr_stmt(toks, i),
    }
}

/// `expression_statement ::= expression? ";"`
pub open spec fn sp_expr_stmt(toks: Seq<SpannedToken>, i: int) -> Result<
    (StmtModel, int),
    ParserErrorModel,
>
    decreases toks.len() - i, 19int,
{
    if tok_at(toks, i) is Semicolon {
        match expect_m(toks, i, TokenModel::Semicolon) {
            Err(e) => Err(e),
            Ok(j) => Ok((StmtModel::ExprStmt(None), j)),
        }
    } else {
        match sp_expr(toks, i) {
            Err(e) => Err(e),
            Ok((e, j)) => match expect_m(toks, j, TokenModel::Semicolon) {
                Err(em) => Err(em),
                Ok(k) => Ok((StmtModel::ExprStmt(Some(e)), k)),
            },
        }
    }
}

/// `declaration_statement ::= type_specifier init_declarator_list ";"`
pub open spec fn sp_decl_stmt(toks: Seq<SpannedToken>, i: int) -> Result<
    (StmtModel, int),
    ParserErrorModel,
>
    decreases toks.len() - i, 19int,
{
    match sp_type(toks, i) {
        Err(e) => Err(e),
        Ok((ty, j)) => if !(i < j <= toks.len()) {
            arbitrary()
        } else {
            match sp_init_decl_list(toks, j) {
                Err(e) => Err(e),
                Ok((ds, k)) => match expect_m(toks, k, TokenModel::Semicolon) {
                    Err(em) => Err(em),
                    Ok(m) => Ok((StmtModel::Declaration { ty, declarators: ds }, m)),
                },
            }
        },
    }
}

/// `init_declarator_list ::= init_declarator ( "," init_declarator )*`
pub open spec fn sp_init_decl_list(toks: Seq<SpannedToken>, i: int) -> Result<
    (Seq<DeclaratorModel>, int),
    ParserErrorModel,
>
    decreases toks.len() - i, 12int,
{
    match sp_init_decl(toks, i) {
        Err(e) => Err(e),
        Ok((d, j)) => if !(i < j <= toks.len()) {
            arbitrary()
        } else {
            sp_idl_more(toks, j, seq![d])
        },
    }
}

/// The comma-led repetition of an init-declarator list.
pub open spec fn sp_idl_more(toks: Seq<SpannedToken>, i: int, acc: Seq<DeclaratorModel>) -> Result<
    (Seq<DeclaratorModel>, int),
    ParserErrorModel,
>
    decreases toks.len() - i, 11int,
{
    if tok_at(toks, i) is Comma {
        match sp_init_decl(toks, i + 1) {
            Err(e) => Err(e),
            Ok((d, j)) => if !(i < j <= toks.len()) {
                arbitrary()
            } else {
                sp_idl_more(toks, j, acc.push(d))
            },
        }
    } else {
        Ok((acc, i))
    }
}

/// `init_declarator ::= declarator ( "=" initializer )?`
pub open spec fn sp_init_decl(toks: Seq<SpannedToken>, i: int) -> Result<
    (DeclaratorModel, int),
    ParserErrorModel,
>
    decreases toks.len() - i, 10int,
{
    match sp_declarator(toks, i) {
        Err(e) => Err(e),
        Ok((d, j)) => if !(i <= j <= toks.len()) {
            arbitrary()
        } else if tok_at(toks, j) is Assign {
            match sp_initializer(toks, j + 1) {
                Err(e) => Err(e),
                Ok((e, k)) => Ok(
                    (
                        DeclaratorModel {
                            name: d.name,
                            array_size: d.array_size,
                            init: Some(e),
                        },
                        k,
                    ),
                ),
            }
        } else {
            Ok((d, j))
        },
    }
}

/// `declarator ::= identifier ( "[" int_literal "]" )?`
pub open spec fn sp_declarator(toks: Seq<SpannedToken>, i: int) -> Result<
    (DeclaratorModel, int),
    ParserErrorModel,
>
    decreases toks.len() - i, 9int,
{
    match ident_m(toks, i) {
        Err(e) => Err(e),
        Ok((name, j)) => if tok_at(toks, j) is LBracket {
            match int_lit_m(toks, j + 1) {
                Err(e) => Err(e),
                Ok((sz, k)) => match expect_m(toks, k, TokenModel::RBracket) {
                    Err(em) => Err(em),
                    Ok(m) => Ok(
                        (DeclaratorModel { name, array_size: Some(sz), init: None }, m),
                    ),
                },
            }
        } else {
            Ok((DeclaratorModel { name, array_size: None, init: None }, j))
        },
    }
}

/// `if_statement ::= "if" "(" expression ")" statement ( "else" statement )?`
pub open spec fn sp_if(toks: Seq<SpannedToken>, i: int) -> Result<
    (StmtModel, int),
    ParserErrorModel,
>
    decreases toks.len() - i, 19int,
{
    match expect_m(toks, i, TokenModel::If) {
        Err(e) => Err(e),
        Ok(j1) => match expect_m(toks, j1, TokenModel::LParen) {
            Err(e) => Err(e),
            Ok(j2) => if !(i < j2 <= toks.len()) {
                arbitrary()
            } else {
                match sp_expr(toks, j2) {
                    Err(e) => Err(e),
                    Ok((cond, j3)) => match expect_m(toks, j3, TokenModel::RParen) {
                        Err(e) => Err(e),
                        Ok(j4) => if !(i < j4 <= toks.len()) {
                            arbitrary()
                        } else {
                            match sp_statement(toks, j4) {
                                Err(e) => Err(e),
                                Ok((thenb, j5)) => if !(i < j5 <= toks.len()) {
                                    arbitrary()
                                } else if tok_at(toks, j5) is Else {
                                    match sp_statement(toks, j5 + 1) {
                                        Err(e) => Err(e),
                                        Ok((elseb, j6)) => Ok(
                                            (
                                                StmtModel::If {
                                                    cond,
                                                    then_branch: Box::new(thenb),
                                                    else_branch: Some(Box::new(elseb)),
                                                },
                                                j6,
                                            ),
                                        ),
                                    }
                                } else {
                                    Ok(
                                        (
                                            StmtModel::If {
                                                cond,
                                                then_branch: Box::new(thenb),
                                                else_branch: None,
                                            },
                                            j5,
                                        ),
                                    )
                                },
                            }
                        },
                    },
                }
            },
        },
    }
}

/// `while_statement ::= "while" "(" expression ")" statement`
pub open spec fn sp_while(toks: Seq<SpannedToken>, i: int) -> Result<
    (StmtModel, int),
    ParserErrorModel,
>
    decreases toks.len() - i, 19int,
{
    match expect_m(toks, i, TokenModel::While) {
        Err(e) => Err(e),
        Ok(j1) => match expect_m(toks, j1, TokenModel::LParen) {
            Err(e) => Err(e),
            Ok(j2) => if !(i < j2 <= toks.len()) {
                arbitrary()
            } else {
                match sp_expr(toks, j2) {
                    Err(e) => Err(e),
                    Ok((cond, j3)) => match expect_m(toks, j3, TokenModel::RParen) {
                        Err(e) => Err(e),
                        Ok(j4) => if !(i < j4 <= toks.len()) {
                            arbitrary()
                        } else {
                            match sp_statement(toks, j4) {
                                Err(e) => Err(e),
                                Ok((body, j5)) => Ok(
                                    (
                                        StmtModel::While { cond, body: Box::new(body) },
                                        j5,
                                    ),
                                ),
                            }
                        },
                    },
                }
            },
        },
    }
}

/// The init part of a `for` header: empty, a declaration, or an
/// expression statement.
pub open spec fn sp_for_init(toks: Seq<SpannedToken>, i: int) -> Result<
    (Option<StmtModel>, int),
    ParserErrorModel,
> {
    let cur = tok_at(toks, i);
    if cur is Semicolon {
        match expect_m(toks, i, TokenModel::Semicolon) {
            Err(e) => Err(e),
            Ok(j) => Ok((None, j)),
        }
    } else if cur is Void || cur is Int || cur is Char {
        match sp_decl_stmt(toks, i) {
            Err(e) => Err(e),
            Ok((d, j)) => Ok((Some(d), j)),
        }
    } else {
        match sp_expr(toks, i) {
            Err(e) => Err(e),
            Ok((e, j)) => match expect_m(toks, j, TokenModel::Semicolon) {
                Err(em) => Err(em),
                Ok(k) => Ok((Some(StmtModel::ExprStmt(Some(e))), k)),
            },
        }
    }
}

/// The optional condition of a `for` header, up to its `;`.
pub open spec fn sp_for_cond(toks: Seq<SpannedToken>, i: int) -> Result<
    (Option<ExprM>, int),
    ParserErrorModel,
> {
    let head: Result<(Option<ExprM>, int), ParserErrorModel> = if tok_at(toks, i) is Semicolon {
        Ok((None, i))
    } else {
        match sp_expr(toks, i) {
            Err(e) => Err(e),
            Ok((c, j)) => Ok((Some(c), j)),
        }
    };
    match head {
        Err(e) => Err(e),
        Ok((cond, j)) => match expect_m(toks, j, TokenModel::Semicolon) {
            Err(em) => Err(em),
            Ok(k) => Ok((cond, k)),
        },
    }
}

/// The optional step of a `for` header, up to its `)`.
pub open spec fn sp_for_step(toks: Seq<SpannedToken>, i: int) -> Result<
    (Option<ExprM>, int),
    ParserErrorModel,
> {
    let head: Result<(Option<ExprM>, int), ParserErrorModel> = if tok_at(toks, i) is RParen {
        Ok((None, i))
    } else {
        match sp_expr(toks, i) {
            Err(e) => Err(e),
            Ok((st, j)) => Ok((Some(st), j)),
        }
    };
    match head {
        Err(e) => Err(e),
        Ok((step, j)) => match expect_m(toks, j, TokenModel::RParen) {
            Err(em) => Err(em),
            Ok(k) => Ok((step, k)),
        },
    }
}

/// `for_statement ::= "for" "(" for_init expression? ";" expression? ")" statement`
pub open spec fn sp_for(toks: Seq<SpannedToken>, i: int) -> Result<
    (StmtModel, int),
    ParserErrorModel,
>
    decreases toks.len() - i, 19int,
{
    match expect_m(toks, i, TokenModel::For) {
        Err(e) => Err(e),
        Ok(j1) => match expect_m(toks, j1, TokenModel::LParen) {
            Err(e) => Err(e),
            Ok(j2) => if !(i < j2 <= toks.len()) {
                arbitrary()
            } else {
                match sp_for_init(toks, j2) {
                    Err(e) => Err(e),
                    Ok((init, j5)) => match sp_for_cond(toks, j5) {
                        Err(e) => Err(e),
                        Ok((cond, j7)) => match sp_for_step(toks, j7) {
                            Err(e) => Err(e),
                            Ok((step, j9)) => if !(i < j9 <= toks.len()) {
                                arbitrary()
                            } else {
                                match sp_statement(toks, j9) {
                                    Err(e) => Err(e),
                                    Ok((body, j10)) => Ok(
                                        (
                                            StmtModel::For {
                                                init: match init {
                                                    Some(s0) => Some(Box::new(s0)),
                                                    None => None,
                                                },
                                                cond,
                                                step,
                                                body: Box::new(body),
                                            },
                                            j10,
                                        ),
                                    ),
                                }
                            },
                        },
                    },
                }
            },
        },
    }
}

/// The image type of an expression, shortened for the models above.
pub type ExprM = crate::ast::ExprModel;

/// `return_statement ::= "return" expression? ";"`
pub open spec fn sp_return(toks: Seq<SpannedToken>, i: int) -> Result<
    (StmtModel, int),
    ParserErrorModel,
>
    decreases toks.len() - i, 19int,
{
    match expect_m(toks, i, TokenModel::Return) {
        Err(e) => Err(e),
        Ok(j1) => if !(i < j1 <= toks.len()) {
            arbitrary()
        } else {
            let val_r: Result<(Option<ExprM>, int), ParserErrorModel> = if tok_at(toks, j1)
                is Semicolon {
                Ok((None, j1))
            } else {
                match sp_expr(toks, j1) {
                    Err(e) => Err(e),
                    Ok((e, j2)) => Ok((Some(e), j2)),
                }
            };
            match val_r {
                Err(e) => Err(e),
                Ok((val, j2)) => match expect_m(toks, j2, TokenModel::Semicolon) {
                    Err(e) => Err(e),
                    Ok(j3) => Ok((StmtModel::Return(val), j3)),
                },
            }
        },
    }
}

/// `break_statement ::= "break" ";"`
pub open spec fn sp_break(toks: Seq<SpannedToken>, i: int) -> Result<
    (StmtModel, int),
    ParserErrorModel,
> {
    match expect_m(toks, i, TokenModel::Break) {
        Err(e) => Err(e),
        Ok(j1) => match expect_m(toks, j1, TokenModel::Semicolon) {
            Err(e) => Err(e),
            Ok(j2) => Ok((StmtModel::Break, j2)),
        },
    }
}

/// `continue_statement ::= "continue" ";"`
pub open spec fn sp_continue(toks: Seq<SpannedToken>, i: int) -> Result<
    (StmtModel, int),
    ParserErrorModel,
> {
    match expect_m(toks, i, TokenModel::Continue) {
        Err(e) => Err(e),
        Ok(j1) => match expect_m(toks, j1, TokenModel::Semicolon) {
            Err(e) => Err(e),
            Ok(j2) => Ok((StmtModel::Continue, j2)),
        },
    }
}

/// `block ::= "{" statement* "}"`, yielding the statements inside.
pub open spec fn sp_block(toks: Seq<SpannedToken>, i: int) -> Result<
    (Seq<StmtModel>, int),
    ParserErrorModel,
>
    decreases toks.len() - i, 18int,
{
    match expect_m(toks, i, TokenModel::LBrace) {
        Err(e) => Err(e),
        Ok(j) => if !(i < j <= toks.len()) {
            arbitrary()
        } else {
            sp_block_items(toks, j, Seq::empty())
        },
    }
}

/// The statements of a block up to and including the closing brace.
pub open spec fn sp_block_items(toks: Seq<SpannedToken>, i: int, acc: Seq<StmtModel>) -> Result<
    (Seq<StmtModel>, int),
    ParserErrorModel,
>
    decreases toks.len() - i, 22int,
{
    if tok_at(toks, i) is RBrace {
        match expect_m(toks, i, TokenModel::RBrace) {
            Err(e) => Err(e),
            Ok(j) => Ok((acc, j)),
        }
    } else if tok_at(toks, i) is EOF {
        Err(
            ParserErrorModel::UnexpectedEOF {
                expected: "`}`"@,
                line: span_at(toks, i).0,
                col: span_at(toks, i).1,
            },
        )
    } else {
        match sp_statement(toks, i) {
            Err(e) => Err(e),
            Ok((s, j)) => if !(i < j <= toks.len()) {
                arbitrary()
            } else {
                sp_block_items(toks, j, acc.push(s))
            },
        }
    }
}

} // verus!

verus! {

impl Parser {
    /// Parses one statement of any kind.
    pub fn parse_statement(&mut self) -> (r: ParseResult<Stmt>)
        requires
            old(self).wf(),
        ensures
            final(self).wf(),
            final(self).toks() == old(self).toks(),
            old(self).at() <= final(self).at(),
            r is Ok ==> final(self).at() > old(self).at(),
            match r {
                Ok(s) => sp_statement(old(self).toks(), old(self).at()) == Ok::<
                    (StmtModel, int),
                    ParserErrorModel,
                >((s@, final(self).at())),
                Err(pe) => sp_statement(old(self).toks(), old(self).at()) == Err::<
                    (StmtModel, int),
                    ParserErrorModel,
                >(pe@),
            },
        decreases self.toks().len() - self.at(), 20int,
    {
        match self.current_token() {
            Token::LBrace => {
                let block = self.parse_block_statement()?;
                Ok(Stmt::Block(block))
            },
            Token::If => self.parse_if_statement(),
            Token::While => self.parse_while_statement(),
            Token::For => self.parse_for_statement(),
            Token::Return => self.parse_return_statement(),
            Token::Break => self.parse_break_statement(),
            Token::Continue => self.parse_continue_statement(),
            Token::Int => self.parse_declaration_statement(),
            Token::Char => self.parse_declaration_statement(),
            _ => self.parse_expression_statement(),
        }
    }

    /// `expression_statement ::= expression? ";"`
    pub fn parse_expression_statement(&mut self) -> (r: ParseResult<Stmt>)
        requires
            old(self).wf(),
        ensures
            final(self).wf(),
            final(self).toks() == old(self).toks(),
            old(self).at() <= final(self).at(),
            r is Ok ==> final(self).at() > old(self).at(),
            match r {
                Ok(s) => sp_expr_stmt(old(self).toks(), old(self).at()) == Ok::<
                    (StmtModel, int),
                    ParserErrorModel,
                >((s@, final(self).at())),
                Err(pe) => sp_expr_stmt(old(self).toks(), old(self).at()) == Err::<
                    (StmtModel, int),
                    ParserErrorModel,
                >(pe@),
            },
        decreases self.toks().len() - self.at(), 19int,
    {
        let expr: Option<crate::ast::Expr> = if matches!(self.current_token(), Token::Semicolon) {
            None
        } else {
            Some(self.parse_expr()?)
        };
        self.expect(Token::Semicolon)?;
        Ok(Stmt::ExprStmt(expr))
    }

    /// `declaration_statement ::= type_specifier init_declarator_list ";"`
    pub fn parse_declaration_statement(&mut self) -> (r: ParseResult<Stmt>)
        requires
            old(self).wf(),
        ensures
            final(self).wf(),
            final(self).toks() == old(self).toks(),
            old(self).at() <= final(self).at(),
            r is Ok ==> final(self).at() > old(self).at(),
            match r {
                Ok(s) => sp_decl_stmt(old(self).toks(), old(self).at()) == Ok::<
                    (StmtModel, int),
                    ParserErrorModel,
                >((s@, final(self).at())),
                Err(pe) => sp_decl_stmt(old(self).toks(), old(self).at()) == Err::<
                    (StmtModel, int),
                    ParserErrorModel,
                >(pe@),
            },
        decreases self.toks().len() - self.at(), 19int,
    {
        let ty = self.parse_type_specifier()?;
        let declarators = self.parse_init_declarator_list()?;
        self.expect(Token::Semicolon)?;
        Ok(Stmt::Declaration { ty, declarators })
    }

    /// `init_declarator_list ::= init_declarator ( "," init_declarator )*`
    #[verifier::loop_isolation(false)]
    pub fn parse_init_declarator_list(&mut self) -> (r: ParseResult<Vec<Declarator>>)
        requires
            old(self).wf(),
        ensures
            final(self).wf(),
            final(self).toks() == old(self).toks(),
            old(self).at() <= final(self).at(),
            r is Ok ==> final(self).at() > old(self).at(),
            match r {
                Ok(ds) => sp_init_decl_list(old(self).toks(), old(self).at()) == Ok::<
                    (Seq<DeclaratorModel>, int),
                    ParserErrorModel,
                >((decls_model(ds, 0), final(self).at())),
                Err(pe) => sp_init_decl_list(old(self).toks(), old(self).at()) == Err::<
                    (Seq<DeclaratorModel>, int),
                    ParserErrorModel,
                >(pe@),
            },
        decreases self.toks().len() - self.at(), 18int,
    {
        let mut list: Vec<Declarator> = Vec::new();
        let first = self.parse_init_declarator()?;
        let ghost empty_list = list;
        list.push(first);
        proof {
            lemma_decls_model_push(empty_list, list, first);
            assert(decls_model(empty_list, 0) =~= Seq::<DeclaratorModel>::empty());
            assert(decls_model(list, 0) =~= seq![declarator_model(first)]);
        }
        loop
            invariant
                self.wf(),
                self.toks() == old(self).toks(),
                old(self).at() < self.at(),
                sp_init_decl_list(old(self).toks(), old(self).at()) == sp_idl_more(
                    old(self).toks(),
                    self.at(),
                    decls_model(list, 0),
                ),
            decreases self.toks().len() - self.at(),
        {
            if !(matches!(self.current_token(), Token::Comma)) {
                break ;
            }
            self.next_token();
            let d = self.parse_init_declarator()?;
            let ghost list_before = list;
            list.push(d);
            proof {
                lemma_decls_model_push(list_before, list, d);
            }
        }
        Ok(list)
    }

    /// `init_declarator ::= declarator ( "=" initializer )?`
    pub fn parse_init_declarator(&mut self) -> (r: ParseResult<Declarator>)
        requires
            old(self).wf(),
        ensures
            final(self).wf(),
            final(self).toks() == old(self).toks(),
            old(self).at() <= final(self).at(),
            r is Ok ==> final(self).at() > old(self).at(),
            match r {
                Ok(d) => sp_init_decl(old(self).toks(), old(self).at()) == Ok::<
                    (DeclaratorModel, int),
                    ParserErrorModel,
                >((d@, final(self).at())),
                Err(pe) => sp_init_decl(old(self).toks(), old(self).at()) == Err::<
                    (DeclaratorModel, int),
                    ParserErrorModel,
                >(pe@),
            },
        decreases self.toks().len() - self.at(), 17int,
    {
        let mut decl = self.parse_declarator()?;
        if matches!(self.current_token(), Token::Assign) {
            self.next_token();
            let init_expr = self.parse_initializer()?;
            decl.init = Some(init_expr);
        }
        Ok(decl)
    }

    /// `declarator ::= identifier ( "[" int_literal "]" )?`
    pub fn parse_declarator(&mut self) -> (r: ParseResult<Declarator>)
        requires
            old(self).wf(),
        ensures
            final(self).wf(),
            final(self).toks() == old(self).toks(),
            old(self).at() <= final(self).at(),
            r is Ok ==> final(self).at() > old(self).at(),
            match r {
                Ok(d) => sp_declarator(old(self).toks(), old(self).at()) == Ok::<
                    (DeclaratorModel, int),
                    ParserErrorModel,
                >((d@, final(self).at())) && d.init is None,
                Err(pe) => sp_declarator(old(self).toks(), old(self).at()) == Err::<
                    (DeclaratorModel, int),
                    ParserErrorModel,
                >(pe@),
            },
        decreases self.toks().len() - self.at(), 16int,
    {
        let name = self.expect_ident()?;
        let array_size: Option<i64> = if matches!(self.current_token(), Token::LBracket) {
            self.next_token();
            let sz = self.expect_int_literal()?;
            self.expect(Token::RBracket)?;
            Some(sz)
        } else {
            None
        };
        Ok(Declarator { name, array_size, init: None })
    }

    /// `if_statement ::= "if" "(" expression ")" statement ( "else" statement )?`
    ///
    /// A dangling `else` binds to the nearest preceding `if`.
    pub fn parse_if_statement(&mut self) -> (r: ParseResult<Stmt>)
        requires
            old(self).wf(),
        ensures
            final(self).wf(),
            final(self).toks() == old(self).toks(),
            old(self).at() <= final(self).at(),
            r is Ok ==> final(self).at() > old(self).at(),
            match r {
                Ok(s) => sp_if(old(self).toks(), old(self).at()) == Ok::<
                    (StmtModel, int),
                    ParserErrorModel,
                >((s@, final(self).at())),
                Err(pe) => sp_if(old(self).toks(), old(self).at()) == Err::<
                    (StmtModel, int),
                    ParserErrorModel,
                >(pe@),
            },
        decreases self.toks().len() - self.at(), 19int,
    {
        self.expect(Token::If)?;
        self.expect(Token::LParen)?;
        let cond = self.parse_expr()?;
        self.expect(Token::RParen)?;
        let then_branch = Box::new(self.parse_statement()?);
        let else_branch: Option<Box<Stmt>> = if matches!(self.current_token(), Token::Else) {
            self.expect(Token::Else)?;
            Some(Box::new(self.parse_statement()?))
        } else {
            None
        };
        Ok(Stmt::If { cond, then_branch, else_branch })
    }

    /// `continue_statement ::= "continue" ";"`
    pub fn parse_continue_statement(&mut self) -> (r: ParseResult<Stmt>)
        requires
            old(self).wf(),
        ensures
            final(self).wf(),
            final(self).toks() == old(self).toks(),
            old(self).at() <= final(self).at(),
            r is Ok ==> final(self).at() > old(self).at(),
            match r {
                Ok(s) => sp_continue(old(self).toks(), old(self).at()) == Ok::<
                    (StmtModel, int),
                    ParserErrorModel,
                >((s@, final(self).at())),
                Err(pe) => sp_continue(old(self).toks(), old(self).at()) == Err::<
                    (StmtModel, int),
                    ParserErrorModel,
                >(pe@),
            },
        decreases self.toks().len() - self.at(), 19int,
    {
        self.expect(Token::Continue)?;
        self.expect(Token::Semicolon)?;
        Ok(Stmt::Continue)
    }

    /// `break_statement ::= "break" ";"`
    pub fn parse_break_statement(&mut self) -> (r: ParseResult<Stmt>)
        requires
            old(self).wf(),
        ensures
            final(self).wf(),
            final(self).toks() == old(self).toks(),
            old(self).at() <= final(self).at(),
            r is Ok ==> final(self).at() > old(self).at(),
            match r {
                Ok(s) => sp_break(old(self).toks(), old(self).at()) == Ok::<
                    (StmtModel, int),
                    ParserErrorModel,
                >((s@, final(self).at())),
                Err(pe) => sp_break(old(self).toks(), old(self).at()) == Err::<
                    (StmtModel, int),
                    ParserErrorModel,
                >(pe@),
            },
        decreases self.toks().len() - self.at(), 19int,
    {
        self.expect(Token::Break)?;
        self.expect(Token::Semicolon)?;
        Ok(Stmt::Break)
    }

    /// `block ::= "{" statement* "}"`
    #[verifier::loop_isolation(false)]
    pub fn parse_block_statement(&mut self) -> (r: ParseResult<Block>)
        requires
            old(self).wf(),
        ensures
            final(self).wf(),
            final(self).toks() == old(self).toks(),
            old(self).at() <= final(self).at(),
            r is Ok ==> final(self).at() > old(self).at(),
            match r {
                Ok(b) => sp_block(old(self).toks(), old(self).at()) == Ok::<
                    (Seq<StmtModel>, int),
                    ParserErrorModel,
                >((stmts_model(b.statements, 0), final(self).at())),
                Err(pe) => sp_block(old(self).toks(), old(self).at()) == Err::<
                    (Seq<StmtModel>, int),
                    ParserErrorModel,
                >(pe@),
            },
        decreases self.toks().len() - self.at(), 18int,
    {
        self.expect(Token::LBrace)?;
        let mut statements: Vec<Stmt> = Vec::new();
        proof {
            assert(stmts_model(statements, 0) =~= Seq::<StmtModel>::empty());
        }
        loop
            invariant
                self.wf(),
                self.toks() == old(self).toks(),
                old(self).at() < self.at(),
                sp_block(old(self).toks(), old(self).at()) == sp_block_items(
                    old(self).toks(),
                    self.at(),
                    stmts_model(statements, 0),
                ),
            decreases self.toks().len() - self.at(),
        {
            if matches!(self.current_token(), Token::RBrace) {
                break ;
            }
            if self.current_token().eq(&Token::EOF) {
                return self.unexpected_eof(String::from_str("`}`"));
            }
            let stmt = self.parse_statement()?;
            let ghost stmts_before = statements;
            statements.push(stmt);
            proof {
                lemma_stmts_model_push(stmts_before, statements, stmt);
            }
        }
        self.expect(Token::RBrace)?;
        Ok(Block { statements })
    }

    /// `while_statement ::= "while" "(" expression ")" statement`
    pub fn parse_while_statement(&mut self) -> (r: ParseResult<Stmt>)
        requires
            old(self).wf(),
        ensures
            final(self).wf(),
            final(self).toks() == old(self).toks(),
            old(self).at() <= final(self).at(),
            r is Ok ==> final(self).at() > old(self).at(),
            match r {
                Ok(s) => sp_while(old(self).toks(), old(self).at()) == Ok::<
                    (StmtModel, int),
                    ParserErrorModel,
                >((s@, final(self).at())),
                Err(pe) => sp_while(old(self).toks(), old(self).at()) == Err::<
                    (StmtModel, int),
                    ParserErrorModel,
                >(pe@),
            },
        decreases self.toks().len() - self.at(), 19int,
    {
        self.expect(Token::While)?;
        self.expect(Token::LParen)?;
        let cond = self.parse_expr()?;
        self.expect(Token::RParen)?;
        let body = Box::new(self.parse_statement()?);
        Ok(Stmt::While { cond, body })
    }

    /// `for_statement ::= "for" "(" for_init ";"? expression? ";" expression? ")" statement`
    ///
    /// The init part is empty, a declaration, or an expression
    /// statement; a declaration or expression consumes its own `;`.
    #[verifier::rlimit(100)]
    #[verifier::spinoff_prover]
    pub fn parse_for_statement(&mut self) -> (r: ParseResult<Stmt>)
        requires
            old(self).wf(),
        ensures
            final(self).wf(),
            final(self).toks() == old(self).toks(),
            old(self).at() <= final(self).at(),
            r is Ok ==> final(self).at() > old(self).at(),
            match r {
                Ok(s) => sp_for(old(self).toks(), old(self).at()) == Ok::<
                    (StmtModel, int),
                    ParserErrorModel,
                >((s@, final(self).at())),
                Err(pe) => sp_for(old(self).toks(), old(self).at()) == Err::<
                    (StmtModel, int),
                    ParserErrorModel,
                >(pe@),
            },
        decreases self.toks().len() - self.at(), 19int,
    {
        self.expect(Token::For)?;
        self.expect(Token::LParen)?;
        let ghost j2 = self.at();
        let is_decl = matches!(self.current_token(), Token::Void | Token::Int | Token::Char);
        let init: Option<Box<Stmt>> = if matches!(self.current_token(), Token::Semicolon) {
            self.expect(Token::Semicolon)?;
            None
        } else if is_decl {
            Some(Box::new(self.parse_declaration_statement()?))
        } else {
            let e = self.parse_expr()?;
            self.expect(Token::Semicolon)?;
            Some(Box::new(Stmt::ExprStmt(Some(e))))
        };
        proof {
            assert(sp_for_init(old(self).toks(), j2) == Ok::<
                (Option<StmtModel>, int),
                ParserErrorModel,
            >((
                match init {
                    Some(s0) => Some(stmt_model(*s0)),
                    None => None,
                },
                self.at(),
            )));
        }
        let ghost j5 = self.at();
        let cond: Option<crate::ast::Expr> = if matches!(self.current_token(), Token::Semicolon) {
            None
        } else {
            Some(self.parse_expr()?)
        };
        self.expect(Token::Semicolon)?;
        proof {
            assert(sp_for_cond(old(self).toks(), j5) == Ok::<
                (Option<ExprM>, int),
                ParserErrorModel,
            >((
                match cond {
                    Some(c) => Some(crate::ast::expr_model(c)),
                    None => None,
                },
                self.at(),
            )));
        }
        let ghost j7 = self.at();
        let step: Option<crate::ast::Expr> = if matches!(self.current_token(), Token::RParen) {
            None
        } else {
            Some(self.parse_expr()?)
        };
        self.expect(Token::RParen)?;
        proof {
            assert(sp_for_step(old(self).toks(), j7) == Ok::<
                (Option<ExprM>, int),
                ParserErrorModel,
            >((
                match step {
                    Some(st) => Some(crate::ast::expr_model(st)),
                    None => None,
                },
                self.at(),
            )));
        }
        let body = Box::new(self.parse_statement()?);
        Ok(Stmt::For { init, cond, step, body })
    }

    /// `return_statement ::= "return" expression? ";"`
    pub fn parse_return_statement(&mut self) -> (r: ParseResult<Stmt>)
        requires
            old(self).wf(),
        ensures
            final(self).wf(),
            final(self).toks() == old(self).toks(),
            old(self).at() <= final(self).at(),
            r is Ok ==> final(self).at() > old(self).at(),
            match r {
                Ok(s) => sp_return(old(self).toks(), old(self).at()) == Ok::<
                    (StmtModel, int),
                    ParserErrorModel,
                >((s@, final(self).at())),
                Err(pe) => sp_return(old(self).toks(), old(self).at()) == Err::<
                    (StmtModel, int),
                    ParserErrorModel,
                >(pe@),
            },
        decreases self.toks().len() - self.at(), 19int,
    {
        self.expect(Token::Return)?;
        let expr: Option<crate::ast::Expr> = if matches!(self.current_token(), Token::Semicolon) {
            None
        } else {
            Some(self.parse_expr()?)
        };
        self.expect(Token::Semicolon)?;
        Ok(Stmt::Return(expr))
    }
}

} // verus!
