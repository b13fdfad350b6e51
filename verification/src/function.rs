//! Parsing of type specifiers, parameter lists, function headers and
//! whole programs, each proved against its grammar model.

use vstd::prelude::*;
use crate::ast::{Block, Function, FunctionModel, Parameter, ParameterModel, Program, TypeSpecifier,
    function_model, functions_model, lemma_functions_model_push, lemma_params_model_push,
    parameter_model, params_model, stmts_model};
use crate::token::{SpannedToken, Token, TokenModel};
use crate::parse_error::{ParseResult, ParserError, ParserErrorModel};
use crate::parser::{Parser, span_at, tok_at};
use crate::statements::{ident_m, int_lit_m, sp_block};
use crate::expression::expect_m;

verus! {

/// How many consecutive `*` tokens stand at position `i`.
pub open spec fn aster_run(toks: Seq<SpannedToken>, i: int) -> int
    decreases toks.len() - i,
{
    if 0 <= i < toks.len() && tok_at(toks, i) is Asterisk {
        1 + aster_run(toks, i + 1)
    } else {
        0
    }
}

/// `base` wrapped in `n` levels of pointer.
pub open spec fn wrap_ptr(base: TypeSpecifier, n: int) -> TypeSpecifier
    decreases n,
{
    if n <= 0 {
        base
    } else {
        TypeSpecifier::Pointer(Box::new(wrap_ptr(base, n - 1)))
    }
}

/// The base type a type-specifier keyword denotes.
pub open spec fn base_ty_of(t: TokenModel) -> TypeSpecifier {
    if t is Int {
        TypeSpecifier::Int
    } else if t is Char {
        TypeSpecifier::Char
    } else {
        TypeSpecifier::Void
    }
}

/// `type_specifier ::= ( "int" | "char" | "void" ) "*"*`
pub open spec fn sp_type(toks: Seq<SpannedToken>, i: int) -> Result<
    (TypeSpecifier, int),
    ParserErrorModel,
> {
    let t = tok_at(toks, i);
    if t is Int || t is Char || t is Void {
        Ok((wrap_ptr(base_ty_of(t), aster_run(toks, i + 1)), i + 1 + aster_run(toks, i + 1)))
    } else {
        Err(
            ParserErrorModel::UnsupportedToken {
                found: t,
                line: span_at(toks, i).0,
                col: span_at(toks, i).1,
            },
        )
    }
}

/// One parameter: a type, an optional name, and an optional array
/// suffix that turns the type into a pointer.
pub open spec fn sp_parameter(toks: Seq<SpannedToken>, i: int) -> Result<
    (ParameterModel, int),
    ParserErrorModel,
> {
    match sp_type(toks, i) {
        Err(e) => Err(e),
        Ok((base, j)) => {
            let named: (Seq<char>, int) = match tok_at(toks, j) {
                TokenModel::Ident(n) => (n, j + 1),
                _ => (Seq::empty(), j),
            };
            let name = named.0;
            let k = named.1;
            if tok_at(toks, k) is LBracket {
                if tok_at(toks, k + 1) is RBracket {
                    match expect_m(toks, k + 1, TokenModel::RBracket) {
                        Err(e) => Err(e),
                        Ok(m) => Ok(
                            (
                                ParameterModel {
                                    name,
                                    ty: TypeSpecifier::Pointer(Box::new(base)),
                                },
                                m,
                            ),
                        ),
                    }
                } else {
                    match int_lit_m(toks, k + 1) {
                        Err(e) => Err(e),
                        Ok((_sz, m1)) => match expect_m(toks, m1, TokenModel::RBracket) {
                            Err(e) => Err(e),
                            Ok(m) => Ok(
                                (
                                    ParameterModel {
                                        name,
                                        ty: TypeSpecifier::Pointer(Box::new(base)),
                                    },
                                    m,
                                ),
                            ),
                        },
                    }
                }
            } else {
                Ok((ParameterModel { name, ty: base }, k))
            }
        },
    }
}

/// `parameter_list ::= parameter ( "," parameter )*`, stopping at
/// `)`; any other separator is unsupported.
pub open spec fn sp_param_items(toks: Seq<SpannedToken>, i: int, acc: Seq<ParameterModel>) -> Result<
    (Seq<ParameterModel>, int),
    ParserErrorModel,
>
    decreases toks.len() - i,
{
    match sp_parameter(toks, i) {
        Err(e) => Err(e),
        Ok((p, j)) => if !(i < j <= toks.len()) {
            arbitrary()
        } else {
            let acc2 = acc.push(p);
            match tok_at(toks, j) {
                TokenModel::Comma => sp_param_items(toks, j + 1, acc2),
                TokenModel::RParen => Ok((acc2, j)),
                t => Err(
                    ParserErrorModel::UnsupportedToken {
                        found: t,
                        line: span_at(toks, j).0,
                        col: span_at(toks, j).1,
                    },
                ),
            }
        },
    }
}

/// `parameters ::= "void" | parameter_list | (nothing)`: a single
/// `void` before `)` marks an empty list.
pub open spec fn sp_parameters(toks: Seq<SpannedToken>, i: int) -> Result<
    (Seq<ParameterModel>, int),
    ParserErrorModel,
> {
    if tok_at(toks, i) is Void && tok_at(toks, i + 1) is RParen {
        Ok((Seq::empty(), i + 1))
    } else if tok_at(toks, i) is RParen {
        Ok((Seq::empty(), i))
    } else {
        sp_param_items(toks, i, Seq::empty())
    }
}

/// `function ::= type_specifier identifier "(" parameters ")" ( block | ";" )`
///
/// A `;` ends a prototype, whose body is empty.
pub open spec fn sp_function(toks: Seq<SpannedToken>, i: int) -> Result<
    (FunctionModel, int),
    ParserErrorModel,
> {
    match sp_type(toks, i) {
        Err(e) => Err(e),
        Ok((ret, j1)) => match ident_m(toks, j1) {
            Err(e) => Err(e),
            Ok((name, j2)) => match expect_m(toks, j2, TokenModel::LParen) {
                Err(e) => Err(e),
                Ok(j3) => match sp_parameters(toks, j3) {
                    Err(e) => Err(e),
                    Ok((params, j4)) => match expect_m(toks, j4, TokenModel::RParen) {
                        Err(e) => Err(e),
                        Ok(j5) => if tok_at(toks, j5) is Semicolon {
                            Ok(
                                (
                                    FunctionModel {
                                        name,
                                        return_ty: ret,
                                        params,
                                        body: Seq::empty(),
                                    },
                                    if j5 < toks.len() {
                                        j5 + 1
                                    } else {
                                        j5
                                    },
                                ),
                            )
                        } else if tok_at(toks, j5) is LBrace {
                            match sp_block(toks, j5) {
                                Err(e) => Err(e),
                                Ok((body, j6)) => Ok(
                                    (
                                        FunctionModel { name, return_ty: ret, params, body },
                                        j6,
                                    ),
                                ),
                            }
                        } else {
                            Err(
                                ParserErrorModel::UnexpectedToken {
                                    expected: TokenModel::Semicolon,
                                    found: tok_at(toks, j5),
                                    line: span_at(toks, j5).0,
                                    col: span_at(toks, j5).1,
                                },
                            )
                        },
                    },
                },
            },
        },
    }
}

/// `program ::= function*`, ending at `EOF`.
pub open spec fn sp_program_items(
    toks: Seq<SpannedToken>,
    i: int,
    acc: Seq<FunctionModel>,
) -> Result<(Seq<FunctionModel>, int), ParserErrorModel>
    decreases toks.len() - i,
{
    if tok_at(toks, i) is EOF {
        Ok((acc, i))
    } else {
        match sp_function(toks, i) {
            Err(e) => Err(e),
            Ok((f, j)) => if !(i < j <= toks.len()) {
                arbitrary()
            } else {
                sp_program_items(toks, j, acc.push(f))
            },
        }
    }
}

/// The model of a whole parse: all functions up to `EOF`.
pub open spec fn sp_program(toks: Seq<SpannedToken>, i: int) -> Result<
    (Seq<FunctionModel>, int),
    ParserErrorModel,
> {
    sp_program_items(toks, i, Seq::empty())
}

impl Parser {
    /// `type_specifier ::= ( "int" | "char" | "void" ) "*"*`
    ///
    /// Yields the base type wrapped in one pointer level per `*`.
    #[verifier::loop_isolation(false)]
    pub fn parse_type_specifier(&mut self) -> (r: ParseResult<TypeSpecifier>)
        requires
            old(self).wf(),
        ensures
            final(self).wf(),
            final(self).toks() == old(self).toks(),
            old(self).at() <= final(self).at(),
            r is Ok ==> final(self).at() > old(self).at(),
            match r {
                Ok(ty) => sp_type(old(self).toks(), old(self).at()) == Ok::<
                    (TypeSpecifier, int),
                    ParserErrorModel,
                >((ty, final(self).at())),
                Err(pe) => sp_type(old(self).toks(), old(self).at()) == Err::<
                    (TypeSpecifier, int),
                    ParserErrorModel,
                >(pe@),
            },
        decreases self.toks().len() - self.at(), 1int,
    {
        let base_ty: TypeSpecifier = match self.current_token() {
            Token::Int => TypeSpecifier::Int,
            Token::Char => TypeSpecifier::Char,
            Token::Void => TypeSpecifier::Void,
            _ => {
                return self.unsupported_token();
            },
        };
        self.next_token();
        let ghost run_start = self.at();
        let mut ty = base_ty;
        let ghost mut count: int = 0;
        loop
            invariant
                self.wf(),
                self.toks() == old(self).toks(),
                run_start <= self.at(),
                count == self.at() - run_start,
                ty == wrap_ptr(base_ty, count),
                aster_run(self.toks(), run_start) == count + aster_run(self.toks(), self.at()),
            decreases self.toks().len() - self.at(),
        {
            if !(matches!(self.current_token(), Token::Asterisk)) {
                break ;
            }
            self.next_token();
            ty = TypeSpecifier::Pointer(Box::new(ty));
            proof {
                count = count + 1;
            }
        }
        Ok(ty)
    }

    /// `function ::= type_specifier identifier "(" parameters? ")"`,
    /// up to but not including the body.
    fn parse_function_header(&mut self) -> (r: ParseResult<(TypeSpecifier, String, Vec<Parameter>)>)
        requires
            old(self).wf(),
        ensures
            final(self).wf(),
            final(self).toks() == old(self).toks(),
            old(self).at() <= final(self).at(),
            match r {
                Ok(h) => ({
                    let t = old(self).toks();
                    let r1 = sp_type(t, old(self).at());
                    let r2 = ident_m(t, r1->Ok_0.1);
                    let r3 = expect_m(t, r2->Ok_0.1, TokenModel::LParen);
                    let r4 = sp_parameters(t, r3->Ok_0);
                    let r5 = expect_m(t, r4->Ok_0.1, TokenModel::RParen);
                    &&& final(self).at() > old(self).at()
                    &&& r1 is Ok && r1->Ok_0.0 == h.0
                    &&& r2 is Ok && r2->Ok_0.0 == h.1@
                    &&& r3 is Ok
                    &&& r4 is Ok && r4->Ok_0.0 == params_model(h.2, 0)
                    &&& r5 == Ok::<int, ParserErrorModel>(final(self).at())
                }),
                Err(pe) => ({
                    ||| sp_type(old(self).toks(), old(self).at()) == Err::<
                        (TypeSpecifier, int),
                        ParserErrorModel,
                    >(pe@)
                    ||| sp_function(old(self).toks(), old(self).at()) == Err::<
                        (FunctionModel, int),
                        ParserErrorModel,
                    >(pe@)
                }),
            },
        decreases self.toks().len() - self.at(), 24int,
    {
        let return_ty = self.parse_type_specifier()?;
        let name = self.expect_ident()?;
        self.expect(Token::LParen)?;
        let params = self.parse_parameters()?;
        self.expect(Token::RParen)?;
        Ok((return_ty, name, params))
    }

    /// `function ::= header ( block | ";" )`
    ///
    /// A `;` ends a prototype: its body is an empty block.
    #[verifier::rlimit(60)]
    pub fn parse_function(&mut self) -> (r: ParseResult<Function>)
        requires
            old(self).wf(),
        ensures
            final(self).wf(),
            final(self).toks() == old(self).toks(),
            old(self).at() <= final(self).at(),
            r is Ok ==> final(self).at() > old(self).at(),
            match r {
                Ok(f) => sp_function(old(self).toks(), old(self).at()) == Ok::<
                    (FunctionModel, int),
                    ParserErrorModel,
                >((f@, final(self).at())),
                Err(pe) => sp_function(old(self).toks(), old(self).at()) == Err::<
                    (FunctionModel, int),
                    ParserErrorModel,
                >(pe@),
            },
        decreases self.toks().len() - self.at(), 25int,
    {
        let (return_ty, name, params) = self.parse_function_header()?;
        let body: Block = if matches!(self.current_token(), Token::Semicolon) {
            self.next_token();
            let empty_block = Block { statements: Vec::new() };
            proof {
                assert(stmts_model(empty_block.statements, 0) =~= Seq::<
                    crate::ast::StmtModel,
                >::empty());
            }
            empty_block
        } else if matches!(self.current_token(), Token::LBrace) {
            self.parse_block_statement()?
        } else {
            let (line, col) = self.current_span();
            let found = self.current_token().clone();
            return Err(ParserError::UnexpectedToken {
                expected: Token::Semicolon,
                found,
                line,
                col,
            });
        };
        Ok(Function { name, return_ty, params, body })
    }

    /// `parameters ::= "void" | parameter_list | (nothing)`
    ///
    /// A single `void` marks an empty parameter list.
    pub fn parse_parameters(&mut self) -> (r: ParseResult<Vec<Parameter>>)
        requires
            old(self).wf(),
        ensures
            final(self).wf(),
            final(self).toks() == old(self).toks(),
            old(self).at() <= final(self).at(),
            match r {
                Ok(ps) => sp_parameters(old(self).toks(), old(self).at()) == Ok::<
                    (Seq<ParameterModel>, int),
                    ParserErrorModel,
                >((params_model(ps, 0), final(self).at())),
                Err(pe) => sp_parameters(old(self).toks(), old(self).at()) == Err::<
                    (Seq<ParameterModel>, int),
                    ParserErrorModel,
                >(pe@),
            },
        decreases self.toks().len() - self.at(), 23int,
    {
        let void_marker = matches!(self.current_token(), Token::Void) && matches!(
            self.peek_token(),
            Token::RParen,
        );
        if void_marker {
            self.next_token();
            let none: Vec<Parameter> = Vec::new();
            proof {
                assert(params_model(none, 0) =~= Seq::<ParameterModel>::empty());
            }
            return Ok(none);
        }
        if matches!(self.current_token(), Token::RParen) {
            let none: Vec<Parameter> = Vec::new();
            proof {
                assert(params_model(none, 0) =~= Seq::<ParameterModel>::empty());
            }
            return Ok(none);
        }
        self.parse_parameter_list()
    }

    /// `parameter_list ::= parameter ( "," parameter )*` where
    /// `parameter ::= type_specifier identifier? ( "[" int_literal? "]" )?`
    ///
    /// A prototype may leave a parameter unnamed. An array suffix
    /// turns the parameter type into a pointer to the base type; the
    /// size inside the brackets is parsed and discarded.
    #[verifier::loop_isolation(false)]
    #[verifier::rlimit(60)]
    pub fn parse_parameter_list(&mut self) -> (r: ParseResult<Vec<Parameter>>)
        requires
            old(self).wf(),
            !(tok_at(old(self).toks(), old(self).at()) is RParen),
        ensures
            final(self).wf(),
            final(self).toks() == old(self).toks(),
            old(self).at() <= final(self).at(),
            match r {
                Ok(ps) => sp_param_items(old(self).toks(), old(self).at(), Seq::empty()) == Ok::<
                    (Seq<ParameterModel>, int),
                    ParserErrorModel,
                >((params_model(ps, 0), final(self).at())),
                Err(pe) => sp_param_items(old(self).toks(), old(self).at(), Seq::empty())
                    == Err::<(Seq<ParameterModel>, int), ParserErrorModel>(pe@),
            },
        decreases self.toks().len() - self.at(), 22int,
    {
        let mut params: Vec<Parameter> = Vec::new();
        proof {
            assert(params_model(params, 0) =~= Seq::<ParameterModel>::empty());
        }
        loop
            invariant
                self.wf(),
                self.toks() == old(self).toks(),
                old(self).at() <= self.at(),
                sp_param_items(old(self).toks(), old(self).at(), Seq::empty())
                    == sp_param_items(old(self).toks(), self.at(), params_model(params, 0)),
            decreases self.toks().len() - self.at(),
        {
            let base_ty = self.parse_type_specifier()?;
            let name: String = if matches!(self.current_token(), Token::Ident(_)) {
                self.expect_ident()?
            } else {
                String::new()
            };
            let ty: TypeSpecifier = if matches!(self.current_token(), Token::LBracket) {
                self.next_token();
                if !(matches!(self.current_token(), Token::RBracket)) {
                    let _sz = self.expect_int_literal()?;
                }
                self.expect(Token::RBracket)?;
                TypeSpecifier::Pointer(Box::new(base_ty))
            } else {
                base_ty
            };
            let p = Parameter { name, ty };
            let ghost params_before = params;
            params.push(p);
            proof {
                lemma_params_model_push(params_before, params, p);
            }
            match self.current_token() {
                Token::Comma => {
                    self.next_token();
                },
                Token::RParen => {
                    break ;
                },
                _ => {
                    return self.unsupported_token();
                },
            }
        }
        Ok(params)
    }

    /// `program ::= function*`, ending at `EOF`.
    #[verifier::loop_isolation(false)]
    pub fn parse_program(&mut self) -> (r: ParseResult<Program>)
        requires
            old(self).wf(),
        ensures
            final(self).wf(),
            final(self).toks() == old(self).toks(),
            old(self).at() <= final(self).at(),
            r is Ok ==> final(self).cur() is EOF,
            match r {
                Ok(p) => sp_program(old(self).toks(), old(self).at()) == Ok::<
                    (Seq<FunctionModel>, int),
                    ParserErrorModel,
                >((p@, final(self).at())),
                Err(pe) => sp_program(old(self).toks(), old(self).at()) == Err::<
                    (Seq<FunctionModel>, int),
                    ParserErrorModel,
                >(pe@),
            },
        decreases self.toks().len() - self.at(), 30int,
    {
        let mut functions: Vec<Function> = Vec::new();
        proof {
            assert(functions_model(functions, 0) =~= Seq::<FunctionModel>::empty());
        }
        loop
            invariant
                self.wf(),
                self.toks() == old(self).toks(),
                old(self).at() <= self.at(),
                sp_program(old(self).toks(), old(self).at()) == sp_program_items(
                    old(self).toks(),
                    self.at(),
                    functions_model(functions, 0),
                ),
            decreases self.toks().len() - self.at(),
        {
            if self.current_token().eq(&Token::EOF) {
                break ;
            }
            let func = self.parse_function()?;
            let ghost funcs_before = functions;
            functions.push(func);
            proof {
                lemma_functions_model_push(funcs_before, functions, func);
            }
        }
        let prog = Program { functions };
        Ok(prog)
    }
}

} // verus!
