//! The type checker: re-walks each function after resolution,
//! assigning a type to every expression and enforcing the typing
//! rules.
//!
//! The `*_m` spec functions state the type system as mathematics; the
//! executable checker is proved to decide exactly those rules.

use vstd::prelude::*;
use vstd::string::StringExecFns;
use crate::ast::{BinaryOp, Declarator, Expr, Function, PrefixOp, Program, Stmt, TypeSpecifier,
    expr_calls_wf, fn_calls_wf, program_calls_wf, stmt_calls_wf};
use crate::symbol::{SymbolKind, SymbolKindModel, SymbolModel, lookup_scopes};
use crate::semantic_error::{ResolveError, SemanticError, SemanticErrorModel};
use crate::resolver::{Resolver, Scopes, declare_m, declare_params_m, lemma_params_m_depth};

verus! {

broadcast use vstd::std_specs::vec::group_vec_axioms;

/// The type assigned to expression `e`, or the first type error in
/// it. `ret` is the return type of the enclosing function; it is the
/// fallback type of an empty initializer list.
pub open spec fn check_expr_m(sc: Scopes, ret: TypeSpecifier, e: Expr) -> Result<
    TypeSpecifier,
    SemanticErrorModel,
>
    decreases e, 0int,
{
    match e {
        Expr::IntLiteral(_) => Ok(TypeSpecifier::Int),
        Expr::CharLiteral(_) => Ok(TypeSpecifier::Char),
        Expr::Ident(name) => match lookup_scopes(sc, name@) {
            Some(sym) => Ok(sym.ty),
            None => Err(SemanticErrorModel::UndefinedSymbol(name@)),
        },
        Expr::Assignment { left, op, right } => match check_expr_m(sc, ret, *left) {
            Err(err) => Err(err),
            Ok(lt) => match check_expr_m(sc, ret, *right) {
                Err(err) => Err(err),
                Ok(rt) => if lt == rt {
                    Ok(lt)
                } else {
                    Err(SemanticErrorModel::TypeMismatch(lt, rt))
                },
            },
        },
        Expr::UnaryPrefixOp { op, rhs } => match check_expr_m(sc, ret, *rhs) {
            Err(err) => Err(err),
            Ok(t) => match op {
                PrefixOp::Neg | PrefixOp::Not | PrefixOp::PreInc | PrefixOp::PreDec => if t
                    == TypeSpecifier::Int {
                    Ok(TypeSpecifier::Int)
                } else {
                    Err(SemanticErrorModel::TypeMismatch(TypeSpecifier::Int, t))
                },
                PrefixOp::Address => Ok(TypeSpecifier::Pointer(Box::new(t))),
                PrefixOp::Deref => match t {
                    TypeSpecifier::Pointer(inner) => Ok(*inner),
                    _ => Err(
                        SemanticErrorModel::TypeMismatch(
                            TypeSpecifier::Pointer(Box::new(TypeSpecifier::Int)),
                            t,
                        ),
                    ),
                },
            },
        },
        Expr::UnaryPostfixOp { lhs, op } => match check_expr_m(sc, ret, *lhs) {
            Err(err) => Err(err),
            Ok(t) => if t == TypeSpecifier::Int {
                Ok(TypeSpecifier::Int)
            } else {
                Err(SemanticErrorModel::TypeMismatch(TypeSpecifier::Int, t))
            },
        },
        Expr::Call { func, args } => match *func {
            Expr::Ident(name) => match lookup_scopes(sc, name@) {
                None => Err(SemanticErrorModel::UndefinedSymbol(name@)),
                Some(sym) => match sym.kind {
                    SymbolKindModel::Variable => Err(SemanticErrorModel::NotAFunction(name@)),
                    SymbolKindModel::Function(ptys) => if args.len() != ptys.len() {
                        Err(
                            SemanticErrorModel::ArgumentCountMismatch(
                                ptys.len() as int,
                                args.len() as int,
                            ),
                        )
                    } else {
                        match check_args_m(sc, ret, args, ptys, 0) {
                            Some(err) => Err(err),
                            None => Ok(sym.ty),
                        }
                    },
                },
            },
            _ => arbitrary(),
        },
        Expr::ArrayIndex { array, index } => match check_expr_m(sc, ret, *index) {
            Err(err) => Err(err),
            Ok(it) => if it != TypeSpecifier::Int {
                Err(SemanticErrorModel::TypeMismatch(TypeSpecifier::Int, it))
            } else {
                match check_expr_m(sc, ret, *array) {
                    Err(err) => Err(err),
                    Ok(at) => match at {
                        TypeSpecifier::Pointer(inner) => Ok(*inner),
                        other => Err(SemanticErrorModel::ExpectedPointer(other)),
                    },
                }
            },
        },
        Expr::InitializerList(es) => if es.len() == 0 {
            Ok(ret)
        } else {
            match check_expr_m(sc, ret, es[0]) {
                Err(err) => Err(err),
                Ok(ft) => match check_inits_m(sc, ret, es, ft, 1) {
                    Some(err) => Err(err),
                    None => Ok(ft),
                },
            }
        },
        Expr::BinaryOp { lhs, op, rhs } => match check_expr_m(sc, ret, *lhs) {
            Err(err) => Err(err),
            Ok(lt) => match check_expr_m(sc, ret, *rhs) {
                Err(err) => Err(err),
                Ok(rt) => match op {
                    BinaryOp::Add | BinaryOp::Sub | BinaryOp::Mul | BinaryOp::Div | BinaryOp::Rem
                        | BinaryOp::BitAnd | BinaryOp::BitOr | BinaryOp::BitXor => if !(lt
                        == TypeSpecifier::Int || lt == TypeSpecifier::Char) || !(rt
                        == TypeSpecifier::Int || rt == TypeSpecifier::Char) {
                        Err(
                            SemanticErrorModel::TypeMismatch(
                                TypeSpecifier::Int,
                                if lt != TypeSpecifier::Int {
                                    lt
                                } else {
                                    rt
                                },
                            ),
                        )
                    } else {
                        Ok(TypeSpecifier::Int)
                    },
                    BinaryOp::And | BinaryOp::Or => if lt != TypeSpecifier::Int || rt
                        != TypeSpecifier::Int {
                        Err(
                            SemanticErrorModel::TypeMismatch(
                                TypeSpecifier::Int,
                                if lt != TypeSpecifier::Int {
                                    lt
                                } else {
                                    rt
                                },
                            ),
                        )
                    } else {
                        Ok(TypeSpecifier::Int)
                    },
                    BinaryOp::Eq | BinaryOp::Ne | BinaryOp::Lt | BinaryOp::Le | BinaryOp::Gt
                        | BinaryOp::Ge => if lt != rt {
                        Err(SemanticErrorModel::TypeMismatch(lt, rt))
                    } else {
                        Ok(TypeSpecifier::Int)
                    },
                },
            },
        },
    }
}

/// The first error in checking each argument from index `i` against
/// the corresponding parameter type.
pub open spec fn check_args_m(
    sc: Scopes,
    ret: TypeSpecifier,
    args: Vec<Expr>,
    ptys: Seq<TypeSpecifier>,
    i: int,
) -> Option<SemanticErrorModel>
    decreases args, args.len() - i,
{
    if !(0 <= i < args.len() && i < ptys.len()) {
        None
    } else {
        match check_expr_m(sc, ret, args[i]) {
            Err(err) => Some(err),
            Ok(t) => if t != ptys[i] {
                Some(SemanticErrorModel::TypeMismatch(ptys[i], t))
            } else {
                check_args_m(sc, ret, args, ptys, i + 1)
            },
        }
    }
}

/// The first element from index `i` on whose type is not `first`, as
/// an error.
pub open spec fn check_inits_m(
    sc: Scopes,
    ret: TypeSpecifier,
    es: Vec<Expr>,
    first: TypeSpecifier,
    i: int,
) -> Option<SemanticErrorModel>
    decreases es, es.len() - i,
{
    if !(0 <= i < es.len()) {
        None
    } else {
        match check_expr_m(sc, ret, es[i]) {
            Err(err) => Some(err),
            Ok(t) => if t != first {
                Some(SemanticErrorModel::TypeMismatch(first, t))
            } else {
                check_inits_m(sc, ret, es, first, i + 1)
            },
        }
    }
}

/// Checking one statement inside a function returning `ret`: the
/// scope stack it leaves behind, or the first error.
pub open spec fn check_stmt_m(sc: Scopes, ret: TypeSpecifier, s: Stmt) -> Result<
    Scopes,
    SemanticErrorModel,
>
    decreases s, 0int,
{
    match s {
        Stmt::Declaration { ty, declarators } => check_decls_m(sc, ret, ty, declarators, 0),
        Stmt::ExprStmt(e) => match e {
            Some(inner) => match check_expr_m(sc, ret, inner) {
                Err(err) => Err(err),
                Ok(_) => Ok(sc),
            },
            None => Ok(sc),
        },
        Stmt::Return(e) => match e {
            Some(inner) => match check_expr_m(sc, ret, inner) {
                Err(err) => Err(err),
                Ok(found) => if found != ret && !(ret == TypeSpecifier::Char && found
                    == TypeSpecifier::Int) {
                    Err(SemanticErrorModel::TypeMismatch(ret, found))
                } else {
                    Ok(sc)
                },
            },
            None => Ok(sc),
        },
        Stmt::If { cond, then_branch, else_branch } => match check_expr_m(sc, ret, cond) {
            Err(err) => Err(err),
            Ok(ct) => if ct != TypeSpecifier::Int {
                Err(SemanticErrorModel::TypeMismatch(TypeSpecifier::Int, ct))
            } else {
                match check_stmt_m(sc, ret, *then_branch) {
                    Err(err) => Err(err),
                    Ok(sc1) => match else_branch {
                        Some(eb) => check_stmt_m(sc1, ret, *eb),
                        None => Ok(sc1),
                    },
                }
            },
        },
        Stmt::While { cond, body } => match check_expr_m(sc, ret, cond) {
            Err(err) => Err(err),
            Ok(ct) => if ct != TypeSpecifier::Int {
                Err(SemanticErrorModel::TypeMismatch(TypeSpecifier::Int, ct))
            } else {
                check_stmt_m(sc, ret, *body)
            },
        },
        Stmt::For { init, cond, step, body } => {
            let after_init = match init {
                Some(s0) => check_stmt_m(sc, ret, *s0),
                None => Ok(sc),
            };
            match after_init {
                Err(err) => Err(err),
                Ok(sc1) => {
                    let cond_check = match cond {
                        Some(c) => match check_expr_m(sc1, ret, c) {
                            Err(err) => Some(err),
                            Ok(ct) => if ct != TypeSpecifier::Int {
                                Some(SemanticErrorModel::TypeMismatch(TypeSpecifier::Int, ct))
                            } else {
                                None
                            },
                        },
                        None => None,
                    };
                    match cond_check {
                        Some(err) => Err(err),
                        None => {
                            let step_check = match step {
                                Some(st) => match check_expr_m(sc1, ret, st) {
                                    Err(err) => Some(err),
                                    Ok(_) => None,
                                },
                                None => None,
                            };
                            match step_check {
                                Some(err) => Err(err),
                                None => check_stmt_m(sc1, ret, *body),
                            }
                        },
                    }
                },
            }
        },
        Stmt::Block(b) => match check_stmts_m(sc.push(Map::empty()), ret, b.statements, 0) {
            Err(err) => Err(err),
            Ok(sc1) => Ok(sc1.drop_last()),
        },
        Stmt::Break => Ok(sc),
        Stmt::Continue => Ok(sc),
    }
}

/// Checking the statements of `ss` from index `i` on, threading the
/// scope stack.
pub open spec fn check_stmts_m(sc: Scopes, ret: TypeSpecifier, ss: Vec<Stmt>, i: int) -> Result<
    Scopes,
    SemanticErrorModel,
>
    decreases ss, ss.len() - i,
{
    if !(0 <= i < ss.len()) {
        Ok(sc)
    } else {
        match check_stmt_m(sc, ret, ss[i]) {
            Err(err) => Err(err),
            Ok(sc1) => check_stmts_m(sc1, ret, ss, i + 1),
        }
    }
}

/// Checking the declarators of one declaration: any initializer must
/// have the declared base type; an array declarator then enters the
/// table as a pointer to that type.
pub open spec fn check_decls_m(
    sc: Scopes,
    ret: TypeSpecifier,
    ty: TypeSpecifier,
    ds: Vec<Declarator>,
    i: int,
) -> Result<Scopes, SemanticErrorModel>
    decreases ds, ds.len() - i,
{
    if !(0 <= i < ds.len()) {
        Ok(sc)
    } else {
        let d = ds[i];
        let init_check = match d.init {
            Some(e) => match check_expr_m(sc, ret, e) {
                Err(err) => Some(err),
                Ok(found) => if found != ty {
                    Some(SemanticErrorModel::TypeMismatch(ty, found))
                } else {
                    None
                },
            },
            None => None,
        };
        match init_check {
            Some(err) => Err(err),
            None => {
                let var_ty = if d.array_size is Some {
                    TypeSpecifier::Pointer(Box::new(ty))
                } else {
                    ty
                };
                match declare_m(
                    sc,
                    d.name@,
                    SymbolModel { ty: var_ty, kind: SymbolKindModel::Variable },
                ) {
                    Err(()) => Err(SemanticErrorModel::DuplicateDeclaration(d.name@)),
                    Ok(sc1) => check_decls_m(sc1, ret, ty, ds, i + 1),
                }
            },
        }
    }
}

/// Checking one function: a fresh scope with its parameters, then
/// its body against its return type.
pub open spec fn check_fn_m(sc: Scopes, f: Function) -> Result<Scopes, SemanticErrorModel> {
    let sc1 = sc.push(Map::empty());
    match declare_params_m(sc1, f.params@, 0) {
        Err(err) => Err(err),
        Ok(sc2) => match check_stmts_m(sc2, f.return_ty, f.body.statements, 0) {
            Err(err) => Err(err),
            Ok(sc3) => Ok(sc3.drop_last()),
        },
    }
}

/// Checking the functions of `fs` from index `i` on.
pub open spec fn check_fns_m(sc: Scopes, fs: Vec<Function>, i: int) -> Result<
    Scopes,
    SemanticErrorModel,
>
    decreases fs.len() - i,
{
    if !(0 <= i < fs.len()) {
        Ok(sc)
    } else {
        match check_fn_m(sc, fs[i]) {
            Err(err) => Err(err),
            Ok(sc1) => check_fns_m(sc1, fs, i + 1),
        }
    }
}

/// Checking a whole program in an already-populated table.
pub open spec fn check_program_m(sc: Scopes, p: Program) -> Result<Scopes, SemanticErrorModel> {
    check_fns_m(sc, p.functions, 0)
}

/// Scope balance for a single checked statement.
pub proof fn lemma_check_stmt_m_depth(sc: Scopes, ret: TypeSpecifier, s: Stmt)
    ensures
        check_stmt_m(sc, ret, s) matches Ok(sc2) ==> sc2.len() == sc.len(),
    decreases s, 1int,
{
    match s {
        Stmt::If { cond, then_branch, else_branch } => {
            lemma_check_stmt_m_depth(sc, ret, *then_branch);
            match check_stmt_m(sc, ret, *then_branch) {
                Ok(sc1) => {
                    match else_branch {
                        Some(eb) => {
                            lemma_check_stmt_m_depth(sc1, ret, *eb);
                        },
                        None => {},
                    }
                },
                Err(_) => {},
            }
        },
        Stmt::While { cond, body } => {
            lemma_check_stmt_m_depth(sc, ret, *body);
        },
        Stmt::Block(b) => {
            lemma_check_stmts_m_depth(sc.push(Map::empty()), ret, b.statements, 0);
        },
        Stmt::For { init, cond, step, body } => {
            match init {
                Some(s0) => {
                    lemma_check_stmt_m_depth(sc, ret, *s0);
                },
                None => {},
            }
            let after_init = match init {
                Some(s0) => check_stmt_m(sc, ret, *s0),
                None => Ok(sc),
            };
            match after_init {
                Ok(sc1) => {
                    lemma_check_stmt_m_depth(sc1, ret, *body);
                },
                Err(_) => {},
            }
        },
        Stmt::Declaration { ty, declarators } => {
            lemma_check_decls_m_depth(sc, ret, ty, declarators, 0);
        },
        _ => {},
    }
}

/// Scope balance for a checked statement list.
pub proof fn lemma_check_stmts_m_depth(sc: Scopes, ret: TypeSpecifier, ss: Vec<Stmt>, i: int)
    ensures
        check_stmts_m(sc, ret, ss, i) matches Ok(sc2) ==> sc2.len() == sc.len(),
    decreases ss, ss.len() - i,
{
    if 0 <= i < ss.len() {
        lemma_check_stmt_m_depth(sc, ret, ss[i]);
        match check_stmt_m(sc, ret, ss[i]) {
            Ok(sc1) => {
                lemma_check_stmts_m_depth(sc1, ret, ss, i + 1);
            },
            Err(_) => {},
        }
    }
}

/// Scope balance for checked declarators.
pub proof fn lemma_check_decls_m_depth(
    sc: Scopes,
    ret: TypeSpecifier,
    ty: TypeSpecifier,
    ds: Vec<Declarator>,
    i: int,
)
    ensures
        check_decls_m(sc, ret, ty, ds, i) matches Ok(sc2) ==> sc2.len() == sc.len(),
    decreases ds, ds.len() - i,
{
    if 0 <= i < ds.len() {
        let d = ds[i];
        let var_ty = if d.array_size is Some {
            TypeSpecifier::Pointer(Box::new(ty))
        } else {
            ty
        };
        match declare_m(sc, d.name@, SymbolModel { ty: var_ty, kind: SymbolKindModel::Variable }) {
            Ok(sc1) => {
                lemma_check_decls_m_depth(sc1, ret, ty, ds, i + 1);
            },
            Err(()) => {},
        }
    }
}

/// Scope cleanliness for the checking pass as a whole.
pub proof fn lemma_check_program_m_depth(sc: Scopes, p: Program)
    ensures
        check_program_m(sc, p) matches Ok(sc2) ==> sc2.len() == sc.len(),
{
    lemma_check_fns_m_depth(sc, p.functions, 0);
}

/// Scope balance for the function-checking fold.
pub proof fn lemma_check_fns_m_depth(sc: Scopes, fs: Vec<Function>, i: int)
    ensures
        check_fns_m(sc, fs, i) matches Ok(sc2) ==> sc2.len() == sc.len(),
    decreases fs.len() - i,
{
    if 0 <= i < fs.len() {
        let f = fs[i];
        let sc1 = sc.push(Map::empty());
        lemma_params_m_depth(sc1, f.params@, 0);
        match declare_params_m(sc1, f.params@, 0) {
            Ok(sc2) => {
                lemma_check_stmts_m_depth(sc2, f.return_ty, f.body.statements, 0);
            },
            Err(_) => {},
        }
        match check_fn_m(sc, f) {
            Ok(scx) => {
                lemma_check_fns_m_depth(scx, fs, i + 1);
            },
            Err(_) => {},
        }
    }
}

} // verus!

verus! {

/// The type checker: owns the resolver (and with it the shared
/// symbol table) and tracks the return type of the function being
/// checked.
#[derive(Debug)]
pub struct TypeChecker {
    pub resolver: Resolver,
    pub current_ret_ty: Option<TypeSpecifier>,
}

impl TypeChecker {
    /// The underlying table is well formed.
    pub open spec fn wf(&self) -> bool {
        self.resolver.wf()
    }

    /// The return type of the function being checked.
    pub open spec fn ret(&self) -> TypeSpecifier {
        self.current_ret_ty->Some_0
    }

    /// Takes over the resolver, with no function being checked yet.
    pub fn new(resolver: Resolver) -> (r: TypeChecker)
        ensures
            r.resolver == resolver,
            r.current_ret_ty is None,
    {
        TypeChecker { resolver, current_ret_ty: None }
    }

    /// Assigns a type to `expr`, or reports its first violation.
    fn check_expr(&self, expr: &Expr) -> (r: Result<TypeSpecifier, SemanticError>)
        requires
            self.wf(),
            expr_calls_wf(*expr),
            self.current_ret_ty is Some,
        ensures
            match r {
                Ok(t) => check_expr_m(self.resolver.table@, self.ret(), *expr) == Ok::<
                    TypeSpecifier,
                    SemanticErrorModel,
                >(t),
                Err(e) => check_expr_m(self.resolver.table@, self.ret(), *expr) == Err::<
                    TypeSpecifier,
                    SemanticErrorModel,
                >(e@),
            },
        decreases *expr, 0int,
    {
        match expr {
            Expr::IntLiteral(_) => Ok(TypeSpecifier::Int),
            Expr::CharLiteral(_) => Ok(TypeSpecifier::Char),
            Expr::Ident(name) => match self.resolver.resolve_identifier(name.as_str()) {
                Ok(sym) => Ok(sym.ty.clone()),
                Err(_) => Err(SemanticError::UndefinedSymbol { name: name.clone() }),
            },
            Expr::Assignment { left, op, right } => {
                let lt = self.check_expr(&**left)?;
                let rt = self.check_expr(&**right)?;
                if lt.eq(&rt) {
                    Ok(lt)
                } else {
                    Err(SemanticError::TypeMismatch { expected: lt, found: rt })
                }
            },
            Expr::UnaryPrefixOp { op, rhs } => {
                let t = self.check_expr(&**rhs)?;
                match op {
                    PrefixOp::Neg | PrefixOp::Not | PrefixOp::PreInc | PrefixOp::PreDec => {
                        if t.eq(&TypeSpecifier::Int) {
                            Ok(TypeSpecifier::Int)
                        } else {
                            Err(SemanticError::TypeMismatch {
                                expected: TypeSpecifier::Int,
                                found: t,
                            })
                        }
                    },
                    PrefixOp::Address => Ok(TypeSpecifier::Pointer(Box::new(t))),
                    PrefixOp::Deref => match t {
                        TypeSpecifier::Pointer(inner) => Ok(*inner),
                        other => Err(SemanticError::TypeMismatch {
                            expected: TypeSpecifier::Pointer(Box::new(TypeSpecifier::Int)),
                            found: other,
                        }),
                    },
                }
            },
            Expr::UnaryPostfixOp { lhs, op } => {
                let t = self.check_expr(&**lhs)?;
                if t.eq(&TypeSpecifier::Int) {
                    Ok(TypeSpecifier::Int)
                } else {
                    Err(SemanticError::TypeMismatch { expected: TypeSpecifier::Int, found: t })
                }
            },
            Expr::Call { func, args } => match &**func {
                Expr::Ident(name) => {
                    let looked = match self.resolver.lookup_function(name.as_str()) {
                        Ok(pr) => pr,
                        Err(ResolveError::UndefinedSymbol { name: n }) => {
                            return Err(SemanticError::UndefinedSymbol { name: n });
                        },
                        Err(ResolveError::NotAFunction { name: n }) => {
                            return Err(SemanticError::NotAFunction { name: n });
                        },
                    };
                    let (param_types, ret_ty) = looked;
                    if args.len() != param_types.len() {
                        return Err(SemanticError::ArgumentCountMismatch {
                            expected: param_types.len(),
                            found: args.len(),
                        });
                    }
                    match self.check_args(args, &param_types) {
                        Some(e) => Err(e),
                        None => Ok(ret_ty),
                    }
                },
                _ => {
                    proof {
                        assert(false);
                    }
                    Err(SemanticError::InvalidBreak)
                },
            },
            Expr::ArrayIndex { array, index } => {
                let it = self.check_expr(&**index)?;
                if !it.eq(&TypeSpecifier::Int) {
                    return Err(SemanticError::TypeMismatch {
                        expected: TypeSpecifier::Int,
                        found: it,
                    });
                }
                let at = self.check_expr(&**array)?;
                match at {
                    TypeSpecifier::Pointer(inner) => Ok(*inner),
                    other => Err(SemanticError::ExpectedPointer { found: other }),
                }
            },
            Expr::InitializerList(es) => {
                if es.len() == 0 {
                    let rt = match &self.current_ret_ty {
                        Some(t) => t.clone(),
                        None => {
                            proof {
                                assert(false);
                            }
                            TypeSpecifier::Int
                        },
                    };
                    return Ok(rt);
                }
                let first_ty = self.check_expr(&es[0])?;
                match self.check_inits(es, &first_ty) {
                    Some(e) => Err(e),
                    None => Ok(first_ty),
                }
            },
            Expr::BinaryOp { lhs, op, rhs } => {
                let lt = self.check_expr(&**lhs)?;
                let rt = self.check_expr(&**rhs)?;
                match op {
                    BinaryOp::Add | BinaryOp::Sub | BinaryOp::Mul | BinaryOp::Div | BinaryOp::Rem
                        | BinaryOp::BitAnd | BinaryOp::BitOr | BinaryOp::BitXor => {
                        let lt_ok = lt.eq(&TypeSpecifier::Int) || lt.eq(&TypeSpecifier::Char);
                        let rt_ok = rt.eq(&TypeSpecifier::Int) || rt.eq(&TypeSpecifier::Char);
                        if !lt_ok || !rt_ok {
                            let found = if !lt.eq(&TypeSpecifier::Int) {
                                lt
                            } else {
                                rt
                            };
                            Err(SemanticError::TypeMismatch {
                                expected: TypeSpecifier::Int,
                                found,
                            })
                        } else {
                            Ok(TypeSpecifier::Int)
                        }
                    },
                    BinaryOp::And | BinaryOp::Or => {
                        if !lt.eq(&TypeSpecifier::Int) || !rt.eq(&TypeSpecifier::Int) {
                            let found = if !lt.eq(&TypeSpecifier::Int) {
                                lt
                            } else {
                                rt
                            };
                            Err(SemanticError::TypeMismatch {
                                expected: TypeSpecifier::Int,
                                found,
                            })
                        } else {
                            Ok(TypeSpecifier::Int)
                        }
                    },
                    BinaryOp::Eq | BinaryOp::Ne | BinaryOp::Lt | BinaryOp::Le | BinaryOp::Gt
                        | BinaryOp::Ge => {
                        if !lt.eq(&rt) {
                            Err(SemanticError::TypeMismatch { expected: lt, found: rt })
                        } else {
                            Ok(TypeSpecifier::Int)
                        }
                    },
                }
            },
        }
    }

    /// Checks each argument against the corresponding parameter
    /// type.
    #[verifier::loop_isolation(false)]
    fn check_args(&self, args: &Vec<Expr>, ptys: &Vec<TypeSpecifier>) -> (r: Option<SemanticError>)
        requires
            self.wf(),
            self.current_ret_ty is Some,
            forall|i: int| 0 <= i < args.len() ==> expr_calls_wf(#[trigger] args@[i]),
            args@.len() == ptys@.len(),
        ensures
            match r {
                None => check_args_m(self.resolver.table@, self.ret(), *args, ptys@, 0) is None,
                Some(e) => check_args_m(self.resolver.table@, self.ret(), *args, ptys@, 0)
                    == Some(e@),
            },
        decreases *args, 0int,
    {
        let n = args.len();
        let mut i: usize = 0;
        while i < n
            invariant
                n == args.len(),
                0 <= i <= n,
                check_args_m(self.resolver.table@, self.ret(), *args, ptys@, 0) == check_args_m(
                    self.resolver.table@,
                    self.ret(),
                    *args,
                    ptys@,
                    i as int,
                ),
            decreases n - i,
        {
            let t = match self.check_expr(&args[i]) {
                Ok(t) => t,
                Err(e) => {
                    return Some(e);
                },
            };
            if !t.eq(&ptys[i]) {
                return Some(
                    SemanticError::TypeMismatch { expected: ptys[i].clone(), found: t },
                );
            }
            i += 1;
        }
        None
    }

    /// Checks that every further initializer element shares the type
    /// of the first.
    #[verifier::loop_isolation(false)]
    fn check_inits(&self, es: &Vec<Expr>, first: &TypeSpecifier) -> (r: Option<SemanticError>)
        requires
            self.wf(),
            self.current_ret_ty is Some,
            forall|i: int| 0 <= i < es.len() ==> expr_calls_wf(#[trigger] es@[i]),
            es@.len() >= 1,
        ensures
            match r {
                None => check_inits_m(self.resolver.table@, self.ret(), *es, *first, 1) is None,
                Some(e) => check_inits_m(self.resolver.table@, self.ret(), *es, *first, 1) == Some(
                    e@,
                ),
            },
        decreases *es, 0int,
    {
        let n = es.len();
        let mut i: usize = 1;
        while i < n
            invariant
                n == es.len(),
                1 <= i <= n,
                check_inits_m(self.resolver.table@, self.ret(), *es, *first, 1) == check_inits_m(
                    self.resolver.table@,
                    self.ret(),
                    *es,
                    *first,
                    i as int,
                ),
            decreases n - i,
        {
            let t = match self.check_expr(&es[i]) {
                Ok(t) => t,
                Err(e) => {
                    return Some(e);
                },
            };
            if !t.eq(first) {
                return Some(SemanticError::TypeMismatch { expected: first.clone(), found: t });
            }
            i += 1;
        }
        None
    }

    /// Checks one statement, threading declarations through the
    /// shared table.
    #[verifier::loop_isolation(false)]
    fn check_stmt(&mut self, stmt: &Stmt) -> (r: Result<(), SemanticError>)
        requires
            old(self).wf(),
            stmt_calls_wf(*stmt),
            old(self).current_ret_ty is Some,
        ensures
            final(self).wf(),
            final(self).current_ret_ty == old(self).current_ret_ty,
            final(self).resolver.loop_depth == old(self).resolver.loop_depth,
            match r {
                Ok(()) => check_stmt_m(old(self).resolver.table@, old(self).ret(), *stmt) == Ok::<
                    Scopes,
                    SemanticErrorModel,
                >(final(self).resolver.table@),
                Err(e) => check_stmt_m(old(self).resolver.table@, old(self).ret(), *stmt) == Err::<
                    Scopes,
                    SemanticErrorModel,
                >(e@),
            },
        decreases *stmt, 0int,
    {
        match stmt {
            Stmt::Declaration { ty, declarators } => {
                let n = declarators.len();
                let mut i: usize = 0;
                while i < n
                    invariant
                        n == declarators.len(),
                        0 <= i <= n,
                        self.wf(),
                        self.current_ret_ty == old(self).current_ret_ty,
                        self.resolver.loop_depth == old(self).resolver.loop_depth,
                        check_decls_m(
                            old(self).resolver.table@,
                            old(self).ret(),
                            *ty,
                            *declarators,
                            0,
                        ) == check_decls_m(
                            self.resolver.table@,
                            old(self).ret(),
                            *ty,
                            *declarators,
                            i as int,
                        ),
                    decreases n - i,
                {
                    let d = &declarators[i];
                    proof {
                        assert(crate::ast::opt_expr_calls_wf(declarators[i as int].init));
                    }
                    if let Some(init_expr) = &d.init {
                        let found = self.check_expr(init_expr)?;
                        if !found.eq(ty) {
                            return Err(SemanticError::TypeMismatch {
                                expected: ty.clone(),
                                found,
                            });
                        }
                    }
                    let var_ty = if d.array_size.is_some() {
                        TypeSpecifier::Pointer(Box::new(ty.clone()))
                    } else {
                        ty.clone()
                    };
                    match self.resolver.declare_variable(d.name.as_str(), &var_ty) {
                        Ok(()) => {},
                        Err(_) => {
                            return Err(SemanticError::DuplicateDeclaration {
                                name: d.name.clone(),
                            });
                        },
                    }
                    i += 1;
                }
                Ok(())
            },
            Stmt::ExprStmt(e) => {
                if let Some(inner) = e {
                    let _ = self.check_expr(inner)?;
                }
                Ok(())
            },
            Stmt::Return(e) => {
                if let Some(inner) = e {
                    let found = self.check_expr(inner)?;
                    let expected = match &self.current_ret_ty {
                        Some(t) => t.clone(),
                        None => {
                            proof {
                                assert(false);
                            }
                            TypeSpecifier::Int
                        },
                    };
                    let char_int = expected.eq(&TypeSpecifier::Char) && found.eq(
                        &TypeSpecifier::Int,
                    );
                    if !found.eq(&expected) && !char_int {
                        return Err(SemanticError::TypeMismatch { expected, found });
                    }
                }
                Ok(())
            },
            Stmt::If { cond, then_branch, else_branch } => {
                let ct = self.check_expr(cond)?;
                if !ct.eq(&TypeSpecifier::Int) {
                    return Err(SemanticError::TypeMismatch {
                        expected: TypeSpecifier::Int,
                        found: ct,
                    });
                }
                self.check_stmt(&**then_branch)?;
                if let Some(eb) = else_branch {
                    self.check_stmt(&**eb)?;
                }
                Ok(())
            },
            Stmt::While { cond, body } => {
                let ct = self.check_expr(cond)?;
                if !ct.eq(&TypeSpecifier::Int) {
                    return Err(SemanticError::TypeMismatch {
                        expected: TypeSpecifier::Int,
                        found: ct,
                    });
                }
                self.check_stmt(&**body)
            },
            Stmt::For { init, cond, step, body } => {
                if let Some(s0) = init {
                    self.check_stmt(&**s0)?;
                }
                if let Some(c) = cond {
                    let ct = self.check_expr(c)?;
                    if !ct.eq(&TypeSpecifier::Int) {
                        return Err(SemanticError::TypeMismatch {
                            expected: TypeSpecifier::Int,
                            found: ct,
                        });
                    }
                }
                if let Some(st) = step {
                    let _ = self.check_expr(st)?;
                }
                self.check_stmt(&**body)
            },
            Stmt::Block(b) => {
                self.resolver.push_scope();
                let ghost sc1 = self.resolver.table@;
                self.check_block(&b.statements)?;
                proof {
                    lemma_check_stmts_m_depth(sc1, old(self).ret(), b.statements, 0);
                }
                self.resolver.pop_scope();
                Ok(())
            },
            Stmt::Break => Ok(()),
            Stmt::Continue => Ok(()),
        }
    }

    /// Checks the statements of one block in order, threading the
    /// table.
    #[verifier::loop_isolation(false)]
    fn check_block(&mut self, ss: &Vec<Stmt>) -> (r: Result<(), SemanticError>)
        requires
            old(self).wf(),
            forall|j: int| 0 <= j < ss.len() ==> stmt_calls_wf(#[trigger] ss@[j]),
            old(self).current_ret_ty is Some,
        ensures
            final(self).wf(),
            final(self).current_ret_ty == old(self).current_ret_ty,
            final(self).resolver.loop_depth == old(self).resolver.loop_depth,
            match r {
                Ok(()) => check_stmts_m(old(self).resolver.table@, old(self).ret(), *ss, 0)
                    == Ok::<Scopes, SemanticErrorModel>(final(self).resolver.table@),
                Err(e) => check_stmts_m(old(self).resolver.table@, old(self).ret(), *ss, 0)
                    == Err::<Scopes, SemanticErrorModel>(e@),
            },
        decreases *ss, 0int,
    {
        let n = ss.len();
        let mut i: usize = 0;
        while i < n
            invariant
                n == ss.len(),
                0 <= i <= n,
                self.wf(),
                self.current_ret_ty == old(self).current_ret_ty,
                self.resolver.loop_depth == old(self).resolver.loop_depth,
                check_stmts_m(old(self).resolver.table@, old(self).ret(), *ss, 0)
                    == check_stmts_m(self.resolver.table@, old(self).ret(), *ss, i as int),
            decreases n - i,
        {
            self.check_stmt(&ss[i])?;
            i += 1;
        }
        Ok(())
    }

    /// Checks every function of the program against the typing
    /// rules, re-walking scopes as the resolver did.
    #[verifier::loop_isolation(false)]
    pub fn check_program(&mut self, prog: &Program) -> (r: Result<(), SemanticError>)
        requires
            old(self).wf(),
            program_calls_wf(*prog),
        ensures
            final(self).wf(),
            match r {
                Ok(()) => ({
                    &&& check_program_m(old(self).resolver.table@, *prog) == Ok::<
                        Scopes,
                        SemanticErrorModel,
                    >(final(self).resolver.table@)
                    &&& final(self).current_ret_ty is None
                    &&& final(self).resolver.table@.len() == old(self).resolver.table@.len()
                }),
                Err(e) => check_program_m(old(self).resolver.table@, *prog) == Err::<
                    Scopes,
                    SemanticErrorModel,
                >(e@),
            },
    {
        self.current_ret_ty = None;
        let n = prog.functions.len();
        let mut k: usize = 0;
        while k < n
            invariant
                n == prog.functions.len(),
                0 <= k <= n,
                self.wf(),
                self.current_ret_ty is None,
                check_fns_m(old(self).resolver.table@, prog.functions, 0) == check_fns_m(
                    self.resolver.table@,
                    prog.functions,
                    k as int,
                ),
            decreases n - k,
        {
            let func = &prog.functions[k];
            self.current_ret_ty = Some(func.return_ty.clone());
            self.resolver.push_scope();
            let ghost sc1 = self.resolver.table@;
            let pn = func.params.len();
            let mut j: usize = 0;
            while j < pn
                invariant
                    pn == func.params@.len(),
                    0 <= j <= pn,
                    self.wf(),
                    self.current_ret_ty matches Some(t) && t == prog.functions@[k as int].return_ty,
                    declare_params_m(sc1, func.params@, 0) == declare_params_m(
                        self.resolver.table@,
                        func.params@,
                        j as int,
                    ),
                decreases pn - j,
            {
                let p = &func.params[j];
                match self.resolver.declare_variable(p.name.as_str(), &p.ty) {
                    Ok(()) => {},
                    Err(_) => {
                        return Err(SemanticError::DuplicateDeclaration { name: p.name.clone() });
                    },
                }
                j += 1;
            }
            let ghost sc2 = self.resolver.table@;
            proof {
                assert(fn_calls_wf(prog.functions@[k as int]));
                lemma_params_m_depth(sc1, func.params@, 0);
            }
            self.check_block(&func.body.statements)?;
            proof {
                lemma_check_stmts_m_depth(sc2, func.return_ty, func.body.statements, 0);
            }
            self.resolver.pop_scope();
            self.current_ret_ty = None;
            k += 1;
        }
        proof {
            lemma_check_program_m_depth(old(self).resolver.table@, *prog);
        }
        Ok(())
    }
}

} // verus!
