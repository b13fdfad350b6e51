//! Name resolution: registers every function in the global scope,
//! then walks each body enforcing declaration-before-use and the
//! `break`/`continue` loop context.
//!
//! The `*_m` spec functions model resolution as a function from a
//! scope stack (and loop depth) to either the resulting scope stack
//! or the first error; the executable resolver is proved to compute
//! exactly that.

use vstd::prelude::*;
use vstd::string::StringExecFns;
use crate::ast::{Declarator, Expr, Function, Parameter, Program, Stmt, TypeSpecifier,
    expr_calls_wf, fn_calls_wf, program_calls_wf, stmt_calls_wf, type_list_eq};
use crate::symbol::{Symbol, SymbolError, SymbolKind, SymbolKindModel, SymbolModel, SymbolTable,
    lookup_scopes};
use crate::semantic_error::{ResolveError, SemanticError, SemanticErrorModel};

verus! {

broadcast use vstd::std_specs::vec::group_vec_axioms;

/// A stack of scope mappings, innermost last.
pub type Scopes = Seq<Map<Seq<char>, SymbolModel>>;

/// The loop depth one level further in, saturating at the machine
/// limit.
pub open spec fn bump(d: int) -> int {
    if d < usize::MAX {
        d + 1
    } else {
        d
    }
}

/// The first of two possible errors.
pub open spec fn first_err(
    a: Option<SemanticErrorModel>,
    b: Option<SemanticErrorModel>,
) -> Option<SemanticErrorModel> {
    if a is Some {
        a
    } else {
        b
    }
}

/// Declaring `name` in the innermost scope: rejected only when that
/// scope already has it.
pub open spec fn declare_m(sc: Scopes, name: Seq<char>, sym: SymbolModel) -> Result<Scopes, ()> {
    if sc.len() == 0 {
        Err(())
    } else if sc.last().contains_key(name) {
        Err(())
    } else {
        Ok(sc.update(sc.len() - 1, sc.last().insert(name, sym)))
    }
}

/// The error, if any, that resolving expression `e` reports.
pub open spec fn resolve_expr_m(sc: Scopes, e: Expr) -> Option<SemanticErrorModel>
    decreases e, 0int,
{
    match e {
        Expr::Ident(name) => if lookup_scopes(sc, name@) is Some {
            None
        } else {
            Some(SemanticErrorModel::UndefinedSymbol(name@))
        },
        Expr::IntLiteral(_) => None,
        Expr::CharLiteral(_) => None,
        Expr::UnaryPrefixOp { op, rhs } => resolve_expr_m(sc, *rhs),
        Expr::UnaryPostfixOp { lhs, op } => resolve_expr_m(sc, *lhs),
        Expr::BinaryOp { lhs, op, rhs } => first_err(
            resolve_expr_m(sc, *lhs),
            resolve_expr_m(sc, *rhs),
        ),
        Expr::Assignment { left, op, right } => first_err(
            resolve_expr_m(sc, *left),
            resolve_expr_m(sc, *right),
        ),
        Expr::ArrayIndex { array, index } => first_err(
            resolve_expr_m(sc, *array),
            resolve_expr_m(sc, *index),
        ),
        Expr::Call { func, args } => match *func {
            Expr::Ident(fname) => if lookup_scopes(sc, fname@) is Some {
                resolve_exprs_m(sc, args, 0)
            } else {
                Some(SemanticErrorModel::UndefinedSymbol(fname@))
            },
            _ => arbitrary(),
        },
        Expr::InitializerList(es) => resolve_exprs_m(sc, es, 0),
    }
}

/// The first error among the expressions of `es` from index `i` on.
pub open spec fn resolve_exprs_m(sc: Scopes, es: Vec<Expr>, i: int) -> Option<SemanticErrorModel>
    decreases es, es.len() - i,
{
    if !(0 <= i < es.len()) {
        None
    } else {
        first_err(resolve_expr_m(sc, es[i]), resolve_exprs_m(sc, es, i + 1))
    }
}

/// Resolving one statement at loop depth `depth`: the scope stack it
/// leaves behind, or the first error.
pub open spec fn resolve_stmt_m(sc: Scopes, depth: int, s: Stmt) -> Result<
    Scopes,
    SemanticErrorModel,
>
    decreases s, 0int,
{
    match s {
        Stmt::ExprStmt(e) => match e {
            Some(inner) => match resolve_expr_m(sc, inner) {
                Some(err) => Err(err),
                None => Ok(sc),
            },
            None => Ok(sc),
        },
        Stmt::If { cond, then_branch, else_branch } => match resolve_expr_m(sc, cond) {
            Some(err) => Err(err),
            None => match resolve_stmt_m(sc, depth, *then_branch) {
                Err(err) => Err(err),
                Ok(sc1) => match else_branch {
                    Some(eb) => resolve_stmt_m(sc1, depth, *eb),
                    None => Ok(sc1),
                },
            },
        },
        Stmt::While { cond, body } => match resolve_expr_m(sc, cond) {
            Some(err) => Err(err),
            None => resolve_stmt_m(sc, bump(depth), *body),
        },
        Stmt::Return(e) => match e {
            Some(inner) => match resolve_expr_m(sc, inner) {
                Some(err) => Err(err),
                None => Ok(sc),
            },
            None => Ok(sc),
        },
        Stmt::Block(b) => resolve_stmts_m(sc, depth, b.statements, 0),
        Stmt::For { init, cond, step, body } => {
            let sc1 = sc.push(Map::empty());
            let after_init = match init {
                Some(s0) => resolve_stmt_m(sc1, bump(depth), *s0),
                None => Ok(sc1),
            };
            match after_init {
                Err(err) => Err(err),
                Ok(sc2) => {
                    let cond_err = match cond {
                        Some(c) => resolve_expr_m(sc2, c),
                        None => None,
                    };
                    match cond_err {
                        Some(err) => Err(err),
                        None => match resolve_stmt_m(sc2, bump(depth), *body) {
                            Err(err) => Err(err),
                            Ok(sc3) => {
                                let step_err = match step {
                                    Some(st) => resolve_expr_m(sc3, st),
                                    None => None,
                                };
                                match step_err {
                                    Some(err) => Err(err),
                                    None => Ok(sc3.drop_last()),
                                }
                            },
                        },
                    }
                },
            }
        },
        Stmt::Declaration { ty, declarators } => resolve_decls_m(sc, ty, declarators, 0),
        Stmt::Continue => if depth == 0 {
            Err(SemanticErrorModel::InvalidContinue)
        } else {
            Ok(sc)
        },
        Stmt::Break => if depth == 0 {
            Err(SemanticErrorModel::InvalidBreak)
        } else {
            Ok(sc)
        },
    }
}

/// Resolving the statements of `ss` from index `i` on, in order,
/// threading the scope stack.
pub open spec fn resolve_stmts_m(sc: Scopes, depth: int, ss: Vec<Stmt>, i: int) -> Result<
    Scopes,
    SemanticErrorModel,
>
    decreases ss, ss.len() - i,
{
    if !(0 <= i < ss.len()) {
        Ok(sc)
    } else {
        match resolve_stmt_m(sc, depth, ss[i]) {
            Err(err) => Err(err),
            Ok(sc1) => resolve_stmts_m(sc1, depth, ss, i + 1),
        }
    }
}

/// Resolving the declarators of one declaration from index `i` on:
/// each name is declared, then its initializer resolved.
pub open spec fn resolve_decls_m(
    sc: Scopes,
    ty: TypeSpecifier,
    ds: Vec<Declarator>,
    i: int,
) -> Result<Scopes, SemanticErrorModel>
    decreases ds, ds.len() - i,
{
    if !(0 <= i < ds.len()) {
        Ok(sc)
    } else {
        let d = ds[i];
        match declare_m(sc, d.name@, SymbolModel { ty: ty, kind: SymbolKindModel::Variable }) {
            Err(()) => Err(SemanticErrorModel::DuplicateDeclaration(d.name@)),
            Ok(sc1) => {
                let init_err = match d.init {
                    Some(e) => resolve_expr_m(sc1, e),
                    None => None,
                };
                match init_err {
                    Some(err) => Err(err),
                    None => resolve_decls_m(sc1, ty, ds, i + 1),
                }
            },
        }
    }
}

/// The parameter types of a function, in order.
pub open spec fn param_types_of(f: Function) -> Seq<TypeSpecifier> {
    f.params@.map_values(|p: Parameter| p.ty)
}

/// Registering one function in the global pass. A second declaration
/// with an identical signature is silently accepted; any other clash
/// is a duplicate declaration.
pub open spec fn register_fn_m(sc: Scopes, f: Function) -> Result<Scopes, SemanticErrorModel> {
    match lookup_scopes(sc, f.name@) {
        Some(sym) => if sym.kind matches SymbolKindModel::Function(ex_ptys) && sym.ty
            == f.return_ty && ex_ptys == param_types_of(f) {
            Ok(sc)
        } else {
            Err(SemanticErrorModel::DuplicateDeclaration(f.name@))
        },
        None => declare_result(sc, f),
    }
}

/// The table after inserting `f`'s symbol in the innermost scope.
pub open spec fn declare_result(sc: Scopes, f: Function) -> Result<Scopes, SemanticErrorModel> {
    match declare_m(
        sc,
        f.name@,
        SymbolModel { ty: f.return_ty, kind: SymbolKindModel::Function(param_types_of(f)) },
    ) {
        Err(()) => Err(SemanticErrorModel::DuplicateDeclaration(f.name@)),
        Ok(sc1) => Ok(sc1),
    }
}

/// Registering the functions of `fs` from index `i` on.
pub open spec fn register_fns_m(sc: Scopes, fs: Vec<Function>, i: int) -> Result<
    Scopes,
    SemanticErrorModel,
>
    decreases fs.len() - i,
{
    if !(0 <= i < fs.len()) {
        Ok(sc)
    } else {
        match register_fn_m(sc, fs[i]) {
            Err(err) => Err(err),
            Ok(sc1) => register_fns_m(sc1, fs, i + 1),
        }
    }
}

/// Declaring the parameters of a function as variables of the
/// innermost scope, from index `i` on.
pub open spec fn declare_params_m(sc: Scopes, ps: Seq<Parameter>, i: int) -> Result<
    Scopes,
    SemanticErrorModel,
>
    decreases ps.len() - i,
{
    if !(0 <= i < ps.len()) {
        Ok(sc)
    } else {
        let p = ps[i];
        match declare_m(sc, p.name@, SymbolModel { ty: p.ty, kind: SymbolKindModel::Variable }) {
            Err(()) => Err(SemanticErrorModel::DuplicateDeclaration(p.name@)),
            Ok(sc1) => declare_params_m(sc1, ps, i + 1),
        }
    }
}

/// Resolving one function body: a fresh scope holding the parameters,
/// then the body statements, then the scope is closed.
pub open spec fn resolve_fn_m(sc: Scopes, depth: int, f: Function) -> Result<
    Scopes,
    SemanticErrorModel,
> {
    let sc1 = sc.push(Map::empty());
    match declare_params_m(sc1, f.params@, 0) {
        Err(err) => Err(err),
        Ok(sc2) => match resolve_stmts_m(sc2, depth, f.body.statements, 0) {
            Err(err) => Err(err),
            Ok(sc3) => Ok(sc3.drop_last()),
        },
    }
}

/// Resolving the bodies of `fs` from index `i` on.
pub open spec fn resolve_fns_m(sc: Scopes, depth: int, fs: Vec<Function>, i: int) -> Result<
    Scopes,
    SemanticErrorModel,
>
    decreases fs.len() - i,
{
    if !(0 <= i < fs.len()) {
        Ok(sc)
    } else {
        match resolve_fn_m(sc, depth, fs[i]) {
            Err(err) => Err(err),
            Ok(sc1) => resolve_fns_m(sc1, depth, fs, i + 1),
        }
    }
}

/// Resolving a whole program: register all functions in source order,
/// then resolve each body.
pub open spec fn resolve_program_m(sc: Scopes, depth: int, p: Program) -> Result<
    Scopes,
    SemanticErrorModel,
> {
    match register_fns_m(sc, p.functions, 0) {
        Err(err) => Err(err),
        Ok(sc1) => resolve_fns_m(sc1, depth, p.functions, 0),
    }
}

/// Scope balance for a single statement: on success, resolution
/// leaves the scope stack exactly as deep as it found it.
pub proof fn lemma_stmt_m_depth(sc: Scopes, depth: int, s: Stmt)
    ensures
        resolve_stmt_m(sc, depth, s) matches Ok(sc2) ==> sc2.len() == sc.len(),
    decreases s, 1int,
{
    match s {
        Stmt::If { cond, then_branch, else_branch } => {
            lemma_stmt_m_depth(sc, depth, *then_branch);
            if resolve_expr_m(sc, cond) is None {
                match resolve_stmt_m(sc, depth, *then_branch) {
                    Ok(sc1) => {
                        match else_branch {
                            Some(eb) => {
                                lemma_stmt_m_depth(sc1, depth, *eb);
                            },
                            None => {},
                        }
                    },
                    Err(_) => {},
                }
            }
        },
        Stmt::While { cond, body } => {
            lemma_stmt_m_depth(sc, bump(depth), *body);
        },
        Stmt::Block(b) => {
            lemma_stmts_m_depth(sc, depth, b.statements, 0);
        },
        Stmt::For { init, cond, step, body } => {
            let sc1 = sc.push(Map::empty());
            match init {
                Some(s0) => {
                    lemma_stmt_m_depth(sc1, bump(depth), *s0);
                },
                None => {},
            }
            let after_init = match init {
                Some(s0) => resolve_stmt_m(sc1, bump(depth), *s0),
                None => Ok(sc1),
            };
            match after_init {
                Ok(sc2) => {
                    lemma_stmt_m_depth(sc2, bump(depth), *body);
                },
                Err(_) => {},
            }
        },
        Stmt::Declaration { ty, declarators } => {
            lemma_decls_m_depth(sc, ty, declarators, 0);
        },
        _ => {},
    }
}

/// Scope balance for a statement list.
pub proof fn lemma_stmts_m_depth(sc: Scopes, depth: int, ss: Vec<Stmt>, i: int)
    ensures
        resolve_stmts_m(sc, depth, ss, i) matches Ok(sc2) ==> sc2.len() == sc.len(),
    decreases ss, ss.len() - i,
{
    if 0 <= i < ss.len() {
        lemma_stmt_m_depth(sc, depth, ss[i]);
        match resolve_stmt_m(sc, depth, ss[i]) {
            Ok(sc1) => {
                lemma_stmts_m_depth(sc1, depth, ss, i + 1);
            },
            Err(_) => {},
        }
    }
}

/// Scope balance for the declarators of one declaration.
pub proof fn lemma_decls_m_depth(sc: Scopes, ty: TypeSpecifier, ds: Vec<Declarator>, i: int)
    ensures
        resolve_decls_m(sc, ty, ds, i) matches Ok(sc2) ==> sc2.len() == sc.len(),
    decreases ds, ds.len() - i,
{
    if 0 <= i < ds.len() {
        let d = ds[i];
        match declare_m(sc, d.name@, SymbolModel { ty: ty, kind: SymbolKindModel::Variable }) {
            Ok(sc1) => {
                lemma_decls_m_depth(sc1, ty, ds, i + 1);
            },
            Err(()) => {},
        }
    }
}

/// Scope balance for parameter declaration.
pub proof fn lemma_params_m_depth(sc: Scopes, ps: Seq<Parameter>, i: int)
    ensures
        declare_params_m(sc, ps, i) matches Ok(sc2) ==> sc2.len() == sc.len(),
    decreases ps.len() - i,
{
    if 0 <= i < ps.len() {
        let p = ps[i];
        match declare_m(sc, p.name@, SymbolModel { ty: p.ty, kind: SymbolKindModel::Variable }) {
            Ok(sc1) => {
                lemma_params_m_depth(sc1, ps, i + 1);
            },
            Err(()) => {},
        }
    }
}

/// Scope balance for function registration.
pub proof fn lemma_register_fns_m_depth(sc: Scopes, fs: Vec<Function>, i: int)
    ensures
        register_fns_m(sc, fs, i) matches Ok(sc2) ==> sc2.len() == sc.len(),
    decreases fs.len() - i,
{
    if 0 <= i < fs.len() {
        match register_fn_m(sc, fs[i]) {
            Ok(sc1) => {
                lemma_register_fns_m_depth(sc1, fs, i + 1);
            },
            Err(_) => {},
        }
    }
}

/// Scope balance for the bodies pass.
pub proof fn lemma_resolve_fns_m_depth(sc: Scopes, depth: int, fs: Vec<Function>, i: int)
    ensures
        resolve_fns_m(sc, depth, fs, i) matches Ok(sc2) ==> sc2.len() == sc.len(),
    decreases fs.len() - i,
{
    if 0 <= i < fs.len() {
        let f = fs[i];
        let sc1 = sc.push(Map::empty());
        lemma_params_m_depth(sc1, f.params@, 0);
        match declare_params_m(sc1, f.params@, 0) {
            Ok(sc2) => {
                lemma_stmts_m_depth(sc2, depth, f.body.statements, 0);
            },
            Err(_) => {},
        }
        match resolve_fn_m(sc, depth, f) {
            Ok(scx) => {
                lemma_resolve_fns_m_depth(scx, depth, fs, i + 1);
            },
            Err(_) => {},
        }
    }
}

/// Scope cleanliness: a successful resolution pass leaves the scope
/// stack exactly as deep as it found it.
pub proof fn lemma_resolve_program_m_depth(sc: Scopes, depth: int, p: Program)
    ensures
        resolve_program_m(sc, depth, p) matches Ok(sc2) ==> sc2.len() == sc.len(),
{
    lemma_register_fns_m_depth(sc, p.functions, 0);
    match register_fns_m(sc, p.functions, 0) {
        Ok(sc1) => {
            lemma_resolve_fns_m_depth(sc1, depth, p.functions, 0);
        },
        Err(_) => {},
    }
}

/// Break/continue context: outside any loop, `break;` and
/// `continue;` fail with exactly `InvalidBreak` / `InvalidContinue`;
/// at any positive loop depth both are accepted and change nothing.
pub proof fn lemma_break_continue_context(sc: Scopes, depth: int)
    ensures
        resolve_stmt_m(sc, 0, Stmt::Break) == Err::<Scopes, SemanticErrorModel>(
            SemanticErrorModel::InvalidBreak,
        ),
        resolve_stmt_m(sc, 0, Stmt::Continue) == Err::<Scopes, SemanticErrorModel>(
            SemanticErrorModel::InvalidContinue,
        ),
        depth > 0 ==> resolve_stmt_m(sc, depth, Stmt::Break) == Ok::<Scopes, SemanticErrorModel>(
            sc,
        ),
        depth > 0 ==> resolve_stmt_m(sc, depth, Stmt::Continue) == Ok::<
            Scopes,
            SemanticErrorModel,
        >(sc),
{
}

/// Inside a `while` or `for` body, `break;` and `continue;` are
/// accepted: resolving the loop at depth zero succeeds whenever its
/// condition resolves.
pub proof fn lemma_break_inside_loop(sc: Scopes, s: Stmt)
    requires
        ({
            ||| (s matches Stmt::While { cond, body } && resolve_expr_m(sc, cond) is None && (*body
                == Stmt::Break || *body == Stmt::Continue))
            ||| (s matches Stmt::For { init, cond, step, body } && init is None && cond is None
                && step is None && (*body == Stmt::Break || *body == Stmt::Continue))
        }),
    ensures
        resolve_stmt_m(sc, 0, s) == Ok::<Scopes, SemanticErrorModel>(sc),
{
    match s {
        Stmt::While { cond, body } => {
            assert(bump(0) == 1);
            assert(resolve_stmt_m(sc, 1, *body) == Ok::<Scopes, SemanticErrorModel>(sc));
        },
        Stmt::For { init, cond, step, body } => {
            assert(bump(0) == 1);
            let sc1 = sc.push(Map::empty());
            assert(resolve_stmt_m(sc1, 1, *body) == Ok::<Scopes, SemanticErrorModel>(sc1));
            assert(sc1.drop_last() =~= sc);
        },
        _ => {},
    }
}

/// Prototype idempotence at registration level: after `f` registers
/// successfully, registering a function with the same name succeeds
/// exactly when its return type and parameter types match `f`'s, and
/// then leaves the table unchanged; any signature mismatch is a
/// duplicate declaration.
pub proof fn lemma_prototype_idempotence(sc: Scopes, f: Function, g: Function)
    requires
        sc.len() >= 1,
        register_fn_m(sc, f) is Ok,
        g.name@ == f.name@,
    ensures
        ({
            let sc1 = register_fn_m(sc, f)->Ok_0;
            if g.return_ty == f.return_ty && param_types_of(g) == param_types_of(f) {
                register_fn_m(sc1, g) == Ok::<Scopes, SemanticErrorModel>(sc1)
            } else {
                register_fn_m(sc1, g) == Err::<Scopes, SemanticErrorModel>(
                    SemanticErrorModel::DuplicateDeclaration(g.name@),
                )
            }
        }),
{
    let sc1 = register_fn_m(sc, f)->Ok_0;
    let fsym = SymbolModel { ty: f.return_ty, kind: SymbolKindModel::Function(param_types_of(f)) };
    match lookup_scopes(sc, f.name@) {
        Some(sym) => {
            assert(sc1 == sc);
            assert(lookup_scopes(sc1, g.name@) == Some(sym));
            assert(sym.kind matches SymbolKindModel::Function(ex) && sym.ty == f.return_ty && ex
                == param_types_of(f));
        },
        None => {
            assert(sc1 == sc.update(sc.len() - 1, sc.last().insert(f.name@, fsym)));
            assert(sc1.last() == sc.last().insert(f.name@, fsym));
            assert(sc1.last().contains_key(g.name@));
            assert(lookup_scopes(sc1, g.name@) == Some(fsym));
        },
    }
}

} // verus!

verus! {

/// The name resolver: owns the symbol table and tracks the loop
/// depth for `break`/`continue` checking.
#[derive(Debug)]
pub struct Resolver {
    pub table: SymbolTable,
    pub loop_depth: usize,
}

impl Resolver {
    /// The table is well formed.
    pub open spec fn wf(&self) -> bool {
        self.table.wf()
    }

    /// Creates a resolver over a fresh table holding one empty global
    /// frame.
    pub fn new() -> (r: Resolver)
        ensures
            r.wf(),
            r.table@ =~= seq![Map::<Seq<char>, SymbolModel>::empty()],
            r.loop_depth == 0,
    {
        Resolver { table: SymbolTable::new(), loop_depth: 0 }
    }

    /// Opens a scope on the shared table.
    pub fn push_scope(&mut self)
        requires
            old(self).wf(),
        ensures
            final(self).wf(),
            final(self).table@ =~= old(self).table@.push(Map::<Seq<char>, SymbolModel>::empty()),
            final(self).loop_depth == old(self).loop_depth,
    {
        self.table.push_scope();
    }

    /// Closes the innermost scope.
    pub fn pop_scope(&mut self)
        requires
            old(self).wf(),
            old(self).table@.len() >= 2,
        ensures
            final(self).wf(),
            final(self).table@ =~= old(self).table@.drop_last(),
            final(self).loop_depth == old(self).loop_depth,
    {
        self.table.pop_scope();
    }

    /// Declares a variable of type `ty` in the innermost scope.
    pub fn declare_variable(&mut self, name: &str, ty: &TypeSpecifier) -> (r: Result<
        (),
        SymbolError,
    >)
        requires
            old(self).wf(),
        ensures
            final(self).wf(),
            final(self).loop_depth == old(self).loop_depth,
            ({
                let sym = SymbolModel { ty: *ty, kind: SymbolKindModel::Variable };
                match r {
                    Ok(()) => declare_m(old(self).table@, name@, sym) == Ok::<Scopes, ()>(
                        final(self).table@,
                    ),
                    Err(e) => {
                        &&& declare_m(old(self).table@, name@, sym) is Err
                        &&& *final(self) == *old(self)
                        &&& e matches SymbolError::DuplicateDeclaration { name: n } && n@ == name@
                    },
                }
            }),
    {
        let symbol = Symbol { ty: ty.clone(), kind: SymbolKind::Variable };
        let r = self.table.declare(String::from_str(name), symbol);
        proof {
            if r is Ok {
                assert(self.table@ =~= old(self).table@.update(
                    old(self).table@.len() - 1,
                    old(self).table@.last().insert(
                        name@,
                        SymbolModel { ty: *ty, kind: SymbolKindModel::Variable },
                    ),
                ));
            }
        }
        r
    }

    /// Registers a function symbol in the global pass, accepting a
    /// repeated declaration only when the whole signature matches.
    pub fn declare_function(&mut self, func: &Function) -> (r: Result<(), SymbolError>)
        requires
            old(self).wf(),
        ensures
            final(self).wf(),
            final(self).loop_depth == old(self).loop_depth,
            match r {
                Ok(()) => register_fn_m(old(self).table@, *func) == Ok::<
                    Scopes,
                    SemanticErrorModel,
                >(final(self).table@),
                Err(e) => {
                    &&& register_fn_m(old(self).table@, *func) == Err::<
                        Scopes,
                        SemanticErrorModel,
                    >(SemanticErrorModel::DuplicateDeclaration(func.name@))
                    &&& *final(self) == *old(self)
                    &&& e matches SymbolError::DuplicateDeclaration { name: n } && n@ == func.name@
                },
            },
    {
        let n = func.params.len();
        let mut param_types: Vec<TypeSpecifier> = Vec::new();
        let mut i: usize = 0;
        while i < n
            invariant
                n == func.params@.len(),
                0 <= i <= n,
                param_types@ =~= func.params@.subrange(0, i as int).map_values(
                    |p: Parameter| p.ty,
                ),
            decreases n - i,
        {
            param_types.push(func.params[i].ty.clone());
            proof {
                assert(param_types@ =~= func.params@.subrange(0, i + 1).map_values(
                    |p: Parameter| p.ty,
                ));
            }
            i += 1;
        }
        proof {
            assert(func.params@.subrange(0, n as int) =~= func.params@);
            assert(param_types@ =~= param_types_of(*func));
        }
        match self.table.lookup(func.name.as_str()) {
            Some(existing) => {
                let sig_matches = match &existing.kind {
                    SymbolKind::Function { param_types: existing_params } => {
                        existing.ty.eq(&func.return_ty) && type_list_eq(
                            existing_params,
                            &param_types,
                        )
                    },
                    SymbolKind::Variable => false,
                };
                if sig_matches {
                    Ok(())
                } else {
                    Err(SymbolError::DuplicateDeclaration { name: func.name.clone() })
                }
            },
            None => {
                let symbol = Symbol {
                    ty: func.return_ty.clone(),
                    kind: SymbolKind::Function { param_types },
                };
                let r = self.table.declare(String::from_str(func.name.as_str()), symbol);
                proof {
                    if r is Ok {
                        assert(declare_m(
                            old(self).table@,
                            func.name@,
                            SymbolModel {
                                ty: func.return_ty,
                                kind: SymbolKindModel::Function(param_types_of(*func)),
                            },
                        ) == Ok::<Scopes, ()>(self.table@)) by {
                            assert(self.table@ =~= old(self).table@.update(
                                old(self).table@.len() - 1,
                                old(self).table@.last().insert(
                                    func.name@,
                                    SymbolModel {
                                        ty: func.return_ty,
                                        kind: SymbolKindModel::Function(param_types_of(*func)),
                                    },
                                ),
                            ));
                        }
                    } else {
                        assert(false);
                    }
                }
                match r {
                    Ok(()) => Ok(()),
                    Err(_) => Err(SymbolError::DuplicateDeclaration { name: func.name.clone() }),
                }
            },
        }
    }

    /// Looks a name up through all open scopes, innermost first.
    pub fn resolve_identifier(&self, identifier: &str) -> (r: Result<&Symbol, ResolveError>)
        requires
            self.wf(),
        ensures
            match r {
                Ok(sym) => lookup_scopes(self.table@, identifier@) == Some(sym@),
                Err(e) => {
                    &&& lookup_scopes(self.table@, identifier@) is None
                    &&& e matches ResolveError::UndefinedSymbol { name } && name@ == identifier@
                },
            },
    {
        match self.table.lookup(identifier) {
            Some(found) => Ok(found),
            None => Err(ResolveError::UndefinedSymbol { name: String::from_str(identifier) }),
        }
    }

    /// Looks up a name that must denote a function, yielding its
    /// parameter types and return type.
    pub fn lookup_function(&self, name: &str) -> (r: Result<
        (Vec<TypeSpecifier>, TypeSpecifier),
        ResolveError,
    >)
        requires
            self.wf(),
        ensures
            match r {
                Ok(pr) => lookup_scopes(self.table@, name@) matches Some(sym) && sym.kind
                    matches SymbolKindModel::Function(ptys) && pr.0@ == ptys && pr.1 == sym.ty,
                Err(e) => match e {
                    ResolveError::UndefinedSymbol { name: n } => lookup_scopes(self.table@, name@)
                        is None && n@ == name@,
                    ResolveError::NotAFunction { name: n } => lookup_scopes(self.table@, name@)
                        matches Some(sym) && sym.kind is Variable && n@ == name@,
                },
            },
    {
        let sym = self.resolve_identifier(name)?;
        match &sym.kind {
            SymbolKind::Function { param_types } => {
                let n = param_types.len();
                let mut ptys: Vec<TypeSpecifier> = Vec::new();
                let mut i: usize = 0;
                while i < n
                    invariant
                        n == param_types@.len(),
                        0 <= i <= n,
                        ptys@ =~= param_types@.subrange(0, i as int),
                    decreases n - i,
                {
                    ptys.push(param_types[i].clone());
                    proof {
                        assert(ptys@ =~= param_types@.subrange(0, i + 1));
                    }
                    i += 1;
                }
                proof {
                    assert(ptys@ =~= param_types@);
                }
                Ok((ptys, sym.ty.clone()))
            },
            SymbolKind::Variable => Err(ResolveError::NotAFunction {
                name: String::from_str(name),
            }),
        }
    }
}

} // verus!

verus! {

impl Resolver {
    /// Resolves every identifier used in `expr`.
    pub fn resolve_expr(&self, expr: &Expr) -> (r: Result<(), SemanticError>)
        requires
            self.wf(),
            expr_calls_wf(*expr),
        ensures
            match r {
                Ok(()) => resolve_expr_m(self.table@, *expr) is None,
                Err(e) => resolve_expr_m(self.table@, *expr) == Some(e@),
            },
        decreases *expr, 0int,
    {
        match expr {
            Expr::Ident(name) => match self.resolve_identifier(name.as_str()) {
                Ok(_) => Ok(()),
                Err(_) => Err(SemanticError::UndefinedSymbol { name: name.clone() }),
            },
            Expr::IntLiteral(_) => Ok(()),
            Expr::CharLiteral(_) => Ok(()),
            Expr::UnaryPrefixOp { op, rhs } => self.resolve_expr(&**rhs),
            Expr::UnaryPostfixOp { lhs, op } => self.resolve_expr(&**lhs),
            Expr::BinaryOp { lhs, op, rhs } => {
                self.resolve_expr(&**lhs)?;
                self.resolve_expr(&**rhs)?;
                Ok(())
            },
            Expr::Assignment { left, op, right } => {
                self.resolve_expr(&**left)?;
                self.resolve_expr(&**right)?;
                Ok(())
            },
            Expr::ArrayIndex { array, index } => {
                self.resolve_expr(&**array)?;
                self.resolve_expr(&**index)?;
                Ok(())
            },
            Expr::Call { func, args } => match &**func {
                Expr::Ident(fname) => match self.resolve_identifier(fname.as_str()) {
                    Ok(_) => self.resolve_exprs(args),
                    Err(_) => Err(SemanticError::UndefinedSymbol { name: fname.clone() }),
                },
                _ => {
                    proof {
                        assert(false);
                    }
                    Err(SemanticError::InvalidBreak)
                },
            },
            Expr::InitializerList(es) => self.resolve_exprs(es),
        }
    }

    /// Resolves a list of expressions in order, stopping at the
    /// first error.
    #[verifier::loop_isolation(false)]
    fn resolve_exprs(&self, es: &Vec<Expr>) -> (r: Result<(), SemanticError>)
        requires
            self.wf(),
            forall|i: int| 0 <= i < es.len() ==> expr_calls_wf(#[trigger] es@[i]),
        ensures
            match r {
                Ok(()) => resolve_exprs_m(self.table@, *es, 0) is None,
                Err(e) => resolve_exprs_m(self.table@, *es, 0) == Some(e@),
            },
        decreases *es, 0int,
    {
        let n = es.len();
        let mut i: usize = 0;
        while i < n
            invariant
                n == es.len(),
                0 <= i <= n,
                resolve_exprs_m(self.table@, *es, 0) == resolve_exprs_m(
                    self.table@,
                    *es,
                    i as int,
                ),
            decreases n - i,
        {
            match self.resolve_expr(&es[i]) {
                Ok(()) => {},
                Err(e) => {
                    return Err(e);
                },
            }
            i += 1;
        }
        Ok(())
    }

    /// Resolves one statement, tracking loop context and scopes.
    #[verifier::loop_isolation(false)]
    pub fn resolve_stmt(&mut self, stmt: &Stmt) -> (r: Result<(), SemanticError>)
        requires
            old(self).wf(),
            stmt_calls_wf(*stmt),
        ensures
            final(self).wf(),
            match r {
                Ok(()) => ({
                    &&& resolve_stmt_m(
                        old(self).table@,
                        old(self).loop_depth as int,
                        *stmt,
                    ) == Ok::<Scopes, SemanticErrorModel>(final(self).table@)
                    &&& final(self).loop_depth == old(self).loop_depth
                }),
                Err(e) => resolve_stmt_m(old(self).table@, old(self).loop_depth as int, *stmt)
                    == Err::<Scopes, SemanticErrorModel>(e@),
            },
        decreases *stmt, 0int,
    {
        match stmt {
            Stmt::ExprStmt(e) => {
                if let Some(inner) = e {
                    self.resolve_expr(inner)?;
                }
                Ok(())
            },
            Stmt::If { cond, then_branch, else_branch } => {
                self.resolve_expr(cond)?;
                self.resolve_block(&**then_branch)?;
                if let Some(eb) = else_branch {
                    self.resolve_block(&**eb)?;
                }
                Ok(())
            },
            Stmt::While { cond, body } => {
                let saved = self.loop_depth;
                if saved < usize::MAX {
                    self.loop_depth = saved + 1;
                }
                self.resolve_expr(cond)?;
                self.resolve_stmt(&**body)?;
                self.loop_depth = saved;
                Ok(())
            },
            Stmt::Return(e) => {
                if let Some(inner) = e {
                    self.resolve_expr(inner)?;
                }
                Ok(())
            },
            Stmt::Block(b) => self.resolve_stmts(&b.statements),
            Stmt::For { init, cond, step, body } => {
                let saved = self.loop_depth;
                if saved < usize::MAX {
                    self.loop_depth = saved + 1;
                }
                self.push_scope();
                let ghost sc1 = self.table@;
                if let Some(s0) = init {
                    self.resolve_stmt(&**s0)?;
                    proof {
                        lemma_stmt_m_depth(sc1, bump(saved as int), **s0);
                    }
                }
                let ghost sc2 = self.table@;
                if let Some(c) = cond {
                    self.resolve_expr(c)?;
                }
                self.resolve_stmt(&**body)?;
                proof {
                    lemma_stmt_m_depth(sc2, bump(saved as int), **body);
                }
                if let Some(st) = step {
                    self.resolve_expr(st)?;
                }
                self.pop_scope();
                self.loop_depth = saved;
                Ok(())
            },
            Stmt::Declaration { ty, declarators } => {
                let n = declarators.len();
                let mut i: usize = 0;
                while i < n
                    invariant
                        n == declarators.len(),
                        0 <= i <= n,
                        self.wf(),
                        self.loop_depth == old(self).loop_depth,
                        resolve_decls_m(old(self).table@, *ty, *declarators, 0)
                            == resolve_decls_m(self.table@, *ty, *declarators, i as int),
                    decreases n - i,
                {
                    let d = &declarators[i];
                    proof {
                        assert(crate::ast::opt_expr_calls_wf(declarators[i as int].init));
                    }
                    match self.declare_variable(d.name.as_str(), ty) {
                        Ok(()) => {},
                        Err(_) => {
                            return Err(SemanticError::DuplicateDeclaration {
                                name: d.name.clone(),
                            });
                        },
                    }
                    if let Some(init_expr) = &d.init {
                        self.resolve_expr(init_expr)?;
                    }
                    i += 1;
                }
                Ok(())
            },
            Stmt::Continue => {
                if self.loop_depth == 0 {
                    Err(SemanticError::InvalidContinue)
                } else {
                    Ok(())
                }
            },
            Stmt::Break => {
                if self.loop_depth == 0 {
                    Err(SemanticError::InvalidBreak)
                } else {
                    Ok(())
                }
            },
        }
    }

    /// Resolves a list of statements in order, threading the scope
    /// stack.
    #[verifier::loop_isolation(false)]
    fn resolve_stmts(&mut self, ss: &Vec<Stmt>) -> (r: Result<(), SemanticError>)
        requires
            old(self).wf(),
            forall|j: int| 0 <= j < ss.len() ==> stmt_calls_wf(#[trigger] ss@[j]),
        ensures
            final(self).wf(),
            match r {
                Ok(()) => ({
                    &&& resolve_stmts_m(
                        old(self).table@,
                        old(self).loop_depth as int,
                        *ss,
                        0,
                    ) == Ok::<Scopes, SemanticErrorModel>(final(self).table@)
                    &&& final(self).loop_depth == old(self).loop_depth
                }),
                Err(e) => resolve_stmts_m(old(self).table@, old(self).loop_depth as int, *ss, 0)
                    == Err::<Scopes, SemanticErrorModel>(e@),
            },
        decreases *ss, 0int,
    {
        let n = ss.len();
        let mut i: usize = 0;
        while i < n
            invariant
                n == ss.len(),
                0 <= i <= n,
                self.wf(),
                self.loop_depth == old(self).loop_depth,
                resolve_stmts_m(old(self).table@, old(self).loop_depth as int, *ss, 0)
                    == resolve_stmts_m(self.table@, old(self).loop_depth as int, *ss, i as int),
            decreases n - i,
        {
            self.resolve_stmt(&ss[i])?;
            i += 1;
        }
        Ok(())
    }

    /// Resolves a statement that is usually a block: a block's
    /// statements run in the enclosing scope, any other statement is
    /// resolved directly.
    fn resolve_block(&mut self, stmt: &Stmt) -> (r: Result<(), SemanticError>)
        requires
            old(self).wf(),
            stmt_calls_wf(*stmt),
        ensures
            final(self).wf(),
            match r {
                Ok(()) => ({
                    &&& resolve_stmt_m(
                        old(self).table@,
                        old(self).loop_depth as int,
                        *stmt,
                    ) == Ok::<Scopes, SemanticErrorModel>(final(self).table@)
                    &&& final(self).loop_depth == old(self).loop_depth
                }),
                Err(e) => resolve_stmt_m(old(self).table@, old(self).loop_depth as int, *stmt)
                    == Err::<Scopes, SemanticErrorModel>(e@),
            },
        decreases *stmt, 1int,
    {
        match stmt {
            Stmt::Block(b) => self.resolve_stmts(&b.statements),
            _ => self.resolve_stmt(stmt),
        }
    }

    /// Resolves a whole program: global function registration, then
    /// each body in a scope of its own. On success the scope stack is
    /// exactly as deep as before.
    #[verifier::loop_isolation(false)]
    pub fn resolve_program(&mut self, prog: &Program) -> (r: Result<(), SemanticError>)
        requires
            old(self).wf(),
            program_calls_wf(*prog),
        ensures
            final(self).wf(),
            match r {
                Ok(()) => ({
                    &&& resolve_program_m(
                        old(self).table@,
                        old(self).loop_depth as int,
                        *prog,
                    ) == Ok::<Scopes, SemanticErrorModel>(final(self).table@)
                    &&& final(self).loop_depth == old(self).loop_depth
                    &&& final(self).table@.len() == old(self).table@.len()
                }),
                Err(e) => resolve_program_m(old(self).table@, old(self).loop_depth as int, *prog)
                    == Err::<Scopes, SemanticErrorModel>(e@),
            },
    {
        let n = prog.functions.len();
        let mut i: usize = 0;
        while i < n
            invariant
                n == prog.functions.len(),
                0 <= i <= n,
                self.wf(),
                self.loop_depth == old(self).loop_depth,
                register_fns_m(old(self).table@, prog.functions, 0) == register_fns_m(
                    self.table@,
                    prog.functions,
                    i as int,
                ),
            decreases n - i,
        {
            match self.declare_function(&prog.functions[i]) {
                Ok(()) => {},
                Err(_) => {
                    return Err(SemanticError::DuplicateDeclaration {
                        name: prog.functions[i].name.clone(),
                    });
                },
            }
            i += 1;
        }
        let ghost reg_table = self.table@;
        let mut k: usize = 0;
        while k < n
            invariant
                n == prog.functions.len(),
                0 <= k <= n,
                self.wf(),
                self.loop_depth == old(self).loop_depth,
                register_fns_m(old(self).table@, prog.functions, 0) == Ok::<
                    Scopes,
                    SemanticErrorModel,
                >(reg_table),
                resolve_fns_m(reg_table, old(self).loop_depth as int, prog.functions, 0)
                    == resolve_fns_m(
                    self.table@,
                    old(self).loop_depth as int,
                    prog.functions,
                    k as int,
                ),
            decreases n - k,
        {
            let func = &prog.functions[k];
            self.push_scope();
            let ghost sc1 = self.table@;
            let pn = func.params.len();
            let mut j: usize = 0;
            while j < pn
                invariant
                    pn == func.params@.len(),
                    0 <= j <= pn,
                    self.wf(),
                    self.loop_depth == old(self).loop_depth,
                    declare_params_m(sc1, func.params@, 0) == declare_params_m(
                        self.table@,
                        func.params@,
                        j as int,
                    ),
                decreases pn - j,
            {
                let p = &func.params[j];
                match self.declare_variable(p.name.as_str(), &p.ty) {
                    Ok(()) => {},
                    Err(_) => {
                        return Err(SemanticError::DuplicateDeclaration { name: p.name.clone() });
                    },
                }
                j += 1;
            }
            let ghost sc2 = self.table@;
            proof {
                assert(fn_calls_wf(prog.functions@[k as int]));
                lemma_params_m_depth(sc1, func.params@, 0);
            }
            self.resolve_stmts(&func.body.statements)?;
            proof {
                lemma_stmts_m_depth(sc2, old(self).loop_depth as int, func.body.statements, 0);
            }
            self.pop_scope();
            k += 1;
        }
        proof {
            lemma_resolve_program_m_depth(
                old(self).table@,
                old(self).loop_depth as int,
                *prog,
            );
        }
        Ok(())
    }
}

} // verus!
