//! Abstract syntax tree for the language: types, expressions,
//! statements, functions and programs.

use vstd::prelude::*;

verus! {

broadcast use vstd::std_specs::vec::group_vec_axioms;

/// A type of the language: `int`, `char`, `void`, or a pointer to
/// another type. Compared structurally.
#[derive(Debug)]
pub enum TypeSpecifier {
    Int,
    Char,
    Void,
    Pointer(Box<TypeSpecifier>),
}

/// Structural equality on types.
fn ty_eq(a: &TypeSpecifier, b: &TypeSpecifier) -> (r: bool)
    ensures
        r == (*a == *b),
    decreases *a,
{
    match (a, b) {
        (TypeSpecifier::Int, TypeSpecifier::Int) => true,
        (TypeSpecifier::Char, TypeSpecifier::Char) => true,
        (TypeSpecifier::Void, TypeSpecifier::Void) => true,
        (TypeSpecifier::Pointer(x), TypeSpecifier::Pointer(y)) => ty_eq(&**x, &**y),
        _ => false,
    }
}

fn ty_clone(a: &TypeSpecifier) -> (r: TypeSpecifier)
    ensures
        r == *a,
    decreases *a,
{
    match a {
        TypeSpecifier::Int => TypeSpecifier::Int,
        TypeSpecifier::Char => TypeSpecifier::Char,
        TypeSpecifier::Void => TypeSpecifier::Void,
        TypeSpecifier::Pointer(x) => TypeSpecifier::Pointer(Box::new(ty_clone(&**x))),
    }
}

impl Clone for TypeSpecifier {
    fn clone(&self) -> (r: Self)
        ensures
            r == *self,
    {
        ty_clone(self)
    }
}

impl PartialEq for TypeSpecifier {
    fn eq(&self, other: &TypeSpecifier) -> (r: bool) {
        ty_eq(self, other)
    }
}

impl vstd::std_specs::cmp::PartialEqSpecImpl for TypeSpecifier {
    open spec fn obeys_eq_spec() -> bool {
        true
    }

    open spec fn eq_spec(&self, other: &TypeSpecifier) -> bool {
        *self == *other
    }
}

/// Compares two lists of types element by element.
pub fn type_list_eq(a: &Vec<TypeSpecifier>, b: &Vec<TypeSpecifier>) -> (r: bool)
    ensures
        r == (a@ == b@),
{
    if a.len() != b.len() {
        proof {
            assert(a@ != b@) by {
                assert(a@.len() != b@.len());
            }
        }
        return false;
    }
    let n = a.len();
    let mut i: usize = 0;
    while i < n
        invariant
            n == a@.len() == b@.len(),
            0 <= i <= n,
            forall|j: int| 0 <= j < i ==> a@[j] == b@[j],
        decreases n - i,
    {
        if !ty_eq(&a[i], &b[i]) {
            proof {
                assert(a@[i as int] != b@[i as int]);
            }
            return false;
        }
        i += 1;
    }
    proof {
        assert(a@ =~= b@);
    }
    true
}

/// Prefix operators.
#[derive(Debug, Clone, Copy, PartialEq, Eq, Structural)]
pub enum PrefixOp {
    Address,
    Deref,
    Neg,
    Not,
    PreInc,
    PreDec,
}

/// Postfix operators.
#[derive(Debug, Clone, Copy, PartialEq, Eq, Structural)]
pub enum PostfixOp {
    PostInc,
    PostDec,
}

/// Binary operators.
#[derive(Debug, Clone, Copy, PartialEq, Eq, Structural)]
pub enum BinaryOp {
    Add,
    Sub,
    Mul,
    Div,
    Rem,
    Eq,
    Ne,
    Lt,
    Le,
    Gt,
    Ge,
    And,
    Or,
    BitAnd,
    BitOr,
    BitXor,
}

/// Assignment operators.
#[derive(Debug, Clone, Copy, PartialEq, Eq, Structural)]
pub enum AssignOp {
    Assign,
    PlusAssign,
    MinusAssign,
    MulAssign,
    DivAssign,
    RemAssign,
    BitAndAssign,
    BitOrAssign,
    BitXorAssign,
}

/// An expression. Each child is uniquely owned by its parent.
#[derive(Debug, PartialEq)]
pub enum Expr {
    Ident(String),
    IntLiteral(i64),
    CharLiteral(char),
    UnaryPrefixOp { op: PrefixOp, rhs: Box<Expr> },
    UnaryPostfixOp { lhs: Box<Expr>, op: PostfixOp },
    BinaryOp { lhs: Box<Expr>, op: BinaryOp, rhs: Box<Expr> },
    Call { func: Box<Expr>, args: Vec<Expr> },
    ArrayIndex { array: Box<Expr>, index: Box<Expr> },
    InitializerList(Vec<Expr>),
    Assignment { left: Box<Expr>, op: AssignOp, right: Box<Expr> },
}

/// A brace-delimited sequence of statements.
#[derive(Debug, PartialEq)]
pub struct Block {
    pub statements: Vec<Stmt>,
}

/// A statement.
#[derive(Debug, PartialEq)]
pub enum Stmt {
    Block(Block),
    If { cond: Expr, then_branch: Box<Stmt>, else_branch: Option<Box<Stmt>> },
    While { cond: Expr, body: Box<Stmt> },
    For { init: Option<Box<Stmt>>, cond: Option<Expr>, step: Option<Expr>, body: Box<Stmt> },
    Return(Option<Expr>),
    Break,
    Continue,
    Declaration { ty: TypeSpecifier, declarators: Vec<Declarator> },
    ExprStmt(Option<Expr>),
}

/// One declared name inside a declaration statement.
#[derive(Debug, PartialEq)]
pub struct Declarator {
    pub name: String,
    pub array_size: Option<i64>,
    pub init: Option<Expr>,
}

/// A function parameter.
#[derive(Debug)]
pub struct Parameter {
    pub name: String,
    pub ty: TypeSpecifier,
}

/// A function declaration or definition; a prototype carries an empty
/// body.
#[derive(Debug)]
pub struct Function {
    pub name: String,
    pub return_ty: TypeSpecifier,
    pub params: Vec<Parameter>,
    pub body: Block,
}

/// A whole program: its functions in source order.
#[derive(Debug)]
pub struct Program {
    pub functions: Vec<Function>,
}

/// A line/column position, both 1-based.
#[derive(Debug, Clone, PartialEq)]
pub struct Pos {
    pub line: usize,
    pub column: usize,
}

impl Pos {
    pub fn new(line: usize, column: usize) -> (r: Pos)
        ensures
            r.line == line,
            r.column == column,
    {
        Pos { line, column }
    }
}

/// A source region between two positions.
#[derive(Debug, Clone, PartialEq)]
pub struct Span {
    pub start: Pos,
    pub end: Pos,
}

impl Span {
    pub fn new(start: Pos, end: Pos) -> (r: Span)
        ensures
            r.start == start,
            r.end == end,
    {
        Span { start, end }
    }
}

/// A payload annotated with the span it came from.
#[derive(Debug, Clone, PartialEq)]
pub struct Node<T> {
    pub span: Span,
    pub node: T,
}

pub type ExprNode = Node<Expr>;

/// Every call expression in `e` names its callee directly by an
/// identifier. The analyzer requires this shape.
pub open spec fn expr_calls_wf(e: Expr) -> bool
    decreases e,
{
    match e {
        Expr::Ident(_) => true,
        Expr::IntLiteral(_) => true,
        Expr::CharLiteral(_) => true,
        Expr::UnaryPrefixOp { op, rhs } => expr_calls_wf(*rhs),
        Expr::UnaryPostfixOp { lhs, op } => expr_calls_wf(*lhs),
        Expr::BinaryOp { lhs, op, rhs } => expr_calls_wf(*lhs) && expr_calls_wf(*rhs),
        Expr::Call { func, args } => {
            &&& (*func) matches Expr::Ident(_)
            &&& forall|i: int| 0 <= i < args.len() ==> expr_calls_wf(#[trigger] args[i])
        },
        Expr::ArrayIndex { array, index } => expr_calls_wf(*array) && expr_calls_wf(*index),
        Expr::InitializerList(es) => forall|i: int|
            0 <= i < es.len() ==> expr_calls_wf(#[trigger] es[i]),
        Expr::Assignment { left, op, right } => expr_calls_wf(*left) && expr_calls_wf(*right),
    }
}

/// As [`expr_calls_wf`], over an optional expression.
pub open spec fn opt_expr_calls_wf(e: Option<Expr>) -> bool {
    match e {
        Some(inner) => expr_calls_wf(inner),
        None => true,
    }
}

/// Every call expression under `s` names its callee by an identifier.
pub open spec fn stmt_calls_wf(s: Stmt) -> bool
    decreases s,
{
    match s {
        Stmt::Block(b) => forall|i: int|
            0 <= i < b.statements.len() ==> stmt_calls_wf(#[trigger] b.statements[i]),
        Stmt::If { cond, then_branch, else_branch } => {
            &&& expr_calls_wf(cond)
            &&& stmt_calls_wf(*then_branch)
            &&& match else_branch {
                Some(eb) => stmt_calls_wf(*eb),
                None => true,
            }
        },
        Stmt::While { cond, body } => expr_calls_wf(cond) && stmt_calls_wf(*body),
        Stmt::For { init, cond, step, body } => {
            &&& match init {
                Some(s0) => stmt_calls_wf(*s0),
                None => true,
            }
            &&& opt_expr_calls_wf(cond)
            &&& opt_expr_calls_wf(step)
            &&& stmt_calls_wf(*body)
        },
        Stmt::Return(e) => opt_expr_calls_wf(e),
        Stmt::Break => true,
        Stmt::Continue => true,
        Stmt::Declaration { ty, declarators } => forall|i: int|
            0 <= i < declarators.len() ==> opt_expr_calls_wf(#[trigger] declarators[i].init),
        Stmt::ExprStmt(e) => opt_expr_calls_wf(e),
    }
}

/// Every call expression in the program names its callee by an
/// identifier.
pub open spec fn program_calls_wf(p: Program) -> bool {
    forall|i: int| 0 <= i < p.functions.len() ==> fn_calls_wf(#[trigger] p.functions[i])
}

/// As [`stmt_calls_wf`], over a function body.
pub open spec fn fn_calls_wf(f: Function) -> bool {
    forall|i: int|
        0 <= i < f.body.statements.len() ==> stmt_calls_wf(#[trigger] f.body.statements[i])
}

/// Decides [`expr_calls_wf`].
pub fn expr_calls_well_formed(e: &Expr) -> (r: bool)
    ensures
        r == expr_calls_wf(*e),
    decreases *e,
{
    match e {
        Expr::Ident(_) => true,
        Expr::IntLiteral(_) => true,
        Expr::CharLiteral(_) => true,
        Expr::UnaryPrefixOp { op, rhs } => expr_calls_well_formed(&**rhs),
        Expr::UnaryPostfixOp { lhs, op } => expr_calls_well_formed(&**lhs),
        Expr::BinaryOp { lhs, op, rhs } => expr_calls_well_formed(&**lhs)
            && expr_calls_well_formed(&**rhs),
        Expr::Call { func, args } => {
            if !(matches!(&**func, Expr::Ident(_))) {
                return false;
            }
            exprs_calls_well_formed(args)
        },
        Expr::ArrayIndex { array, index } => expr_calls_well_formed(&**array)
            && expr_calls_well_formed(&**index),
        Expr::InitializerList(es) => exprs_calls_well_formed(es),
        Expr::Assignment { left, op, right } => expr_calls_well_formed(&**left)
            && expr_calls_well_formed(&**right),
    }
}

/// Decides [`expr_calls_wf`] for every element of a list.
fn exprs_calls_well_formed(es: &Vec<Expr>) -> (r: bool)
    ensures
        r == (forall|i: int| 0 <= i < es.len() ==> expr_calls_wf(#[trigger] es@[i])),
    decreases *es,
{
    let n = es.len();
    let mut i: usize = 0;
    while i < n
        invariant
            n == es.len(),
            0 <= i <= n,
            forall|j: int| 0 <= j < i ==> expr_calls_wf(#[trigger] es@[j]),
        decreases n - i,
    {
        if !expr_calls_well_formed(&es[i]) {
            return false;
        }
        i += 1;
    }
    true
}

/// Decides [`stmt_calls_wf`].
#[verifier::loop_isolation(false)]
pub fn stmt_calls_well_formed(s: &Stmt) -> (r: bool)
    ensures
        r == stmt_calls_wf(*s),
    decreases *s,
{
    match s {
        Stmt::Block(b) => stmts_calls_well_formed(&b.statements),
        Stmt::If { cond, then_branch, else_branch } => {
            if !expr_calls_well_formed(cond) {
                return false;
            }
            if !stmt_calls_well_formed(&**then_branch) {
                return false;
            }
            match else_branch {
                Some(eb) => stmt_calls_well_formed(&**eb),
                None => true,
            }
        },
        Stmt::While { cond, body } => expr_calls_well_formed(cond)
            && stmt_calls_well_formed(&**body),
        Stmt::For { init, cond, step, body } => {
            let init_ok = match init {
                Some(s0) => stmt_calls_well_formed(&**s0),
                None => true,
            };
            if !init_ok {
                return false;
            }
            let cond_ok = match cond {
                Some(c) => expr_calls_well_formed(c),
                None => true,
            };
            if !cond_ok {
                return false;
            }
            let step_ok = match step {
                Some(c) => expr_calls_well_formed(c),
                None => true,
            };
            if !step_ok {
                return false;
            }
            stmt_calls_well_formed(&**body)
        },
        Stmt::Return(e) => match e {
            Some(inner) => expr_calls_well_formed(inner),
            None => true,
        },
        Stmt::Break => true,
        Stmt::Continue => true,
        Stmt::Declaration { ty, declarators } => {
            let n = declarators.len();
            let mut i: usize = 0;
            while i < n
                invariant
                    n == declarators.len(),
                    0 <= i <= n,
                    forall|j: int| 0 <= j < i ==> opt_expr_calls_wf(#[trigger] declarators@[j].init),
                decreases n - i,
            {
                let ok = match &declarators[i].init {
                    Some(inner) => expr_calls_well_formed(inner),
                    None => true,
                };
                if !ok {
                    proof {
                        assert(!opt_expr_calls_wf(declarators[i as int].init));
                    }
                    return false;
                }
                i += 1;
            }
            true
        },
        Stmt::ExprStmt(e) => match e {
            Some(inner) => expr_calls_well_formed(inner),
            None => true,
        },
    }
}

/// Decides [`stmt_calls_wf`] for every element of a list.
fn stmts_calls_well_formed(ss: &Vec<Stmt>) -> (r: bool)
    ensures
        r == (forall|i: int| 0 <= i < ss.len() ==> stmt_calls_wf(#[trigger] ss@[i])),
    decreases *ss,
{
    let n = ss.len();
    let mut i: usize = 0;
    while i < n
        invariant
            n == ss.len(),
            0 <= i <= n,
            forall|j: int| 0 <= j < i ==> stmt_calls_wf(#[trigger] ss@[j]),
        decreases n - i,
    {
        if !stmt_calls_well_formed(&ss[i]) {
            return false;
        }
        i += 1;
    }
    true
}

/// Decides [`program_calls_wf`]: whether the analyzer accepts the
/// program's call shapes.
pub fn program_calls_well_formed(p: &Program) -> (r: bool)
    ensures
        r == program_calls_wf(*p),
{
    let n = p.functions.len();
    let mut i: usize = 0;
    while i < n
        invariant
            n == p.functions.len(),
            0 <= i <= n,
            forall|j: int| 0 <= j < i ==> fn_calls_wf(#[trigger] p.functions@[j]),
        decreases n - i,
    {
        if !stmts_calls_well_formed(&p.functions[i].body.statements) {
            return false;
        }
        i += 1;
    }
    true
}

} // verus!

verus! {

/// Mathematical image of an [`Expr`]: names become character
/// sequences and argument lists become sequences.
pub enum ExprModel {
    Ident(Seq<char>),
    IntLiteral(i64),
    CharLiteral(char),
    UnaryPrefixOp { op: PrefixOp, rhs: Box<ExprModel> },
    UnaryPostfixOp { lhs: Box<ExprModel>, op: PostfixOp },
    BinaryOp { lhs: Box<ExprModel>, op: BinaryOp, rhs: Box<ExprModel> },
    Call { func: Box<ExprModel>, args: Seq<ExprModel> },
    ArrayIndex { array: Box<ExprModel>, index: Box<ExprModel> },
    InitializerList(Seq<ExprModel>),
    Assignment { left: Box<ExprModel>, op: AssignOp, right: Box<ExprModel> },
}

/// The image of `e` as an [`ExprModel`].
pub open spec fn expr_model(e: Expr) -> ExprModel
    decreases e, 0int,
{
    match e {
        Expr::Ident(name) => ExprModel::Ident(name@),
        Expr::IntLiteral(v) => ExprModel::IntLiteral(v),
        Expr::CharLiteral(c) => ExprModel::CharLiteral(c),
        Expr::UnaryPrefixOp { op, rhs } => ExprModel::UnaryPrefixOp {
            op: op,
            rhs: Box::new(expr_model(*rhs)),
        },
        Expr::UnaryPostfixOp { lhs, op } => ExprModel::UnaryPostfixOp {
            lhs: Box::new(expr_model(*lhs)),
            op: op,
        },
        Expr::BinaryOp { lhs, op, rhs } => ExprModel::BinaryOp {
            lhs: Box::new(expr_model(*lhs)),
            op: op,
            rhs: Box::new(expr_model(*rhs)),
        },
        Expr::Call { func, args } => ExprModel::Call {
            func: Box::new(expr_model(*func)),
            args: exprs_model(args, 0),
        },
        Expr::ArrayIndex { array, index } => ExprModel::ArrayIndex {
            array: Box::new(expr_model(*array)),
            index: Box::new(expr_model(*index)),
        },
        Expr::InitializerList(es) => ExprModel::InitializerList(exprs_model(es, 0)),
        Expr::Assignment { left, op, right } => ExprModel::Assignment {
            left: Box::new(expr_model(*left)),
            op: op,
            right: Box::new(expr_model(*right)),
        },
    }
}

/// The images of the expressions of `es` from index `i` on.
pub open spec fn exprs_model(es: Vec<Expr>, i: int) -> Seq<ExprModel>
    decreases es, es.len() - i,
{
    if !(0 <= i < es.len()) {
        Seq::empty()
    } else {
        seq![expr_model(es[i])] + exprs_model(es, i + 1)
    }
}

impl View for Expr {
    type V = ExprModel;

    open spec fn view(&self) -> ExprModel {
        expr_model(*self)
    }
}

} // verus!

verus! {

/// Mathematical image of a [`Declarator`].
pub struct DeclaratorModel {
    pub name: Seq<char>,
    pub array_size: Option<i64>,
    pub init: Option<ExprModel>,
}

/// Mathematical image of a [`Stmt`].
pub enum StmtModel {
    Block(Seq<StmtModel>),
    If { cond: ExprModel, then_branch: Box<StmtModel>, else_branch: Option<Box<StmtModel>> },
    While { cond: ExprModel, body: Box<StmtModel> },
    For {
        init: Option<Box<StmtModel>>,
        cond: Option<ExprModel>,
        step: Option<ExprModel>,
        body: Box<StmtModel>,
    },
    Return(Option<ExprModel>),
    Break,
    Continue,
    Declaration { ty: TypeSpecifier, declarators: Seq<DeclaratorModel> },
    ExprStmt(Option<ExprModel>),
}

/// Mathematical image of a [`Parameter`].
pub struct ParameterModel {
    pub name: Seq<char>,
    pub ty: TypeSpecifier,
}

/// Mathematical image of a [`Function`].
pub struct FunctionModel {
    pub name: Seq<char>,
    pub return_ty: TypeSpecifier,
    pub params: Seq<ParameterModel>,
    pub body: Seq<StmtModel>,
}

/// The image of one declarator.
pub open spec fn declarator_model(d: Declarator) -> DeclaratorModel {
    DeclaratorModel {
        name: d.name@,
        array_size: d.array_size,
        init: match d.init {
            Some(e) => Some(expr_model(e)),
            None => None,
        },
    }
}

/// The image of one statement.
pub open spec fn stmt_model(s: Stmt) -> StmtModel
    decreases s, 0int,
{
    match s {
        Stmt::Block(b) => StmtModel::Block(stmts_model(b.statements, 0)),
        Stmt::If { cond, then_branch, else_branch } => StmtModel::If {
            cond: expr_model(cond),
            then_branch: Box::new(stmt_model(*then_branch)),
            else_branch: match else_branch {
                Some(eb) => Some(Box::new(stmt_model(*eb))),
                None => None,
            },
        },
        Stmt::While { cond, body } => StmtModel::While {
            cond: expr_model(cond),
            body: Box::new(stmt_model(*body)),
        },
        Stmt::For { init, cond, step, body } => StmtModel::For {
            init: match init {
                Some(s0) => Some(Box::new(stmt_model(*s0))),
                None => None,
            },
            cond: match cond {
                Some(c) => Some(expr_model(c)),
                None => None,
            },
            step: match step {
                Some(st) => Some(expr_model(st)),
                None => None,
            },
            body: Box::new(stmt_model(*body)),
        },
        Stmt::Return(e) => StmtModel::Return(
            match e {
                Some(inner) => Some(expr_model(inner)),
                None => None,
            },
        ),
        Stmt::Break => StmtModel::Break,
        Stmt::Continue => StmtModel::Continue,
        Stmt::Declaration { ty, declarators } => StmtModel::Declaration {
            ty: ty,
            declarators: decls_model(declarators, 0),
        },
        Stmt::ExprStmt(e) => StmtModel::ExprStmt(
            match e {
                Some(inner) => Some(expr_model(inner)),
                None => None,
            },
        ),
    }
}

/// The images of the statements of `ss` from index `i` on.
pub open spec fn stmts_model(ss: Vec<Stmt>, i: int) -> Seq<StmtModel>
    decreases ss, ss.len() - i,
{
    if !(0 <= i < ss.len()) {
        Seq::empty()
    } else {
        seq![stmt_model(ss[i])] + stmts_model(ss, i + 1)
    }
}

/// The images of the declarators of `ds` from index `i` on.
pub open spec fn decls_model(ds: Vec<Declarator>, i: int) -> Seq<DeclaratorModel>
    decreases ds, ds.len() - i,
{
    if !(0 <= i < ds.len()) {
        Seq::empty()
    } else {
        seq![declarator_model(ds[i])] + decls_model(ds, i + 1)
    }
}

/// The image of one parameter.
pub open spec fn parameter_model(p: Parameter) -> ParameterModel {
    ParameterModel { name: p.name@, ty: p.ty }
}

/// The images of the parameters of `ps` from index `i` on.
pub open spec fn params_model(ps: Vec<Parameter>, i: int) -> Seq<ParameterModel>
    decreases ps.len() - i,
{
    if !(0 <= i < ps.len()) {
        Seq::empty()
    } else {
        seq![parameter_model(ps[i])] + params_model(ps, i + 1)
    }
}

/// The image of one function.
pub open spec fn function_model(f: Function) -> FunctionModel {
    FunctionModel {
        name: f.name@,
        return_ty: f.return_ty,
        params: params_model(f.params, 0),
        body: stmts_model(f.body.statements, 0),
    }
}

/// The images of the functions of `fs` from index `i` on.
pub open spec fn functions_model(fs: Vec<Function>, i: int) -> Seq<FunctionModel>
    decreases fs.len() - i,
{
    if !(0 <= i < fs.len()) {
        Seq::empty()
    } else {
        seq![function_model(fs[i])] + functions_model(fs, i + 1)
    }
}

/// The image of a whole program.
pub open spec fn program_model(p: Program) -> Seq<FunctionModel> {
    functions_model(p.functions, 0)
}

impl View for Stmt {
    type V = StmtModel;

    open spec fn view(&self) -> StmtModel {
        stmt_model(*self)
    }
}

impl View for Declarator {
    type V = DeclaratorModel;

    open spec fn view(&self) -> DeclaratorModel {
        declarator_model(*self)
    }
}

impl View for Parameter {
    type V = ParameterModel;

    open spec fn view(&self) -> ParameterModel {
        parameter_model(*self)
    }
}

impl View for Function {
    type V = FunctionModel;

    open spec fn view(&self) -> FunctionModel {
        function_model(*self)
    }
}

impl View for Program {
    type V = Seq<FunctionModel>;

    open spec fn view(&self) -> Seq<FunctionModel> {
        program_model(*self)
    }
}

/// Appending one statement to a list appends its image.
pub proof fn lemma_stmts_model_push(v1: Vec<Stmt>, v2: Vec<Stmt>, x: Stmt)
    requires
        v2@ == v1@.push(x),
    ensures
        stmts_model(v2, 0) == stmts_model(v1, 0).push(stmt_model(x)),
{
    lemma_stmts_model_push_from(v1, v2, x, 0);
}

proof fn lemma_stmts_model_push_from(v1: Vec<Stmt>, v2: Vec<Stmt>, x: Stmt, i: int)
    requires
        v2@ == v1@.push(x),
        0 <= i <= v1.len(),
    ensures
        stmts_model(v2, i) == stmts_model(v1, i).push(stmt_model(x)),
    decreases v1.len() - i,
{
    if i == v1.len() {
        assert(v2[i] == x);
        assert(stmts_model(v2, i + 1) =~= Seq::<StmtModel>::empty());
        assert(stmts_model(v1, i) =~= Seq::<StmtModel>::empty());
        assert(stmts_model(v2, i) =~= stmts_model(v1, i).push(stmt_model(x)));
    } else {
        lemma_stmts_model_push_from(v1, v2, x, i + 1);
        assert(v2[i] == v1[i]);
        assert(stmts_model(v2, i) =~= stmts_model(v1, i).push(stmt_model(x)));
    }
}

/// Appending one declarator to a list appends its image.
pub proof fn lemma_decls_model_push(v1: Vec<Declarator>, v2: Vec<Declarator>, x: Declarator)
    requires
        v2@ == v1@.push(x),
    ensures
        decls_model(v2, 0) == decls_model(v1, 0).push(declarator_model(x)),
{
    lemma_decls_model_push_from(v1, v2, x, 0);
}

proof fn lemma_decls_model_push_from(v1: Vec<Declarator>, v2: Vec<Declarator>, x: Declarator, i: int)
    requires
        v2@ == v1@.push(x),
        0 <= i <= v1.len(),
    ensures
        decls_model(v2, i) == decls_model(v1, i).push(declarator_model(x)),
    decreases v1.len() - i,
{
    if i == v1.len() {
        assert(v2[i] == x);
        assert(decls_model(v2, i + 1) =~= Seq::<DeclaratorModel>::empty());
        assert(decls_model(v1, i) =~= Seq::<DeclaratorModel>::empty());
        assert(decls_model(v2, i) =~= decls_model(v1, i).push(declarator_model(x)));
    } else {
        lemma_decls_model_push_from(v1, v2, x, i + 1);
        assert(v2[i] == v1[i]);
        assert(decls_model(v2, i) =~= decls_model(v1, i).push(declarator_model(x)));
    }
}

/// Appending one parameter to a list appends its image.
pub proof fn lemma_params_model_push(v1: Vec<Parameter>, v2: Vec<Parameter>, x: Parameter)
    requires
        v2@ == v1@.push(x),
    ensures
        params_model(v2, 0) == params_model(v1, 0).push(parameter_model(x)),
{
    lemma_params_model_push_from(v1, v2, x, 0);
}

proof fn lemma_params_model_push_from(v1: Vec<Parameter>, v2: Vec<Parameter>, x: Parameter, i: int)
    requires
        v2@ == v1@.push(x),
        0 <= i <= v1.len(),
    ensures
        params_model(v2, i) == params_model(v1, i).push(parameter_model(x)),
    decreases v1.len() - i,
{
    if i == v1.len() {
        assert(v2[i] == x);
        assert(params_model(v2, i + 1) =~= Seq::<ParameterModel>::empty());
        assert(params_model(v1, i) =~= Seq::<ParameterModel>::empty());
        assert(params_model(v2, i) =~= params_model(v1, i).push(parameter_model(x)));
    } else {
        lemma_params_model_push_from(v1, v2, x, i + 1);
        assert(v2[i] == v1[i]);
        assert(params_model(v2, i) =~= params_model(v1, i).push(parameter_model(x)));
    }
}

/// Appending one function to a list appends its image.
pub proof fn lemma_functions_model_push(v1: Vec<Function>, v2: Vec<Function>, x: Function)
    requires
        v2@ == v1@.push(x),
    ensures
        functions_model(v2, 0) == functions_model(v1, 0).push(function_model(x)),
{
    lemma_functions_model_push_from(v1, v2, x, 0);
}

proof fn lemma_functions_model_push_from(v1: Vec<Function>, v2: Vec<Function>, x: Function, i: int)
    requires
        v2@ == v1@.push(x),
        0 <= i <= v1.len(),
    ensures
        functions_model(v2, i) == functions_model(v1, i).push(function_model(x)),
    decreases v1.len() - i,
{
    if i == v1.len() {
        assert(v2[i] == x);
        assert(functions_model(v2, i + 1) =~= Seq::<FunctionModel>::empty());
        assert(functions_model(v1, i) =~= Seq::<FunctionModel>::empty());
        assert(functions_model(v2, i) =~= functions_model(v1, i).push(function_model(x)));
    } else {
        lemma_functions_model_push_from(v1, v2, x, i + 1);
        assert(v2[i] == v1[i]);
        assert(functions_model(v2, i) =~= functions_model(v1, i).push(function_model(x)));
    }
}

} // verus!
