use vstd::prelude::*;

use crate::token::{Literal, LiteralV, Token, TokenV};

verus! {

// ---------------------------------------------------------------------------
// Syntax tree.
// ---------------------------------------------------------------------------

/// An expression of Lox.
#[derive(Debug)]
pub enum Expr {
    Binary(Box<Binary>),
    Grouping(Box<Grouping>),
    Unary(Box<Unary>),
    Variable(Box<Variable>),
    This(Box<This>),
    Assign(Box<Assign>),
    Get(Box<Get>),
    SetProperty(Box<SetProperty>),
    Super(Box<Super>),
    Logical(Box<Logical>),
    Call(Box<Call>),
    Lambda(Box<Lambda>),
    Literal(Literal),
}

#[derive(Debug)]
pub struct Binary {
    pub left: Expr,
    pub operator: Token,
    pub right: Expr,
}

#[derive(Debug)]
pub struct Grouping {
    pub expression: Expr,
}

#[derive(Debug)]
pub struct Unary {
    pub operator: Token,
    pub right: Expr,
}

#[derive(Debug)]
pub struct Variable {
    pub name: Token,
}

#[derive(Debug)]
pub struct This {
    pub keyword: Token,
}

#[derive(Debug)]
pub struct Assign {
    pub name: Token,
    pub value: Expr,
}

#[derive(Debug)]
pub struct Get {
    pub object: Expr,
    pub name: Token,
}

#[derive(Debug)]
pub struct SetProperty {
    pub object: Expr,
    pub name: Token,
    pub value: Expr,
}

#[derive(Debug)]
pub struct Super {
    pub method: Token,
    pub keyword: Token,
}

#[derive(Debug)]
pub struct Logical {
    pub left: Expr,
    pub operator: Token,
    pub right: Expr,
}

#[derive(Debug)]
pub struct Call {
    pub callee: Expr,
    pub paren: Token,
    pub arguments: Vec<Expr>,
}

#[derive(Debug)]
pub struct Lambda {
    pub paren: Token,
    pub params: Vec<Token>,
    pub body: Vec<Stmt>,
}

/// A statement of Lox.
#[derive(Debug)]
pub enum Stmt {
    Expression(Box<Expression>),
    Block(Box<Block>),
    Class(Box<Class>),
    Function(Box<Function>),
    Print(Box<Print>),
    Var(Box<Var>),
    While(Box<While>),
    Break(Box<Break>),
    Continue(Box<Continue>),
    If(Box<If>),
    Return(Box<Return>),
    StackTrace,
}

#[derive(Debug)]
pub struct Expression {
    pub expr: Expr,
}

#[derive(Debug)]
pub struct Block {
    pub statements: Vec<Stmt>,
}

#[derive(Debug)]
pub struct Class {
    pub name: Token,
    pub methods: Vec<Function>,
    pub superclass: Option<Variable>,
}

#[derive(Debug)]
pub struct Function {
    pub name: Token,
    pub params: Vec<Token>,
    pub body: Vec<Stmt>,
}

#[derive(Debug)]
pub struct Print {
    pub expr: Expr,
    pub token: Token,
}

#[derive(Debug)]
pub struct Var {
    pub name: Token,
    pub initializer: Option<Expr>,
}

#[derive(Debug)]
pub struct While {
    pub token: Token,
    pub condition: Expr,
    pub body: Stmt,
}

#[derive(Debug)]
pub struct Break {
    pub keyword: Token,
}

#[derive(Debug)]
pub struct Continue {
    pub keyword: Token,
}

#[derive(Debug)]
pub struct If {
    pub token: Token,
    pub condition: Expr,
    pub then_branch: Stmt,
    pub else_branch: Option<Stmt>,
}

#[derive(Debug)]
pub struct Return {
    pub keyword: Token,
    pub value: Option<Expr>,
}

/// What kind of function body the resolver is inside.
#[derive(Debug, Clone, Copy, PartialEq, Eq, Structural)]
pub enum FunctionType {
    FUNCTION,
    METHOD,
    INITIALIZER,
    NONE,
    LAMBDA,
}

/// What kind of class body the resolver is inside.
#[derive(Debug, Clone, Copy, PartialEq, Eq, Structural)]
pub enum ClassType {
    CLASS,
    SUBCLASS,
    NONE,
}

// ---------------------------------------------------------------------------
// Mathematical model of the tree: every token by its view, every vector by
// the sequence of the views of its elements.
// ---------------------------------------------------------------------------

pub enum ExprV {
    Binary(Box<ExprV>, TokenV, Box<ExprV>),
    Grouping(Box<ExprV>),
    Unary(TokenV, Box<ExprV>),
    Variable(TokenV),
    This(TokenV),
    Assign(TokenV, Box<ExprV>),
    Get(Box<ExprV>, TokenV),
    SetProperty(Box<ExprV>, TokenV, Box<ExprV>),
    /// The method's name, then the keyword `super`.
    Super(TokenV, TokenV),
    Logical(Box<ExprV>, TokenV, Box<ExprV>),
    Call(Box<ExprV>, TokenV, Seq<ExprV>),
    Lambda(TokenV, Seq<TokenV>, Seq<StmtV>),
    Literal(LiteralV),
}

pub struct FunctionV {
    pub name: TokenV,
    pub params: Seq<TokenV>,
    pub body: Seq<StmtV>,
}

pub enum StmtV {
    Expression(ExprV),
    Block(Seq<StmtV>),
    /// The class's name, its methods, and the name of its superclass.
    Class(TokenV, Seq<FunctionV>, Option<TokenV>),
    Function(FunctionV),
    /// The printed expression, then the keyword `print`.
    Print(ExprV, TokenV),
    Var(TokenV, Option<ExprV>),
    /// The keyword, the condition and the body.
    While(TokenV, ExprV, Box<StmtV>),
    Break(TokenV),
    Continue(TokenV),
    /// The keyword, the condition, the then branch and the else branch.
    If(TokenV, ExprV, Box<StmtV>, Option<Box<StmtV>>),
    Return(TokenV, Option<ExprV>),
    StackTrace,
}

pub open spec fn tokens_v(s: Seq<Token>) -> Seq<TokenV>
    decreases s.len(),
{
    if s.len() == 0 {
        Seq::empty()
    } else {
        tokens_v(s.drop_last()).push(s.last()@)
    }
}

pub open spec fn expr_v(e: Expr) -> ExprV
    decreases e,
{
    match e {
        Expr::Binary(b) => ExprV::Binary(Box::new(expr_v(b.left)), b.operator@, Box::new(expr_v(b.right))),
        Expr::Grouping(g) => ExprV::Grouping(Box::new(expr_v(g.expression))),
        Expr::Unary(u) => ExprV::Unary(u.operator@, Box::new(expr_v(u.right))),
        Expr::Variable(v) => ExprV::Variable(v.name@),
        Expr::This(t) => ExprV::This(t.keyword@),
        Expr::Assign(a) => ExprV::Assign(a.name@, Box::new(expr_v(a.value))),
        Expr::Get(g) => ExprV::Get(Box::new(expr_v(g.object)), g.name@),
        Expr::SetProperty(s) => ExprV::SetProperty(Box::new(expr_v(s.object)), s.name@, Box::new(expr_v(s.value))),
        Expr::Super(s) => ExprV::Super(s.method@, s.keyword@),
        Expr::Logical(l) => ExprV::Logical(Box::new(expr_v(l.left)), l.operator@, Box::new(expr_v(l.right))),
        Expr::Call(c) => ExprV::Call(Box::new(expr_v(c.callee)), c.paren@, exprs_v(c.arguments@)),
        Expr::Lambda(l) => ExprV::Lambda(l.paren@, tokens_v(l.params@), stmts_v(l.body@)),
        Expr::Literal(l) => ExprV::Literal(l@),
    }
}

pub open spec fn exprs_v(s: Seq<Expr>) -> Seq<ExprV>
    decreases s,
{
    if s.len() == 0 {
        Seq::empty()
    } else {
        exprs_v(s.drop_last()).push(expr_v(s.last()))
    }
}

pub open spec fn function_v(f: Function) -> FunctionV
    decreases f,
{
    FunctionV { name: f.name@, params: tokens_v(f.params@), body: stmts_v(f.body@) }
}

pub open spec fn functions_v(s: Seq<Function>) -> Seq<FunctionV>
    decreases s,
{
    if s.len() == 0 {
        Seq::empty()
    } else {
        functions_v(s.drop_last()).push(function_v(s.last()))
    }
}

pub open spec fn stmt_v(s: Stmt) -> StmtV
    decreases s,
{
    match s {
        Stmt::Expression(e) => StmtV::Expression(expr_v(e.expr)),
        Stmt::Block(b) => StmtV::Block(stmts_v(b.statements@)),
        Stmt::Class(c) => StmtV::Class(
            c.name@,
            functions_v(c.methods@),
            match c.superclass {
                Some(v) => Some(v.name@),
                None => None,
            },
        ),
        Stmt::Function(f) => StmtV::Function(
            FunctionV { name: f.name@, params: tokens_v(f.params@), body: stmts_v(f.body@) },
        ),
        Stmt::Print(p) => StmtV::Print(expr_v(p.expr), p.token@),
        Stmt::Var(v) => StmtV::Var(
            v.name@,
            match v.initializer {
                Some(x) => Some(expr_v(x)),
                None => None,
            },
        ),
        Stmt::While(w) => StmtV::While(w.token@, expr_v(w.condition), Box::new(stmt_v(w.body))),
        Stmt::Break(b) => StmtV::Break(b.keyword@),
        Stmt::Continue(c) => StmtV::Continue(c.keyword@),
        Stmt::If(i) => StmtV::If(
            i.token@,
            expr_v(i.condition),
            Box::new(stmt_v(i.then_branch)),
            match i.else_branch {
                Some(e) => Some(Box::new(stmt_v(e))),
                None => None,
            },
        ),
        Stmt::Return(r) => StmtV::Return(
            r.keyword@,
            match r.value {
                Some(x) => Some(expr_v(x)),
                None => None,
            },
        ),
        Stmt::StackTrace => StmtV::StackTrace,
    }
}

pub open spec fn stmts_v(s: Seq<Stmt>) -> Seq<StmtV>
    decreases s,
{
    if s.len() == 0 {
        Seq::empty()
    } else {
        stmts_v(s.drop_last()).push(stmt_v(s.last()))
    }
}

pub open spec fn opt_expr_view(o: Option<Expr>) -> Option<ExprV> {
    match o {
        Some(e) => Some(e@),
        None => None,
    }
}

pub open spec fn opt_stmt_view(o: Option<Stmt>) -> Option<StmtV> {
    match o {
        Some(s) => Some(s@),
        None => None,
    }
}

pub open spec fn opt_variable_name(o: Option<Variable>) -> Option<TokenV> {
    match o {
        Some(v) => Some(v.name@),
        None => None,
    }
}

impl View for Expr {
    type V = ExprV;

    open spec fn view(&self) -> ExprV {
        expr_v(*self)
    }
}

impl View for Stmt {
    type V = StmtV;

    open spec fn view(&self) -> StmtV {
        stmt_v(*self)
    }
}

// ---------------------------------------------------------------------------
// Constructors.
// ---------------------------------------------------------------------------

impl Binary {
    pub fn new(left: Expr, operator: Token, right: Expr) -> (r: Self)
        ensures
            r == (Binary { left, operator, right }),
    {
        Binary { left, operator, right }
    }
}

impl Grouping {
    pub fn new(expression: Expr) -> (r: Self)
        ensures
            r == (Grouping { expression }),
    {
        Grouping { expression }
    }
}

impl Unary {
    pub fn new(operator: Token, right: Expr) -> (r: Self)
        ensures
            r == (Unary { operator, right }),
    {
        Unary { operator, right }
    }
}

impl Variable {
    pub fn new(name: Token) -> (r: Self)
        ensures
            r == (Variable { name }),
    {
        Variable { name }
    }
}

impl This {
    pub fn new(keyword: Token) -> (r: Self)
        ensures
            r == (This { keyword }),
    {
        This { keyword }
    }
}

impl Assign {
    pub fn new(name: Token, value: Expr) -> (r: Self)
        ensures
            r == (Assign { name, value }),
    {
        Assign { name, value }
    }
}

impl Get {
    pub fn new(object: Expr, name: Token) -> (r: Self)
        ensures
            r == (Get { object, name }),
    {
        Get { object, name }
    }
}

impl SetProperty {
    pub fn new(object: Expr, name: Token, value: Expr) -> (r: Self)
        ensures
            r == (SetProperty { object, name, value }),
    {
        SetProperty { object, name, value }
    }
}

impl Super {
    pub fn new(method: Token, keyword: Token) -> (r: Self)
        ensures
            r == (Super { method, keyword }),
    {
        Super { method, keyword }
    }
}

impl Logical {
    pub fn new(left: Expr, operator: Token, right: Expr) -> (r: Self)
        ensures
            r == (Logical { left, operator, right }),
    {
        Logical { left, operator, right }
    }
}

impl Call {
    pub fn new(callee: Expr, paren: Token, arguments: Vec<Expr>) -> (r: Self)
        ensures
            r == (Call { callee, paren, arguments }),
    {
        Call { callee, paren, arguments }
    }
}

impl Lambda {
    pub fn new(paren: Token, params: Vec<Token>, body: Vec<Stmt>) -> (r: Self)
        ensures
            r == (Lambda { paren, params, body }),
    {
        Lambda { paren, params, body }
    }
}

impl Expression {
    pub fn new(expr: Expr) -> (r: Self)
        ensures
            r == (Expression { expr }),
    {
        Expression { expr }
    }
}

impl Block {
    pub fn new(statements: Vec<Stmt>) -> (r: Self)
        ensures
            r == (Block { statements }),
    {
        Block { statements }
    }
}

impl Class {
    pub fn new(name: Token, methods: Vec<Function>, superclass: Option<Variable>) -> (r: Self)
        ensures
            r == (Class { name, methods, superclass }),
    {
        Class { name, methods, superclass }
    }
}

impl Function {
    pub fn new(name: Token, params: Vec<Token>, body: Vec<Stmt>) -> (r: Self)
        ensures
            r == (Function { name, params, body }),
    {
        Function { name, params, body }
    }
}

impl Print {
    pub fn new(expr: Expr, token: Token) -> (r: Self)
        ensures
            r == (Print { expr, token }),
    {
        Print { expr, token }
    }
}

impl Var {
    pub fn new(name: Token, initializer: Option<Expr>) -> (r: Self)
        ensures
            r == (Var { name, initializer }),
    {
        Var { name, initializer }
    }
}

impl While {
    pub fn new(condition: Expr, body: Stmt, token: Token) -> (r: Self)
        ensures
            r == (While { condition, body, token }),
    {
        While { condition, body, token }
    }
}

impl Break {
    pub fn new(keyword: Token) -> (r: Self)
        ensures
            r == (Break { keyword }),
    {
        Break { keyword }
    }
}

impl Continue {
    pub fn new(keyword: Token) -> (r: Self)
        ensures
            r == (Continue { keyword }),
    {
        Continue { keyword }
    }
}

impl If {
    pub fn new(condition: Expr, then_branch: Stmt, else_branch: Option<Stmt>, token: Token) -> (r: Self)
        ensures
            r == (If { condition, then_branch, else_branch, token }),
    {
        If { condition, then_branch, else_branch, token }
    }
}

impl Return {
    pub fn new(keyword: Token, value: Option<Expr>) -> (r: Self)
        ensures
            r == (Return { keyword, value }),
    {
        Return { keyword, value }
    }
}

pub proof fn lemma_tokens_v_push(s: Seq<Token>, x: Token)
    ensures
        tokens_v(s.push(x)) == tokens_v(s).push(x@),
{
    assert(s.push(x).drop_last() =~= s);
}

pub proof fn lemma_exprs_v_push(s: Seq<Expr>, x: Expr)
    ensures
        exprs_v(s.push(x)) == exprs_v(s).push(expr_v(x)),
{
    assert(s.push(x).drop_last() =~= s);
}

pub proof fn lemma_stmts_v_push(s: Seq<Stmt>, x: Stmt)
    ensures
        stmts_v(s.push(x)) == stmts_v(s).push(stmt_v(x)),
{
    assert(s.push(x).drop_last() =~= s);
}

pub proof fn lemma_functions_v_push(s: Seq<Function>, x: Function)
    ensures
        functions_v(s.push(x)) == functions_v(s).push(function_v(x)),
{
    assert(s.push(x).drop_last() =~= s);
}

pub proof fn lemma_tokens_v_len(s: Seq<Token>)
    ensures
        tokens_v(s).len() == s.len(),
    decreases s.len(),
{
    if s.len() > 0 {
        lemma_tokens_v_len(s.drop_last());
    }
}

pub proof fn lemma_exprs_v_len(s: Seq<Expr>)
    ensures
        exprs_v(s).len() == s.len(),
    decreases s.len(),
{
    if s.len() > 0 {
        lemma_exprs_v_len(s.drop_last());
    }
}

pub proof fn lemma_views_empty()
    ensures
        tokens_v(Seq::<Token>::empty()) == Seq::<TokenV>::empty(),
        exprs_v(Seq::<Expr>::empty()) == Seq::<ExprV>::empty(),
        stmts_v(Seq::<Stmt>::empty()) == Seq::<StmtV>::empty(),
        functions_v(Seq::<Function>::empty()) == Seq::<FunctionV>::empty(),
{
}

pub proof fn lemma_tokens_v_index(s: Seq<Token>)
    ensures
        tokens_v(s).len() == s.len(),
        forall|j: int| 0 <= j < s.len() ==> #[trigger] tokens_v(s)[j] == s[j]@,
    decreases s.len(),
{
    if s.len() > 0 {
        lemma_tokens_v_index(s.drop_last());
    }
}

pub proof fn lemma_exprs_v_index(s: Seq<Expr>)
    ensures
        exprs_v(s).len() == s.len(),
        forall|j: int| 0 <= j < s.len() ==> #[trigger] exprs_v(s)[j] == expr_v(s[j]),
    decreases s.len(),
{
    if s.len() > 0 {
        lemma_exprs_v_index(s.drop_last());
    }
}

pub proof fn lemma_stmts_v_index(s: Seq<Stmt>)
    ensures
        stmts_v(s).len() == s.len(),
        forall|j: int| 0 <= j < s.len() ==> #[trigger] stmts_v(s)[j] == stmt_v(s[j]),
    decreases s.len(),
{
    if s.len() > 0 {
        lemma_stmts_v_index(s.drop_last());
    }
}

pub proof fn lemma_functions_v_at(s: Seq<Function>, j: int)
    requires
        0 <= j < s.len(),
    ensures
        functions_v(s).len() == s.len(),
        functions_v(s)[j] == function_v(s[j]),
    decreases s.len(),
{
    lemma_functions_v_len(s.drop_last());
    if j < s.len() - 1 {
        lemma_functions_v_at(s.drop_last(), j);
    }
}

pub proof fn lemma_functions_v_len(s: Seq<Function>)
    ensures
        functions_v(s).len() == s.len(),
    decreases s.len(),
{
    if s.len() > 0 {
        lemma_functions_v_len(s.drop_last());
    }
}

pub proof fn lemma_functions_v_update(s: Seq<Function>, i: int, x: Function)
    requires
        0 <= i < s.len(),
    ensures
        functions_v(s.update(i, x)) == functions_v(s).update(i, function_v(x)),
    decreases s.len(),
{
    let t = s.update(i, x);
    lemma_functions_v_len(s.drop_last());
    if i == s.len() - 1 {
        assert(t.drop_last() =~= s.drop_last());
        assert(functions_v(t) =~= functions_v(s).update(i, function_v(x)));
    } else {
        assert(t.drop_last() =~= s.drop_last().update(i, x));
        lemma_functions_v_update(s.drop_last(), i, x);
        assert(functions_v(t) =~= functions_v(s).update(i, function_v(x)));
    }
}

} // verus!
