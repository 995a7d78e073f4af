use vstd::prelude::*;

use crate::ast::{
    Assign, Binary, Block, Break, Call, Class, Continue, Expr, Expression, Function, Get, Grouping,
    If, Lambda, Logical, Print, Return, SetProperty, Stmt, Super, This, Unary, Var, Variable, While,
    exprs_v, function_v, functions_v, lemma_exprs_v_push, lemma_functions_v_push, lemma_stmts_v_push,
    lemma_tokens_v_push, lemma_views_empty, stmts_v, tokens_v,
};
use crate::token::Token;

verus! {

// ---------------------------------------------------------------------------
// Copies of syntax trees: a copy has the same value as what it copies.
// ---------------------------------------------------------------------------

fn clone_tokens(v: &Vec<Token>) -> (r: Vec<Token>)
    ensures
        tokens_v(r@) == tokens_v(v@),
{
    let mut out: Vec<Token> = Vec::new();
    let mut i: usize = 0;
    proof {
        lemma_views_empty();
        assert(v@.subrange(0, 0) =~= Seq::<Token>::empty());
    }
    while i < v.len()
        invariant
            i <= v@.len(),
            tokens_v(out@) == tokens_v(v@.subrange(0, i as int)),
        decreases v@.len() - i,
    {
        let t = v[i].clone();
        proof {
            lemma_tokens_v_push(out@, t);
            assert(v@.subrange(0, i + 1).drop_last() =~= v@.subrange(0, i as int));
        }
        out.push(t);
        i += 1;
    }
    assert(v@.subrange(0, i as int) =~= v@);
    out
}

fn clone_exprs(v: &Vec<Expr>) -> (r: Vec<Expr>)
    ensures
        exprs_v(r@) == exprs_v(v@),
    decreases v@, 0int,
{
    let mut out: Vec<Expr> = Vec::new();
    let mut i: usize = 0;
    proof {
        lemma_views_empty();
        assert(v@.subrange(0, 0) =~= Seq::<Expr>::empty());
    }
    while i < v.len()
        invariant
            i <= v@.len(),
            exprs_v(out@) == exprs_v(v@.subrange(0, i as int)),
        decreases v@.len() - i,
    {
        assert(decreases_to!(v@ => v@[i as int]));
        let e = clone_expr(&v[i]);
        proof {
            lemma_exprs_v_push(out@, e);
            assert(v@.subrange(0, i + 1).drop_last() =~= v@.subrange(0, i as int));
        }
        out.push(e);
        i += 1;
    }
    assert(v@.subrange(0, i as int) =~= v@);
    out
}

fn clone_stmts(v: &Vec<Stmt>) -> (r: Vec<Stmt>)
    ensures
        stmts_v(r@) == stmts_v(v@),
    decreases v@, 0int,
{
    let mut out: Vec<Stmt> = Vec::new();
    let mut i: usize = 0;
    proof {
        lemma_views_empty();
        assert(v@.subrange(0, 0) =~= Seq::<Stmt>::empty());
    }
    while i < v.len()
        invariant
            i <= v@.len(),
            stmts_v(out@) == stmts_v(v@.subrange(0, i as int)),
        decreases v@.len() - i,
    {
        assert(decreases_to!(v@ => v@[i as int]));
        let s = clone_stmt(&v[i]);
        proof {
            lemma_stmts_v_push(out@, s);
            assert(v@.subrange(0, i + 1).drop_last() =~= v@.subrange(0, i as int));
        }
        out.push(s);
        i += 1;
    }
    assert(v@.subrange(0, i as int) =~= v@);
    out
}

fn clone_functions(v: &Vec<Function>) -> (r: Vec<Function>)
    ensures
        functions_v(r@) == functions_v(v@),
    decreases v@, 0int,
{
    let mut out: Vec<Function> = Vec::new();
    let mut i: usize = 0;
    proof {
        lemma_views_empty();
        assert(v@.subrange(0, 0) =~= Seq::<Function>::empty());
    }
    while i < v.len()
        invariant
            i <= v@.len(),
            functions_v(out@) == functions_v(v@.subrange(0, i as int)),
        decreases v@.len() - i,
    {
        assert(decreases_to!(v@ => v@[i as int]));
        let f = clone_function(&v[i]);
        proof {
            lemma_functions_v_push(out@, f);
            assert(v@.subrange(0, i + 1).drop_last() =~= v@.subrange(0, i as int));
        }
        out.push(f);
        i += 1;
    }
    assert(v@.subrange(0, i as int) =~= v@);
    out
}

/// A copy of a function declaration.
pub fn clone_function(f: &Function) -> (r: Function)
    ensures
        function_v(r) == function_v(*f),
    decreases f, 0int,
{
    Function { name: f.name.clone(), params: clone_tokens(&f.params), body: clone_stmts(&f.body) }
}

/// A copy of a lambda.
pub fn clone_lambda(l: &Lambda) -> (r: Lambda)
    ensures
        r.paren == l.paren,
        tokens_v(r.params@) == tokens_v(l.params@),
        stmts_v(r.body@) == stmts_v(l.body@),
    decreases l, 0int,
{
    Lambda { paren: l.paren.clone(), params: clone_tokens(&l.params), body: clone_stmts(&l.body) }
}

/// A copy of an expression.
pub fn clone_expr(e: &Expr) -> (r: Expr)
    ensures
        r@ == e@,
    decreases e, 0int,
{
    match e {
        Expr::Binary(b) => Expr::Binary(
            Box::new(Binary { left: clone_expr(&b.left), operator: b.operator.clone(), right: clone_expr(&b.right) }),
        ),
        Expr::Grouping(g) => Expr::Grouping(Box::new(Grouping { expression: clone_expr(&g.expression) })),
        Expr::Unary(u) => Expr::Unary(Box::new(Unary { operator: u.operator.clone(), right: clone_expr(&u.right) })),
        Expr::Variable(v) => Expr::Variable(Box::new(Variable { name: v.name.clone() })),
        Expr::This(t) => Expr::This(Box::new(This { keyword: t.keyword.clone() })),
        Expr::Assign(a) => Expr::Assign(Box::new(Assign { name: a.name.clone(), value: clone_expr(&a.value) })),
        Expr::Get(g) => Expr::Get(Box::new(Get { object: clone_expr(&g.object), name: g.name.clone() })),
        Expr::SetProperty(s) => Expr::SetProperty(
            Box::new(SetProperty { object: clone_expr(&s.object), name: s.name.clone(), value: clone_expr(&s.value) }),
        ),
        Expr::Super(s) => Expr::Super(Box::new(Super { method: s.method.clone(), keyword: s.keyword.clone() })),
        Expr::Logical(l) => Expr::Logical(
            Box::new(Logical { left: clone_expr(&l.left), operator: l.operator.clone(), right: clone_expr(&l.right) }),
        ),
        Expr::Call(c) => Expr::Call(
            Box::new(Call { callee: clone_expr(&c.callee), paren: c.paren.clone(), arguments: clone_exprs(&c.arguments) }),
        ),
        Expr::Lambda(l) => Expr::Lambda(Box::new(clone_lambda(l))),
        Expr::Literal(l) => Expr::Literal(l.clone()),
    }
}

fn clone_opt_expr(o: &Option<Expr>) -> (r: Option<Expr>)
    ensures
        crate::ast::opt_expr_view(r) == crate::ast::opt_expr_view(*o),
    decreases o, 0int,
{
    match o {
        Some(x) => Some(clone_expr(x)),
        None => None,
    }
}

/// A copy of a statement.
pub fn clone_stmt(s: &Stmt) -> (r: Stmt)
    ensures
        r@ == s@,
    decreases s, 0int,
{
    match s {
        Stmt::Expression(x) => Stmt::Expression(Box::new(Expression { expr: clone_expr(&x.expr) })),
        Stmt::Block(b) => Stmt::Block(Box::new(Block { statements: clone_stmts(&b.statements) })),
        Stmt::Class(c) => {
            let superclass = match &c.superclass {
                Some(v) => Some(Variable { name: v.name.clone() }),
                None => None,
            };
            Stmt::Class(Box::new(Class { name: c.name.clone(), methods: clone_functions(&c.methods), superclass }))
        },
        Stmt::Function(f) => Stmt::Function(Box::new(clone_function(f))),
        Stmt::Print(p) => Stmt::Print(Box::new(Print { expr: clone_expr(&p.expr), token: p.token.clone() })),
        Stmt::Var(v) => Stmt::Var(Box::new(Var { name: v.name.clone(), initializer: clone_opt_expr(&v.initializer) })),
        Stmt::While(w) => Stmt::While(
            Box::new(While { token: w.token.clone(), condition: clone_expr(&w.condition), body: clone_stmt(&w.body) }),
        ),
        Stmt::Break(b) => Stmt::Break(Box::new(Break { keyword: b.keyword.clone() })),
        Stmt::Continue(c) => Stmt::Continue(Box::new(Continue { keyword: c.keyword.clone() })),
        Stmt::If(i) => {
            let else_branch = match &i.else_branch {
                Some(e) => Some(clone_stmt(e)),
                None => None,
            };
            Stmt::If(
                Box::new(If { token: i.token.clone(), condition: clone_expr(&i.condition), then_branch: clone_stmt(&i.then_branch), else_branch }),
            )
        },
        Stmt::Return(r) => Stmt::Return(Box::new(Return { keyword: r.keyword.clone(), value: clone_opt_expr(&r.value) })),
        Stmt::StackTrace => Stmt::StackTrace,
    }
}

impl Clone for Expr {
    fn clone(&self) -> (r: Self)
        ensures
            r@ == self@,
    {
        clone_expr(self)
    }
}

impl Clone for Stmt {
    fn clone(&self) -> (r: Self)
        ensures
            r@ == self@,
    {
        clone_stmt(self)
    }
}

impl Clone for Function {
    fn clone(&self) -> (r: Self)
        ensures
            function_v(r) == function_v(*self),
    {
        clone_function(self)
    }
}

impl Clone for Lambda {
    fn clone(&self) -> (r: Self)
        ensures
            r.paren == self.paren,
            tokens_v(r.params@) == tokens_v(self.params@),
            stmts_v(r.body@) == stmts_v(self.body@),
    {
        clone_lambda(self)
    }
}

} // verus!
