use vstd::prelude::*;

use crate::ast::{ExprV, FunctionType, FunctionV, StmtV};
use crate::error::LoxErrorV;
use crate::resolver::rules::{
    Outcome, ResolverV, begin_scope, bind_top, declare, declare_params, define, define_var, end_scope,
    is_ok, method_kind, res_class, res_expr, res_exprs, res_function, res_methods, res_stmt, res_stmts,
    res_variable, with_class, with_function,
};
use crate::token::TokenV;

verus! {

// ---------------------------------------------------------------------------
// What a successful walk keeps: every scope it opens it closes again, and
// the kinds of class and function it is in are put back. This holds of code
// with no `break` or `continue`; a loop whose body leaves a block by `break`
// ends with the block's scope still open.
// ---------------------------------------------------------------------------

/// The depth of the scopes and the kinds of class and function body.
pub open spec fn same_frame(a: ResolverV, b: ResolverV) -> bool {
    &&& a.scopes.len() == b.scopes.len()
    &&& a.class == b.class
    &&& a.function == b.function
}

/// An outcome that is no loop exit.
pub open spec fn not_exit(r: Outcome) -> bool {
    !(r matches Err(LoxErrorV::Break(_))) && !(r matches Err(LoxErrorV::Continue(_)))
}

pub open spec fn exits_free_expr(e: ExprV) -> bool
    decreases e, 0int,
{
    match e {
        ExprV::Binary(l, _, r) => exits_free_expr(*l) && exits_free_expr(*r),
        ExprV::Logical(l, _, r) => exits_free_expr(*l) && exits_free_expr(*r),
        ExprV::Grouping(x) => exits_free_expr(*x),
        ExprV::Unary(_, x) => exits_free_expr(*x),
        ExprV::Get(o, _) => exits_free_expr(*o),
        ExprV::SetProperty(o, _, v) => exits_free_expr(*o) && exits_free_expr(*v),
        ExprV::Call(c, _, args) => exits_free_expr(*c) && exits_free_exprs(args, 0),
        ExprV::Lambda(_, _, body) => exits_free_stmts(body, 0),
        ExprV::Assign(_, v) => exits_free_expr(*v),
        _ => true,
    }
}

pub open spec fn exits_free_exprs(s: Seq<ExprV>, i: int) -> bool
    decreases s, s.len() - i,
{
    if i >= s.len() || i < 0 {
        true
    } else {
        exits_free_expr(s[i]) && exits_free_exprs(s, i + 1)
    }
}

pub open spec fn exits_free_functions(ms: Seq<FunctionV>, i: int) -> bool
    decreases ms, ms.len() - i,
{
    if i >= ms.len() || i < 0 {
        true
    } else {
        exits_free_function(ms[i]) && exits_free_functions(ms, i + 1)
    }
}

pub open spec fn exits_free_function(f: FunctionV) -> bool
    decreases f, 0int,
{
    exits_free_stmts(f.body, 0)
}

/// Code with no `break` and no `continue` anywhere in it.
pub open spec fn exits_free_stmt(s: StmtV) -> bool
    decreases s, 0int,
{
    match s {
        StmtV::Expression(e) => exits_free_expr(e),
        StmtV::Print(e, _) => exits_free_expr(e),
        StmtV::Var(_, init) => match init {
            Some(x) => exits_free_expr(x),
            None => true,
        },
        StmtV::Block(body) => exits_free_stmts(body, 0),
        StmtV::If(_, c, t, e) => exits_free_expr(c) && exits_free_stmt(*t) && match e {
            Some(x) => exits_free_stmt(*x),
            None => true,
        },
        StmtV::While(_, c, b) => exits_free_expr(c) && exits_free_stmt(*b),
        StmtV::Break(_) => false,
        StmtV::Continue(_) => false,
        StmtV::Function(f) => exits_free_function(f),
        StmtV::Return(_, v) => match v {
            Some(x) => exits_free_expr(x),
            None => true,
        },
        StmtV::Class(_, methods, _) => exits_free_functions(methods, 0),
        StmtV::StackTrace => true,
    }
}

pub open spec fn exits_free_stmts(s: Seq<StmtV>, i: int) -> bool
    decreases s, s.len() - i,
{
    if i >= s.len() || i < 0 {
        true
    } else {
        exits_free_stmt(s[i]) && exits_free_stmts(s, i + 1)
    }
}

proof fn lemma_bind_top_frame(st: ResolverV, name: Seq<char>, v: bool)
    ensures
        same_frame(st, bind_top(st, name, v)),
{
    reveal(bind_top);
}

proof fn lemma_declare_define_frame(st: ResolverV, tok: TokenV)
    ensures
        same_frame(st, declare(st, tok).0),
        same_frame(st, define(st, tok).0),
        not_exit(declare(st, tok).1),
        not_exit(define(st, tok).1),
{
    reveal(declare);
    reveal(define);
    lemma_bind_top_frame(st, tok.lexeme, false);
    lemma_bind_top_frame(st, tok.lexeme, true);
}

proof fn lemma_declare_params_frame(st: ResolverV, ps: Seq<TokenV>, i: int)
    ensures
        same_frame(st, declare_params(st, ps, i).0),
        not_exit(declare_params(st, ps, i).1),
    decreases ps.len() - i,
{
    if 0 <= i < ps.len() {
        lemma_declare_define_frame(st, ps[i]);
        let st1 = declare(st, ps[i]).0;
        lemma_declare_define_frame(st1, ps[i]);
        let st2 = define(st1, ps[i]).0;
        lemma_declare_params_frame(st2, ps, i + 1);
    }
}

proof fn lemma_variable_frame(st: ResolverV, name: TokenV)
    ensures
        res_variable(st, name).0 == st,
        not_exit(res_variable(st, name).1),
{
    reveal(res_variable);
}

pub proof fn lemma_expr_frame(st: ResolverV, e: ExprV)
    requires
        exits_free_expr(e),
    ensures
        not_exit(res_expr(st, e).1),
        is_ok(res_expr(st, e).1) ==> same_frame(st, res_expr(st, e).0),
    decreases e, 0int,
{
    match e {
        ExprV::Binary(l, _, r) => {
            lemma_expr_frame(st, *l);
            lemma_expr_frame(res_expr(st, *l).0, *r);
        },
        ExprV::Logical(l, _, r) => {
            lemma_expr_frame(st, *l);
            lemma_expr_frame(res_expr(st, *l).0, *r);
        },
        ExprV::Grouping(x) => lemma_expr_frame(st, *x),
        ExprV::Unary(_, x) => lemma_expr_frame(st, *x),
        ExprV::Get(o, _) => lemma_expr_frame(st, *o),
        ExprV::SetProperty(o, _, v) => {
            lemma_expr_frame(st, *v);
            lemma_expr_frame(res_expr(st, *v).0, *o);
        },
        ExprV::Call(c, _, args) => {
            lemma_expr_frame(st, *c);
            lemma_exprs_frame(res_expr(st, *c).0, args, 0);
        },
        ExprV::Lambda(_, params, body) => {
            let st1 = with_function(begin_scope(st), FunctionType::LAMBDA);
            lemma_declare_params_frame(st1, params, 0);
            lemma_stmts_frame(declare_params(st1, params, 0).0, body, 0);
        },
        ExprV::Variable(name) => lemma_variable_frame(st, name),
        ExprV::Assign(_, v) => lemma_expr_frame(st, *v),
        _ => {},
    }
}

pub proof fn lemma_exprs_frame(st: ResolverV, s: Seq<ExprV>, i: int)
    requires
        exits_free_exprs(s, i),
    ensures
        not_exit(res_exprs(st, s, i).1),
        is_ok(res_exprs(st, s, i).1) ==> same_frame(st, res_exprs(st, s, i).0),
    decreases s, s.len() - i,
{
    if 0 <= i < s.len() {
        lemma_expr_frame(st, s[i]);
        lemma_exprs_frame(res_expr(st, s[i]).0, s, i + 1);
    }
}

pub proof fn lemma_stmts_frame(st: ResolverV, s: Seq<StmtV>, i: int)
    requires
        exits_free_stmts(s, i),
    ensures
        not_exit(res_stmts(st, s, i).1),
        is_ok(res_stmts(st, s, i).1) ==> same_frame(st, res_stmts(st, s, i).0),
    decreases s, s.len() - i,
{
    if 0 <= i < s.len() {
        lemma_stmt_frame(st, s[i]);
        lemma_stmts_frame(res_stmt(st, s[i]).0, s, i + 1);
    }
}

pub proof fn lemma_function_frame(st: ResolverV, f: FunctionV, kind: FunctionType)
    requires
        exits_free_function(f),
    ensures
        not_exit(res_function(st, f, kind).1),
        is_ok(res_function(st, f, kind).1) ==> same_frame(st, res_function(st, f, kind).0),
    decreases f, 0int,
{
    let st1 = with_function(begin_scope(st), kind);
    lemma_declare_params_frame(st1, f.params, 0);
    lemma_stmts_frame(declare_params(st1, f.params, 0).0, f.body, 0);
}

pub proof fn lemma_methods_frame(st: ResolverV, ms: Seq<FunctionV>, i: int)
    requires
        exits_free_functions(ms, i),
    ensures
        not_exit(res_methods(st, ms, i).1),
        is_ok(res_methods(st, ms, i).1) ==> same_frame(st, res_methods(st, ms, i).0),
    decreases ms, ms.len() - i,
{
    if 0 <= i < ms.len() {
        lemma_function_frame(st, ms[i], method_kind(ms[i].name.lexeme));
        lemma_methods_frame(res_function(st, ms[i], method_kind(ms[i].name.lexeme)).0, ms, i + 1);
    }
}

pub proof fn lemma_class_frame(st: ResolverV, name: TokenV, methods: Seq<FunctionV>, sup: Option<TokenV>)
    requires
        exits_free_functions(methods, 0),
    ensures
        not_exit(res_class(st, name, methods, sup).1),
        is_ok(res_class(st, name, methods, sup).1) ==> same_frame(st, res_class(st, name, methods, sup).0),
    decreases methods, methods.len() + 1,
{
    let st0 = with_class(st, crate::ast::ClassType::CLASS);
    lemma_declare_define_frame(st0, name);
    let st1 = declare(st0, name).0;
    lemma_declare_define_frame(st1, name);
    let st2 = define(st1, name).0;
    match sup {
        Some(sp) => {
            let stc = with_class(st2, crate::ast::ClassType::SUBCLASS);
            lemma_variable_frame(stc, sp);
            let st4 = bind_top(begin_scope(stc), "super"@, true);
            lemma_bind_top_frame(begin_scope(stc), "super"@, true);
            let st5 = bind_top(begin_scope(st4), "this"@, true);
            lemma_bind_top_frame(begin_scope(st4), "this"@, true);
            lemma_methods_frame(st5, methods, 0);
        },
        None => {
            let st5 = bind_top(begin_scope(st2), "this"@, true);
            lemma_bind_top_frame(begin_scope(st2), "this"@, true);
            lemma_methods_frame(st5, methods, 0);
        },
    }
}

pub proof fn lemma_stmt_frame(st: ResolverV, s: StmtV)
    requires
        exits_free_stmt(s),
    ensures
        not_exit(res_stmt(st, s).1),
        is_ok(res_stmt(st, s).1) ==> same_frame(st, res_stmt(st, s).0),
    decreases s, 0int,
{
    match s {
        StmtV::Expression(e) => lemma_expr_frame(st, e),
        StmtV::Print(e, _) => lemma_expr_frame(st, e),
        StmtV::Var(name, init) => {
            lemma_declare_define_frame(st, name);
            let st1 = declare(st, name).0;
            match init {
                Some(x) => {
                    lemma_expr_frame(st1, x);
                    let st2 = res_expr(st1, x).0;
                    reveal(define);
                    lemma_declare_define_frame(st2, name);
                },
                None => {
                    lemma_declare_define_frame(st1, name);
                },
            }
        },
        StmtV::Block(body) => lemma_stmts_frame(begin_scope(st), body, 0),
        StmtV::If(_, c, t, e) => {
            lemma_expr_frame(st, c);
            let st1 = res_expr(st, c).0;
            lemma_stmt_frame(st1, *t);
            let st2 = res_stmt(st1, *t).0;
            match e {
                Some(x) => lemma_stmt_frame(st2, *x),
                None => {},
            }
        },
        StmtV::While(_, c, b) => {
            lemma_expr_frame(st, c);
            lemma_stmt_frame(res_expr(st, c).0, *b);
        },
        StmtV::Function(f) => {
            lemma_declare_define_frame(st, f.name);
            let st1 = declare(st, f.name).0;
            lemma_declare_define_frame(st1, f.name);
            lemma_function_frame(define(st1, f.name).0, f, FunctionType::FUNCTION);
        },
        StmtV::Return(_, v) => match v {
            Some(x) => lemma_expr_frame(st, x),
            None => {},
        },
        StmtV::Class(name, methods, sup) => lemma_class_frame(st, name, methods, sup),
        _ => {},
    }
}

/// A program with no `break` and no `continue` that resolves without error
/// leaves the resolver as deep in scopes, and in the same kinds of class
/// and function body, as it found it.
pub proof fn law_resolution_closes_its_scopes(st: ResolverV, program: Seq<StmtV>)
    requires
        exits_free_stmts(program, 0),
    ensures
        is_ok(res_stmts(st, program, 0).1) ==> same_frame(st, res_stmts(st, program, 0).0),
{
    lemma_stmts_frame(st, program, 0);
}

/// A `while` loop takes in the exits of its body: where its condition
/// resolves, the loop resolves without error whenever its body does or stops
/// at a `break` or at a `continue`, and any other error of the body is the
/// loop's own. An error in the condition is the loop's too.
pub proof fn law_loop_takes_in_exits(st: ResolverV, tok: TokenV, cond: ExprV, body: StmtV)
    ensures
        ({
            let rc = res_expr(st, cond);
            let rb = res_stmt(rc.0, body).1;
            let rw = res_stmt(st, StmtV::While(tok, cond, Box::new(body))).1;
            &&& rc.1 is Err ==> rw == rc.1
            &&& rc.1 is Ok && (rb is Ok || rb matches Err(LoxErrorV::Break(_)) || rb matches Err(
                LoxErrorV::Continue(_),
            )) ==> rw is Ok
            &&& rc.1 is Ok && rb is Err && !(rb matches Err(LoxErrorV::Break(_))) && !(rb matches Err(
                LoxErrorV::Continue(_),
            )) ==> rw == rb
        }),
{
    let rc = res_expr(st, cond);
    let rb = res_stmt(rc.0, body).1;
    if rc.1 is Ok {
        let rw = res_stmt(st, StmtV::While(tok, cond, Box::new(body))).1;
        if rb matches Err(LoxErrorV::Continue(_)) {
            assert(rw is Ok);
        } else if rb matches Err(LoxErrorV::Break(_)) {
            assert(rw is Ok);
        } else {
            assert(rw == rb);
        }
    }
}

} // verus!
