pub mod laws;
pub mod rules;
pub mod scope;

use vstd::prelude::*;

use crate::ast::{
    Assign, Binary, Block, Call, Class, ClassType, Expr, Expression, Function, FunctionType, Get,
    Grouping, If, Lambda, Logical, Print, Return, SetProperty, Stmt, Super, This, Unary, Var,
    Variable, While, exprs_v, function_v, functions_v, lemma_exprs_v_index, lemma_functions_v_at, lemma_functions_v_len, lemma_functions_v_update, FunctionV,
    lemma_stmts_v_index, lemma_tokens_v_index, opt_variable_name, stmts_v, tokens_v,
};
use crate::error::{LoxError, LoxErrorV, result_view};
use crate::parser::message;
use crate::resolver::rules::{
    Outcome, ResolverV, begin_scope, bind_top, declare, declare_params, define, end_scope,
    innermost, res_class, res_expr, res_exprs, res_function, res_methods, res_stmt, res_stmts,
    define_var, res_variable, resolve_local,
};
use crate::resolver::scope::Scope;
use crate::token::{Literal, Token, TokenType};

verus! {

/// Finds, for each use of a local name, how many scopes lie between the use
/// and the declaration it refers to, and reports the misuses that can be
/// seen before the program runs.
pub struct Resolver {
    pub scopes: Vec<Scope>,
    curr_class: ClassType,
    curr_function: FunctionType,
}

impl View for Resolver {
    type V = ResolverV;

    closed spec fn view(&self) -> ResolverV {
        ResolverV {
            scopes: self.scopes@.map_values(|s: Scope| s@),
            class: self.curr_class,
            function: self.curr_function,
        }
    }
}

/// What kind of function a method of the given name is.
fn method_kind(name: &String) -> (r: FunctionType)
    ensures
        r == crate::resolver::rules::method_kind(name@),
{
    if *name == message("init") {
        FunctionType::INITIALIZER
    } else {
        FunctionType::METHOD
    }
}

/// A sub-walk's outcome after a prefix of already resolved items.
pub open spec fn after_prefix<T>(p: Seq<T>, r: (ResolverV, Outcome, Seq<T>)) -> (
    ResolverV,
    Outcome,
    Seq<T>,
) {
    (r.0, r.1, p + r.2)
}

impl Resolver {
    /// A resolver outside any scope, class or function.
    pub fn new() -> (r: Self)
        ensures
            r@ == (ResolverV {
                scopes: Seq::empty(),
                class: ClassType::NONE,
                function: FunctionType::NONE,
            }),
    {
        let r = Resolver {
            scopes: Vec::new(),
            curr_class: ClassType::NONE,
            curr_function: FunctionType::NONE,
        };
        assert(r@.scopes =~= Seq::empty());
        r
    }

    /// Resolves a program, statement by statement, and fills in the scope
    /// distance of each local name it meets.
    pub fn resolve(&mut self, stmts: &mut Vec<Stmt>) -> (r: Result<(), LoxError>)
        ensures
            (final(self)@, result_view(r), stmts_v(final(stmts)@)) == res_stmts(
                old(self)@,
                stmts_v(old(stmts)@),
                0,
            ),
    {
        let mut taken: Vec<Stmt> = Vec::new();
        std::mem::swap(stmts, &mut taken);
        let (done, r) = self.resolve_stmts(taken);
        let mut done = done;
        std::mem::swap(stmts, &mut done);
        r
    }

    pub fn begin_scope(&mut self)
        ensures
            final(self)@ == begin_scope(old(self)@),
    {
        self.scopes.push(Scope::new());
        assert(self@.scopes =~= begin_scope(old(self)@).scopes);
    }

    pub fn end_scope(&mut self)
        ensures
            final(self)@ == end_scope(old(self)@),
    {
        let _ = self.scopes.pop();
        assert(self@.scopes =~= end_scope(old(self)@).scopes);
    }

    /// Binds a name in the innermost scope, and gives what it was bound to.
    fn bind_top(&mut self, name: String, value: bool) -> (r: Option<bool>)
        ensures
            final(self)@ == bind_top(old(self)@, name@, value),
            final(self).scopes.len() == old(self).scopes.len(),
            old(self).scopes.len() > 0 ==> r == (if old(self)@.scopes.last().contains_key(name@) {
                Some(old(self)@.scopes.last()[name@])
            } else {
                None
            }),
    {
        proof {
            reveal(bind_top);
        }
        let n = self.scopes.len();
        if n == 0 {
            return None;
        }
        let mut top = Scope::new();
        self.scopes.set_and_swap(n - 1, &mut top);
        let prev = top.insert(name, value);
        self.scopes.set(n - 1, top);
        assert(self@.scopes =~= bind_top(old(self)@, name@, value).scopes);
        prev
    }

    fn declare(&mut self, tok: &Token) -> (r: Result<(), LoxError>)
        ensures
            (final(self)@, result_view(r)) == declare(old(self)@, tok@),
    {
        proof {
            reveal(declare);
            reveal(bind_top);
        }
        let prev = self.bind_top(tok.lexeme.clone(), false);
        if self.scopes.len() > 0 && prev.is_some() {
            return Err(LoxError::RuntimeError(tok.lexeme.clone(), tok.line_no, message("Already exists")));
        }
        Ok(())
    }

    fn define(&mut self, tok: &Token) -> (r: Result<(), LoxError>)
        ensures
            (final(self)@, result_view(r)) == define(old(self)@, tok@),
    {
        proof {
            reveal(define);
            reveal(bind_top);
        }
        let prev = self.bind_top(tok.lexeme.clone(), true);
        if self.scopes.len() > 0 && prev.is_none() {
            return Err(
                LoxError::SemanticError(
                    tok.lexeme.clone(),
                    tok.line_no,
                    message("Declaration without definition"),
                ),
            );
        }
        Ok(())
    }

    /// Records in the token how many scopes out the innermost scope that
    /// binds its name is; leaves it unchanged where none does.
    fn resolve_local(&self, tok: &mut Token)
        ensures
            final(tok)@ == resolve_local(self@, old(tok)@),
    {
        proof {
            reveal(resolve_local);
        }
        let n = self.scopes.len();
        let ghost sv = self@.scopes;
        let mut j = n;
        while j > 0
            invariant
                j <= n,
                n == sv.len(),
                sv == self@.scopes,
                *tok == *old(tok),
                innermost(sv, tok.lexeme@, n - 1) == innermost(sv, tok.lexeme@, j - 1),
            decreases j,
        {
            if self.scopes[j - 1].get(&tok.lexeme).is_some() {
                tok.scope = Some(n - j);
                proof {
                    reveal(resolve_local);
                }
                return;
            }
            j -= 1;
        }
    }

    fn declare_params(&mut self, ps: &Vec<Token>) -> (r: Result<(), LoxError>)
        ensures
            (final(self)@, result_view(r)) == declare_params(old(self)@, tokens_v(ps@), 0),
    {
        let ghost tv = tokens_v(ps@);
        proof {
            lemma_tokens_v_index(ps@);
        }
        let mut i: usize = 0;
        while i < ps.len()
            invariant
                i <= ps.len(),
                tv == tokens_v(ps@),
                tv.len() == ps@.len(),
                forall|j: int| 0 <= j < ps@.len() ==> #[trigger] tv[j] == ps@[j]@,
                declare_params(old(self)@, tv, 0) == declare_params(self@, tv, i as int),
            decreases ps.len() - i,
        {
            let r1 = self.declare(&ps[i]);
            if r1.is_err() {
                return r1;
            }
            let r2 = self.define(&ps[i]);
            if r2.is_err() {
                return r2;
            }
            i += 1;
        }
        Ok(())
    }

    fn resolve_variable(&mut self, name: Token) -> (r: (Token, Result<(), LoxError>))
        ensures
            (final(self)@, result_view(r.1), r.0@) == res_variable(old(self)@, name@),
    {
        proof {
            reveal(res_variable);
        }
        let n = self.scopes.len();
        if n > 0 {
            if let Some(false) = self.scopes[n - 1].get(&name.lexeme) {
                let e = LoxError::SemanticError(
                    name.lexeme.clone(),
                    name.line_no,
                    message("Cannot read local variable in its own initializer."),
                );
                return (name, Err(e));
            }
        }
        let mut name = name;
        self.resolve_local(&mut name);
        (name, Ok(()))
    }

    // -----------------------------------------------------------------------
    // The walk. Each function takes a node and gives it back resolved, with
    // the outcome.
    // -----------------------------------------------------------------------

    fn resolve_expr(&mut self, e: Expr) -> (r: (Expr, Result<(), LoxError>))
        ensures
            (final(self)@, result_view(r.1), r.0@) == res_expr(old(self)@, e@),
        decreases e, 0int,
    {
        match e {
            Expr::Binary(b) => self.resolve_binary(*b),
            Expr::Logical(b) => self.resolve_logical(*b),
            Expr::Grouping(g) => {
                let Grouping { expression } = *g;
                let (expression, r1) = self.resolve_expr(expression);
                (Expr::Grouping(Box::new(Grouping { expression })), r1)
            },
            Expr::Unary(u) => {
                let Unary { operator, right } = *u;
                let (right, r1) = self.resolve_expr(right);
                (Expr::Unary(Box::new(Unary { operator, right })), r1)
            },
            Expr::Literal(l) => (Expr::Literal(l), Ok(())),
            Expr::Get(g) => {
                let Get { object, name } = *g;
                let (object, r1) = self.resolve_expr(object);
                (Expr::Get(Box::new(Get { object, name })), r1)
            },
            Expr::SetProperty(sp) => self.resolve_set(*sp),
            Expr::Call(c) => self.resolve_call(*c),
            Expr::Lambda(l) => self.resolve_lambda(*l),
            Expr::This(t) => self.resolve_this(*t),
            Expr::Super(sp) => self.resolve_super(*sp),
            Expr::Variable(v) => {
                let Variable { name } = *v;
                let (name, r1) = self.resolve_variable(name);
                (Expr::Variable(Box::new(Variable { name })), r1)
            },
            Expr::Assign(a) => self.resolve_assign(*a),
        }
    }

    fn resolve_binary(&mut self, b: Binary) -> (r: (Expr, Result<(), LoxError>))
        ensures
            (final(self)@, result_view(r.1), r.0@) == res_expr(old(self)@, Expr::Binary(Box::new(b))@),
        decreases b, 0int,
    {
        let Binary { left, operator, right } = b;
        let (left, r1) = self.resolve_expr(left);
        if r1.is_err() {
            return (Expr::Binary(Box::new(Binary { left, operator, right })), r1);
        }
        let (right, r2) = self.resolve_expr(right);
        (Expr::Binary(Box::new(Binary { left, operator, right })), r2)
    }

    fn resolve_logical(&mut self, b: Logical) -> (r: (Expr, Result<(), LoxError>))
        ensures
            (final(self)@, result_view(r.1), r.0@) == res_expr(old(self)@, Expr::Logical(Box::new(b))@),
        decreases b, 0int,
    {
        let Logical { left, operator, right } = b;
        let (left, r1) = self.resolve_expr(left);
        if r1.is_err() {
            return (Expr::Logical(Box::new(Logical { left, operator, right })), r1);
        }
        let (right, r2) = self.resolve_expr(right);
        (Expr::Logical(Box::new(Logical { left, operator, right })), r2)
    }

    fn resolve_set(&mut self, sp: SetProperty) -> (r: (Expr, Result<(), LoxError>))
        ensures
            (final(self)@, result_view(r.1), r.0@) == res_expr(old(self)@, Expr::SetProperty(Box::new(sp))@),
        decreases sp, 0int,
    {
        let SetProperty { object, name, value } = sp;
        let (value, r1) = self.resolve_expr(value);
        if r1.is_err() {
            return (Expr::SetProperty(Box::new(SetProperty { object, name, value })), r1);
        }
        let (object, r2) = self.resolve_expr(object);
        (Expr::SetProperty(Box::new(SetProperty { object, name, value })), r2)
    }

    fn resolve_call(&mut self, c: Call) -> (r: (Expr, Result<(), LoxError>))
        ensures
            (final(self)@, result_view(r.1), r.0@) == res_expr(old(self)@, Expr::Call(Box::new(c))@),
        decreases c, 0int,
    {
        let Call { callee, paren, arguments } = c;
        let (callee, r1) = self.resolve_expr(callee);
        if r1.is_err() {
            return (Expr::Call(Box::new(Call { callee, paren, arguments })), r1);
        }
        let (arguments, r2) = self.resolve_exprs(arguments);
        (Expr::Call(Box::new(Call { callee, paren, arguments })), r2)
    }

    fn resolve_lambda(&mut self, l: Lambda) -> (r: (Expr, Result<(), LoxError>))
        ensures
            (final(self)@, result_view(r.1), r.0@) == res_expr(old(self)@, Expr::Lambda(Box::new(l))@),
        decreases l, 0int,
    {
        let Lambda { paren, params, body } = l;
        let saved = self.curr_function;
        self.begin_scope();
        self.curr_function = FunctionType::LAMBDA;
        let r1 = self.declare_params(&params);
        if r1.is_err() {
            return (Expr::Lambda(Box::new(Lambda { paren, params, body })), r1);
        }
        let (body, r2) = self.resolve_stmts(body);
        if r2.is_err() {
            return (Expr::Lambda(Box::new(Lambda { paren, params, body })), r2);
        }
        self.end_scope();
        self.curr_function = saved;
        (Expr::Lambda(Box::new(Lambda { paren, params, body })), Ok(()))
    }

    fn resolve_this(&mut self, t: This) -> (r: (Expr, Result<(), LoxError>))
        ensures
            (final(self)@, result_view(r.1), r.0@) == res_expr(old(self)@, Expr::This(Box::new(t))@),
    {
        let This { keyword } = t;
        if self.curr_class == ClassType::NONE {
            let e = LoxError::SemanticError(
                keyword.lexeme.clone(),
                keyword.line_no,
                message("Cannot use this outside class."),
            );
            return (Expr::This(Box::new(This { keyword })), Err(e));
        }
        let mut keyword = keyword;
        self.resolve_local(&mut keyword);
        (Expr::This(Box::new(This { keyword })), Ok(()))
    }

    fn resolve_super(&mut self, sp: Super) -> (r: (Expr, Result<(), LoxError>))
        ensures
            (final(self)@, result_view(r.1), r.0@) == res_expr(old(self)@, Expr::Super(Box::new(sp))@),
    {
        let Super { method, keyword } = sp;
        if self.curr_class != ClassType::SUBCLASS {
            let e = LoxError::SemanticError(
                keyword.lexeme.clone(),
                keyword.line_no,
                message("No super class as such."),
            );
            return (Expr::Super(Box::new(Super { method, keyword })), Err(e));
        }
        let mut keyword = keyword;
        self.resolve_local(&mut keyword);
        (Expr::Super(Box::new(Super { method, keyword })), Ok(()))
    }

    fn resolve_assign(&mut self, a: Assign) -> (r: (Expr, Result<(), LoxError>))
        ensures
            (final(self)@, result_view(r.1), r.0@) == res_expr(old(self)@, Expr::Assign(Box::new(a))@),
        decreases a, 0int,
    {
        let Assign { name, value } = a;
        let (value, r1) = self.resolve_expr(value);
        if r1.is_err() {
            return (Expr::Assign(Box::new(Assign { name, value })), r1);
        }
        let mut name = name;
        self.resolve_local(&mut name);
        (Expr::Assign(Box::new(Assign { name, value })), Ok(()))
    }

    #[verifier::loop_isolation(false)]
    fn resolve_exprs(&mut self, v: Vec<Expr>) -> (r: (Vec<Expr>, Result<(), LoxError>))
        ensures
            (final(self)@, result_view(r.1), exprs_v(r.0@)) == res_exprs(old(self)@, exprs_v(v@), 0),
        decreases v@, 0int,
    {
        let ghost v0 = v@;
        let ghost a = exprs_v(v@);
        let ghost st0 = self@;
        proof {
            lemma_exprs_v_index(v0);
            assert(exprs_v(v0).subrange(0, 0) =~= Seq::empty());
        }
        let mut v = v;
        let mut i: usize = 0;
        while i < v.len()
            invariant
                v@.len() == v0.len(),
                i <= v@.len(),
                a == exprs_v(v0),
                a.len() == v0.len(),
                exprs_v(v@).len() == v@.len(),
                forall|j: int| 0 <= j < v0.len() ==> #[trigger] a[j] == v0[j]@,
                forall|j: int| i <= j < v0.len() ==> #[trigger] v@[j] == v0[j],
                res_exprs(st0, a, 0) == after_prefix(exprs_v(v@).subrange(0, i as int), res_exprs(self@, a, i as int)),
            decreases v0.len() - i,
        {
            let ghost cur = v@;
            let mut x = Expr::Literal(Literal::NIL);
            v.set_and_swap(i, &mut x);
            let ghost st_before = self@;
            let ghost pre = exprs_v(cur).subrange(0, i as int);
            proof {
                lemma_exprs_v_index(cur);
                assert(x == v0[i as int]);
                assert(decreases_to!(v0 => x));
            }
            let (x2, r) = self.resolve_expr(x);
            v.set(i, x2);
            proof {
                lemma_exprs_v_index(v@);
                let (s1, q1, y) = res_expr(st_before, a[i as int]);
                assert(y == x2@);
                assert(res_exprs(st_before, a, i as int) == (if !crate::resolver::rules::is_ok(q1) {
                    (s1, q1, seq![y] + a.subrange(i + 1, a.len() as int))
                } else {
                    let (s2, q2, rest) = res_exprs(s1, a, i + 1);
                    (s2, q2, seq![y] + rest)
                }));
            }
            if r.is_err() {
                proof {
                    assert(exprs_v(v@) =~= pre + (seq![x2@] + a.subrange(i + 1, a.len() as int)));
                }
                return (v, r);
            }
            proof {
                let rest = res_exprs(self@, a, i + 1);
                assert(exprs_v(v@).subrange(0, i + 1) =~= pre + seq![x2@]);
                assert((pre + seq![x2@]) + rest.2 =~= pre + (seq![x2@] + rest.2));
            }
            i += 1;
        }
        proof {
            lemma_exprs_v_index(v@);
            assert(exprs_v(v@).subrange(0, i as int) =~= exprs_v(v@));
            assert(exprs_v(v@) + Seq::<_>::empty() =~= exprs_v(v@));
        }
        (v, Ok(()))
    }

    #[verifier::loop_isolation(false)]
    fn resolve_stmts(&mut self, v: Vec<Stmt>) -> (r: (Vec<Stmt>, Result<(), LoxError>))
        ensures
            (final(self)@, result_view(r.1), stmts_v(r.0@)) == res_stmts(old(self)@, stmts_v(v@), 0),
        decreases v@, 0int,
    {
        let ghost v0 = v@;
        let ghost a = stmts_v(v@);
        let ghost st0 = self@;
        proof {
            lemma_stmts_v_index(v0);
            assert(stmts_v(v0).subrange(0, 0) =~= Seq::empty());
        }
        let mut v = v;
        let mut i: usize = 0;
        while i < v.len()
            invariant
                v@.len() == v0.len(),
                i <= v@.len(),
                a == stmts_v(v0),
                a.len() == v0.len(),
                stmts_v(v@).len() == v@.len(),
                forall|j: int| 0 <= j < v0.len() ==> #[trigger] a[j] == v0[j]@,
                forall|j: int| i <= j < v0.len() ==> #[trigger] v@[j] == v0[j],
                res_stmts(st0, a, 0) == after_prefix(stmts_v(v@).subrange(0, i as int), res_stmts(self@, a, i as int)),
            decreases v0.len() - i,
        {
            let ghost cur = v@;
            let mut x = Stmt::StackTrace;
            v.set_and_swap(i, &mut x);
            let ghost st_before = self@;
            let ghost pre = stmts_v(cur).subrange(0, i as int);
            proof {
                lemma_stmts_v_index(cur);
                assert(x == v0[i as int]);
                assert(decreases_to!(v0 => x));
            }
            let (x2, r) = self.resolve_stmt(x);
            v.set(i, x2);
            proof {
                lemma_stmts_v_index(v@);
                let (s1, q1, y) = res_stmt(st_before, a[i as int]);
                assert(y == x2@);
                assert(res_stmts(st_before, a, i as int) == (if !crate::resolver::rules::is_ok(q1) {
                    (s1, q1, seq![y] + a.subrange(i + 1, a.len() as int))
                } else {
                    let (s2, q2, rest) = res_stmts(s1, a, i + 1);
                    (s2, q2, seq![y] + rest)
                }));
            }
            if r.is_err() {
                proof {
                    assert(stmts_v(v@) =~= pre + (seq![x2@] + a.subrange(i + 1, a.len() as int)));
                }
                return (v, r);
            }
            proof {
                let rest = res_stmts(self@, a, i + 1);
                assert(stmts_v(v@).subrange(0, i + 1) =~= pre + seq![x2@]);
                assert((pre + seq![x2@]) + rest.2 =~= pre + (seq![x2@] + rest.2));
            }
            i += 1;
        }
        proof {
            lemma_stmts_v_index(v@);
            assert(stmts_v(v@).subrange(0, i as int) =~= stmts_v(v@));
            assert(stmts_v(v@) + Seq::<_>::empty() =~= stmts_v(v@));
        }
        (v, Ok(()))
    }

    fn resolve_function(&mut self, f: Function, kind: FunctionType) -> (r: (Function, Result<(), LoxError>))
        ensures
            (final(self)@, result_view(r.1), function_v(r.0)) == res_function(old(self)@, function_v(f), kind),
        decreases f, 0int,
    {
        let Function { name, params, body } = f;
        let saved = self.curr_function;
        self.begin_scope();
        self.curr_function = kind;
        let r1 = self.declare_params(&params);
        if r1.is_err() {
            return (Function { name, params, body }, r1);
        }
        let (body, r2) = self.resolve_stmts(body);
        if r2.is_err() {
            return (Function { name, params, body }, r2);
        }
        self.end_scope();
        self.curr_function = saved;
        (Function { name, params, body }, Ok(()))
    }

    #[verifier::loop_isolation(false)]
    fn resolve_methods(&mut self, v: Vec<Function>) -> (r: (Vec<Function>, Result<(), LoxError>))
        ensures
            (final(self)@, result_view(r.1), functions_v(r.0@)) == res_methods(old(self)@, functions_v(v@), 0),
        decreases v@, 0int,
    {
        let ghost v0 = v@;
        let ghost a = functions_v(v@);
        let ghost st0 = self@;
        proof {
            lemma_functions_v_len(v0);
            assert(a.subrange(0, a.len() as int) =~= a);
            assert(a.subrange(0, 0) =~= Seq::<FunctionV>::empty());
        }
        let mut v = v;
        let mut i: usize = 0;
        while i < v.len()
            invariant
                v@.len() == v0.len(),
                i <= v@.len(),
                a == functions_v(v0),
                a.len() == v0.len(),
                functions_v(v@).len() == v@.len(),
                functions_v(v@).subrange(i as int, v@.len() as int) == a.subrange(i as int, a.len() as int),
                forall|j: int| i <= j < v0.len() ==> #[trigger] v@[j] == v0[j],
                res_methods(st0, a, 0) == after_prefix(functions_v(v@).subrange(0, i as int), res_methods(self@, a, i as int)),
            decreases v0.len() - i,
        {
            let ghost cur = v@;
            let mut x = Function {
                name: Token::new(TokenType::IDENTIFIER, 0, None, String::new()),
                params: Vec::new(),
                body: Vec::new(),
            };
            v.set_and_swap(i, &mut x);
            let ghost st_before = self@;
            let ghost pre = functions_v(cur).subrange(0, i as int);
            proof {
                assert(x == v0[i as int]);
                assert(decreases_to!(v0 => x));
                lemma_functions_v_at(cur, i as int);
                assert(functions_v(cur)[i as int] == functions_v(cur).subrange(i as int, cur.len() as int)[0]);
                assert(a[i as int] == a.subrange(i as int, a.len() as int)[0]);
                assert(a[i as int] == function_v(x));
            }
            let kind = method_kind(&x.name.lexeme);
            assert(a[i as int].name.lexeme == x.name.lexeme@);
            assert(kind == crate::resolver::rules::method_kind(a[i as int].name.lexeme));
            let (x2, r) = self.resolve_function(x, kind);
            let ghost fx2 = function_v(x2);
            assert((self@, result_view(r), fx2) == res_function(st_before, a[i as int], kind));
            v.set(i, x2);
            proof {
                assert(v@ =~= cur.update(i as int, x2));
                assert forall|k: int| i <= k < cur.len() implies #[trigger] functions_v(cur)[k] == a[k] by {
                    assert(functions_v(cur)[k] == functions_v(cur).subrange(i as int, cur.len() as int)[k - i]);
                    assert(a[k] == a.subrange(i as int, a.len() as int)[k - i]);
                }
                lemma_functions_v_update(cur, i as int, x2);
                lemma_functions_v_len(cur);
                let (s1, q1, y) = res_function(st_before, a[i as int], crate::resolver::rules::method_kind(a[i as int].name.lexeme));
                assert(y == fx2);
                assert(res_methods(st_before, a, i as int) == (if !crate::resolver::rules::is_ok(q1) {
                    (s1, q1, seq![y] + a.subrange(i + 1, a.len() as int))
                } else {
                    let (s2, q2, rest) = res_methods(s1, a, i + 1);
                    (s2, q2, seq![y] + rest)
                }));
                assert(functions_v(v@).subrange(i + 1, v@.len() as int) =~= a.subrange(i + 1, a.len() as int));
            }
            if r.is_err() {
                proof {
                    assert(functions_v(v@) =~= pre + (seq![fx2] + a.subrange(i + 1, a.len() as int)));
                }
                return (v, r);
            }
            proof {
                let rest = res_methods(self@, a, i + 1);
                assert(functions_v(v@).subrange(0, i + 1) =~= pre + seq![fx2]);
                assert((pre + seq![fx2]) + rest.2 =~= pre + (seq![fx2] + rest.2));
            }
            i += 1;
        }
        proof {
            assert(functions_v(v@).subrange(0, i as int) =~= functions_v(v@));
            assert(functions_v(v@) + Seq::<FunctionV>::empty() =~= functions_v(v@));
        }
        (v, Ok(()))
    }

    fn resolve_stmt(&mut self, s: Stmt) -> (r: (Stmt, Result<(), LoxError>))
        ensures
            (final(self)@, result_view(r.1), r.0@) == res_stmt(old(self)@, s@),
        decreases s, 0int,
    {
        match s {
            Stmt::Expression(x) => {
                let Expression { expr } = *x;
                let (expr, r1) = self.resolve_expr(expr);
                (Stmt::Expression(Box::new(Expression { expr })), r1)
            },
            Stmt::Print(p) => {
                let Print { expr, token } = *p;
                let (expr, r1) = self.resolve_expr(expr);
                (Stmt::Print(Box::new(Print { expr, token })), r1)
            },
            Stmt::Var(v) => self.resolve_var(*v),
            Stmt::Block(b) => self.resolve_block(*b),
            Stmt::If(i) => self.resolve_if(*i),
            Stmt::While(w) => self.resolve_while(*w),
            Stmt::Break(b) => {
                let line = b.keyword.line_no;
                (Stmt::Break(b), Err(LoxError::Break(line)))
            },
            Stmt::Continue(c) => {
                let line = c.keyword.line_no;
                (Stmt::Continue(c), Err(LoxError::Continue(line)))
            },
            Stmt::Function(f) => self.resolve_function_stmt(*f),
            Stmt::Return(rt) => self.resolve_return(*rt),
            Stmt::Class(c) => self.resolve_class(*c),
            Stmt::StackTrace => (Stmt::StackTrace, Ok(())),
        }
    }

    fn resolve_var(&mut self, v: Var) -> (r: (Stmt, Result<(), LoxError>))
        ensures
            (final(self)@, result_view(r.1), r.0@) == res_stmt(old(self)@, Stmt::Var(Box::new(v))@),
        decreases v, 0int,
    {
        let Var { name, initializer } = v;
        let r1 = self.declare(&name);
        if r1.is_err() {
            return (Stmt::Var(Box::new(Var { name, initializer })), r1);
        }
        match initializer {
            Some(x) => {
                let (x, r2) = self.resolve_expr(x);
                if r2.is_err() {
                    return (Stmt::Var(Box::new(Var { name, initializer: Some(x) })), r2);
                }
                self.define_var(name, Some(x))
            },
            None => self.define_var(name, None),
        }
    }

    fn define_var(&mut self, name: Token, initializer: Option<Expr>) -> (r: (Stmt, Result<(), LoxError>))
        ensures
            (final(self)@, result_view(r.1), r.0@) == define_var(
                old(self)@,
                name@,
                crate::ast::opt_expr_view(initializer),
            ),
    {
        let r3 = self.define(&name);
        if r3.is_err() {
            return (Stmt::Var(Box::new(Var { name, initializer })), r3);
        }
        let mut name = name;
        self.resolve_local(&mut name);
        (Stmt::Var(Box::new(Var { name, initializer })), Ok(()))
    }

    fn resolve_block(&mut self, b: Block) -> (r: (Stmt, Result<(), LoxError>))
        ensures
            (final(self)@, result_view(r.1), r.0@) == res_stmt(old(self)@, Stmt::Block(Box::new(b))@),
        decreases b, 0int,
    {
        let Block { statements } = b;
        self.begin_scope();
        let (statements, r1) = self.resolve_stmts(statements);
        if r1.is_err() {
            return (Stmt::Block(Box::new(Block { statements })), r1);
        }
        self.end_scope();
        (Stmt::Block(Box::new(Block { statements })), Ok(()))
    }

    fn resolve_if(&mut self, i: If) -> (r: (Stmt, Result<(), LoxError>))
        ensures
            (final(self)@, result_view(r.1), r.0@) == res_stmt(old(self)@, Stmt::If(Box::new(i))@),
        decreases i, 0int,
    {
        let If { token, condition, then_branch, else_branch } = i;
        let (condition, r1) = self.resolve_expr(condition);
        if r1.is_err() {
            return (Stmt::If(Box::new(If { token, condition, then_branch, else_branch })), r1);
        }
        let (then_branch, r2) = self.resolve_stmt(then_branch);
        if r2.is_err() {
            return (Stmt::If(Box::new(If { token, condition, then_branch, else_branch })), r2);
        }
        match else_branch {
            Some(eb) => {
                let (eb, r3) = self.resolve_stmt(eb);
                (Stmt::If(Box::new(If { token, condition, then_branch, else_branch: Some(eb) })), r3)
            },
            None => (Stmt::If(Box::new(If { token, condition, then_branch, else_branch: None })), Ok(())),
        }
    }

    fn resolve_while(&mut self, w: While) -> (r: (Stmt, Result<(), LoxError>))
        ensures
            (final(self)@, result_view(r.1), r.0@) == res_stmt(old(self)@, Stmt::While(Box::new(w))@),
        decreases w, 0int,
    {
        let While { token, condition, body } = w;
        let (condition, r1) = self.resolve_expr(condition);
        if r1.is_err() {
            return (Stmt::While(Box::new(While { token, condition, body })), r1);
        }
        let (body, r2) = self.resolve_stmt(body);
        let r = match r2 {
            Err(LoxError::Break(_)) | Err(LoxError::Continue(_)) | Ok(_) => Ok(()),
            Err(err) => Err(err),
        };
        (Stmt::While(Box::new(While { token, condition, body })), r)
    }

    fn resolve_function_stmt(&mut self, f: Function) -> (r: (Stmt, Result<(), LoxError>))
        ensures
            (final(self)@, result_view(r.1), r.0@) == res_stmt(old(self)@, Stmt::Function(Box::new(f))@),
        decreases f, 1int,
    {
        let r1 = self.declare(&f.name);
        if r1.is_err() {
            return (Stmt::Function(Box::new(f)), r1);
        }
        let r2 = self.define(&f.name);
        if r2.is_err() {
            return (Stmt::Function(Box::new(f)), r2);
        }
        let (f, r3) = self.resolve_function(f, FunctionType::FUNCTION);
        (Stmt::Function(Box::new(f)), r3)
    }

    fn resolve_return(&mut self, rt: Return) -> (r: (Stmt, Result<(), LoxError>))
        ensures
            (final(self)@, result_view(r.1), r.0@) == res_stmt(old(self)@, Stmt::Return(Box::new(rt))@),
        decreases rt, 0int,
    {
        let Return { keyword, value } = rt;
        match value {
            Some(v) => {
                if self.curr_function == FunctionType::NONE {
                    let e = LoxError::SemanticError(
                        keyword.lexeme.clone(),
                        keyword.line_no,
                        message("Return only from function"),
                    );
                    return (Stmt::Return(Box::new(Return { keyword, value: Some(v) })), Err(e));
                }
                if self.curr_function == FunctionType::INITIALIZER {
                    let e = LoxError::SemanticError(
                        keyword.lexeme.clone(),
                        keyword.line_no,
                        message("Cannot return from initializer"),
                    );
                    return (Stmt::Return(Box::new(Return { keyword, value: Some(v) })), Err(e));
                }
                let (v, r1) = self.resolve_expr(v);
                (Stmt::Return(Box::new(Return { keyword, value: Some(v) })), r1)
            },
            None => (Stmt::Return(Box::new(Return { keyword, value: None })), Ok(())),
        }
    }

    fn resolve_class(&mut self, c: Class) -> (r: (Stmt, Result<(), LoxError>))
        ensures
            (final(self)@, result_view(r.1), r.0@) == res_class(
                old(self)@,
                c.name@,
                functions_v(c.methods@),
                opt_variable_name(c.superclass),
            ),
        decreases c, 0int,
    {
        let Class { name, methods, superclass } = c;
        let saved = self.curr_class;
        self.curr_class = ClassType::CLASS;
        let r1 = self.declare(&name);
        if r1.is_err() {
            return (Stmt::Class(Box::new(Class { name, methods, superclass })), r1);
        }
        let r2 = self.define(&name);
        if r2.is_err() {
            return (Stmt::Class(Box::new(Class { name, methods, superclass })), r2);
        }
        let mut name = name;
        self.resolve_local(&mut name);
        let has_super = superclass.is_some();
        let superclass = match superclass {
            Some(sp) => {
                if sp.name.lexeme == name.lexeme {
                    let e = LoxError::SemanticError(
                        name.lexeme.clone(),
                        name.line_no,
                        message("Class can't inherit itself"),
                    );
                    return (Stmt::Class(Box::new(Class { name, methods, superclass: Some(sp) })), Err(e));
                }
                self.curr_class = ClassType::SUBCLASS;
                let (sname, r3) = self.resolve_variable(sp.name);
                if r3.is_err() {
                    return (
                        Stmt::Class(Box::new(Class { name, methods, superclass: Some(Variable { name: sname }) })),
                        r3,
                    );
                }
                self.begin_scope();
                self.bind_top(message("super"), true);
                Some(Variable { name: sname })
            },
            None => None,
        };
        self.begin_scope();
        self.bind_top(message("this"), true);
        let (methods, r5) = self.resolve_methods(methods);
        if r5.is_err() {
            return (Stmt::Class(Box::new(Class { name, methods, superclass })), r5);
        }
        self.end_scope();
        if has_super {
            self.end_scope();
        }
        self.curr_class = saved;
        (Stmt::Class(Box::new(Class { name, methods, superclass })), Ok(()))
    }
}

} // verus!
