use vstd::prelude::*;

use crate::ast::{ClassType, ExprV, FunctionType, FunctionV, StmtV};
use crate::error::LoxErrorV;
use crate::token::TokenV;

verus! {

// ---------------------------------------------------------------------------
// What the resolver does, as a function of its state and of the tree it
// walks. Each rule gives the state afterwards, the outcome, and the tree with
// the scope distance of each resolved name filled in. A walk stops at the
// first error; what was changed up to then stays changed.
// ---------------------------------------------------------------------------

/// The state of the resolver: the scopes from outermost to innermost, and
/// what kind of class and function body it is in.
pub struct ResolverV {
    pub scopes: Seq<Map<Seq<char>, bool>>,
    pub class: ClassType,
    pub function: FunctionType,
}

pub type Outcome = Result<(), LoxErrorV>;

pub type Resolved<T> = (ResolverV, Outcome, T);

pub open spec fn with_scopes(st: ResolverV, scopes: Seq<Map<Seq<char>, bool>>) -> ResolverV {
    ResolverV { scopes, class: st.class, function: st.function }
}

pub open spec fn with_class(st: ResolverV, class: ClassType) -> ResolverV {
    ResolverV { scopes: st.scopes, class, function: st.function }
}

pub open spec fn with_function(st: ResolverV, function: FunctionType) -> ResolverV {
    ResolverV { scopes: st.scopes, class: st.class, function }
}

pub open spec fn begin_scope(st: ResolverV) -> ResolverV {
    with_scopes(st, st.scopes.push(Map::empty()))
}

pub open spec fn end_scope(st: ResolverV) -> ResolverV {
    if st.scopes.len() > 0 {
        with_scopes(st, st.scopes.drop_last())
    } else {
        st
    }
}

/// Binds `name` to `value` in the innermost scope, if there is one.
#[verifier::opaque]
pub open spec fn bind_top(st: ResolverV, name: Seq<char>, value: bool) -> ResolverV {
    if st.scopes.len() > 0 {
        with_scopes(st, st.scopes.update(st.scopes.len() - 1, st.scopes.last().insert(name, value)))
    } else {
        st
    }
}

/// Declares a name in the innermost scope as not yet defined. Declaring a
/// name twice in one scope is an error, after which the name is declared.
#[verifier::opaque]
pub open spec fn declare(st: ResolverV, tok: TokenV) -> (ResolverV, Outcome) {
    let st2 = bind_top(st, tok.lexeme, false);
    if st.scopes.len() > 0 && st.scopes.last().contains_key(tok.lexeme) {
        (st2, Err(LoxErrorV::RuntimeError(tok.lexeme, tok.line_no, "Already exists"@)))
    } else {
        (st2, Ok(()))
    }
}

/// Marks a name of the innermost scope as defined. A name that was not
/// declared there is an error, after which it is defined.
#[verifier::opaque]
pub open spec fn define(st: ResolverV, tok: TokenV) -> (ResolverV, Outcome) {
    let st2 = bind_top(st, tok.lexeme, true);
    if st.scopes.len() > 0 && !st.scopes.last().contains_key(tok.lexeme) {
        (
            st2,
            Err(
                LoxErrorV::SemanticError(
                    tok.lexeme,
                    tok.line_no,
                    "Declaration without definition"@,
                ),
            ),
        )
    } else {
        (st2, Ok(()))
    }
}

/// The index of the innermost of the scopes `0..=i` that binds `name`.
pub open spec fn innermost(scopes: Seq<Map<Seq<char>, bool>>, name: Seq<char>, i: int) -> Option<
    int,
>
    decreases i + 1,
{
    if i < 0 {
        None
    } else if scopes[i].contains_key(name) {
        Some(i)
    } else {
        innermost(scopes, name, i - 1)
    }
}

/// The token with the number of scopes between its use and the innermost
/// scope that binds it; unchanged where no scope binds it (a global).
#[verifier::opaque]
pub open spec fn resolve_local(st: ResolverV, tok: TokenV) -> TokenV {
    match innermost(st.scopes, tok.lexeme, st.scopes.len() - 1) {
        Some(i) => TokenV {
            token_type: tok.token_type,
            line_no: tok.line_no,
            literal: tok.literal,
            lexeme: tok.lexeme,
            scope: Some((st.scopes.len() - 1 - i) as usize),
        },
        None => tok,
    }
}

pub open spec fn semantic_error(tok: TokenV, msg: Seq<char>) -> LoxErrorV {
    LoxErrorV::SemanticError(tok.lexeme, tok.line_no, msg)
}

/// Declares and defines the parameters from the `i`-th on.
pub open spec fn declare_params(st: ResolverV, ps: Seq<TokenV>, i: int) -> (ResolverV, Outcome)
    decreases ps.len() - i,
{
    if i >= ps.len() || i < 0 {
        (st, Ok(()))
    } else {
        let (st1, r1) = declare(st, ps[i]);
        if r1 is Err {
            (st1, r1)
        } else {
            let (st2, r2) = define(st1, ps[i]);
            if r2 is Err {
                (st2, r2)
            } else {
                declare_params(st2, ps, i + 1)
            }
        }
    }
}

/// Two sub-walks in a row: the second only where the first succeeded.
pub open spec fn is_ok(r: Outcome) -> bool {
    r is Ok
}

pub open spec fn res_expr(st: ResolverV, e: ExprV) -> Resolved<ExprV>
    decreases e, 0int,
{
    match e {
        ExprV::Binary(l, op, r) => {
            let (st1, r1, l2) = res_expr(st, *l);
            if !is_ok(r1) {
                (st1, r1, ExprV::Binary(Box::new(l2), op, r))
            } else {
                let (st2, r2, rr) = res_expr(st1, *r);
                (st2, r2, ExprV::Binary(Box::new(l2), op, Box::new(rr)))
            }
        },
        ExprV::Logical(l, op, r) => {
            let (st1, r1, l2) = res_expr(st, *l);
            if !is_ok(r1) {
                (st1, r1, ExprV::Logical(Box::new(l2), op, r))
            } else {
                let (st2, r2, rr) = res_expr(st1, *r);
                (st2, r2, ExprV::Logical(Box::new(l2), op, Box::new(rr)))
            }
        },
        ExprV::Grouping(x) => {
            let (st1, r1, x2) = res_expr(st, *x);
            (st1, r1, ExprV::Grouping(Box::new(x2)))
        },
        ExprV::Unary(op, x) => {
            let (st1, r1, x2) = res_expr(st, *x);
            (st1, r1, ExprV::Unary(op, Box::new(x2)))
        },
        ExprV::Literal(_) => (st, Ok(()), e),
        ExprV::Get(obj, name) => {
            let (st1, r1, o2) = res_expr(st, *obj);
            (st1, r1, ExprV::Get(Box::new(o2), name))
        },
        // The value is resolved before the object.
        ExprV::SetProperty(obj, name, value) => {
            let (st1, r1, v2) = res_expr(st, *value);
            if !is_ok(r1) {
                (st1, r1, ExprV::SetProperty(obj, name, Box::new(v2)))
            } else {
                let (st2, r2, o2) = res_expr(st1, *obj);
                (st2, r2, ExprV::SetProperty(Box::new(o2), name, Box::new(v2)))
            }
        },
        ExprV::Call(callee, paren, args) => {
            let (st1, r1, c2) = res_expr(st, *callee);
            if !is_ok(r1) {
                (st1, r1, ExprV::Call(Box::new(c2), paren, args))
            } else {
                let (st2, r2, a2) = res_exprs(st1, args, 0);
                (st2, r2, ExprV::Call(Box::new(c2), paren, a2))
            }
        },
        ExprV::Lambda(paren, params, body) => {
            let st1 = with_function(begin_scope(st), FunctionType::LAMBDA);
            let (st2, r2) = declare_params(st1, params, 0);
            if !is_ok(r2) {
                (st2, r2, e)
            } else {
                let (st3, r3, b2) = res_stmts(st2, body, 0);
                let e2 = ExprV::Lambda(paren, params, b2);
                if !is_ok(r3) {
                    (st3, r3, e2)
                } else {
                    (with_function(end_scope(st3), st.function), Ok(()), e2)
                }
            }
        },
        ExprV::This(kw) => if st.class == ClassType::NONE {
            (st, Err(semantic_error(kw, "Cannot use this outside class."@)), e)
        } else {
            (st, Ok(()), ExprV::This(resolve_local(st, kw)))
        },
        ExprV::Super(method, kw) => if st.class != ClassType::SUBCLASS {
            (st, Err(semantic_error(kw, "No super class as such."@)), e)
        } else {
            (st, Ok(()), ExprV::Super(method, resolve_local(st, kw)))
        },
        ExprV::Variable(name) => {
            let (st1, r1, n2) = res_variable(st, name);
            (st1, r1, ExprV::Variable(n2))
        },
        ExprV::Assign(name, value) => {
            let (st1, r1, v2) = res_expr(st, *value);
            if !is_ok(r1) {
                (st1, r1, ExprV::Assign(name, Box::new(v2)))
            } else {
                (st1, r1, ExprV::Assign(resolve_local(st1, name), Box::new(v2)))
            }
        },
    }
}

/// A use of a variable: reading a name in its own initializer is an error.
#[verifier::opaque]
pub open spec fn res_variable(st: ResolverV, name: TokenV) -> Resolved<TokenV> {
    if st.scopes.len() > 0 && st.scopes.last().contains_key(name.lexeme) && !st.scopes.last()[name.lexeme] {
        (
            st,
            Err(semantic_error(name, "Cannot read local variable in its own initializer."@)),
            name,
        )
    } else {
        (st, Ok(()), resolve_local(st, name))
    }
}

/// The expressions from the `i`-th on, in order; gives them resolved.
pub open spec fn res_exprs(st: ResolverV, s: Seq<ExprV>, i: int) -> Resolved<Seq<ExprV>>
    decreases s, s.len() - i,
{
    if i >= s.len() || i < 0 {
        (st, Ok(()), Seq::empty())
    } else {
        let (st1, r1, x) = res_expr(st, s[i]);
        if !is_ok(r1) {
            (st1, r1, seq![x] + s.subrange(i + 1, s.len() as int))
        } else {
            let (st2, r2, rest) = res_exprs(st1, s, i + 1);
            (st2, r2, seq![x] + rest)
        }
    }
}

/// The statements from the `i`-th on, in order; gives them resolved.
pub open spec fn res_stmts(st: ResolverV, s: Seq<StmtV>, i: int) -> Resolved<Seq<StmtV>>
    decreases s, s.len() - i,
{
    if i >= s.len() || i < 0 {
        (st, Ok(()), Seq::empty())
    } else {
        let (st1, r1, x) = res_stmt(st, s[i]);
        if !is_ok(r1) {
            (st1, r1, seq![x] + s.subrange(i + 1, s.len() as int))
        } else {
            let (st2, r2, rest) = res_stmts(st1, s, i + 1);
            (st2, r2, seq![x] + rest)
        }
    }
}

/// A function body: its parameters and body in a scope of their own.
pub open spec fn res_function(st: ResolverV, f: FunctionV, kind: FunctionType) -> Resolved<FunctionV>
    decreases f, 0int,
{
    let st1 = with_function(begin_scope(st), kind);
    let (st2, r2) = declare_params(st1, f.params, 0);
    if !is_ok(r2) {
        (st2, r2, f)
    } else {
        let (st3, r3, b2) = res_stmts(st2, f.body, 0);
        let f2 = FunctionV { name: f.name, params: f.params, body: b2 };
        if !is_ok(r3) {
            (st3, r3, f2)
        } else {
            (with_function(end_scope(st3), st.function), Ok(()), f2)
        }
    }
}

/// What kind of function a method is: `init` is the initializer.
pub open spec fn method_kind(name: Seq<char>) -> FunctionType {
    if name == "init"@ {
        FunctionType::INITIALIZER
    } else {
        FunctionType::METHOD
    }
}

/// The methods of a class from the `i`-th on, in order.
pub open spec fn res_methods(st: ResolverV, ms: Seq<FunctionV>, i: int) -> Resolved<Seq<FunctionV>>
    decreases ms, ms.len() - i,
{
    if i >= ms.len() || i < 0 {
        (st, Ok(()), Seq::empty())
    } else {
        let (st1, r1, m) = res_function(st, ms[i], method_kind(ms[i].name.lexeme));
        if !is_ok(r1) {
            (st1, r1, seq![m] + ms.subrange(i + 1, ms.len() as int))
        } else {
            let (st2, r2, rest) = res_methods(st1, ms, i + 1);
            (st2, r2, seq![m] + rest)
        }
    }
}

/// The end of a `var` statement: its name is defined, then resolved.
pub open spec fn define_var(st: ResolverV, name: TokenV, init: Option<ExprV>) -> Resolved<StmtV> {
    let (st3, r3) = define(st, name);
    if !is_ok(r3) {
        (st3, r3, StmtV::Var(name, init))
    } else {
        (st3, Ok(()), StmtV::Var(resolve_local(st3, name), init))
    }
}

pub open spec fn res_stmt(st: ResolverV, s: StmtV) -> Resolved<StmtV>
    decreases s, 0int,
{
    match s {
        StmtV::Expression(e) => {
            let (st1, r1, e2) = res_expr(st, e);
            (st1, r1, StmtV::Expression(e2))
        },
        StmtV::Print(e, tok) => {
            let (st1, r1, e2) = res_expr(st, e);
            (st1, r1, StmtV::Print(e2, tok))
        },
        StmtV::Var(name, init) => {
            let (st1, r1) = declare(st, name);
            if !is_ok(r1) {
                (st1, r1, s)
            } else {
                match init {
                    Some(x) => {
                        let (st2, r2, x2) = res_expr(st1, x);
                        if !is_ok(r2) {
                            (st2, r2, StmtV::Var(name, Some(x2)))
                        } else {
                            define_var(st2, name, Some(x2))
                        }
                    },
                    None => define_var(st1, name, None),
                }
            }
        },
        StmtV::Block(body) => {
            let (st1, r1, b2) = res_stmts(begin_scope(st), body, 0);
            if !is_ok(r1) {
                (st1, r1, StmtV::Block(b2))
            } else {
                (end_scope(st1), Ok(()), StmtV::Block(b2))
            }
        },
        StmtV::If(tok, cond, then_branch, else_branch) => {
            let (st1, r1, c2) = res_expr(st, cond);
            if !is_ok(r1) {
                (st1, r1, StmtV::If(tok, c2, then_branch, else_branch))
            } else {
                let (st2, r2, t2) = res_stmt(st1, *then_branch);
                if !is_ok(r2) {
                    (st2, r2, StmtV::If(tok, c2, Box::new(t2), else_branch))
                } else {
                    match else_branch {
                        Some(eb) => {
                            let (st3, r3, e3) = res_stmt(st2, *eb);
                            (st3, r3, StmtV::If(tok, c2, Box::new(t2), Some(Box::new(e3))))
                        },
                        None => (st2, Ok(()), StmtV::If(tok, c2, Box::new(t2), None)),
                    }
                }
            }
        },
        // A `break` or `continue` in the body ends its walk but is no error
        // of the loop.
        StmtV::While(tok, cond, body) => {
            let (st1, r1, c2) = res_expr(st, cond);
            if !is_ok(r1) {
                (st1, r1, StmtV::While(tok, c2, body))
            } else {
                let (st2, r2, b2) = res_stmt(st1, *body);
                let r = match r2 {
                    Err(LoxErrorV::Break(_)) => Ok(()),
                    Err(LoxErrorV::Continue(_)) => Ok(()),
                    _ => r2,
                };
                (st2, r, StmtV::While(tok, c2, Box::new(b2)))
            }
        },
        StmtV::Break(kw) => (st, Err(LoxErrorV::Break(kw.line_no)), s),
        StmtV::Continue(kw) => (st, Err(LoxErrorV::Continue(kw.line_no)), s),
        StmtV::Function(f) => {
            let (st1, r1) = declare(st, f.name);
            if !is_ok(r1) {
                (st1, r1, s)
            } else {
                let (st2, r2) = define(st1, f.name);
                if !is_ok(r2) {
                    (st2, r2, s)
                } else {
                    let (st3, r3, f3) = res_function(st2, f, FunctionType::FUNCTION);
                    (st3, r3, StmtV::Function(f3))
                }
            }
        },
        StmtV::Return(kw, value) => match value {
            Some(v) => if st.function == FunctionType::NONE {
                (st, Err(semantic_error(kw, "Return only from function"@)), s)
            } else if st.function == FunctionType::INITIALIZER {
                (st, Err(semantic_error(kw, "Cannot return from initializer"@)), s)
            } else {
                let (st1, r1, v2) = res_expr(st, v);
                (st1, r1, StmtV::Return(kw, Some(v2)))
            },
            None => (st, Ok(()), s),
        },
        StmtV::Class(name, methods, sup) => res_class(st, name, methods, sup),
        StmtV::StackTrace => (st, Ok(()), s),
    }
}

/// A class: its name is bound where it is declared; a superclass is a use
/// of a variable and opens a scope that binds `super`; the methods are
/// resolved in a scope that binds `this`.
pub open spec fn res_class(
    st: ResolverV,
    name: TokenV,
    methods: Seq<FunctionV>,
    sup: Option<TokenV>,
) -> Resolved<StmtV>
    decreases methods, methods.len() + 1,
{
    let st0 = with_class(st, ClassType::CLASS);
    let (st1, r1) = declare(st0, name);
    if !is_ok(r1) {
        (st1, r1, StmtV::Class(name, methods, sup))
    } else {
        let (st2, r2) = define(st1, name);
        if !is_ok(r2) {
            (st2, r2, StmtV::Class(name, methods, sup))
        } else {
            let name2 = resolve_local(st2, name);
            match sup {
                Some(sp) => if sp.lexeme == name2.lexeme {
                    (
                        st2,
                        Err(semantic_error(name2, "Class can't inherit itself"@)),
                        StmtV::Class(name2, methods, sup),
                    )
                } else {
                    let (st3, r3, sp2) = res_variable(with_class(st2, ClassType::SUBCLASS), sp);
                    if !is_ok(r3) {
                        (st3, r3, StmtV::Class(name2, methods, Some(sp2)))
                    } else {
                        let st4 = bind_top(begin_scope(st3), "super"@, true);
                        let (st5, r5, ms) = res_methods(
                            bind_top(begin_scope(st4), "this"@, true),
                            methods,
                            0,
                        );
                        if !is_ok(r5) {
                            (st5, r5, StmtV::Class(name2, ms, Some(sp2)))
                        } else {
                            (
                                with_class(end_scope(end_scope(st5)), st.class),
                                Ok(()),
                                StmtV::Class(name2, ms, Some(sp2)),
                            )
                        }
                    }
                },
                None => {
                    let (st5, r5, ms) = res_methods(
                        bind_top(begin_scope(st2), "this"@, true),
                        methods,
                        0,
                    );
                    if !is_ok(r5) {
                        (st5, r5, StmtV::Class(name2, ms, None))
                    } else {
                        (
                            with_class(end_scope(st5), st.class),
                            Ok(()),
                            StmtV::Class(name2, ms, None),
                        )
                    }
                },
            }
        }
    }
}

proof fn lemma_innermost(scopes: Seq<Map<Seq<char>, bool>>, name: Seq<char>, i: int)
    requires
        i < scopes.len(),
    ensures
        innermost(scopes, name, i) matches Some(j) ==> 0 <= j <= i && scopes[j].contains_key(name)
            && forall|k: int| j < k <= i ==> !(#[trigger] scopes[k].contains_key(name)),
        innermost(scopes, name, i) is None ==> forall|k: int| 0 <= k <= i ==> !(#[trigger] scopes[k].contains_key(name)),
    decreases i + 1,
{
    if i >= 0 && !scopes[i].contains_key(name) {
        lemma_innermost(scopes, name, i - 1);
    }
}

/// A use of a name is resolved to the innermost scope that binds it: the
/// distance counts the scopes from the innermost outwards, no scope nearer
/// the use binds the name, and nothing else of the token changes. A name
/// that no scope binds (a global) keeps its token as it was.
pub proof fn law_resolve_local_is_innermost(st: ResolverV, tok: TokenV)
    requires
        st.scopes.len() <= usize::MAX,
    ensures
        ({
            let r = resolve_local(st, tok);
            let n = st.scopes.len();
            &&& r.token_type == tok.token_type
            &&& r.line_no == tok.line_no
            &&& r.lexeme == tok.lexeme
            &&& r.literal == tok.literal
            &&& (forall|k: int| 0 <= k < n ==> !(#[trigger] st.scopes[k].contains_key(tok.lexeme))) ==> r == tok
            &&& (exists|k: int| 0 <= k < n && #[trigger] st.scopes[k].contains_key(tok.lexeme)) ==> (r.scope matches Some(d)
                && d < n
                && st.scopes[n - 1 - d].contains_key(tok.lexeme)
                && forall|k: int| n - 1 - d < k < n ==> !(#[trigger] st.scopes[k].contains_key(tok.lexeme)))
        }),
{
    reveal(resolve_local);
    lemma_innermost(st.scopes, tok.lexeme, st.scopes.len() - 1);
    let n = st.scopes.len();
    if let Some(i) = innermost(st.scopes, tok.lexeme, n - 1) {
        assert(0 <= n - 1 - i < n);
        assert(((n - 1 - i) as usize) as int == n - 1 - i);
    }
}

} // verus!
