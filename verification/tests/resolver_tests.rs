use rlox::ast::{Expr, Stmt};
use rlox::error::LoxError;
use rlox::lexer::Lexer;
use rlox::parser::Parser;
use rlox::resolver::Resolver;

fn resolve(src: &str) -> (Vec<Stmt>, Result<(), LoxError>) {
    let tokens = Lexer::new().parse(&src.to_string()).unwrap();
    let mut stmts = Parser::new(tokens).parse().unwrap();
    let r = Resolver::new().resolve(&mut stmts);
    (stmts, r)
}

fn printed_variable_scope(stmt: &Stmt) -> Option<usize> {
    match stmt {
        Stmt::Print(p) => match &p.expr {
            Expr::Variable(v) => v.name.scope,
            other => panic!("unexpected {:?}", other),
        },
        other => panic!("unexpected {:?}", other),
    }
}

#[test]
fn globals_stay_unresolved() {
    let (stmts, r) = resolve("var a = 1; print a;");
    assert!(r.is_ok());
    assert_eq!(printed_variable_scope(&stmts[1]), None);
}

#[test]
fn locals_get_their_scope_distance() {
    let (stmts, r) = resolve("{ var a = 1; { print a; } print a; }");
    assert!(r.is_ok());
    match &stmts[0] {
        Stmt::Block(outer) => {
            match &outer.statements[1] {
                Stmt::Block(inner) => assert_eq!(printed_variable_scope(&inner.statements[0]), Some(1)),
                other => panic!("unexpected {:?}", other),
            }
            assert_eq!(printed_variable_scope(&outer.statements[2]), Some(0));
        }
        other => panic!("unexpected {:?}", other),
    }
}

#[test]
fn reading_a_local_in_its_own_initializer_is_an_error() {
    let (_, r) = resolve("{ var a = a; }");
    match r {
        Err(LoxError::SemanticError(lexeme, line, msg)) => {
            assert_eq!(lexeme, "a");
            assert_eq!(line, 1);
            assert_eq!(msg, "Cannot read local variable in its own initializer.");
        }
        other => panic!("unexpected {:?}", other),
    }
}

#[test]
fn declaring_twice_in_one_scope_is_an_error() {
    let (_, r) = resolve("{ var a = 1; var a = 2; }");
    assert!(matches!(r, Err(LoxError::RuntimeError(ref l, _, ref m)) if l == "a" && m == "Already exists"));
}

#[test]
fn return_outside_function_is_an_error() {
    let (_, r) = resolve("return 1;");
    assert!(matches!(r, Err(LoxError::SemanticError(_, _, ref m)) if m == "Return only from function"));
}

#[test]
fn return_value_from_initializer_is_an_error() {
    let (_, r) = resolve("class A { init() { return 1; } }");
    assert!(matches!(r, Err(LoxError::SemanticError(_, _, ref m)) if m == "Cannot return from initializer"));
}

#[test]
fn this_outside_class_is_an_error() {
    let (_, r) = resolve("print this;");
    assert!(matches!(r, Err(LoxError::SemanticError(_, _, ref m)) if m == "Cannot use this outside class."));
}

#[test]
fn super_without_superclass_is_an_error() {
    let (_, r) = resolve("class A { f() { return super.f(); } }");
    assert!(matches!(r, Err(LoxError::SemanticError(_, _, ref m)) if m == "No super class as such."));
}

#[test]
fn class_inheriting_itself_is_an_error() {
    let (_, r) = resolve("class A < A {}");
    assert!(matches!(r, Err(LoxError::SemanticError(ref l, _, ref m)) if l == "A" && m == "Class can't inherit itself"));
}

#[test]
fn break_outside_loop_is_reported_and_inside_loop_is_not() {
    let (_, r) = resolve("break;");
    assert!(matches!(r, Err(LoxError::Break(1))));
    let (_, r) = resolve("continue;");
    assert!(matches!(r, Err(LoxError::Continue(1))));
    let (_, r) = resolve("while (true) break;");
    assert!(r.is_ok());
}

#[test]
fn method_sees_this_one_scope_out() {
    let (stmts, r) = resolve("class A { f() { return this; } }");
    assert!(r.is_ok());
    match &stmts[0] {
        Stmt::Class(c) => match &c.methods[0].body[0] {
            Stmt::Return(rt) => match rt.value.as_ref().unwrap() {
                Expr::This(t) => assert_eq!(t.keyword.scope, Some(1)),
                other => panic!("unexpected {:?}", other),
            },
            other => panic!("unexpected {:?}", other),
        },
        other => panic!("unexpected {:?}", other),
    }
}

#[test]
fn function_parameters_are_local() {
    let (stmts, r) = resolve("fun f(a) { print a; }");
    assert!(r.is_ok());
    match &stmts[0] {
        Stmt::Function(f) => assert_eq!(printed_variable_scope(&f.body[0]), Some(0)),
        other => panic!("unexpected {:?}", other),
    }
}

#[test]
fn resolution_closes_the_scopes_it_opens() {
    let tokens = Lexer::new().parse(&"{ var a = 1; { print a; } } fun f(x) { return x; }".to_string()).unwrap();
    let mut stmts = Parser::new(tokens).parse().unwrap();
    let mut resolver = Resolver::new();
    assert!(resolver.resolve(&mut stmts).is_ok());
    assert_eq!(resolver.scopes.len(), 0);
}

#[test]
fn break_out_of_a_block_in_a_loop_leaves_its_scope_open() {
    let tokens = Lexer::new().parse(&"while (true) { break; }".to_string()).unwrap();
    let mut stmts = Parser::new(tokens).parse().unwrap();
    let mut resolver = Resolver::new();
    assert!(resolver.resolve(&mut stmts).is_ok());
    assert_eq!(resolver.scopes.len(), 1);
}
