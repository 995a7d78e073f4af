use rlox::ast::{Expr, Stmt};
use rlox::error::LoxError;
use rlox::runner::analyse;

#[test]
fn analyse_gives_the_resolved_program() {
    let program = analyse(&"fun f(a) { return a; }\nprint f(1);".to_string()).unwrap();
    assert_eq!(program.len(), 2);
    match &program[0] {
        Stmt::Function(f) => match &f.body[0] {
            Stmt::Return(r) => match r.value.as_ref().unwrap() {
                Expr::Variable(v) => assert_eq!(v.name.scope, Some(0)),
                other => panic!("unexpected {:?}", other),
            },
            other => panic!("unexpected {:?}", other),
        },
        other => panic!("unexpected {:?}", other),
    }
}

#[test]
fn analyse_reports_the_parser_error_first() {
    match analyse(&"print this\n;;".to_string()) {
        Err(LoxError::ParserError(..)) => {}
        other => panic!("unexpected {:?}", other.map(|p| p.len())),
    }
}

#[test]
fn analyse_reports_the_resolver_error() {
    match analyse(&"return 1;".to_string()) {
        Err(LoxError::SemanticError(l, 1, m)) => {
            assert_eq!(l, "return");
            assert_eq!(m, "Return only from function");
        }
        other => panic!("unexpected {:?}", other.map(|p| p.len())),
    }
}
