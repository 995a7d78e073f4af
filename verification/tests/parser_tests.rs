use rlox::ast::{Expr, Stmt};
use rlox::error::LoxError;
use rlox::lexer::Lexer;
use rlox::parser::Parser;
use rlox::token::{Literal, TokenType};

fn parse(src: &str) -> Result<Vec<Stmt>, LoxError> {
    let tokens = Lexer::new().parse(&src.to_string()).unwrap();
    Parser::new(tokens).parse()
}

#[test]
fn parses_var_with_binary_initializer() {
    let stmts = parse("var x = 1 + 2 * 3;").unwrap();
    assert_eq!(stmts.len(), 1);
    match &stmts[0] {
        Stmt::Var(v) => {
            assert_eq!(v.name.lexeme, "x");
            match v.initializer.as_ref().unwrap() {
                Expr::Binary(b) => {
                    assert_eq!(b.operator.token_type, TokenType::PLUS);
                    assert!(matches!(&b.left, Expr::Literal(Literal::NUM(d)) if d == "1"));
                    match &b.right {
                        Expr::Binary(m) => assert_eq!(m.operator.token_type, TokenType::STAR),
                        other => panic!("unexpected {:?}", other),
                    }
                }
                other => panic!("unexpected {:?}", other),
            }
        }
        other => panic!("unexpected {:?}", other),
    }
}

#[test]
fn assignment_to_variable_and_property() {
    let stmts = parse("a = 1; o.f = 2;").unwrap();
    assert_eq!(stmts.len(), 2);
    assert!(matches!(&stmts[0], Stmt::Expression(e) if matches!(&e.expr, Expr::Assign(a) if a.name.lexeme == "a")));
    assert!(matches!(&stmts[1], Stmt::Expression(e) if matches!(&e.expr, Expr::SetProperty(s) if s.name.lexeme == "f")));
}

fn assert_invalid_target(src: &str, line: u32) {
    match parse(src) {
        Err(LoxError::RuntimeError(lexeme, l, msg)) => {
            assert_eq!(lexeme, "=");
            assert_eq!(l, line);
            assert_eq!(msg, "Invalid assignment target.");
        }
        other => panic!("unexpected {:?}", other),
    }
}

#[test]
fn grouping() {
    assert_invalid_target("var a = \"a\";\n(a) = \"value\";", 2);
}

#[test]
fn infix_operator() {
    assert_invalid_target("var a = \"a\";\nvar b = \"b\";\na + b = \"value\";", 3);
}

#[test]
fn prefix_operator() {
    assert_invalid_target("var a = \"a\";\n!a = \"value\";", 2);
}

#[test]
fn to_this() {
    assert_invalid_target("class Foo {\n  Foo() {\n    this = \"value\";\n  }\n}", 3);
}

#[test]
fn literal_target_is_rejected() {
    assert_invalid_target("3 = 4;", 1);
}

#[test]
fn for_loop_is_desugared_into_while() {
    let stmts = parse("for (var i = 0; i < 3; i = i + 1) print i;").unwrap();
    assert_eq!(stmts.len(), 1);
    match &stmts[0] {
        Stmt::Block(b) => {
            assert_eq!(b.statements.len(), 2);
            assert!(matches!(&b.statements[0], Stmt::Var(_)));
            match &b.statements[1] {
                Stmt::While(w) => match &w.body {
                    Stmt::Block(body) => {
                        assert_eq!(body.statements.len(), 2);
                        assert!(matches!(&body.statements[0], Stmt::Print(_)));
                        assert!(matches!(&body.statements[1], Stmt::Expression(_)));
                    }
                    other => panic!("unexpected {:?}", other),
                },
                other => panic!("unexpected {:?}", other),
            }
        }
        other => panic!("unexpected {:?}", other),
    }
}

#[test]
fn class_with_superclass_and_methods() {
    let stmts = parse("class B < A { init(x) { this.x = x; } get() { return this.x; } }").unwrap();
    match &stmts[0] {
        Stmt::Class(c) => {
            assert_eq!(c.name.lexeme, "B");
            assert_eq!(c.superclass.as_ref().unwrap().name.lexeme, "A");
            assert_eq!(c.methods.len(), 2);
            assert_eq!(c.methods[0].name.lexeme, "init");
            assert_eq!(c.methods[0].params.len(), 1);
            assert_eq!(c.methods[1].name.lexeme, "get");
        }
        other => panic!("unexpected {:?}", other),
    }
}

#[test]
fn lambda_and_call_arguments() {
    let stmts = parse("var f = fun (a, b) { return a; }; f(1, 2);").unwrap();
    assert_eq!(stmts.len(), 2);
    match &stmts[0] {
        Stmt::Var(v) => assert!(matches!(v.initializer.as_ref().unwrap(), Expr::Lambda(l) if l.params.len() == 2)),
        other => panic!("unexpected {:?}", other),
    }
    match &stmts[1] {
        Stmt::Expression(e) => assert!(matches!(&e.expr, Expr::Call(c) if c.arguments.len() == 2)),
        other => panic!("unexpected {:?}", other),
    }
}

#[test]
fn missing_semicolon_is_a_parser_error() {
    match parse("print 1") {
        Err(LoxError::ParserError(_, line, msg)) => {
            assert_eq!(line, 2);
            assert!(!msg.is_empty());
        }
        other => panic!("unexpected {:?}", other),
    }
}

#[test]
fn unclosed_block_is_a_parser_error() {
    assert!(matches!(parse("{ var a = 1;"), Err(LoxError::ParserError(..))));
}

#[test]
fn empty_program_has_no_statements() {
    assert_eq!(parse("").unwrap().len(), 0);
}

#[test]
fn if_else_and_logical_operators() {
    let stmts = parse("if (a and b or c) print 1; else print 2;").unwrap();
    match &stmts[0] {
        Stmt::If(i) => {
            assert!(i.else_branch.is_some());
            assert!(matches!(&i.condition, Expr::Logical(l) if l.operator.token_type == TokenType::OR));
        }
        other => panic!("unexpected {:?}", other),
    }
}

#[test]
fn cloned_tree_has_the_same_shape() {
    let stmts = parse("class A { f(x) { return fun (y) { return x + y; }; } } print A().f(1)(2);").unwrap();
    let copy: Vec<Stmt> = stmts.iter().map(|s| s.clone()).collect();
    assert_eq!(format!("{:?}", copy), format!("{:?}", stmts));
}
