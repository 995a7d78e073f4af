use rlox::ast::{Class, Function};
use rlox::environment::{Environments, GlobalEnvironment, LocalEnvironment};
use rlox::error::LoxError;
use rlox::runtime::{
    assign_variable, call_environment, check_arity, define_variable, lookup_variable, make_class,
    superclass_environment, LoxClass, LoxFunction, LoxInstance,
};
use rlox::token::{Token, TokenType};

fn ident(name: &str) -> Token {
    Token::new(TokenType::IDENTIFIER, 1, None, name.to_string())
}

fn method(name: &str, params: usize, closure: LocalEnvironment) -> LoxFunction {
    let params = (0..params).map(|i| ident(&format!("p{}", i))).collect();
    LoxFunction::new(Function::new(ident(name), params, Vec::new()), closure, name == "init")
}

#[test]
fn find_method_looks_in_superclass() {
    let g = LocalEnvironment::from_global(GlobalEnvironment::new());
    let base = LoxClass::new(
        "Base".to_string(),
        vec![("greet".to_string(), method("greet", 0, g)), ("init".to_string(), method("init", 2, g))],
        None,
    );
    let derived = LoxClass::new("Derived".to_string(), vec![("run".to_string(), method("run", 1, g))], Some(Box::new(base)));
    assert_eq!(derived.find_method(&"run".to_string()).unwrap().get_name(), "run");
    assert_eq!(derived.find_method(&"greet".to_string()).unwrap().get_name(), "greet");
    assert!(derived.find_method(&"missing".to_string()).is_none());
    assert_eq!(derived.arity(), 2);
    assert_eq!(derived.get_name(), "Derived");
}

#[test]
fn later_method_of_same_name_wins() {
    let g = LocalEnvironment::from_global(GlobalEnvironment::new());
    let c = LoxClass::new(
        "C".to_string(),
        vec![("f".to_string(), method("f", 0, g)), ("f".to_string(), method("f", 3, g))],
        None,
    );
    assert_eq!(c.find_method(&"f".to_string()).unwrap().arity(), 3);
    assert_eq!(c.arity(), 0);
}

#[test]
fn bind_method_defines_this_in_a_new_environment() {
    let mut envs: Environments<String> = Environments::new();
    let g = LocalEnvironment::from_global(GlobalEnvironment::new());
    let c = LoxClass::new("C".to_string(), vec![("m".to_string(), method("m", 1, g))], None);
    let bound = c.bind_method(&mut envs, &ident("m"), "instance".to_string()).unwrap();
    assert_eq!(envs.len(), 2);
    assert_eq!(bound.closure.id, 1);
    assert_eq!(bound.arity(), 1);
    assert_eq!(bound.closure.getAt(&envs, &"this".to_string(), 0), Some(&"instance".to_string()));
    match c.bind_method(&mut envs, &ident("nope"), "x".to_string()) {
        Err(LoxError::RuntimeError(l, 1, m)) => {
            assert_eq!(l, "nope");
            assert_eq!(m, "Only Instances have properties");
        }
        other => panic!("unexpected {:?}", other.map(|f| f.closure.id)),
    }
    assert_eq!(envs.len(), 2);
}

#[test]
fn instance_fields_read_back_what_was_set() {
    let c = LoxClass::new("C".to_string(), Vec::new(), None);
    let mut inst: LoxInstance<i64> = LoxInstance::new(c);
    assert_eq!(inst.get(&ident("x")), None);
    inst.set(&ident("x"), 1);
    inst.set(&ident("x"), 2);
    assert_eq!(inst.get(&ident("x")), Some(&2));
    assert_eq!(inst.klass.get_name(), "C");
}

#[test]
fn cloned_function_shares_its_declaration() {
    let g = LocalEnvironment::from_global(GlobalEnvironment::new());
    let f = method("f", 2, g);
    let f2 = f.clone();
    assert_eq!(f2.arity(), 2);
    assert_eq!(f2.get_name(), "f");
    assert!(std::rc::Rc::ptr_eq(&f.declaration, &f2.declaration));
}

#[test]
fn own_method_overrides_superclass_method() {
    let g = LocalEnvironment::from_global(GlobalEnvironment::new());
    let base = LoxClass::new("Base".to_string(), vec![("speak".to_string(), method("speak", 0, g))], None);
    let derived = LoxClass::new(
        "Derived".to_string(),
        vec![("speak".to_string(), method("speak", 2, g))],
        Some(Box::new(base)),
    );
    assert_eq!(derived.find_method(&"speak".to_string()).unwrap().arity(), 2);
}

#[test]
fn cloned_class_finds_the_same_methods() {
    let g = LocalEnvironment::from_global(GlobalEnvironment::new());
    let base = LoxClass::new("Base".to_string(), vec![("a".to_string(), method("a", 1, g))], None);
    let c = LoxClass::new("C".to_string(), vec![("b".to_string(), method("b", 2, g))], Some(Box::new(base)));
    let d = c.clone();
    assert_eq!(d.get_name(), "C");
    assert_eq!(d.find_method(&"a".to_string()).unwrap().arity(), 1);
    assert_eq!(d.find_method(&"b".to_string()).unwrap().arity(), 2);
}

#[test]
fn make_class_closes_methods_over_the_environment() {
    let decl = Class::new(
        ident("Point"),
        vec![
            Function::new(ident("init"), vec![ident("x")], Vec::new()),
            Function::new(ident("norm"), Vec::new(), Vec::new()),
        ],
        None,
    );
    let env = LocalEnvironment { id: 3 };
    let c = make_class(&decl, env, None);
    assert_eq!(c.get_name(), "Point");
    assert_eq!(c.methods.len(), 2);
    assert_eq!(c.methods[0].0, "init");
    assert!(c.methods[0].1.is_init);
    assert!(!c.methods[1].1.is_init);
    assert_eq!(c.methods[1].1.closure, env);
    assert_eq!(c.arity(), 1);
}

#[test]
fn call_environment_binds_parameters_to_arguments() {
    let mut envs: Environments<i64> = Environments::new();
    let g = LocalEnvironment::from_global(GlobalEnvironment::new());
    let params = vec![ident("a"), ident("b")];
    let env = call_environment(&mut envs, g, &params, vec![10, 20]);
    assert_eq!(env.id, 1);
    assert_eq!(env.getAt(&envs, &"a".to_string(), 0), Some(&10));
    assert_eq!(env.getAt(&envs, &"b".to_string(), 0), Some(&20));
    assert_eq!(env.ancestor(&envs, 1), Some(g));
    let short = call_environment(&mut envs, g, &params, vec![7]);
    assert_eq!(short.getAt(&envs, &"a".to_string(), 0), Some(&7));
    assert_eq!(short.getAt(&envs, &"b".to_string(), 0), None);
}

#[test]
fn variables_are_read_and_written_where_resolved() {
    use_variables();
}

fn use_variables() {
    let mut envs: Environments<i64> = Environments::new();
    let global = GlobalEnvironment::new();
    let g = LocalEnvironment::from_global(global);
    let local = LocalEnvironment::build(&mut envs, g);
    let mut x = ident("x");
    define_variable(&mut envs, local, global, &x, 1);
    assert_eq!(*lookup_variable(&envs, local, global, &x).unwrap(), 1);
    x.scope = Some(0);
    match lookup_variable(&envs, local, global, &x) {
        Err(LoxError::RuntimeError(l, 1, m)) => {
            assert_eq!(l, "x");
            assert_eq!(m, "Undefined get");
        }
        other => panic!("unexpected {:?}", other.map(|v| *v)),
    }
    define_variable(&mut envs, local, global, &x, 5);
    assert!(assign_variable(&mut envs, local, global, &x, 6).is_ok());
    assert_eq!(*lookup_variable(&envs, local, global, &x).unwrap(), 6);
    let y = ident("y");
    match assign_variable(&mut envs, local, global, &y, 0) {
        Err(LoxError::RuntimeError(l, 1, m)) => {
            assert_eq!(l, "y");
            assert_eq!(m, "Undefined assign");
        }
        other => panic!("unexpected {:?}", other),
    }
}

#[test]
fn superclass_environment_binds_super() {
    let mut envs: Environments<&str> = Environments::new();
    let g = LocalEnvironment::from_global(GlobalEnvironment::new());
    let env = superclass_environment(&mut envs, g, "Base");
    assert_eq!(env.id, 1);
    assert_eq!(env.getAt(&envs, &"super".to_string(), 0), Some(&"Base"));
    assert_eq!(env.ancestor(&envs, 1), Some(g));
}

#[test]
fn arity_must_match() {
    let paren = Token::new(TokenType::RightParen, 7, None, ")".to_string());
    assert!(check_arity("f".to_string(), 2, 2, &paren).is_ok());
    match check_arity("f".to_string(), 2, 1, &paren) {
        Err(LoxError::RuntimeError(l, 7, m)) => {
            assert_eq!(l, "f");
            assert_eq!(m, "No. of args don't match");
        }
        other => panic!("unexpected {:?}", other),
    }
}

#[test]
fn rebinding_a_field_keeps_one_binding() {
    let mut inst: LoxInstance<i64> = LoxInstance::new(LoxClass::new("C".to_string(), Vec::new(), None));
    for i in 0..5 {
        inst.set(&ident("x"), i);
    }
    assert_eq!(inst.fields.len(), 1);
    assert_eq!(inst.get(&ident("x")), Some(&4));
}
