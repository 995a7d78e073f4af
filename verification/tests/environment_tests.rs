use rlox::environment::{EnvInner, Environments, GlobalEnvironment, LocalEnvironment};

#[test]
fn read_after_define_in_global() {
    let mut envs: Environments<i64> = Environments::new();
    let g = GlobalEnvironment::new();
    assert_eq!(g.get(&envs, &"x".to_string()), None);
    g.define(&mut envs, "x".to_string(), 7);
    assert_eq!(g.get(&envs, &"x".to_string()), Some(&7));
    g.define(&mut envs, "x".to_string(), 8);
    assert_eq!(g.get(&envs, &"x".to_string()), Some(&8));
}

#[test]
fn assign_succeeds_only_where_bound() {
    let mut envs: Environments<i64> = Environments::new();
    let g = GlobalEnvironment::new();
    assert!(!g.assign(&mut envs, "y".to_string(), 1));
    assert_eq!(g.get(&envs, &"y".to_string()), None);
    g.define(&mut envs, "y".to_string(), 1);
    assert!(g.assign(&mut envs, "y".to_string(), 2));
    assert_eq!(g.get(&envs, &"y".to_string()), Some(&2));
}

#[test]
fn child_environment_reads_parent_one_hop_out() {
    let mut envs: Environments<i64> = Environments::new();
    let global = LocalEnvironment::from_global(GlobalEnvironment::new());
    global.defineAt(&mut envs, "a".to_string(), 1, 0);
    let child = LocalEnvironment::build(&mut envs, global);
    assert_eq!(child.getAt(&envs, &"a".to_string(), 0), None);
    assert_eq!(child.getAt(&envs, &"a".to_string(), 1), Some(&1));
    child.defineAt(&mut envs, "a".to_string(), 2, 0);
    assert_eq!(child.getAt(&envs, &"a".to_string(), 0), Some(&2));
    assert_eq!(global.getAt(&envs, &"a".to_string(), 0), Some(&1));
    assert!(child.assignAt(&mut envs, "a".to_string(), 3, 1));
    assert_eq!(global.getAt(&envs, &"a".to_string(), 0), Some(&3));
}

#[test]
fn ancestor_beyond_the_root_is_none() {
    let mut envs: Environments<i64> = Environments::new();
    let root = LocalEnvironment::new(&mut envs);
    let child = LocalEnvironment::build(&mut envs, root);
    assert_eq!(child.ancestor(&envs, 0), Some(child));
    assert_eq!(child.ancestor(&envs, 1), Some(root));
    assert_eq!(child.ancestor(&envs, 2), None);
    assert_eq!(child.getAt(&envs, &"z".to_string(), 5), None);
    child.defineAt(&mut envs, "z".to_string(), 1, 5);
    assert_eq!(child.getAt(&envs, &"z".to_string(), 0), None);
    assert!(!child.assignAt(&mut envs, "z".to_string(), 1, 5));
}

#[test]
fn env_inner_define_assign_get() {
    let mut e: EnvInner<&str> = EnvInner::new();
    assert!(!e.assign("k".to_string(), "v"));
    e.define("k".to_string(), "v");
    assert_eq!(e.get(&"k".to_string()), Some(&"v"));
    assert!(e.assign("k".to_string(), "w"));
    assert_eq!(e.get(&"k".to_string()), Some(&"w"));
    let b: EnvInner<&str> = EnvInner::build(0);
    assert_eq!(b.get(&"k".to_string()), None);
}

#[test]
fn ancestor_steps_add_up() {
    let mut envs: Environments<i64> = Environments::new();
    let root = LocalEnvironment::new(&mut envs);
    let mid = LocalEnvironment::build(&mut envs, root);
    let leaf = LocalEnvironment::build(&mut envs, mid);
    let one = leaf.ancestor(&envs, 1).unwrap();
    assert_eq!(one, mid);
    assert_eq!(leaf.ancestor(&envs, 2), one.ancestor(&envs, 1));
    assert_eq!(leaf.ancestor(&envs, 2), Some(root));
}
