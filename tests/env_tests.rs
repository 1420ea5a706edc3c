use rmonkey::env::Env;
use rmonkey::object::{Buildin, Integer, Object, ObjectTrait};
use rmonkey::repl::{ReplExecKind, ReplInputKind};

fn int_obj(v: i64) -> Object {
    Object::Int(Integer::new(v))
}

#[test]
fn inner_scope_sees_outer_bindings() {
    let mut env = Env::new();
    env.set(0, "x".to_string(), int_obj(1));
    let inner = env.new_with_outer(0);
    assert_eq!(inner, 1);
    assert_eq!(env.get(inner, &"x".to_string()).unwrap().inspect(), "1");
}

#[test]
fn set_in_inner_scope_does_not_touch_outer() {
    let mut env = Env::new();
    env.set(0, "x".to_string(), int_obj(1));
    let inner = env.new_with_outer(0);
    env.set(inner, "x".to_string(), int_obj(2));
    env.set(inner, "y".to_string(), int_obj(3));
    assert_eq!(env.get(inner, &"x".to_string()).unwrap().inspect(), "2");
    assert_eq!(env.get(0, &"x".to_string()).unwrap().inspect(), "1");
    assert!(env.get(0, &"y".to_string()).is_none());
}

#[test]
fn later_binding_overrides_earlier() {
    let mut env = Env::new();
    env.set(0, "x".to_string(), int_obj(1));
    env.set(0, "x".to_string(), int_obj(5));
    assert_eq!(env.get(0, &"x".to_string()).unwrap().inspect(), "5");
    assert!(env.get(7, &"x".to_string()).is_none());
}

#[test]
fn exit_builtin_checks_its_arguments() {
    match Buildin::exit(&vec![]) {
        Object::Error(e) => assert_eq!(e.msg, "Number of argument is not 1"),
        other => panic!("expected an error, got {:?}", other),
    }
    match Buildin::exit(&vec![int_obj(2)]) {
        Object::Exit(x) => assert_eq!(x.code, 2),
        other => panic!("expected an exit request, got {:?}", other),
    }
}

#[test]
fn print_builtin_collects_lines() {
    let mut out = vec!["before".to_string()];
    let r = Buildin::print(&vec![int_obj(4), int_obj(-5)], &mut out);
    assert!(matches!(r, Object::Null(_)));
    assert_eq!(out, vec!["before".to_string(), "4".to_string(), "-5".to_string()]);
}

#[test]
fn menu_choices_select_modes() {
    assert_eq!(ReplInputKind::from_choice(1), Some(ReplInputKind::OneLine));
    assert_eq!(ReplInputKind::from_choice(2), Some(ReplInputKind::WhileCtrlD));
    assert_eq!(ReplInputKind::from_choice(3), None);
    assert_eq!(ReplExecKind::from_choice(3), Some(ReplExecKind::String));
    assert_eq!(ReplExecKind::from_choice(0), None);
}

#[test]
fn rebinding_replaces_in_place() {
    let mut env = Env::new();
    env.set(0, "x".to_string(), int_obj(1));
    env.set(0, "y".to_string(), int_obj(2));
    env.set(0, "x".to_string(), int_obj(3));
    assert_eq!(env.scopes[0].vars.len(), 2);
    assert_eq!(env.get(0, &"x".to_string()).unwrap().inspect(), "3");
    assert_eq!(env.get(0, &"y".to_string()).unwrap().inspect(), "2");
}
