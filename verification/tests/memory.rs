use krama_runtime::environment::Environment;
use krama_runtime::error::ErrorKind;
use krama_runtime::memory::heap::{props_get, props_insert, Heap, Properties};
use krama_runtime::memory::stack::Stack;
use krama_runtime::object::{Function, Object};
use krama_runtime::span::Span;

fn int_of(o: &Option<Object>) -> i64 {
    match o {
        Some(Object::Integer(i)) => *i,
        other => panic!("not an integer: {:?}", other),
    }
}

#[test]
fn stack_define_then_get() {
    let mut st = Stack::new();
    st.define("a".to_string(), Object::Integer(1), false, false);
    assert_eq!(int_of(&st.get(&"a".to_string())), 1);
    assert!(st.get(&"b".to_string()).is_none());
    st.define("a".to_string(), Object::Integer(2), false, false);
    assert_eq!(int_of(&st.get(&"a".to_string())), 2);
}

#[test]
fn stack_push_pop_and_shadowing() {
    let mut st = Stack::default();
    st.define("a".to_string(), Object::Integer(1), false, false);
    st.push("block".to_string(), None);
    assert_eq!(st.depth(), 1);
    assert_eq!(int_of(&st.get(&"a".to_string())), 1);
    st.define("a".to_string(), Object::Integer(5), false, false);
    assert_eq!(int_of(&st.get(&"a".to_string())), 5);
    st.pop();
    assert_eq!(st.depth(), 0);
    assert_eq!(int_of(&st.get(&"a".to_string())), 1);
    // The global frame is never left.
    st.pop();
    assert_eq!(st.depth(), 0);
}

#[test]
fn stack_set_walks_the_chain_and_refuses_constants() {
    let mut st = Stack::new();
    st.define("v".to_string(), Object::Integer(1), false, false);
    st.define("c".to_string(), Object::Integer(1), false, true);
    st.push("block".to_string(), None);
    st.set(&"v".to_string(), Object::Integer(7), Span::new(0, 1)).unwrap();
    st.pop();
    assert_eq!(int_of(&st.get(&"v".to_string())), 7);
    let err = st.set(&"c".to_string(), Object::Integer(7), Span::new(3, 4)).unwrap_err();
    assert!(matches!(err.kind, ErrorKind::ConstantAssignment { .. }));
    assert_eq!(err.span, Span::new(3, 4));
    let err = st.set(&"nope".to_string(), Object::Integer(7), Span::new(0, 1)).unwrap_err();
    assert!(matches!(err.kind, ErrorKind::VariableNotFound { .. }));
}

#[test]
fn stack_public_bindings_in_order() {
    let mut st = Stack::new();
    st.define("b".to_string(), Object::Integer(2), true, true);
    st.define("hidden".to_string(), Object::Integer(0), false, true);
    st.define("a".to_string(), Object::Integer(1), true, false);
    let public = st.get_public_bindings();
    let names: Vec<&str> = public.iter().map(|(n, _)| n.as_str()).collect();
    assert_eq!(names, vec!["b", "a"]);
}

#[test]
fn heap_allocations_are_counted() {
    let mut h = Heap::new();
    let o = h.alloc_object(Vec::new(), None, false);
    let t = h.alloc_tuple(vec![Object::Integer(1)]);
    let a = h.alloc_array(vec![], 0, true);
    let s = h.alloc_string("x".to_string());
    assert_eq!(h.allocations, 3);
    assert!(matches!(o, Object::Object { id: 0, definition: None, constant: false }));
    assert!(matches!(t, Object::Tuple { id: 0 }));
    assert!(matches!(a, Object::Array { id: 0, kind: 0, constant: true }));
    assert!(matches!(s, Object::String(ref v) if v == "x"));
    assert_eq!(h.tuple_elements(0).unwrap().len(), 1);
    assert!(h.array_elements(1).is_none());
}

#[test]
fn properties_keep_first_position_and_last_value() {
    let mut ps: Properties = Vec::new();
    props_insert(&mut ps, "a".to_string(), Object::Integer(1));
    props_insert(&mut ps, "b".to_string(), Object::Integer(2));
    props_insert(&mut ps, "a".to_string(), Object::Integer(3));
    assert_eq!(ps.len(), 2);
    assert_eq!(ps[0].0, "a");
    assert_eq!(int_of(&props_get(&ps, &"a".to_string())), 3);
    assert!(props_get(&ps, &"c".to_string()).is_none());
}

#[test]
fn environment_lookup_falls_back_outwards() {
    let globals = vec!["print".to_string(), "len".to_string()];
    let outer = Environment::with_globals(&globals);
    match outer.get_local(&"len".to_string()) {
        Some(Object::Function(Function::Native { name })) => assert_eq!(name, "len"),
        other => panic!("{:?}", other),
    }
    let mut inner = Environment::new_enclosed(&outer);
    inner.set("x".to_string(), Object::Integer(4), false);
    inner.set("y".to_string(), Object::Integer(5), true);
    inner.set("x".to_string(), Object::Integer(6), true);
    assert_eq!(int_of(&inner.get(&"x".to_string())), 6);
    assert!(matches!(inner.get(&"print".to_string()), Some(Object::Function(_))));
    assert!(inner.get_local(&"print".to_string()).is_none());
    assert!(inner.get(&"missing".to_string()).is_none());
    let mut public = inner.get_public_bindings();
    public.sort_by(|a, b| a.0.cmp(&b.0));
    assert_eq!(public.len(), 2);
    assert_eq!(public[0].0, "x");
    assert_eq!(public[1].0, "y");
    let empty = Environment::new();
    assert!(empty.get_public_bindings().is_empty());
}

#[test]
fn assign_at_distance_then_read() {
    let mut it = krama_runtime::interpreter::Interpreter::new(None);
    it.stack.define("v".to_string(), Object::Integer(1), false, false);
    it.stack.push("block".to_string(), None);
    it.assign_at(1, &"v".to_string(), Object::Integer(30), Span::new(0, 1)).unwrap();
    assert!(matches!(it.get_at(1, &"v".to_string()), Some(Object::Integer(30))));
    let err = it.assign_at(0, &"v".to_string(), Object::Integer(3), Span::new(0, 1)).unwrap_err();
    assert!(matches!(err.kind, ErrorKind::NotFoundAtDistance { distance: 0, .. }));
}
