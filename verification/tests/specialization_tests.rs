//! Queueing of template specialisations.
use salt_front::specialization::MonoState;
use salt_front::types::{Type, TypeKey};

#[test]
fn specialize_template_splits_path_and_queues_once() {
    let mut st = MonoState::new();
    let key = st.specialize_template("std__vec__Vec", &vec![Type::I32], false).unwrap();
    assert_eq!(key.path, vec!["std".to_string(), "vec".to_string()]);
    assert_eq!(key.name, "Vec".to_string());
    assert_eq!(key.specialization, Some(vec![Type::I32]));
    assert_eq!(st.pending.len(), 1);
    assert_eq!(st.work_queue.len(), 1);
    assert_eq!(st.work_queue[0].template_name, "std__vec__Vec".to_string());
    assert!(!st.work_queue[0].is_enum);
    let again = st.specialize_template("std__vec__Vec", &vec![Type::I32], false).unwrap();
    assert_eq!(again, key);
    assert_eq!(st.pending.len(), 1);
    assert_eq!(st.work_queue.len(), 1);
    st.specialize_template("std__vec__Vec", &vec![Type::I64], false).unwrap();
    assert_eq!(st.work_queue.len(), 2);
}

#[test]
fn specialize_template_skips_registered_keys() {
    let mut st = MonoState::new();
    st.enum_registry.push(TypeKey { path: vec![], name: "Option".to_string(), specialization: Some(vec![Type::Bool]) });
    let key = st.specialize_template("Option", &vec![Type::Bool], true).unwrap();
    assert_eq!(key.path, Vec::<String>::new());
    assert_eq!(key.name, "Option".to_string());
    assert_eq!(st.work_queue.len(), 0);
    st.specialize_template("Option", &vec![Type::Bool], false).unwrap();
    assert_eq!(st.work_queue.len(), 1);
    assert!(!st.work_queue[0].is_enum);
}
