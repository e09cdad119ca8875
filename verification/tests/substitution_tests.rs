//! Substitution of generic placeholders through the active type map.
use salt_front::substitution::{substitute_generics, try_substitute_generics};
use salt_front::type_map::TypeMap;
use salt_front::types::{Provenance, Type};

fn map_of(pairs: &[(&str, Type)]) -> TypeMap {
    let mut m = TypeMap::new();
    for (k, v) in pairs.iter() {
        m.insert(k.to_string(), v.clone());
    }
    m
}

#[test]
fn test_substitute_generic_binds() {
    let m = map_of(&[("T", Type::I64)]);
    assert_eq!(substitute_generics(&m, &Type::Generic("T".into())), Type::I64);
}

#[test]
fn test_substitute_struct_key() {
    let m = map_of(&[("T", Type::I64)]);
    assert_eq!(substitute_generics(&m, &Type::Struct("T".into())), Type::I64);
}

#[test]
fn test_substitute_generic_not_in_map() {
    let m = TypeMap::new();
    assert_eq!(substitute_generics(&m, &Type::Generic("T".into())), Type::Generic("T".into()));
}

#[test]
fn test_substitute_concrete_args() {
    let m = map_of(&[("T", Type::I64)]);
    let ty = Type::Concrete("Vec".into(), vec![Type::Generic("T".into())]);
    let expected = Type::Concrete("Vec".into(), vec![Type::I64]);
    assert_eq!(substitute_generics(&m, &ty), expected);
}

#[test]
fn test_substitute_self_type() {
    let m = map_of(&[("Self", Type::Struct("Foo".into()))]);
    assert_eq!(substitute_generics(&m, &Type::SelfType), Type::Struct("Foo".into()));
}

#[test]
fn test_substitute_pointer_recurse() {
    let m = map_of(&[("T", Type::I32)]);
    let ty = Type::Pointer { element: Box::new(Type::Generic("T".into())), provenance: Provenance::Naked, is_mutable: false };
    let expected = Type::Pointer { element: Box::new(Type::I32), provenance: Provenance::Naked, is_mutable: false };
    assert_eq!(substitute_generics(&m, &ty), expected);
}

#[test]
fn test_substitute_no_infinite_loop() {
    let m = map_of(&[("T", Type::Generic("T".into()))]);
    assert_eq!(substitute_generics(&m, &Type::Struct("T".into())), Type::Generic("T".into()));
}

#[test]
fn substitution_follows_chained_bindings() {
    // K is bound to a type that mentions V, which is bound in turn.
    let m = map_of(&[
        ("K", Type::Concrete("Entry".into(), vec![Type::Generic("V".into())])),
        ("V", Type::I64),
    ]);
    let expected = Type::Concrete("Entry".into(), vec![Type::I64]);
    assert_eq!(substitute_generics(&m, &Type::Generic("K".into())), expected);
}

#[test]
fn substitution_uses_the_last_path_segment() {
    let m = map_of(&[("Item", Type::U8)]);
    let ty = Type::Concrete("std__iter__Item".into(), vec![]);
    assert_eq!(substitute_generics(&m, &ty), Type::U8);
    // A name without a separator has no segment to fall back on.
    let plain = Type::Concrete("Other".into(), vec![]);
    assert_eq!(substitute_generics(&m, &plain), plain);
}

#[test]
fn substitution_leaves_owned_types() {
    let m = map_of(&[("T", Type::I64)]);
    let owned = Type::Owned(Box::new(Type::Generic("T".into())));
    assert_eq!(substitute_generics(&m, &owned), owned);
}

#[test]
fn substitution_inside_functions_and_tuples() {
    let m = map_of(&[("T", Type::Bool)]);
    let ty = Type::Fn(vec![Type::Tuple(vec![Type::Generic("T".into())])], Box::new(Type::Generic("T".into())));
    let expected = Type::Fn(vec![Type::Tuple(vec![Type::Bool])], Box::new(Type::Bool));
    assert_eq!(substitute_generics(&m, &ty), expected);
}

#[test]
fn bounded_substitution_succeeds_or_gives_up() {
    let m = map_of(&[("T", Type::I32)]);
    assert_eq!(try_substitute_generics(&m, &Type::Generic("T".to_string()), 1), Some(Type::I32));
    assert_eq!(try_substitute_generics(&m, &Type::Generic("T".to_string()), 0), None);
    assert_eq!(try_substitute_generics(&m, &Type::Bool, 0), Some(Type::Bool));
    let cyclic = map_of(&[("A", Type::Struct("B".to_string())), ("B", Type::Struct("A".to_string()))]);
    assert_eq!(try_substitute_generics(&cyclic, &Type::Struct("A".to_string()), 50), None);
}
