use salt_front::types::{Type, Provenance, get_numeric_idx, get_bit_width};
use salt_front::resolution::type_to_type_key;
use salt_front::layout::{extract_ptr_inner, flatten_nested_ptr, prove_layout_compatibility, StructLayout};

#[test]
fn test_get_numeric_idx_known_types() {
    assert_eq!(get_numeric_idx(&Type::I8), Some(0));
    assert_eq!(get_numeric_idx(&Type::I16), Some(1));
    assert_eq!(get_numeric_idx(&Type::I32), Some(2));
    assert_eq!(get_numeric_idx(&Type::I64), Some(3));
    assert_eq!(get_numeric_idx(&Type::U8), Some(4));
    assert_eq!(get_numeric_idx(&Type::U16), Some(5));
    assert_eq!(get_numeric_idx(&Type::U32), Some(6));
    assert_eq!(get_numeric_idx(&Type::U64), Some(7));
    assert_eq!(get_numeric_idx(&Type::Usize), Some(8));
    assert_eq!(get_numeric_idx(&Type::F32), Some(9));
    assert_eq!(get_numeric_idx(&Type::F64), Some(10));
    assert_eq!(get_numeric_idx(&Type::Bool), Some(11));
}

#[test]
fn test_get_numeric_idx_unknown_types() {
    assert_eq!(get_numeric_idx(&Type::Unit), None);
    assert_eq!(get_numeric_idx(&Type::Struct("foo".into())), None);
}

#[test]
fn test_get_bit_width_all_primitives() {
    assert_eq!(get_bit_width(&Type::I8), 8);
    assert_eq!(get_bit_width(&Type::U8), 8);
    assert_eq!(get_bit_width(&Type::Bool), 8);
    assert_eq!(get_bit_width(&Type::I16), 16);
    assert_eq!(get_bit_width(&Type::U16), 16);
    assert_eq!(get_bit_width(&Type::I32), 32);
    assert_eq!(get_bit_width(&Type::U32), 32);
    assert_eq!(get_bit_width(&Type::F32), 32);
    assert_eq!(get_bit_width(&Type::I64), 64);
    assert_eq!(get_bit_width(&Type::U64), 64);
    assert_eq!(get_bit_width(&Type::Usize), 64);
    assert_eq!(get_bit_width(&Type::F64), 64);
}

#[test]
fn test_get_bit_width_unknown() {
    assert_eq!(get_bit_width(&Type::Unit), 0);
    assert_eq!(get_bit_width(&Type::Struct("foo".into())), 0);
}

#[test]
fn test_type_to_type_key_concrete_no_path() {
    let k = type_to_type_key(&Type::Concrete("Vec".into(), vec![Type::I32]));
    assert_eq!(k.name, "Vec");
    assert_eq!(k.path, vec![] as Vec<String>);
    assert_eq!(k.specialization, Some(vec![Type::I32]));
}

#[test]
fn test_type_to_type_key_concrete_with_path() {
    let k = type_to_type_key(&Type::Concrete(
        "std__collections__HashMap".into(), vec![Type::I64, Type::I64],
    ));
    assert_eq!(k.name, "std__collections__HashMap");
    assert_eq!(k.path, vec!["std", "collections"]);
    assert_eq!(k.specialization, Some(vec![Type::I64, Type::I64]));
}

#[test]
fn test_type_to_type_key_owned_struct() {
    let k = type_to_type_key(&Type::Owned(Box::new(Type::Struct("Foo".into()))));
    assert_eq!(k.name, "Foo");
    assert_eq!(k.path, vec![] as Vec<String>);
    assert_eq!(k.specialization, Some(vec![]));
}

#[test]
fn test_type_to_type_key_owned_concrete() {
    let k = type_to_type_key(&Type::Owned(Box::new(
        Type::Concrete("pkg__Bar".into(), vec![Type::I64]),
    )));
    assert_eq!(k.name, "pkg__Bar");
    assert_eq!(k.path, vec!["pkg"]);
    assert_eq!(k.specialization, Some(vec![Type::I64]));
}

#[test]
fn test_type_to_type_key_fallback() {
    let k = type_to_type_key(&Type::I32);
    assert_eq!(k.name, "I32");
    assert_eq!(k.specialization, None);
}

#[test]
fn test_type_key_fallback_matches_debug() {
    let tys = vec![
        Type::Generic("T".into()),
        Type::Pointer { element: Box::new(Type::Struct("a\"b".into())), provenance: Provenance::Naked, is_mutable: true },
        Type::Array(Box::new(Type::U8), 10, false),
        Type::Tuple(vec![Type::I32, Type::Concrete("V".into(), vec![Type::Bool, Type::F32])]),
        Type::Fn(vec![], Box::new(Type::Unit)),
        Type::Tensor(Box::new(Type::F64), vec![2, 3]),
        Type::Atomic(Box::new(Type::Reference(Box::new(Type::Never), false))),
    ];
    for t in tys {
        let k = type_to_type_key(&t);
        assert_eq!(k.name, format!("{:?}", t));
        assert!(k.path.is_empty());
    }
}

#[test]
fn test_type_key_splits_underscores() {
    let k = type_to_type_key(&Type::Struct("a___b__c".into()));
    assert_eq!(k.path, vec!["a", "_b"]);
    let k = type_to_type_key(&Type::Reference(Box::new(Type::Struct("m__".into())), true));
    assert_eq!(k.path, vec!["m"]);
    assert_eq!(k.name, "m__");
}

#[test]
fn test_usize_and_i64_are_distinct_types() {
    assert_ne!(Type::Usize, Type::I64,
        "Type::Usize and Type::I64 must be distinct types");
    assert_ne!(Type::Usize, Type::U64,
        "Type::Usize and Type::U64 must be distinct types");
}

#[test]
fn test_atomic_is_not_ptr_type() {
    let ty = Type::Atomic(Box::new(Type::I32));
    assert!(!ty.k_is_ptr_type(),
        "Atomic<i32> is NOT a pointer type — it is a scalar wrapper");
}

#[test]
fn test_atomic_i32_size_of() {
    let reg = Vec::new();
    let ty = Type::Atomic(Box::new(Type::I32));
    assert_eq!(ty.size_of(&reg), 4,
        "Atomic<i32> should be 4 bytes, not 8 (pointer size)");
}

#[test]
fn test_atomic_u64_size_of() {
    let reg = Vec::new();
    let ty = Type::Atomic(Box::new(Type::U64));
    assert_eq!(ty.size_of(&reg), 8,
        "Atomic<u64> should be 8 bytes");
}

#[test]
fn test_extract_ptr_inner() {
    assert_eq!(extract_ptr_inner("Ptr_u8"), Some("u8".to_string()));
    assert_eq!(extract_ptr_inner("std__Ptr__Ptr___Node"), Some("Node".to_string()));
    assert_eq!(extract_ptr_inner("Ptr"), None);
    assert_eq!(extract_ptr_inner("Ptr___"), None);
    assert_eq!(extract_ptr_inner("Node"), None);
}

#[test]
fn test_flatten_nested_ptr() {
    let ptr = |t: Type| Type::Concrete("Ptr".into(), vec![t]);
    let nested = ptr(Type::Pointer { element: Box::new(Type::I32), provenance: Provenance::Naked, is_mutable: false });
    // Ptr<*i32> drills into the raw pointer, which it keeps.
    assert_eq!(flatten_nested_ptr(&nested, 0, "t"),
        Type::Pointer { element: Box::new(Type::I32), provenance: Provenance::Naked, is_mutable: false });
    assert_eq!(flatten_nested_ptr(&ptr(ptr(Type::U8)), 0, "t"), Type::U8);
    assert_eq!(flatten_nested_ptr(&ptr(Type::U8), 0, "t"), ptr(Type::U8));
    assert_eq!(flatten_nested_ptr(&Type::Struct("Ptr_Ptr_u8".into()), 0, "t"), Type::Struct("u8".into()));
    assert_eq!(flatten_nested_ptr(&ptr(ptr(Type::U8)), 11, "t"), ptr(ptr(Type::U8)));
}

#[test]
fn test_layout_compatibility() {
    let reg = vec![StructLayout { name: "Pair".into(), size: 8, align: 4 }];
    assert!(prove_layout_compatibility(&reg, &Type::I64, &Type::U64));
    assert!(prove_layout_compatibility(&reg, &Type::Struct("Pair".into()), &Type::Array(Box::new(Type::I32), 2, false)));
    assert!(!prove_layout_compatibility(&reg, &Type::I64, &Type::Struct("Pair".into())));
    assert!(!prove_layout_compatibility(&reg, &Type::I32, &Type::I64));
    assert!(prove_layout_compatibility(&reg, &Type::Tuple(vec![Type::U8, Type::U8]), &Type::U16) == false);
    assert!(prove_layout_compatibility(&reg, &Type::Struct("X".into()), &Type::Struct("X".into())));
}

#[test]
fn checked_size_of_detects_overflow() {
    let reg: Vec<StructLayout> = vec![];
    assert_eq!(Type::Tuple(vec![Type::I32, Type::I64]).checked_size_of(&reg), Some(12));
    assert_eq!(Type::Array(Box::new(Type::U8), 3, false).checked_size_of(&reg), Some(3));
    assert_eq!(Type::Array(Box::new(Type::I64), usize::MAX, false).checked_size_of(&reg), None);
    assert_eq!(
        Type::Tuple(vec![Type::Array(Box::new(Type::U8), usize::MAX, false), Type::U8]).checked_size_of(&reg),
        None
    );
}

#[test]
fn flatten_instances_and_debug_label() {
    assert_eq!(flatten_nested_ptr(&Type::Struct("Ptr_u8".into()), 0, "a"), Type::Struct("u8".into()));
    let c = Type::Concrete("Ptr".into(), vec![Type::I32]);
    assert_eq!(flatten_nested_ptr(&c, 0, "a"), c);
    assert_eq!(flatten_nested_ptr(&c, 1, "a"), Type::I32);
    assert_eq!(flatten_nested_ptr(&c, 1, "a"), flatten_nested_ptr(&c, 1, "other label"));
    assert_eq!(flatten_nested_ptr(&Type::Struct("Vec_u8".into()), 0, "a"), Type::Struct("Vec_u8".into()));
}
