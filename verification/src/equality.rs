//! Structural equality of types, decided on their models.
use vstd::prelude::*;
use crate::types::{Type, type_view, list_view, lemma_list_view, lemma_list_view_eq};

verus! {

/// Whether two lists of types have equal models.
pub fn type_lists_equal(a: &Vec<Type>, b: &Vec<Type>) -> (r: bool)
    ensures
        r == (list_view(a@) == list_view(b@)),
    decreases a@, 1nat,
{
    proof {
        lemma_list_view(a@);
        lemma_list_view(b@);
    }
    if a.len() != b.len() {
        return false;
    }
    let mut i: usize = 0;
    while i < a.len()
        invariant
            a.len() == b.len(),
            0 <= i <= a.len(),
            list_view(a@).len() == a@.len(),
            list_view(b@).len() == b@.len(),
            forall|j: int| 0 <= j < a@.len() ==> #[trigger] list_view(a@)[j] == type_view(a@[j]),
            forall|j: int| 0 <= j < b@.len() ==> #[trigger] list_view(b@)[j] == type_view(b@[j]),
            forall|j: int| 0 <= j < i ==> type_view(#[trigger] a@[j]) == type_view(b@[j]),
        decreases a.len() - i,
    {
        proof {
            assert(decreases_to!(a@ => a@[i as int]));
        }
        if !types_equal(&a[i], &b[i]) {
            assert(list_view(a@)[i as int] != list_view(b@)[i as int]);
            return false;
        }
        i += 1;
    }
    proof {
        lemma_list_view_eq(a@, b@);
    }
    true
}

fn usize_lists_equal(a: &Vec<usize>, b: &Vec<usize>) -> (r: bool)
    ensures
        r == (a@ == b@),
{
    if a.len() != b.len() {
        return false;
    }
    let mut i: usize = 0;
    while i < a.len()
        invariant
            a.len() == b.len(),
            0 <= i <= a.len(),
            forall|j: int| 0 <= j < i ==> a@[j] == b@[j],
        decreases a.len() - i,
    {
        if a[i] != b[i] {
            return false;
        }
        i += 1;
    }
    assert(a@ =~= b@);
    true
}

/// Whether two types have equal models.
pub fn types_equal(a: &Type, b: &Type) -> (r: bool)
    ensures
        r == (a@ == b@),
    decreases a, 0nat,
{
    match (a, b) {
        (Type::I8, Type::I8) | (Type::I16, Type::I16) | (Type::I32, Type::I32) | (Type::I64, Type::I64)
        | (Type::U8, Type::U8) | (Type::U16, Type::U16) | (Type::U32, Type::U32) | (Type::U64, Type::U64)
        | (Type::Usize, Type::Usize) | (Type::F32, Type::F32) | (Type::F64, Type::F64) | (
            Type::Bool,
            Type::Bool,
        ) | (Type::Unit, Type::Unit) | (Type::Never, Type::Never) | (Type::SelfType, Type::SelfType) => {
            true
        },
        (Type::Struct(x), Type::Struct(y)) => *x == *y,
        (Type::Enum(x), Type::Enum(y)) => *x == *y,
        (Type::Generic(x), Type::Generic(y)) => *x == *y,
        (Type::Concrete(x, xs), Type::Concrete(y, ys)) => {
            proof {
                assert(decreases_to!(*a => (*a)->Concrete_1));
                assert(decreases_to!(*xs => xs@));
            }
            *x == *y && type_lists_equal(xs, ys)
        },
        (
            Type::Pointer { element: e1, provenance: _, is_mutable: m1 },
            Type::Pointer { element: e2, provenance: _, is_mutable: m2 },
        ) => *m1 == *m2 && types_equal(&**e1, &**e2),
        (Type::Reference(x, m1), Type::Reference(y, m2)) => *m1 == *m2 && types_equal(&**x, &**y),
        (Type::Owned(x), Type::Owned(y)) => types_equal(&**x, &**y),
        (Type::Atomic(x), Type::Atomic(y)) => types_equal(&**x, &**y),
        (Type::Array(x, n1, p1), Type::Array(y, n2, p2)) => *n1 == *n2 && *p1 == *p2 && types_equal(
            &**x,
            &**y,
        ),
        (Type::Tuple(xs), Type::Tuple(ys)) => {
            proof {
                assert(decreases_to!(*a => (*a)->Tuple_0));
                assert(decreases_to!(*xs => xs@));
            }
            type_lists_equal(xs, ys)
        },
        (Type::Fn(xs, r1), Type::Fn(ys, r2)) => {
            proof {
                assert(decreases_to!(*a => (*a)->Fn_0));
                assert(decreases_to!(*xs => xs@));
            }
            type_lists_equal(xs, ys) && types_equal(&**r1, &**r2)
        },
        (Type::Tensor(x, s1), Type::Tensor(y, s2)) => usize_lists_equal(s1, s2) && types_equal(
            &**x,
            &**y,
        ),
        _ => false,
    }
}

} // verus!
