//! Mapping types to the keys of the type registries.
use vstd::prelude::*;
use crate::text::{split_dunder, split_dunder_exec};
use crate::types::{Type, TypeKey, SpecType, list_view, copy_types};
use crate::debug_text::{debug_text, debug_string};

verus! {

/// The module path of a mangled name: every `"__"`-separated piece but the last.
pub open spec fn mangled_path(name: Seq<char>) -> Seq<Seq<char>> {
    split_dunder(name).drop_last()
}

/// The model of a type key: its path, its name and its specialisation.
pub open spec fn key_model(k: TypeKey) -> (Seq<Seq<char>>, Seq<char>, Option<Seq<SpecType>>) {
    (
        Seq::new(k.path@.len(), |i: int| k.path@[i]@),
        k.name@,
        match k.specialization {
            Some(v) => Some(list_view(v@)),
            None => None,
        },
    )
}

/// The registry key that a type is looked up under: named types split their
/// mangled name into a path; references and owned boxes use their target's
/// key; every other type is keyed by its `Debug` rendering, unspecialised.
pub open spec fn spec_type_key(t: SpecType) -> (Seq<Seq<char>>, Seq<char>, Option<Seq<SpecType>>)
    decreases t,
{
    match t {
        SpecType::Struct(name) => (mangled_path(name), name, Some(Seq::empty())),
        SpecType::Concrete(name, args) => (mangled_path(name), name, Some(args)),
        SpecType::Reference(inner, _) => spec_type_key(*inner),
        SpecType::Owned(inner) => spec_type_key(*inner),
        _ => (Seq::empty(), debug_text(t), None),
    }
}

/// The path of a mangled name, as strings.
fn path_of(name: &String) -> (r: Vec<String>)
    ensures
        r@.len() == mangled_path(name@).len(),
        forall|i: int| 0 <= i < r@.len() ==> (#[trigger] r@[i])@ == mangled_path(name@)[i],
{
    let mut parts = split_dunder_exec(name.as_str());
    proof {
        crate::text::lemma_split_nonempty(name@, 0, 0);
    }
    if parts.len() > 0 {
        let _ = parts.pop();
    }
    parts
}

/// The registry key of a type.
pub fn type_to_type_key(ty: &Type) -> (r: TypeKey)
    ensures
        key_model(r) == spec_type_key(ty@),
    decreases ty,
{
    proof {
        crate::types::lemma_list_view(Seq::<Type>::empty());
    }
    let r = match ty {
        Type::Struct(name) => {
            let path = path_of(name);
            TypeKey { path, name: name.clone(), specialization: Some(Vec::new()) }
        },
        Type::Concrete(name, args) => {
            let path = path_of(name);
            TypeKey { path, name: name.clone(), specialization: Some(copy_types(args)) }
        },
        Type::Reference(inner, _) => return type_to_type_key(&**inner),
        Type::Owned(inner) => return type_to_type_key(&**inner),
        _ => TypeKey { path: Vec::new(), name: debug_string(ty), specialization: None },
    };
    proof {
        assert(key_model(r).0 =~= spec_type_key(ty@).0);
        assert(key_model(r).2 =~= spec_type_key(ty@).2);
    }
    r
}

} // verus!
