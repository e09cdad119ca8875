//! Bidirectional inference of generic parameters: structural unification of
//! a declared type against an expected one, substitution of the bindings it
//! finds, and inference of phantom parameters from closure return types.
use vstd::prelude::*;
use crate::types::{Type, SpecType, Provenance, list_view, lemma_list_view};
use crate::type_map::TypeMap;

verus! {

/// The bindings that unifying `t` against `c` adds to `m`: a generic
/// parameter not yet bound is bound to the type it meets; pointers,
/// references and arrays are matched element-wise, and named generic types
/// with the same name and arity argument by argument, left to right.
/// Nothing else binds.
pub open spec fn spec_unify(t: SpecType, c: SpecType, m: Map<Seq<char>, SpecType>) -> Map<
    Seq<char>,
    SpecType,
>
    decreases t, 1nat,
{
    match t {
        SpecType::Generic(n) => if m.contains_key(n) {
            m
        } else {
            m.insert(n, c)
        },
        SpecType::Pointer { element: te, .. } => match c {
            SpecType::Pointer { element: ce, .. } => spec_unify(*te, *ce, m),
            _ => m,
        },
        SpecType::Reference(ti, _) => match c {
            SpecType::Reference(ci, _) => spec_unify(*ti, *ci, m),
            _ => m,
        },
        SpecType::Array(ti, _, _) => match c {
            SpecType::Array(ci, _, _) => spec_unify(*ti, *ci, m),
            _ => m,
        },
        SpecType::Concrete(tn, targs) => match c {
            SpecType::Concrete(cn, cargs) => if tn == cn && targs.len() == cargs.len() {
                spec_unify_list(targs, cargs, m)
            } else {
                m
            },
            _ => m,
        },
        _ => m,
    }
}

/// Unification of two argument lists of equal length, left to right.
pub open spec fn spec_unify_list(ts: Seq<SpecType>, cs: Seq<SpecType>, m: Map<Seq<char>, SpecType>) -> Map<
    Seq<char>,
    SpecType,
>
    decreases ts, 0nat,
{
    if ts.len() == 0 || cs.len() == 0 {
        m
    } else {
        proof {
            assert(decreases_to!(ts => ts.drop_last()));
            assert(decreases_to!(ts => ts.last()));
        }
        spec_unify(ts.last(), cs.last(), spec_unify_list(ts.drop_last(), cs.drop_last(), m))
    }
}

/// One-step substitution: each generic parameter bound in `m` is replaced
/// by its binding, everywhere in the type.
pub open spec fn spec_subst(t: SpecType, m: Map<Seq<char>, SpecType>) -> SpecType
    decreases t, 1nat,
{
    match t {
        SpecType::Generic(n) => if m.contains_key(n) {
            m[n]
        } else {
            t
        },
        SpecType::Concrete(n, args) => SpecType::Concrete(n, spec_subst_list(args, m)),
        SpecType::Pointer { element, is_mutable } => SpecType::Pointer {
            element: Box::new(spec_subst(*element, m)),
            is_mutable,
        },
        SpecType::Reference(inner, mt) => SpecType::Reference(Box::new(spec_subst(*inner, m)), mt),
        SpecType::Owned(inner) => SpecType::Owned(Box::new(spec_subst(*inner, m))),
        SpecType::Atomic(inner) => SpecType::Atomic(Box::new(spec_subst(*inner, m))),
        SpecType::Array(inner, n, p) => SpecType::Array(Box::new(spec_subst(*inner, m)), n, p),
        SpecType::Tuple(elems) => SpecType::Tuple(spec_subst_list(elems, m)),
        SpecType::Fn(args, ret) => SpecType::Fn(
            spec_subst_list(args, m),
            Box::new(spec_subst(*ret, m)),
        ),
        SpecType::Tensor(inner, shape) => SpecType::Tensor(Box::new(spec_subst(*inner, m)), shape),
        _ => t,
    }
}

/// One-step substitution in every type of a list.
pub open spec fn spec_subst_list(s: Seq<SpecType>, m: Map<Seq<char>, SpecType>) -> Seq<SpecType>
    decreases s, 0nat,
{
    if s.len() == 0 {
        Seq::empty()
    } else {
        proof {
            assert(decreases_to!(s => s.drop_last()));
            assert(decreases_to!(s => s.last()));
        }
        spec_subst_list(s.drop_last(), m).push(spec_subst(s.last(), m))
    }
}

/// Whether the generic parameter `n` occurs in `t`.
pub open spec fn mentions(t: SpecType, n: Seq<char>) -> bool
    decreases t, 1nat,
{
    match t {
        SpecType::Generic(g) => g == n,
        SpecType::Concrete(_, args) => mentions_list(args, n),
        SpecType::Pointer { element, .. } => mentions(*element, n),
        SpecType::Reference(inner, _) => mentions(*inner, n),
        SpecType::Owned(inner) => mentions(*inner, n),
        SpecType::Atomic(inner) => mentions(*inner, n),
        SpecType::Array(inner, _, _) => mentions(*inner, n),
        SpecType::Tuple(elems) => mentions_list(elems, n),
        SpecType::Fn(args, ret) => mentions_list(args, n) || mentions(*ret, n),
        SpecType::Tensor(inner, _) => mentions(*inner, n),
        _ => false,
    }
}

/// Whether the generic parameter `n` occurs in one of the types of a list.
pub open spec fn mentions_list(s: Seq<SpecType>, n: Seq<char>) -> bool
    decreases s, 0nat,
{
    if s.len() == 0 {
        false
    } else {
        proof {
            assert(decreases_to!(s => s.drop_last()));
            assert(decreases_to!(s => s.last()));
        }
        mentions_list(s.drop_last(), n) || mentions(s.last(), n)
    }
}

/// Whether a generic parameter occurs anywhere in `t`.
pub open spec fn spec_has_generics(t: SpecType) -> bool
    decreases t, 1nat,
{
    match t {
        SpecType::Generic(_) => true,
        SpecType::Concrete(_, args) => spec_has_generics_list(args),
        SpecType::Pointer { element, .. } => spec_has_generics(*element),
        SpecType::Reference(inner, _) => spec_has_generics(*inner),
        SpecType::Owned(inner) => spec_has_generics(*inner),
        SpecType::Atomic(inner) => spec_has_generics(*inner),
        SpecType::Array(inner, _, _) => spec_has_generics(*inner),
        SpecType::Tuple(elems) => spec_has_generics_list(elems),
        SpecType::Fn(args, ret) => spec_has_generics_list(args) || spec_has_generics(*ret),
        SpecType::Tensor(inner, _) => spec_has_generics(*inner),
        _ => false,
    }
}

/// Whether a generic parameter occurs in one of the types of a list.
pub open spec fn spec_has_generics_list(s: Seq<SpecType>) -> bool
    decreases s, 0nat,
{
    if s.len() == 0 {
        false
    } else {
        proof {
            assert(decreases_to!(s => s.drop_last()));
            assert(decreases_to!(s => s.last()));
        }
        spec_has_generics_list(s.drop_last()) || spec_has_generics(s.last())
    }
}

/// Unifies the declared type `template` against the expected type
/// `concrete` and records in `map` every generic parameter binding found.
/// A parameter that is already bound keeps its binding.
pub fn unify_types_recursive(template: &Type, concrete: &Type, map: &mut TypeMap)
    ensures
        final(map)@ == spec_unify(template@, concrete@, old(map)@),
    decreases template, 1nat,
{
    match template {
        Type::Generic(name) => {
            if !map.contains_key(name.as_str()) {
                map.insert(name.clone(), concrete.clone());
            }
        },
        Type::Pointer { element: te, .. } => {
            if let Type::Pointer { element: ce, .. } = concrete {
                unify_types_recursive(&**te, &**ce, map);
            }
        },
        Type::Reference(ti, _) => {
            if let Type::Reference(ci, _) = concrete {
                unify_types_recursive(&**ti, &**ci, map);
            }
        },
        Type::Array(ti, _, _) => {
            if let Type::Array(ci, _, _) = concrete {
                unify_types_recursive(&**ti, &**ci, map);
            }
        },
        Type::Concrete(tn, targs) => {
            if let Type::Concrete(cn, cargs) = concrete {
                proof {
                    lemma_list_view(targs@);
                    lemma_list_view(cargs@);
                }
                if *tn == *cn && targs.len() == cargs.len() {
                    proof {
                        assert(decreases_to!(*template => (*template)->Concrete_1));
                        assert(decreases_to!(*targs => targs@));
                    }
                    unify_lists(targs, cargs, map);
                }
            }
        },
        _ => {},
    }
}

/// Unifies two argument lists of equal length, left to right.
fn unify_lists(ts: &Vec<Type>, cs: &Vec<Type>, map: &mut TypeMap)
    requires
        ts@.len() == cs@.len(),
    ensures
        final(map)@ == spec_unify_list(list_view(ts@), list_view(cs@), old(map)@),
    decreases ts@, 0nat,
{
    let mut i: usize = 0;
    while i < ts.len()
        invariant
            ts@.len() == cs@.len(),
            0 <= i <= ts@.len(),
            map@ == spec_unify_list(
                list_view(ts@.subrange(0, i as int)),
                list_view(cs@.subrange(0, i as int)),
                old(map)@,
            ),
        decreases ts@.len() - i,
    {
        proof {
            assert(decreases_to!(ts@ => ts@[i as int]));
            let a = ts@.subrange(0, i as int + 1);
            let b = cs@.subrange(0, i as int + 1);
            assert(a.subrange(0, a.len() - 1) =~= ts@.subrange(0, i as int));
            assert(b.subrange(0, b.len() - 1) =~= cs@.subrange(0, i as int));
            lemma_list_view(a);
            lemma_list_view(b);
            assert(list_view(a).drop_last() =~= list_view(ts@.subrange(0, i as int)));
            assert(list_view(b).drop_last() =~= list_view(cs@.subrange(0, i as int)));
        }
        unify_types_recursive(&ts[i], &cs[i], map);
        i += 1;
    }
    proof {
        assert(ts@.subrange(0, ts@.len() as int) =~= ts@);
        assert(cs@.subrange(0, cs@.len() as int) =~= cs@);
    }
}

fn subst_list(s: &Vec<Type>, map: &TypeMap) -> (r: Vec<Type>)
    ensures
        list_view(r@) == spec_subst_list(list_view(s@), map@),
    decreases s@, 0nat,
{
    let mut out: Vec<Type> = Vec::new();
    let mut i: usize = 0;
    while i < s.len()
        invariant
            0 <= i <= s@.len(),
            list_view(out@) == spec_subst_list(list_view(s@.subrange(0, i as int)), map@),
        decreases s@.len() - i,
    {
        proof {
            assert(decreases_to!(s@ => s@[i as int]));
        }
        let x = s[i].substitute(map);
        let ghost before = out@;
        out.push(x);
        proof {
            let a = s@.subrange(0, i as int + 1);
            assert(a.subrange(0, a.len() - 1) =~= s@.subrange(0, i as int));
            assert(out@.subrange(0, out@.len() - 1) =~= before);
            assert(list_view(a).drop_last() =~= list_view(s@.subrange(0, i as int)));
        }
        i += 1;
    }
    proof {
        assert(s@.subrange(0, s@.len() as int) =~= s@);
    }
    out
}

fn has_generics_list(s: &Vec<Type>) -> (r: bool)
    ensures
        r == spec_has_generics_list(list_view(s@)),
    decreases s@, 0nat,
{
    let mut i: usize = 0;
    let mut found = false;
    while i < s.len()
        invariant
            0 <= i <= s@.len(),
            found == spec_has_generics_list(list_view(s@.subrange(0, i as int))),
        decreases s@.len() - i,
    {
        proof {
            assert(decreases_to!(s@ => s@[i as int]));
            let a = s@.subrange(0, i as int + 1);
            assert(a.subrange(0, a.len() - 1) =~= s@.subrange(0, i as int));
            lemma_list_view(a);
            assert(list_view(a).drop_last() =~= list_view(s@.subrange(0, i as int)));
            assert(list_view(a).last() == s@[i as int]@);
        }
        let here = s[i].has_generics();
        found = found || here;
        i += 1;
    }
    proof {
        assert(s@.subrange(0, s@.len() as int) =~= s@);
    }
    found
}

impl Type {
    /// Replaces every generic parameter bound in `map` by its binding.
    pub fn substitute(&self, map: &TypeMap) -> (r: Type)
        ensures
            r@ == spec_subst(self@, map@),
        decreases self, 1nat,
    {
        match self {
            Type::Generic(n) => match map.get(n.as_str()) {
                Some(t) => t.clone(),
                None => self.clone(),
            },
            Type::Concrete(n, args) => {
                proof {
                    assert(decreases_to!(*self => (*self)->Concrete_1));
                    assert(decreases_to!(*args => args@));
                }
                Type::Concrete(n.clone(), subst_list(args, map))
            },
            Type::Pointer { element, provenance: _, is_mutable } => Type::Pointer {
                element: Box::new(element.substitute(map)),
                provenance: Provenance::Naked,
                is_mutable: *is_mutable,
            },
            Type::Reference(inner, m) => Type::Reference(Box::new(inner.substitute(map)), *m),
            Type::Owned(inner) => Type::Owned(Box::new(inner.substitute(map))),
            Type::Atomic(inner) => Type::Atomic(Box::new(inner.substitute(map))),
            Type::Array(inner, n, p) => Type::Array(Box::new(inner.substitute(map)), *n, *p),
            Type::Tuple(elems) => {
                proof {
                    assert(decreases_to!(*self => (*self)->Tuple_0));
                    assert(decreases_to!(*elems => elems@));
                }
                Type::Tuple(subst_list(elems, map))
            },
            Type::Fn(args, ret) => {
                proof {
                    assert(decreases_to!(*self => (*self)->Fn_0));
                    assert(decreases_to!(*args => args@));
                }
                Type::Fn(subst_list(args, map), Box::new(ret.substitute(map)))
            },
            Type::Tensor(inner, shape) => Type::Tensor(Box::new(inner.substitute(map)), shape.clone()),
            _ => self.clone(),
        }
    }

    /// Whether a generic parameter occurs anywhere in this type.
    pub fn has_generics(&self) -> (r: bool)
        ensures
            r == spec_has_generics(self@),
        decreases self, 1nat,
    {
        match self {
            Type::Generic(_) => true,
            Type::Concrete(_, args) => {
                proof {
                    assert(decreases_to!(*self => (*self)->Concrete_1));
                    assert(decreases_to!(*args => args@));
                }
                has_generics_list(args)
            },
            Type::Pointer { element, .. } => element.has_generics(),
            Type::Reference(inner, _) => inner.has_generics(),
            Type::Owned(inner) => inner.has_generics(),
            Type::Atomic(inner) => inner.has_generics(),
            Type::Array(inner, _, _) => inner.has_generics(),
            Type::Tuple(elems) => {
                proof {
                    assert(decreases_to!(*self => (*self)->Tuple_0));
                    assert(decreases_to!(*elems => elems@));
                }
                has_generics_list(elems)
            },
            Type::Fn(args, ret) => {
                proof {
                    assert(decreases_to!(*self => (*self)->Fn_0));
                    assert(decreases_to!(*args => args@));
                }
                has_generics_list(args) || ret.has_generics()
            },
            Type::Tensor(inner, _) => inner.has_generics(),
            _ => false,
        }
    }
}

/// The names of a list of declared generic parameters.
pub open spec fn names_view(d: Seq<String>) -> Seq<Seq<char>> {
    d.map_values(|s: String| s@)
}

/// How many declared parameters (counted with repetition) `m` leaves unbound.
pub open spec fn count_unresolved(d: Seq<Seq<char>>, m: Map<Seq<char>, SpecType>) -> nat
    decreases d.len(),
{
    if d.len() == 0 {
        0
    } else {
        count_unresolved(d.drop_last(), m) + if m.contains_key(d.last()) {
            0nat
        } else {
            1nat
        }
    }
}

/// The first declared parameter that `m` leaves unbound.
pub open spec fn first_unresolved(d: Seq<Seq<char>>, m: Map<Seq<char>, SpecType>) -> Option<Seq<char>>
    decreases d.len(),
{
    if d.len() == 0 {
        None
    } else {
        match first_unresolved(d.drop_last(), m) {
            Some(x) => Some(x),
            None => if m.contains_key(d.last()) {
                None
            } else {
                Some(d.last())
            },
        }
    }
}

/// The return type of the first declared parameter that `m` binds to a
/// function type.
pub open spec fn first_fn_return(d: Seq<Seq<char>>, m: Map<Seq<char>, SpecType>) -> Option<SpecType>
    decreases d.len(),
{
    if d.len() == 0 {
        None
    } else {
        match first_fn_return(d.drop_last(), m) {
            Some(x) => Some(x),
            None => if m.contains_key(d.last()) && m[d.last()] is Fn {
                Some(*m[d.last()]->Fn_1)
            } else {
                None
            },
        }
    }
}

/// Phantom inference: when exactly one declared parameter is unbound and one
/// of the bound parameters is a function type, the unbound one is taken to be
/// that function's return type (the first such function, in declaration
/// order). Otherwise nothing changes.
pub open spec fn spec_infer_phantom(d: Seq<Seq<char>>, m: Map<Seq<char>, SpecType>) -> Map<
    Seq<char>,
    SpecType,
> {
    if count_unresolved(d, m) == 1 && first_fn_return(d, m) is Some {
        m.insert(first_unresolved(d, m).unwrap(), first_fn_return(d, m).unwrap())
    } else {
        m
    }
}

proof fn lemma_first_unresolved_found(d: Seq<Seq<char>>, m: Map<Seq<char>, SpecType>)
    requires
        count_unresolved(d, m) > 0,
    ensures
        first_unresolved(d, m) is Some,
    decreases d.len(),
{
    if d.len() > 0 && count_unresolved(d.drop_last(), m) > 0 {
        lemma_first_unresolved_found(d.drop_last(), m);
    }
}

/// Infers a phantom generic parameter (one that no argument mentions) from
/// the return type of a closure parameter.
pub fn infer_phantom_generics(declared: &Vec<String>, map: &mut TypeMap)
    ensures
        final(map)@ == spec_infer_phantom(names_view(declared@), old(map)@),
{
    let ghost d = names_view(declared@);
    let mut unresolved: usize = 0;
    let mut first_free: Option<usize> = None;
    let mut fn_ret: Option<Type> = None;
    let mut i: usize = 0;
    while i < declared.len()
        invariant
            0 <= i <= declared@.len(),
            d == names_view(declared@),
            map@ == old(map)@,
            unresolved <= i,
            unresolved == count_unresolved(d.subrange(0, i as int), map@),
            match first_free {
                Some(j) => j < i && first_unresolved(d.subrange(0, i as int), map@) == Some(d[j as int]),
                None => first_unresolved(d.subrange(0, i as int), map@) is None,
            },
            match fn_ret {
                Some(t) => first_fn_return(d.subrange(0, i as int), map@) == Some(t@),
                None => first_fn_return(d.subrange(0, i as int), map@) is None,
            },
        decreases declared@.len() - i,
    {
        proof {
            let a = d.subrange(0, i as int + 1);
            assert(a.drop_last() =~= d.subrange(0, i as int));
            assert(a.last() == declared@[i as int]@);
        }
        let name = declared[i].as_str();
        match map.get(name) {
            None => {
                unresolved = unresolved + 1;
                if first_free.is_none() {
                    first_free = Some(i);
                }
            },
            Some(t) => {
                if fn_ret.is_none() {
                    if let Type::Fn(_, ret) = t {
                        fn_ret = Some((**ret).clone());
                    }
                }
            },
        }
        i += 1;
    }
    proof {
        assert(d.subrange(0, declared@.len() as int) =~= d);
    }
    if unresolved == 1 {
        match fn_ret {
            Some(ret) => {
                proof {
                    lemma_first_unresolved_found(d, map@);
                }
                match first_free {
                    Some(j) => {
                        let name = declared[j].clone();
                        map.insert(name, ret);
                    },
                    None => {},
                }
            },
            None => {},
        }
    }
}

/// The types on which unification inspects every generic parameter: generic
/// parameters sit only under pointers, references, arrays and named generic
/// types.
pub open spec fn unify_shape(t: SpecType) -> bool
    decreases t, 1nat,
{
    match t {
        SpecType::Generic(_) => true,
        SpecType::Pointer { element, .. } => unify_shape(*element),
        SpecType::Reference(inner, _) => unify_shape(*inner),
        SpecType::Array(inner, _, _) => unify_shape(*inner),
        SpecType::Concrete(_, args) => unify_shape_list(args),
        _ => !spec_has_generics(t),
    }
}

/// `unify_shape` for every type of a list.
pub open spec fn unify_shape_list(s: Seq<SpecType>) -> bool
    decreases s, 0nat,
{
    if s.len() == 0 {
        true
    } else {
        proof {
            assert(decreases_to!(s => s.drop_last()));
            assert(decreases_to!(s => s.last()));
        }
        unify_shape_list(s.drop_last()) && unify_shape(s.last())
    }
}

/// Two maps bind the same types to the generic parameters of `t`.
pub open spec fn agree_on(t: SpecType, a: Map<Seq<char>, SpecType>, b: Map<Seq<char>, SpecType>) -> bool {
    forall|n: Seq<char>| #[trigger] mentions(t, n) ==> a.contains_key(n) == b.contains_key(n)
        && (a.contains_key(n) ==> a[n] == b[n])
}

/// `agree_on` for the generic parameters of a list.
pub open spec fn agree_on_list(s: Seq<SpecType>, a: Map<Seq<char>, SpecType>, b: Map<Seq<char>, SpecType>) -> bool {
    forall|n: Seq<char>| #[trigger] mentions_list(s, n) ==> a.contains_key(n) == b.contains_key(n)
        && (a.contains_key(n) ==> a[n] == b[n])
}

/// Unification adds bindings and never changes one; every binding it adds
/// is for a generic parameter of the declared type.
pub proof fn lemma_unify_keeps_bindings(t: SpecType, c: SpecType, m: Map<Seq<char>, SpecType>)
    ensures
        m.submap_of(spec_unify(t, c, m)),
        forall|k: Seq<char>| #[trigger] spec_unify(t, c, m).contains_key(k) && !m.contains_key(k)
            ==> mentions(t, k),
    decreases t, 1nat,
{
    match t {
        SpecType::Pointer { element: te, .. } => match c {
            SpecType::Pointer { element: ce, .. } => lemma_unify_keeps_bindings(*te, *ce, m),
            _ => {},
        },
        SpecType::Reference(ti, _) => match c {
            SpecType::Reference(ci, _) => lemma_unify_keeps_bindings(*ti, *ci, m),
            _ => {},
        },
        SpecType::Array(ti, _, _) => match c {
            SpecType::Array(ci, _, _) => lemma_unify_keeps_bindings(*ti, *ci, m),
            _ => {},
        },
        SpecType::Concrete(tn, targs) => match c {
            SpecType::Concrete(cn, cargs) => if tn == cn && targs.len() == cargs.len() {
                lemma_unify_list_keeps_bindings(targs, cargs, m);
            },
            _ => {},
        },
        _ => {},
    }
}

/// `lemma_unify_keeps_bindings` for argument lists.
pub proof fn lemma_unify_list_keeps_bindings(ts: Seq<SpecType>, cs: Seq<SpecType>, m: Map<Seq<char>, SpecType>)
    ensures
        m.submap_of(spec_unify_list(ts, cs, m)),
        forall|k: Seq<char>| #[trigger] spec_unify_list(ts, cs, m).contains_key(k) && !m.contains_key(k)
            ==> mentions_list(ts, k),
    decreases ts, 0nat,
{
    if ts.len() > 0 && cs.len() > 0 {
        let m1 = spec_unify_list(ts.drop_last(), cs.drop_last(), m);
        lemma_unify_list_keeps_bindings(ts.drop_last(), cs.drop_last(), m);
        lemma_unify_keeps_bindings(ts.last(), cs.last(), m1);
        let m2 = spec_unify(ts.last(), cs.last(), m1);
        assert forall|k: Seq<char>| #[trigger] m.contains_key(k) implies m2.contains_key(k) && m2[k] == m[k] by {
            assert(m1.contains_key(k));
        }
        assert(m.submap_of(m2));
        assert forall|k: Seq<char>| #[trigger] m2.contains_key(k) && !m.contains_key(k)
            implies mentions_list(ts, k) by {
            if m1.contains_key(k) {
                assert(mentions_list(ts.drop_last(), k));
            } else {
                assert(mentions(ts.last(), k));
            }
        }
    }
}

/// Substitution only looks at the bindings of the type's own parameters.
pub proof fn lemma_subst_agree(t: SpecType, a: Map<Seq<char>, SpecType>, b: Map<Seq<char>, SpecType>)
    requires
        agree_on(t, a, b),
    ensures
        spec_subst(t, a) == spec_subst(t, b),
    decreases t, 1nat,
{
    match t {
        SpecType::Generic(n) => {
            assert(mentions(t, n));
        },
        SpecType::Concrete(_, args) => {
            assert forall|n: Seq<char>| #[trigger] mentions_list(args, n) implies a.contains_key(n)
                == b.contains_key(n) && (a.contains_key(n) ==> a[n] == b[n]) by {
                assert(mentions(t, n));
            }
            lemma_subst_list_agree(args, a, b);
        },
        SpecType::Tuple(args) => {
            assert forall|n: Seq<char>| #[trigger] mentions_list(args, n) implies a.contains_key(n)
                == b.contains_key(n) && (a.contains_key(n) ==> a[n] == b[n]) by {
                assert(mentions(t, n));
            }
            lemma_subst_list_agree(args, a, b);
        },
        SpecType::Fn(args, ret) => {
            assert forall|n: Seq<char>| #[trigger] mentions_list(args, n) implies a.contains_key(n)
                == b.contains_key(n) && (a.contains_key(n) ==> a[n] == b[n]) by {
                assert(mentions(t, n));
            }
            assert forall|n: Seq<char>| #[trigger] mentions(*ret, n) implies a.contains_key(n)
                == b.contains_key(n) && (a.contains_key(n) ==> a[n] == b[n]) by {
                assert(mentions(t, n));
            }
            lemma_subst_list_agree(args, a, b);
            lemma_subst_agree(*ret, a, b);
        },
        SpecType::Pointer { element: inner, .. } | SpecType::Reference(inner, _) | SpecType::Owned(inner)
        | SpecType::Atomic(inner) | SpecType::Array(inner, _, _) | SpecType::Tensor(inner, _) => {
            assert forall|n: Seq<char>| #[trigger] mentions(*inner, n) implies a.contains_key(n)
                == b.contains_key(n) && (a.contains_key(n) ==> a[n] == b[n]) by {
                assert(mentions(t, n));
            }
            lemma_subst_agree(*inner, a, b);
        },
        _ => {},
    }
}

/// `lemma_subst_agree` for lists.
pub proof fn lemma_subst_list_agree(s: Seq<SpecType>, a: Map<Seq<char>, SpecType>, b: Map<Seq<char>, SpecType>)
    requires
        agree_on_list(s, a, b),
    ensures
        spec_subst_list(s, a) == spec_subst_list(s, b),
    decreases s, 0nat,
{
    if s.len() > 0 {
        assert forall|n: Seq<char>| #[trigger] mentions_list(s.drop_last(), n) implies a.contains_key(n)
            == b.contains_key(n) && (a.contains_key(n) ==> a[n] == b[n]) by {
            assert(mentions_list(s, n));
        }
        assert forall|n: Seq<char>| #[trigger] mentions(s.last(), n) implies a.contains_key(n)
            == b.contains_key(n) && (a.contains_key(n) ==> a[n] == b[n]) by {
            assert(mentions_list(s, n));
        }
        lemma_subst_list_agree(s.drop_last(), a, b);
        lemma_subst_agree(s.last(), a, b);
    }
}

/// A type that mentions a generic parameter has generics.
pub proof fn lemma_mentions_has_generics(t: SpecType, n: Seq<char>)
    requires
        mentions(t, n),
    ensures
        spec_has_generics(t),
    decreases t, 1nat,
{
    match t {
        SpecType::Concrete(_, args) | SpecType::Tuple(args) => lemma_mentions_list_has_generics(args, n),
        SpecType::Fn(args, ret) => {
            if mentions_list(args, n) {
                lemma_mentions_list_has_generics(args, n);
            } else {
                lemma_mentions_has_generics(*ret, n);
            }
        },
        SpecType::Pointer { element: inner, .. } | SpecType::Reference(inner, _) | SpecType::Owned(inner)
        | SpecType::Atomic(inner) | SpecType::Array(inner, _, _) | SpecType::Tensor(inner, _) => {
            lemma_mentions_has_generics(*inner, n);
        },
        _ => {},
    }
}

/// `lemma_mentions_has_generics` for lists.
pub proof fn lemma_mentions_list_has_generics(s: Seq<SpecType>, n: Seq<char>)
    requires
        mentions_list(s, n),
    ensures
        spec_has_generics_list(s),
    decreases s, 0nat,
{
    if s.len() > 0 {
        if mentions_list(s.drop_last(), n) {
            lemma_mentions_list_has_generics(s.drop_last(), n);
        } else {
            lemma_mentions_has_generics(s.last(), n);
        }
    }
}

/// Substitution in a list keeps its length and works element by element.
pub proof fn lemma_subst_list_shape(s: Seq<SpecType>, m: Map<Seq<char>, SpecType>)
    ensures
        spec_subst_list(s, m).len() == s.len(),
        s.len() > 0 ==> spec_subst_list(s, m).drop_last() == spec_subst_list(s.drop_last(), m),
        s.len() > 0 ==> spec_subst_list(s, m).last() == spec_subst(s.last(), m),
    decreases s.len(),
{
    if s.len() > 0 {
        lemma_subst_list_shape(s.drop_last(), m);
        assert(spec_subst_list(s, m).drop_last() =~= spec_subst_list(s.drop_last(), m));
    }
}

/// Unifying a declared type against an instance of it binds each of its
/// generic parameters to the type the instance put there.
pub proof fn lemma_unify_instance(t: SpecType, s: Map<Seq<char>, SpecType>, m: Map<Seq<char>, SpecType>)
    requires
        unify_shape(t),
        forall|n: Seq<char>| #[trigger] mentions(t, n) ==> s.contains_key(n),
        forall|n: Seq<char>| #[trigger] mentions(t, n) && m.contains_key(n) ==> m[n] == s[n],
    ensures
        forall|n: Seq<char>| #[trigger] mentions(t, n) ==> spec_unify(t, spec_subst(t, s), m).contains_key(n)
            && spec_unify(t, spec_subst(t, s), m)[n] == s[n],
    decreases t, 1nat,
{
    match t {
        SpecType::Generic(g) => {
            assert(mentions(t, g));
            assert(spec_subst(t, s) == s[g]);
            let r = spec_unify(t, spec_subst(t, s), m);
            assert(r.contains_key(g) && r[g] == s[g]);
            assert forall|n: Seq<char>| #[trigger] mentions(t, n) implies r.contains_key(n) && r[n] == s[n] by {
                assert(n == g);
            }
        },
        SpecType::Pointer { element: inner, .. } => {
            assert forall|n: Seq<char>| #[trigger] mentions(*inner, n) implies s.contains_key(n) by {
                assert(mentions(t, n));
            }
            assert forall|n: Seq<char>| #[trigger] mentions(*inner, n) && m.contains_key(n) implies m[n] == s[n] by {
                assert(mentions(t, n));
            }
            lemma_unify_instance(*inner, s, m);
            assert(spec_unify(t, spec_subst(t, s), m) == spec_unify(*inner, spec_subst(*inner, s), m));
            assert forall|n: Seq<char>| #[trigger] mentions(t, n) implies mentions(*inner, n) by {}
        },
        SpecType::Reference(inner, _) => {
            assert forall|n: Seq<char>| #[trigger] mentions(*inner, n) implies s.contains_key(n) by {
                assert(mentions(t, n));
            }
            assert forall|n: Seq<char>| #[trigger] mentions(*inner, n) && m.contains_key(n) implies m[n] == s[n] by {
                assert(mentions(t, n));
            }
            lemma_unify_instance(*inner, s, m);
            assert(spec_unify(t, spec_subst(t, s), m) == spec_unify(*inner, spec_subst(*inner, s), m));
            assert forall|n: Seq<char>| #[trigger] mentions(t, n) implies mentions(*inner, n) by {}
        },
        SpecType::Array(inner, _, _) => {
            assert forall|n: Seq<char>| #[trigger] mentions(*inner, n) implies s.contains_key(n) by {
                assert(mentions(t, n));
            }
            assert forall|n: Seq<char>| #[trigger] mentions(*inner, n) && m.contains_key(n) implies m[n] == s[n] by {
                assert(mentions(t, n));
            }
            lemma_unify_instance(*inner, s, m);
            assert(spec_unify(t, spec_subst(t, s), m) == spec_unify(*inner, spec_subst(*inner, s), m));
            assert forall|n: Seq<char>| #[trigger] mentions(t, n) implies mentions(*inner, n) by {}
        },
        SpecType::Concrete(name, args) => {
            assert forall|n: Seq<char>| #[trigger] mentions_list(args, n) implies s.contains_key(n) by {
                assert(mentions(t, n));
            }
            assert forall|n: Seq<char>| #[trigger] mentions_list(args, n) && m.contains_key(n) implies m[n]
                == s[n] by {
                assert(mentions(t, n));
            }
            lemma_subst_list_shape(args, s);
            lemma_unify_list_instance(args, s, m);
            assert(spec_subst(t, s) == SpecType::Concrete(name, spec_subst_list(args, s)));
            assert(spec_unify(t, spec_subst(t, s), m) == spec_unify_list(args, spec_subst_list(args, s), m));
            assert forall|n: Seq<char>| #[trigger] mentions(t, n) implies mentions_list(args, n) by {}
        },
        _ => {
            assert forall|n: Seq<char>| !#[trigger] mentions(t, n) by {
                if mentions(t, n) {
                    lemma_mentions_has_generics(t, n);
                }
            }
        },
    }
}

/// `lemma_unify_instance` for argument lists.
pub proof fn lemma_unify_list_instance(ts: Seq<SpecType>, s: Map<Seq<char>, SpecType>, m: Map<Seq<char>, SpecType>)
    requires
        unify_shape_list(ts),
        forall|n: Seq<char>| #[trigger] mentions_list(ts, n) ==> s.contains_key(n),
        forall|n: Seq<char>| #[trigger] mentions_list(ts, n) && m.contains_key(n) ==> m[n] == s[n],
    ensures
        forall|n: Seq<char>| #[trigger] mentions_list(ts, n) ==> spec_unify_list(ts, spec_subst_list(ts, s), m).contains_key(n)
            && spec_unify_list(ts, spec_subst_list(ts, s), m)[n] == s[n],
    decreases ts, 0nat,
{
    if ts.len() > 0 {
        let cs = spec_subst_list(ts, s);
        lemma_subst_list_shape(ts, s);
        let p = ts.drop_last();
        let x = ts.last();
        assert forall|n: Seq<char>| #[trigger] mentions_list(p, n) implies s.contains_key(n) by {
            assert(mentions_list(ts, n));
        }
        assert forall|n: Seq<char>| #[trigger] mentions_list(p, n) && m.contains_key(n) implies m[n] == s[n] by {
            assert(mentions_list(ts, n));
        }
        lemma_unify_list_instance(p, s, m);
        lemma_unify_list_keeps_bindings(p, spec_subst_list(p, s), m);
        let m1 = spec_unify_list(p, spec_subst_list(p, s), m);
        assert forall|n: Seq<char>| #[trigger] mentions(x, n) implies s.contains_key(n) by {
            assert(mentions_list(ts, n));
        }
        assert forall|n: Seq<char>| #[trigger] mentions(x, n) && m1.contains_key(n) implies m1[n] == s[n] by {
            assert(mentions_list(ts, n));
            if !m.contains_key(n) {
                assert(mentions_list(p, n));
            }
        }
        lemma_unify_instance(x, s, m1);
        lemma_unify_keeps_bindings(x, spec_subst(x, s), m1);
        let m2 = spec_unify(x, spec_subst(x, s), m1);
        assert(spec_unify_list(ts, cs, m) == m2);
        assert forall|n: Seq<char>| #[trigger] mentions_list(ts, n) implies m2.contains_key(n) && m2[n] == s[n] by {
            assert(mentions_list(ts, n) == (mentions_list(p, n) || mentions(x, n)));
            if mentions_list(p, n) {
                assert(m1.contains_key(n) && m1[n] == s[n]);
                assert(m2.contains_key(n) && m2[n] == m1[n]);
            } else {
                assert(mentions(x, n));
            }
        }
    }
}

/// Unifying a declared type against one of its instances recovers the
/// instance: substituting the bindings that unification found (together
/// with bindings made before that agree with the instance) gives back the
/// expected type.
pub proof fn law_unify_then_substitute(t: SpecType, s: Map<Seq<char>, SpecType>, m: Map<Seq<char>, SpecType>)
    requires
        unify_shape(t),
        forall|n: Seq<char>| #[trigger] mentions(t, n) ==> s.contains_key(n),
        forall|n: Seq<char>| #[trigger] mentions(t, n) && m.contains_key(n) ==> m[n] == s[n],
    ensures
        spec_subst(t, spec_unify(t, spec_subst(t, s), m)) == spec_subst(t, s),
{
    lemma_unify_instance(t, s, m);
    lemma_subst_agree(t, spec_unify(t, spec_subst(t, s), m), s);
}

/// Unification never rebinds a parameter that was bound before, and only
/// binds parameters that the declared type mentions.
pub proof fn law_unify_monotone(t: SpecType, c: SpecType, m: Map<Seq<char>, SpecType>)
    ensures
        m.submap_of(spec_unify(t, c, m)),
        forall|k: Seq<char>| #[trigger] spec_unify(t, c, m).contains_key(k) && !m.contains_key(k)
            ==> mentions(t, k),
{
    lemma_unify_keeps_bindings(t, c, m);
}

/// Substitution leaves a type without generic parameters unchanged.
pub proof fn law_subst_closed_identity(t: SpecType, m: Map<Seq<char>, SpecType>)
    requires
        !spec_has_generics(t),
    ensures
        spec_subst(t, m) == t,
    decreases t, 1nat,
{
    match t {
        SpecType::Concrete(_, args) | SpecType::Tuple(args) => law_subst_closed_identity_list(args, m),
        SpecType::Fn(args, ret) => {
            law_subst_closed_identity_list(args, m);
            law_subst_closed_identity(*ret, m);
        },
        SpecType::Pointer { element: inner, .. } | SpecType::Reference(inner, _) | SpecType::Owned(inner)
        | SpecType::Atomic(inner) | SpecType::Array(inner, _, _) | SpecType::Tensor(inner, _) => {
            law_subst_closed_identity(*inner, m);
        },
        _ => {},
    }
}

/// `law_subst_closed_identity` for lists.
pub proof fn law_subst_closed_identity_list(s: Seq<SpecType>, m: Map<Seq<char>, SpecType>)
    requires
        !spec_has_generics_list(s),
    ensures
        spec_subst_list(s, m) == s,
    decreases s, 0nat,
{
    if s.len() > 0 {
        law_subst_closed_identity_list(s.drop_last(), m);
        law_subst_closed_identity(s.last(), m);
        assert(spec_subst_list(s, m) =~= s);
    }
}

/// Substituting, for every generic parameter of a type, a binding without
/// generic parameters leaves no generic parameter behind.
pub proof fn law_subst_resolves_generics(t: SpecType, m: Map<Seq<char>, SpecType>)
    requires
        forall|n: Seq<char>| #[trigger] mentions(t, n) ==> m.contains_key(n) && !spec_has_generics(m[n]),
    ensures
        !spec_has_generics(spec_subst(t, m)),
    decreases t, 1nat,
{
    match t {
        SpecType::Generic(g) => {
            assert(mentions(t, g));
        },
        SpecType::Concrete(_, args) | SpecType::Tuple(args) => {
            assert forall|n: Seq<char>| #[trigger] mentions_list(args, n) implies m.contains_key(n)
                && !spec_has_generics(m[n]) by {
                assert(mentions(t, n));
            }
            law_subst_resolves_generics_list(args, m);
        },
        SpecType::Fn(args, ret) => {
            assert forall|n: Seq<char>| #[trigger] mentions_list(args, n) implies m.contains_key(n)
                && !spec_has_generics(m[n]) by {
                assert(mentions(t, n));
            }
            assert forall|n: Seq<char>| #[trigger] mentions(*ret, n) implies m.contains_key(n)
                && !spec_has_generics(m[n]) by {
                assert(mentions(t, n));
            }
            law_subst_resolves_generics_list(args, m);
            law_subst_resolves_generics(*ret, m);
        },
        SpecType::Pointer { element: inner, .. } | SpecType::Reference(inner, _) | SpecType::Owned(inner)
        | SpecType::Atomic(inner) | SpecType::Array(inner, _, _) | SpecType::Tensor(inner, _) => {
            assert forall|n: Seq<char>| #[trigger] mentions(*inner, n) implies m.contains_key(n)
                && !spec_has_generics(m[n]) by {
                assert(mentions(t, n));
            }
            law_subst_resolves_generics(*inner, m);
        },
        _ => {},
    }
}

/// `law_subst_resolves_generics` for lists.
pub proof fn law_subst_resolves_generics_list(s: Seq<SpecType>, m: Map<Seq<char>, SpecType>)
    requires
        forall|n: Seq<char>| #[trigger] mentions_list(s, n) ==> m.contains_key(n) && !spec_has_generics(m[n]),
    ensures
        !spec_has_generics_list(spec_subst_list(s, m)),
    decreases s, 0nat,
{
    if s.len() > 0 {
        assert forall|n: Seq<char>| #[trigger] mentions_list(s.drop_last(), n) implies m.contains_key(n)
            && !spec_has_generics(m[n]) by {
            assert(mentions_list(s, n));
        }
        assert forall|n: Seq<char>| #[trigger] mentions(s.last(), n) implies m.contains_key(n)
            && !spec_has_generics(m[n]) by {
            assert(mentions_list(s, n));
        }
        law_subst_resolves_generics_list(s.drop_last(), m);
        law_subst_resolves_generics(s.last(), m);
        lemma_subst_list_shape(s, m);
    }
}

} // verus!
