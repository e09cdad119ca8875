//! Substitution of generic placeholders through the active type map, where
//! a binding may itself mention further placeholders.
use vstd::prelude::*;
use crate::types::{Type, SpecType, Provenance, list_view, lemma_list_view};
use crate::type_map::TypeMap;
use crate::text::{contains_seq, rfind_str, substring};
use crate::layout::last_occurrence;

verus! {

/// `"__"`, the separator of mangled path segments.
pub open spec fn dunder() -> Seq<char> {
    seq!['_', '_']
}

/// Whether the binding `c` of `n` is `n` itself.
pub open spec fn spec_is_self_ref(n: Seq<char>, c: SpecType) -> bool {
    match c {
        SpecType::Struct(s) | SpecType::Generic(s) => s == n,
        _ => false,
    }
}

/// The segment after the last `"__"` of a mangled name.
pub open spec fn last_segment(n: Seq<char>) -> Seq<char> {
    n.subrange(last_occurrence(n, dunder()) + 2, n.len() as int)
}

/// The binding of a mangled name: its own, or else that of its last segment.
pub open spec fn suffix_binding(m: Map<Seq<char>, SpecType>, n: Seq<char>) -> Option<SpecType> {
    if m.contains_key(n) {
        Some(m[n])
    } else if contains_seq(n, dunder()) && m.contains_key(last_segment(n)) {
        Some(m[last_segment(n)])
    } else {
        None
    }
}

/// Substitution through the map with at most `fuel` steps through
/// bindings; `None` when that is not enough. A struct name or generic
/// parameter bound in the map is replaced by the substitution of its
/// binding (a binding to itself stops as a generic parameter), a named
/// type without arguments by that of its own or its last segment's binding,
/// `Self` by that of the binding of `"Self"`, and pointers, references,
/// arrays, tuples, function types and named type arguments are substituted
/// element-wise. Other types are left as they are.
pub open spec fn subst_fuel(m: Map<Seq<char>, SpecType>, t: SpecType, fuel: nat) -> Option<SpecType>
    decreases fuel, t, 1nat,
{
    match t {
        SpecType::Struct(n) => if m.contains_key(n) {
            if spec_is_self_ref(n, m[n]) {
                Some(SpecType::Generic(n))
            } else if fuel == 0 {
                None
            } else {
                subst_fuel(m, m[n], (fuel - 1) as nat)
            }
        } else {
            Some(t)
        },
        SpecType::Generic(n) => if m.contains_key(n) {
            if spec_is_self_ref(n, m[n]) {
                Some(SpecType::Generic(n))
            } else if fuel == 0 {
                None
            } else {
                subst_fuel(m, m[n], (fuel - 1) as nat)
            }
        } else {
            Some(t)
        },
        SpecType::Concrete(n, args) => if args.len() == 0 && suffix_binding(m, n) is Some {
            if fuel == 0 {
                None
            } else {
                subst_fuel(m, suffix_binding(m, n).unwrap(), (fuel - 1) as nat)
            }
        } else {
            match subst_list_fuel(m, args, fuel) {
                Some(a) => Some(SpecType::Concrete(n, a)),
                None => None,
            }
        },
        SpecType::SelfType => if m.contains_key(seq!['S', 'e', 'l', 'f']) {
            if fuel == 0 {
                None
            } else {
                subst_fuel(m, m[seq!['S', 'e', 'l', 'f']], (fuel - 1) as nat)
            }
        } else {
            Some(t)
        },
        SpecType::Pointer { element, is_mutable } => match subst_fuel(m, *element, fuel) {
            Some(e) => Some(SpecType::Pointer { element: Box::new(e), is_mutable }),
            None => None,
        },
        SpecType::Reference(inner, mt) => match subst_fuel(m, *inner, fuel) {
            Some(e) => Some(SpecType::Reference(Box::new(e), mt)),
            None => None,
        },
        SpecType::Array(inner, n, p) => match subst_fuel(m, *inner, fuel) {
            Some(e) => Some(SpecType::Array(Box::new(e), n, p)),
            None => None,
        },
        SpecType::Tuple(elems) => match subst_list_fuel(m, elems, fuel) {
            Some(a) => Some(SpecType::Tuple(a)),
            None => None,
        },
        SpecType::Fn(args, ret) => match subst_list_fuel(m, args, fuel) {
            Some(a) => match subst_fuel(m, *ret, fuel) {
                Some(r) => Some(SpecType::Fn(a, Box::new(r))),
                None => None,
            },
            None => None,
        },
        _ => Some(t),
    }
}

/// Substitution in every type of a list, with the same fuel for each.
pub open spec fn subst_list_fuel(m: Map<Seq<char>, SpecType>, s: Seq<SpecType>, fuel: nat) -> Option<Seq<SpecType>>
    decreases fuel, s, 0nat,
{
    if s.len() == 0 {
        Some(Seq::empty())
    } else {
        proof {
            assert(decreases_to!(s => s.drop_last()));
            assert(decreases_to!(s => s.last()));
        }
        match subst_list_fuel(m, s.drop_last(), fuel) {
            Some(a) => match subst_fuel(m, s.last(), fuel) {
                Some(x) => Some(a.push(x)),
                None => None,
            },
            None => None,
        }
    }
}

/// Substitution through the map terminates on `t`.
pub open spec fn substitution_terminates(m: Map<Seq<char>, SpecType>, t: SpecType) -> bool {
    exists|fuel: nat| #[trigger] subst_fuel(m, t, fuel) is Some
}

/// The result of substituting through the map, where it terminates.
pub open spec fn spec_substitute_generics(m: Map<Seq<char>, SpecType>, t: SpecType) -> SpecType {
    subst_fuel(m, t, choose|fuel: nat| #[trigger] subst_fuel(m, t, fuel) is Some).unwrap()
}

/// Whether a map entry binds `n` back to itself.
fn is_self_ref(n: &str, c: &Type) -> (r: bool)
    ensures
        r == spec_is_self_ref(n@, c@),
{
    match c {
        Type::Struct(s) | Type::Generic(s) => crate::text::str_eq(s.as_str(), n),
        _ => false,
    }
}

fn sub_through(m: &TypeMap, n: &str, c: &Type, ty: &Type, Ghost(fuel): Ghost<nat>) -> (r: Type)
    requires
        m@.contains_key(n@),
        c@ == m@[n@],
        spec_is_self_ref(n@, c@) || (fuel > 0 && subst_fuel(m@, c@, (fuel - 1) as nat) is Some),
    ensures
        r@ == if spec_is_self_ref(n@, c@) {
            SpecType::Generic(n@)
        } else {
            subst_fuel(m@, c@, (fuel - 1) as nat).unwrap()
        },
    decreases fuel, ty, 0nat,
{
    if is_self_ref(n, c) {
        return Type::Generic(n.to_string());
    }
    subst_generics_fuel(m, c, Ghost((fuel - 1) as nat))
}

fn last_segment_of(n: &str) -> (r: Option<String>)
    ensures
        match r {
            Some(s) => contains_seq(n@, dunder()) && s@ == last_segment(n@),
            None => !contains_seq(n@, dunder()),
        },
{
    let sep = "__";
    proof {
        reveal_strlit("__");
        assert(sep@ =~= dunder());
    }
    match rfind_str(n, sep) {
        Some(i) => {
            proof {
                assert(last_occurrence(n@, dunder()) == i);
                assert(contains_seq(n@, dunder()));
            }
            let len = n.unicode_len();
            assert(i + 2 <= len);
            Some(substring(n, i + 2, len))
        },
        None => None,
    }
}

fn try_suffix<'a>(m: &'a TypeMap, n: &str) -> (r: Option<&'a Type>)
    ensures
        match r {
            Some(t) => suffix_binding(m@, n@) == Some(t@),
            None => suffix_binding(m@, n@) is None,
        },
{
    match m.get(n) {
        Some(t) => Some(t),
        None => match last_segment_of(n) {
            Some(seg) => m.get(seg.as_str()),
            None => None,
        },
    }
}

fn subst_list_generics_fuel(m: &TypeMap, s: &Vec<Type>, Ghost(fuel): Ghost<nat>) -> (r: Vec<Type>)
    requires
        subst_list_fuel(m@, list_view(s@), fuel) is Some,
    ensures
        list_view(r@) == subst_list_fuel(m@, list_view(s@), fuel).unwrap(),
    decreases fuel, s@, 0nat,
{
    let mut out: Vec<Type> = Vec::new();
    let mut i: usize = 0;
    proof {
        lemma_prefix_some(m@, list_view(s@), fuel, 0);
    }
    while i < s.len()
        invariant
            0 <= i <= s@.len(),
            subst_list_fuel(m@, list_view(s@), fuel) is Some,
            subst_list_fuel(m@, list_view(s@.subrange(0, i as int)), fuel) == Some(list_view(out@)),
        decreases s@.len() - i,
    {
        proof {
            assert(decreases_to!(s@ => s@[i as int]));
            let a = s@.subrange(0, i as int + 1);
            assert(a.subrange(0, a.len() - 1) =~= s@.subrange(0, i as int));
            lemma_list_view(a);
            lemma_list_view(s@);
            assert(list_view(a).drop_last() =~= list_view(s@.subrange(0, i as int)));
            assert(list_view(a) =~= list_view(s@).subrange(0, i as int + 1)) by {
                lemma_list_view(s@.subrange(0, i as int + 1));
            }
            lemma_prefix_some(m@, list_view(s@), fuel, i as int + 1);
        }
        let x = subst_generics_fuel(m, &s[i], Ghost(fuel));
        let ghost before = out@;
        out.push(x);
        proof {
            assert(out@.subrange(0, out@.len() - 1) =~= before);
        }
        i += 1;
    }
    proof {
        assert(s@.subrange(0, s@.len() as int) =~= s@);
    }
    out
}

/// A prefix of a list on which substitution succeeds succeeds too.
proof fn lemma_prefix_some(m: Map<Seq<char>, SpecType>, s: Seq<SpecType>, fuel: nat, k: int)
    requires
        subst_list_fuel(m, s, fuel) is Some,
        0 <= k <= s.len(),
    ensures
        subst_list_fuel(m, s.subrange(0, k), fuel) is Some,
        k > 0 ==> subst_fuel(m, s[k - 1], fuel) is Some,
    decreases s.len(),
{
    if s.len() > 0 {
        if k == s.len() {
            assert(s.subrange(0, k) =~= s);
            if k > 0 {
                assert(s[k - 1] == s.last());
            }
        } else {
            lemma_prefix_some(m, s.drop_last(), fuel, k);
            assert(s.drop_last().subrange(0, k) =~= s.subrange(0, k));
        }
    } else {
        assert(s.subrange(0, k) =~= s);
    }
}

fn subst_generics_fuel(m: &TypeMap, ty: &Type, Ghost(fuel): Ghost<nat>) -> (r: Type)
    requires
        subst_fuel(m@, ty@, fuel) is Some,
    ensures
        r@ == subst_fuel(m@, ty@, fuel).unwrap(),
    decreases fuel, ty, 1nat,
{
    match ty {
        Type::Struct(name) => match m.get(name.as_str()) {
            Some(c) => sub_through(m, name.as_str(), c, ty, Ghost(fuel)),
            None => ty.clone(),
        },
        Type::Generic(name) => match m.get(name.as_str()) {
            Some(c) => sub_through(m, name.as_str(), c, ty, Ghost(fuel)),
            None => ty.clone(),
        },
        Type::Concrete(name, args) => {
            proof {
                lemma_list_view(args@);
                assert(decreases_to!(*ty => (*ty)->Concrete_1));
                assert(decreases_to!(*args => args@));
            }
            if args.len() == 0 {
                if let Some(c) = try_suffix(m, name.as_str()) {
                    return subst_generics_fuel(m, c, Ghost((fuel - 1) as nat));
                }
            }
            Type::Concrete(name.clone(), subst_list_generics_fuel(m, args, Ghost(fuel)))
        },
        Type::SelfType => {
            let key = "Self";
            proof {
                reveal_strlit("Self");
                assert(key@ =~= seq!['S', 'e', 'l', 'f']);
            }
            match m.get(key) {
                Some(c) => subst_generics_fuel(m, c, Ghost((fuel - 1) as nat)),
                None => ty.clone(),
            }
        },
        Type::Pointer { element, provenance: _, is_mutable } => Type::Pointer {
            element: Box::new(subst_generics_fuel(m, &**element, Ghost(fuel))),
            provenance: Provenance::Naked,
            is_mutable: *is_mutable,
        },
        Type::Reference(inner, mt) => Type::Reference(
            Box::new(subst_generics_fuel(m, &**inner, Ghost(fuel))),
            *mt,
        ),
        Type::Array(inner, n, p) => Type::Array(
            Box::new(subst_generics_fuel(m, &**inner, Ghost(fuel))),
            *n,
            *p,
        ),
        Type::Tuple(elems) => {
            proof {
                lemma_list_view(elems@);
                assert(decreases_to!(*ty => (*ty)->Tuple_0));
                assert(decreases_to!(*elems => elems@));
            }
            Type::Tuple(subst_list_generics_fuel(m, elems, Ghost(fuel)))
        },
        Type::Fn(args, ret) => {
            proof {
                lemma_list_view(args@);
                assert(decreases_to!(*ty => (*ty)->Fn_0));
                assert(decreases_to!(*args => args@));
            }
            let a = subst_list_generics_fuel(m, args, Ghost(fuel));
            let r = subst_generics_fuel(m, &**ret, Ghost(fuel));
            Type::Fn(a, Box::new(r))
        },
        _ => ty.clone(),
    }
}

/// Recursively substitutes generic placeholders using the active type map:
/// a binding that mentions further placeholders is substituted in turn, so
/// that `HashMap<i64, i64>` referring to `Entry<K, V>` yields
/// `Entry<i64, i64>`. Substitution must terminate: a map whose bindings
/// lead back to themselves through other bindings makes it run forever.
pub fn substitute_generics(type_map: &TypeMap, ty: &Type) -> (r: Type)
    requires
        substitution_terminates(type_map@, ty@),
    ensures
        r@ == spec_substitute_generics(type_map@, ty@),
{
    let ghost fuel = choose|fuel: nat| #[trigger] subst_fuel(type_map@, ty@, fuel) is Some;
    subst_generics_fuel(type_map, ty, Ghost(fuel))
}

/// Whether `t` mentions no name that substitution through `m` replaces: no
/// struct name or generic parameter bound in `m`, no argument-less named
/// type with a binding of its own or of its last segment, and no `Self`
/// when `"Self"` is bound, at any depth that substitution visits.
pub open spec fn mentions_no_key(m: Map<Seq<char>, SpecType>, t: SpecType) -> bool
    decreases t, 1nat,
{
    match t {
        SpecType::Struct(n) | SpecType::Generic(n) => !m.contains_key(n),
        SpecType::Concrete(n, args) => if args.len() == 0 {
            suffix_binding(m, n) is None
        } else {
            mentions_no_key_list(m, args)
        },
        SpecType::SelfType => !m.contains_key(seq!['S', 'e', 'l', 'f']),
        SpecType::Pointer { element, .. } => mentions_no_key(m, *element),
        SpecType::Reference(inner, _) => mentions_no_key(m, *inner),
        SpecType::Array(inner, _, _) => mentions_no_key(m, *inner),
        SpecType::Tuple(elems) => mentions_no_key_list(m, elems),
        SpecType::Fn(args, ret) => mentions_no_key_list(m, args) && mentions_no_key(m, *ret),
        _ => true,
    }
}

/// Whether no type of the list mentions a name that `m` replaces.
pub open spec fn mentions_no_key_list(m: Map<Seq<char>, SpecType>, s: Seq<SpecType>) -> bool
    decreases s, 0nat,
{
    if s.len() == 0 {
        true
    } else {
        proof {
            assert(decreases_to!(s => s.drop_last()));
            assert(decreases_to!(s => s.last()));
        }
        mentions_no_key_list(m, s.drop_last()) && mentions_no_key(m, s.last())
    }
}

proof fn lemma_no_key_subst(m: Map<Seq<char>, SpecType>, t: SpecType, fuel: nat)
    requires
        mentions_no_key(m, t),
    ensures
        subst_fuel(m, t, fuel) == Some(t),
    decreases t, 1nat,
{
    match t {
        SpecType::Concrete(n, args) => {
            lemma_no_key_subst_list(m, args, fuel);
        },
        SpecType::Pointer { element, .. } => lemma_no_key_subst(m, *element, fuel),
        SpecType::Reference(inner, _) => lemma_no_key_subst(m, *inner, fuel),
        SpecType::Array(inner, _, _) => lemma_no_key_subst(m, *inner, fuel),
        SpecType::Tuple(elems) => lemma_no_key_subst_list(m, elems, fuel),
        SpecType::Fn(args, ret) => {
            lemma_no_key_subst_list(m, args, fuel);
            lemma_no_key_subst(m, *ret, fuel);
        },
        _ => {},
    }
}

proof fn lemma_no_key_subst_list(m: Map<Seq<char>, SpecType>, s: Seq<SpecType>, fuel: nat)
    requires
        s.len() == 0 || mentions_no_key_list(m, s),
    ensures
        subst_list_fuel(m, s, fuel) == Some(s),
    decreases s, 0nat,
{
    if s.len() > 0 {
        assert(decreases_to!(s => s.drop_last()));
        assert(decreases_to!(s => s.last()));
        lemma_no_key_subst_list(m, s.drop_last(), fuel);
        lemma_no_key_subst(m, s.last(), fuel);
        assert(s.drop_last().push(s.last()) =~= s);
    }
}

/// Substitution leaves a type alone when it mentions no name that the map
/// replaces: it terminates, and the result is the type itself.
pub proof fn law_substitution_identity_without_keys(m: Map<Seq<char>, SpecType>, t: SpecType)
    requires
        mentions_no_key(m, t),
    ensures
        substitution_terminates(m, t),
        spec_substitute_generics(m, t) == t,
{
    lemma_no_key_subst(m, t, 0);
    assert(subst_fuel(m, t, 0) is Some);
    let f = choose|fuel: nat| #[trigger] subst_fuel(m, t, fuel) is Some;
    lemma_no_key_subst(m, t, f);
}

/// The model of an optional type.
pub open spec fn opt_view(r: Option<Type>) -> Option<SpecType> {
    match r {
        Some(t) => Some(t@),
        None => None,
    }
}

/// The model of an optional list of types.
pub open spec fn opt_list_view(r: Option<Vec<Type>>) -> Option<Seq<SpecType>> {
    match r {
        Some(v) => Some(list_view(v@)),
        None => None,
    }
}

/// Once substitution fails on a prefix of a list, it fails on the list.
proof fn lemma_prefix_none(m: Map<Seq<char>, SpecType>, s: Seq<SpecType>, fuel: nat, k: int)
    requires
        0 <= k <= s.len(),
        subst_list_fuel(m, s.subrange(0, k), fuel) is None,
    ensures
        subst_list_fuel(m, s, fuel) is None,
    decreases s.len() - k,
{
    if k < s.len() {
        let a = s.subrange(0, k + 1);
        assert(a.drop_last() =~= s.subrange(0, k));
        lemma_prefix_none(m, s, fuel, k + 1);
    } else {
        assert(s.subrange(0, k) =~= s);
    }
}

fn try_through(m: &TypeMap, n: &str, c: &Type, ty: &Type, fuel: u64) -> (r: Option<Type>)
    requires
        m@.contains_key(n@),
        c@ == m@[n@],
    ensures
        opt_view(r) == if spec_is_self_ref(n@, c@) {
            Some(SpecType::Generic(n@))
        } else if fuel == 0 {
            None
        } else {
            subst_fuel(m@, c@, (fuel - 1) as nat)
        },
    decreases fuel, ty, 0nat,
{
    if is_self_ref(n, c) {
        return Some(Type::Generic(n.to_string()));
    }
    if fuel == 0 {
        return None;
    }
    try_subst_fuel(m, c, fuel - 1)
}

fn try_subst_list(m: &TypeMap, s: &Vec<Type>, fuel: u64) -> (r: Option<Vec<Type>>)
    ensures
        opt_list_view(r) == subst_list_fuel(m@, list_view(s@), fuel as nat),
    decreases fuel, s@, 0nat,
{
    let mut out: Vec<Type> = Vec::new();
    let mut i: usize = 0;
    proof {
        lemma_list_view(s@);
        assert(list_view(s@).subrange(0, 0) =~= Seq::<SpecType>::empty());
        assert(list_view(out@) =~= Seq::<SpecType>::empty());
    }
    while i < s.len()
        invariant
            0 <= i <= s@.len(),
            subst_list_fuel(m@, list_view(s@).subrange(0, i as int), fuel as nat) == Some(list_view(out@)),
        decreases s@.len() - i,
    {
        proof {
            assert(decreases_to!(s@ => s@[i as int]));
            lemma_list_view(s@);
            let a = list_view(s@).subrange(0, i as int + 1);
            assert(a.drop_last() =~= list_view(s@).subrange(0, i as int));
            assert(a.last() == s@[i as int]@);
        }
        match try_subst_fuel(m, &s[i], fuel) {
            Some(x) => {
                let ghost before = out@;
                out.push(x);
                proof {
                    lemma_list_view(out@);
                    lemma_list_view(before);
                    assert(list_view(out@) =~= list_view(before).push(x@));
                }
            },
            None => {
                proof {
                    lemma_prefix_none(m@, list_view(s@), fuel as nat, i as int + 1);
                }
                return None;
            },
        }
        i += 1;
    }
    proof {
        lemma_list_view(s@);
        assert(list_view(s@).subrange(0, s@.len() as int) =~= list_view(s@));
    }
    Some(out)
}

#[verifier::rlimit(80)]
fn try_subst_fuel(m: &TypeMap, ty: &Type, fuel: u64) -> (r: Option<Type>)
    ensures
        opt_view(r) == subst_fuel(m@, ty@, fuel as nat),
    decreases fuel, ty, 1nat,
{
    match ty {
        Type::Struct(name) => match m.get(name.as_str()) {
            Some(c) => try_through(m, name.as_str(), c, ty, fuel),
            None => Some(ty.clone()),
        },
        Type::Generic(name) => match m.get(name.as_str()) {
            Some(c) => try_through(m, name.as_str(), c, ty, fuel),
            None => Some(ty.clone()),
        },
        Type::Concrete(name, args) => {
            proof {
                lemma_list_view(args@);
                assert(decreases_to!(*ty => (*ty)->Concrete_1));
                assert(decreases_to!(*args => args@));
            }
            if args.len() == 0 {
                if let Some(c) = try_suffix(m, name.as_str()) {
                    if fuel == 0 {
                        return None;
                    }
                    return try_subst_fuel(m, c, fuel - 1);
                }
            }
            match try_subst_list(m, args, fuel) {
                Some(a) => Some(Type::Concrete(name.clone(), a)),
                None => None,
            }
        },
        Type::SelfType => {
            let key = "Self";
            proof {
                reveal_strlit("Self");
                assert(key@ =~= seq!['S', 'e', 'l', 'f']);
            }
            match m.get(key) {
                Some(c) => if fuel == 0 {
                    None
                } else {
                    try_subst_fuel(m, c, fuel - 1)
                },
                None => Some(ty.clone()),
            }
        },
        Type::Pointer { element, provenance: _, is_mutable } => match try_subst_fuel(m, &**element, fuel) {
            Some(e) => Some(Type::Pointer { element: Box::new(e), provenance: Provenance::Naked, is_mutable: *is_mutable }),
            None => None,
        },
        Type::Reference(inner, mt) => match try_subst_fuel(m, &**inner, fuel) {
            Some(e) => Some(Type::Reference(Box::new(e), *mt)),
            None => None,
        },
        Type::Array(inner, n, p) => match try_subst_fuel(m, &**inner, fuel) {
            Some(e) => Some(Type::Array(Box::new(e), *n, *p)),
            None => None,
        },
        Type::Tuple(elems) => {
            proof {
                lemma_list_view(elems@);
                assert(decreases_to!(*ty => (*ty)->Tuple_0));
                assert(decreases_to!(*elems => elems@));
            }
            match try_subst_list(m, elems, fuel) {
                Some(a) => Some(Type::Tuple(a)),
                None => None,
            }
        },
        Type::Fn(args, ret) => {
            proof {
                lemma_list_view(args@);
                assert(decreases_to!(*ty => (*ty)->Fn_0));
                assert(decreases_to!(*args => args@));
            }
            match try_subst_list(m, args, fuel) {
                Some(a) => match try_subst_fuel(m, &**ret, fuel) {
                    Some(r) => Some(Type::Fn(a, Box::new(r))),
                    None => None,
                },
                None => None,
            }
        },
        _ => Some(ty.clone()),
    }
}

/// Substitution through the active type map, as `substitute_generics`,
/// following at most `max_steps` bindings along any path: `None` when that
/// is not enough, as it never is on a map whose bindings lead back to
/// themselves. A caller that cannot show that substitution terminates can
/// call this.
pub fn try_substitute_generics(type_map: &TypeMap, ty: &Type, max_steps: u64) -> (r: Option<Type>)
    ensures
        opt_view(r) == subst_fuel(type_map@, ty@, max_steps as nat),
        r is Some ==> substitution_terminates(type_map@, ty@),
{
    let r = try_subst_fuel(type_map, ty, max_steps);
    proof {
        if r is Some {
            assert(subst_fuel(type_map@, ty@, max_steps as nat) is Some);
        }
    }
    r
}

/// No binding of the map mentions a name that the map replaces.
pub open spec fn bindings_closed(m: Map<Seq<char>, SpecType>) -> bool {
    forall|k: Seq<char>| #[trigger] m.contains_key(k) ==> mentions_no_key(m, m[k])
}

/// The case of a struct name or generic parameter `n`.
proof fn lemma_resolves_named(m: Map<Seq<char>, SpecType>, t: SpecType, n: Seq<char>, fuel: nat)
    requires
        bindings_closed(m),
        t == SpecType::Struct(n) || t == SpecType::Generic(n),
        subst_fuel(m, t, fuel) is Some,
    ensures
        mentions_no_key(m, subst_fuel(m, t, fuel)->0),
{
    if m.contains_key(n) {
        assert(mentions_no_key(m, m[n]));
        if spec_is_self_ref(n, m[n]) {
            assert(!mentions_no_key(m, m[n]));
        }
        assert(fuel > 0);
        lemma_no_key_subst(m, m[n], (fuel - 1) as nat);
        assert(subst_fuel(m, t, fuel) == subst_fuel(m, m[n], (fuel - 1) as nat));
    }
}

#[verifier::rlimit(40)]
proof fn lemma_resolves(m: Map<Seq<char>, SpecType>, t: SpecType, fuel: nat)
    requires
        bindings_closed(m),
        subst_fuel(m, t, fuel) is Some,
    ensures
        mentions_no_key(m, subst_fuel(m, t, fuel)->0),
    decreases t, 1nat,
{
    match t {
        SpecType::Struct(n) => {
            lemma_resolves_named(m, t, n, fuel);
        },
        SpecType::Generic(n) => {
            lemma_resolves_named(m, t, n, fuel);
        },
        SpecType::Concrete(n, args) => {
            if args.len() == 0 && suffix_binding(m, n) is Some {
                let c = suffix_binding(m, n)->0;
                if m.contains_key(n) {
                    assert(mentions_no_key(m, m[n]));
                } else {
                    assert(mentions_no_key(m, m[last_segment(n)]));
                }
                lemma_no_key_subst(m, c, (fuel - 1) as nat);
            } else {
                lemma_resolves_list(m, args, fuel);
            }
        },
        SpecType::SelfType => {
            if m.contains_key(seq!['S', 'e', 'l', 'f']) {
                assert(mentions_no_key(m, m[seq!['S', 'e', 'l', 'f']]));
                lemma_no_key_subst(m, m[seq!['S', 'e', 'l', 'f']], (fuel - 1) as nat);
            }
        },
        SpecType::Pointer { element, .. } => lemma_resolves(m, *element, fuel),
        SpecType::Reference(inner, _) => lemma_resolves(m, *inner, fuel),
        SpecType::Array(inner, _, _) => lemma_resolves(m, *inner, fuel),
        SpecType::Tuple(elems) => lemma_resolves_list(m, elems, fuel),
        SpecType::Fn(args, ret) => {
            lemma_resolves_list(m, args, fuel);
            lemma_resolves(m, *ret, fuel);
        },
        _ => {},
    }
}

proof fn lemma_resolves_list(m: Map<Seq<char>, SpecType>, s: Seq<SpecType>, fuel: nat)
    requires
        bindings_closed(m),
        subst_list_fuel(m, s, fuel) is Some,
    ensures
        subst_list_fuel(m, s, fuel)->0.len() == s.len(),
        mentions_no_key_list(m, subst_list_fuel(m, s, fuel)->0),
    decreases s, 0nat,
{
    if s.len() == 0 {
        assert(subst_list_fuel(m, s, fuel)->0 =~= Seq::<SpecType>::empty());
        assert(mentions_no_key_list(m, Seq::<SpecType>::empty()));
    } else {
        assert(decreases_to!(s => s.drop_last()));
        assert(decreases_to!(s => s.last()));
        lemma_resolves_list(m, s.drop_last(), fuel);
        lemma_resolves(m, s.last(), fuel);
        let rest = subst_list_fuel(m, s.drop_last(), fuel)->0;
        let x = subst_fuel(m, s.last(), fuel)->0;
        assert(rest.push(x).drop_last() =~= rest);
    }
}

/// When no binding mentions a name that the map replaces, substitution
/// replaces every placeholder it can reach: the result mentions no key of
/// the map at any depth (so, for instance, `&T` with `T` bound to `i64`
/// becomes `&i64`, never `&T`).
pub proof fn law_substitution_resolves_every_key(m: Map<Seq<char>, SpecType>, t: SpecType)
    requires
        bindings_closed(m),
        substitution_terminates(m, t),
    ensures
        mentions_no_key(m, spec_substitute_generics(m, t)),
{
    let f = choose|fuel: nat| #[trigger] subst_fuel(m, t, fuel) is Some;
    lemma_resolves(m, t, f);
}

proof fn lemma_fuel_step(m: Map<Seq<char>, SpecType>, t: SpecType, fuel: nat)
    requires
        subst_fuel(m, t, fuel) is Some,
    ensures
        subst_fuel(m, t, fuel + 1) == subst_fuel(m, t, fuel),
    decreases fuel, t, 1nat,
{
    match t {
        SpecType::Struct(n) | SpecType::Generic(n) => {
            if m.contains_key(n) && !spec_is_self_ref(n, m[n]) {
                lemma_fuel_step(m, m[n], (fuel - 1) as nat);
            }
        },
        SpecType::Concrete(n, args) => {
            if args.len() == 0 && suffix_binding(m, n) is Some {
                lemma_fuel_step(m, suffix_binding(m, n).unwrap(), (fuel - 1) as nat);
            } else {
                lemma_fuel_step_list(m, args, fuel);
            }
        },
        SpecType::SelfType => {
            if m.contains_key(seq!['S', 'e', 'l', 'f']) {
                lemma_fuel_step(m, m[seq!['S', 'e', 'l', 'f']], (fuel - 1) as nat);
            }
        },
        SpecType::Pointer { element, .. } => lemma_fuel_step(m, *element, fuel),
        SpecType::Reference(inner, _) => lemma_fuel_step(m, *inner, fuel),
        SpecType::Array(inner, _, _) => lemma_fuel_step(m, *inner, fuel),
        SpecType::Tuple(elems) => lemma_fuel_step_list(m, elems, fuel),
        SpecType::Fn(args, ret) => {
            lemma_fuel_step_list(m, args, fuel);
            lemma_fuel_step(m, *ret, fuel);
        },
        _ => {},
    }
}

proof fn lemma_fuel_step_list(m: Map<Seq<char>, SpecType>, s: Seq<SpecType>, fuel: nat)
    requires
        subst_list_fuel(m, s, fuel) is Some,
    ensures
        subst_list_fuel(m, s, fuel + 1) == subst_list_fuel(m, s, fuel),
    decreases fuel, s, 0nat,
{
    if s.len() > 0 {
        assert(decreases_to!(s => s.drop_last()));
        assert(decreases_to!(s => s.last()));
        lemma_fuel_step_list(m, s.drop_last(), fuel);
        lemma_fuel_step(m, s.last(), fuel);
    }
}

proof fn lemma_fuel_more(m: Map<Seq<char>, SpecType>, t: SpecType, f1: nat, f2: nat)
    requires
        f1 <= f2,
        subst_fuel(m, t, f1) is Some,
    ensures
        subst_fuel(m, t, f2) == subst_fuel(m, t, f1),
    decreases f2 - f1,
{
    if f1 < f2 {
        lemma_fuel_step(m, t, f1);
        lemma_fuel_more(m, t, f1 + 1, f2);
    }
}

/// Substitution does not depend on how many steps it was allowed, once it
/// has succeeded.
proof fn lemma_fuel_agree(m: Map<Seq<char>, SpecType>, t: SpecType, f1: nat, f2: nat)
    requires
        subst_fuel(m, t, f1) is Some,
        subst_fuel(m, t, f2) is Some,
    ensures
        subst_fuel(m, t, f1) == subst_fuel(m, t, f2),
{
    if f1 <= f2 {
        lemma_fuel_more(m, t, f1, f2);
    } else {
        lemma_fuel_more(m, t, f2, f1);
    }
}

/// Substitution goes through pointers, references and arrays: the result
/// is the same wrapper around the substituted target, with its mutability,
/// length and packing kept.
pub proof fn law_substitution_goes_through_wrappers(
    m: Map<Seq<char>, SpecType>,
    t: SpecType,
    mt: bool,
    n: nat,
    packed: bool,
)
    requires
        substitution_terminates(m, t),
    ensures
        substitution_terminates(m, SpecType::Reference(Box::new(t), mt)),
        spec_substitute_generics(m, SpecType::Reference(Box::new(t), mt)) == SpecType::Reference(
            Box::new(spec_substitute_generics(m, t)),
            mt,
        ),
        substitution_terminates(m, (SpecType::Pointer { element: Box::new(t), is_mutable: mt })),
        spec_substitute_generics(m, (SpecType::Pointer { element: Box::new(t), is_mutable: mt }))
            == (SpecType::Pointer { element: Box::new(spec_substitute_generics(m, t)), is_mutable: mt }),
        substitution_terminates(m, SpecType::Array(Box::new(t), n, packed)),
        spec_substitute_generics(m, SpecType::Array(Box::new(t), n, packed)) == SpecType::Array(
            Box::new(spec_substitute_generics(m, t)),
            n,
            packed,
        ),
{
    let f = choose|fuel: nat| #[trigger] subst_fuel(m, t, fuel) is Some;
    let r = SpecType::Reference(Box::new(t), mt);
    let p = SpecType::Pointer { element: Box::new(t), is_mutable: mt };
    let a = SpecType::Array(Box::new(t), n, packed);
    assert(subst_fuel(m, r, f) is Some);
    assert(subst_fuel(m, p, f) is Some);
    assert(subst_fuel(m, a, f) is Some);
    let gr = choose|fuel: nat| #[trigger] subst_fuel(m, r, fuel) is Some;
    let gp = choose|fuel: nat| #[trigger] subst_fuel(m, p, fuel) is Some;
    let ga = choose|fuel: nat| #[trigger] subst_fuel(m, a, fuel) is Some;
    assert(subst_fuel(m, t, gr) is Some);
    assert(subst_fuel(m, t, gp) is Some);
    assert(subst_fuel(m, t, ga) is Some);
    lemma_fuel_agree(m, t, f, gr);
    lemma_fuel_agree(m, t, f, gp);
    lemma_fuel_agree(m, t, f, ga);
}

} // verus!
