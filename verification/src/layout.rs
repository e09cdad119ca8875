//! Pointer-name flattening and layout compatibility of types.
use vstd::prelude::*;
use crate::text::{contains_seq, contains_str, occurs_at, rfind_str, substring, trim_leading_underscores,
    trim_leading_underscores_exec};
use crate::types::{Type, SpecType, type_view, list_view, lemma_list_view, spec_is_ptr_type};

verus! {

pub open spec fn ptr_text() -> Seq<char> {
    seq!['P', 't', 'r']
}

/// The index of the last occurrence of `pat` in `s`.
pub open spec fn last_occurrence(s: Seq<char>, pat: Seq<char>) -> int {
    choose|i: int| occurs_at(s, pat, i) && forall|k: int| i < k ==> !occurs_at(s, pat, k)
}

/// The type named after the last `Ptr` of a mangled pointer name, with the
/// underscores that follow `Ptr` removed; none when nothing is left.
pub open spec fn spec_extract_ptr_inner(name: Seq<char>) -> Option<Seq<char>> {
    if contains_seq(name, ptr_text()) {
        let idx = last_occurrence(name, ptr_text());
        let inner = trim_leading_underscores(name.subrange(idx + 3, name.len() as int));
        if inner.len() > 0 {
            Some(inner)
        } else {
            None
        }
    } else {
        None
    }
}

/// Extracts the pointee name from a mangled pointer name such as `Ptr_u8`.
pub fn extract_ptr_inner(name: &str) -> (r: Option<String>)
    ensures
        match r {
            Some(s) => spec_extract_ptr_inner(name@) == Some(s@),
            None => spec_extract_ptr_inner(name@) is None,
        },
{
    let ptr = "Ptr";
    proof {
        reveal_strlit("Ptr");
        assert(ptr@ =~= ptr_text());
    }
    match rfind_str(name, ptr) {
        Some(idx) => {
            let n = name.unicode_len();
            let after = substring(name, idx + 3, n);
            let inner = trim_leading_underscores_exec(after.as_str());
            proof {
                assert(last_occurrence(name@, ptr_text()) == idx);
            }
            if inner.unicode_len() > 0 {
                Some(inner)
            } else {
                None
            }
        },
        None => None,
    }
}

/// Strips nested pointer layers: a pointer to a pointer is replaced by the
/// innermost non-pointer type, for at most ten levels.
pub open spec fn spec_flatten(t: SpecType, depth: nat) -> SpecType
    decreases 11 - depth,
{
    if depth > 10 {
        t
    } else {
        match t {
            SpecType::Concrete(template, args) => {
                if contains_seq(template, ptr_text()) && args.len() > 0 {
                    if spec_is_ptr_type(args[0]) {
                        spec_flatten(args[0], depth + 1)
                    } else if depth > 0 {
                        args[0]
                    } else {
                        t
                    }
                } else {
                    t
                }
            },
            SpecType::Struct(name) => {
                if contains_seq(name, ptr_text()) {
                    match spec_extract_ptr_inner(name) {
                        Some(inner) => spec_flatten(SpecType::Struct(inner), depth + 1),
                        None => t,
                    }
                } else {
                    t
                }
            },
            _ => t,
        }
    }
}

/// Drills through nested pointer types to the innermost pointee.
#[verifier::rlimit(50)]
pub fn flatten_nested_ptr(ty: &Type, depth: usize, debug_ctx: &str) -> (r: Type)
    ensures
        r@ == spec_flatten(ty@, depth as nat),
    decreases 11 - depth,
{
    if depth > 10 {
        return ty.clone();
    }
    let ptr = "Ptr";
    proof {
        reveal_strlit("Ptr");
        assert(ptr@ =~= ptr_text());
    }
    match ty {
        Type::Concrete(template, args) => {
            proof {
                lemma_list_view(args@);
            }
            if contains_str(template.as_str(), ptr) && args.len() > 0 {
                if args[0].k_is_ptr_type() {
                    return flatten_nested_ptr(&args[0], depth + 1, debug_ctx);
                }
                if depth > 0 {
                    return args[0].clone();
                }
            }
            ty.clone()
        },
        Type::Struct(name) => {
            if contains_str(name.as_str(), ptr) {
                if let Some(inner_name) = extract_ptr_inner(name.as_str()) {
                    let t = Type::Struct(inner_name);
                    return flatten_nested_ptr(&t, depth + 1, debug_ctx);
                }
            }
            ty.clone()
        },
        _ => ty.clone(),
    }
}

/// The size and alignment of a named aggregate, as recorded by the registry.
pub struct StructLayout {
    pub name: String,
    pub size: usize,
    pub align: usize,
}

/// The first registry entry named `name`.
pub open spec fn registry_lookup(reg: Seq<StructLayout>, name: Seq<char>) -> Option<(nat, nat)>
    decreases reg.len(),
{
    if reg.len() == 0 {
        None
    } else if reg[0].name@ == name {
        Some((reg[0].size as nat, reg[0].align as nat))
    } else {
        registry_lookup(reg.drop_first(), name)
    }
}

/// Size in bytes of a type: scalars by width, pointer-like values 8,
/// `Atomic<T>` that of `T`, arrays by element count (packed bit arrays in
/// 64-bit words), tuples the sum of their elements, named aggregates by
/// registry (0 when unregistered), and 0 for the remaining types.
pub open spec fn spec_size_of(reg: Seq<StructLayout>, t: SpecType) -> int
    decreases t,
{
    match t {
        SpecType::I8 | SpecType::U8 | SpecType::Bool => 1,
        SpecType::I16 | SpecType::U16 => 2,
        SpecType::I32 | SpecType::U32 | SpecType::F32 => 4,
        SpecType::I64 | SpecType::U64 | SpecType::Usize | SpecType::F64 => 8,
        SpecType::Pointer { .. } | SpecType::Reference(..) | SpecType::Owned(..) | SpecType::Fn(..)
        | SpecType::Tensor(..) => 8,
        SpecType::Atomic(inner) => spec_size_of(reg, *inner),
        SpecType::Array(inner, n, packed) => if packed {
            (((n + 63) / 64) * 8) as int
        } else {
            n * spec_size_of(reg, *inner)
        },
        SpecType::Tuple(elems) => {
            proof {
                assert(decreases_to!(t => t->Tuple_0));
            }
            spec_size_of_list(reg, elems)
        },
        SpecType::Struct(name) | SpecType::Enum(name) | SpecType::Concrete(name, _) => match registry_lookup(
            reg,
            name,
        ) {
            Some((size, _)) => size as int,
            None => 0,
        },
        _ => 0,
    }
}

pub open spec fn spec_size_of_list(reg: Seq<StructLayout>, s: Seq<SpecType>) -> int
    decreases s,
{
    if s.len() == 0 {
        0
    } else {
        proof {
            assert(decreases_to!(s => s.subrange(0, s.len() - 1)));
            assert(decreases_to!(s => s[s.len() - 1]));
        }
        spec_size_of_list(reg, s.subrange(0, s.len() - 1)) + spec_size_of(reg, s[s.len() - 1])
    }
}

/// Alignment in bytes of a type, following the same cases as `spec_size_of`;
/// a tuple takes its largest element alignment, 1 for the remaining types.
pub open spec fn spec_align_of(reg: Seq<StructLayout>, t: SpecType) -> int
    decreases t,
{
    match t {
        SpecType::I8 | SpecType::U8 | SpecType::Bool => 1,
        SpecType::I16 | SpecType::U16 => 2,
        SpecType::I32 | SpecType::U32 | SpecType::F32 => 4,
        SpecType::I64 | SpecType::U64 | SpecType::Usize | SpecType::F64 => 8,
        SpecType::Pointer { .. } | SpecType::Reference(..) | SpecType::Owned(..) | SpecType::Fn(..)
        | SpecType::Tensor(..) => 8,
        SpecType::Atomic(inner) => spec_align_of(reg, *inner),
        SpecType::Array(inner, n, packed) => if packed {
            8
        } else {
            spec_align_of(reg, *inner)
        },
        SpecType::Tuple(elems) => {
            proof {
                assert(decreases_to!(t => t->Tuple_0));
            }
            spec_align_of_list(reg, elems)
        },
        SpecType::Struct(name) | SpecType::Enum(name) | SpecType::Concrete(name, _) => match registry_lookup(
            reg,
            name,
        ) {
            Some((_, align)) => align as int,
            None => 1,
        },
        _ => 1,
    }
}

pub open spec fn spec_align_of_list(reg: Seq<StructLayout>, s: Seq<SpecType>) -> int
    decreases s,
{
    if s.len() == 0 {
        1
    } else {
        proof {
            assert(decreases_to!(s => s.subrange(0, s.len() - 1)));
            assert(decreases_to!(s => s[s.len() - 1]));
        }
        let a = spec_align_of_list(reg, s.subrange(0, s.len() - 1));
        let b = spec_align_of(reg, s[s.len() - 1]);
        if a >= b { a } else { b }
    }
}

fn lookup_layout(reg: &Vec<StructLayout>, name: &String) -> (r: Option<(usize, usize)>)
    ensures
        match r {
            Some((s, a)) => registry_lookup(reg@, name@) == Some((s as nat, a as nat)),
            None => registry_lookup(reg@, name@) is None,
        },
{
    let mut i: usize = 0;
    assert(reg@.subrange(0, reg@.len() as int) =~= reg@);
    while i < reg.len()
        invariant
            0 <= i <= reg.len(),
            registry_lookup(reg@, name@) == registry_lookup(reg@.subrange(i as int, reg@.len() as int), name@),
        decreases reg.len() - i,
    {
        proof {
            let rest = reg@.subrange(i as int, reg@.len() as int);
            assert(rest.drop_first() =~= reg@.subrange(i + 1, reg@.len() as int));
        }
        if reg[i].name == *name {
            return Some((reg[i].size, reg[i].align));
        }
        i += 1;
    }
    None
}

/// The alignment of every type is at least one.
pub proof fn lemma_align_positive(reg: Seq<StructLayout>, t: SpecType)
    requires
        forall|i: int| 0 <= i < reg.len() ==> (#[trigger] reg[i]).align >= 1,
    ensures
        spec_align_of(reg, t) >= 1,
    decreases t,
{
    match t {
        SpecType::Atomic(inner) => lemma_align_positive(reg, *inner),
        SpecType::Array(inner, _, packed) => if !packed { lemma_align_positive(reg, *inner) },
        SpecType::Tuple(elems) => {
            assert(decreases_to!(t => t->Tuple_0));
            lemma_align_list_positive(reg, elems);
        },
        SpecType::Struct(name) | SpecType::Enum(name) | SpecType::Concrete(name, _) => {
            lemma_lookup_align(reg, name);
        },
        _ => {},
    }
}

proof fn lemma_align_list_positive(reg: Seq<StructLayout>, s: Seq<SpecType>)
    requires
        forall|i: int| 0 <= i < reg.len() ==> (#[trigger] reg[i]).align >= 1,
    ensures
        spec_align_of_list(reg, s) >= 1,
    decreases s,
{
    if s.len() > 0 {
        assert(decreases_to!(s => s.subrange(0, s.len() - 1)));
        assert(decreases_to!(s => s[s.len() - 1]));
        lemma_align_list_positive(reg, s.subrange(0, s.len() - 1));
    }
}

proof fn lemma_lookup_align(reg: Seq<StructLayout>, name: Seq<char>)
    requires
        forall|i: int| 0 <= i < reg.len() ==> (#[trigger] reg[i]).align >= 1,
    ensures
        registry_lookup(reg, name) matches Some((_, a)) ==> a >= 1,
    decreases reg.len(),
{
    if reg.len() > 0 {
        assert(reg[0].align >= 1);
        lemma_lookup_align(reg.drop_first(), name);
    }
}

/// Whether a size fits the computation of `size_of`: it and every
/// intermediate size of its parts are at most `usize::MAX`.
pub open spec fn size_fits(reg: Seq<StructLayout>, t: SpecType) -> bool
    decreases t,
{
    &&& spec_size_of(reg, t) <= usize::MAX
    &&& match t {
        SpecType::Atomic(inner) => size_fits(reg, *inner),
        SpecType::Array(inner, n, packed) => packed || size_fits(reg, *inner),
        SpecType::Tuple(elems) => {
            proof {
                assert(decreases_to!(t => t->Tuple_0));
            }
            list_fits(reg, elems)
        },
        _ => true,
    }
}

pub open spec fn list_fits(reg: Seq<StructLayout>, s: Seq<SpecType>) -> bool
    decreases s,
{
    if s.len() == 0 {
        true
    } else {
        proof {
            assert(decreases_to!(s => s.subrange(0, s.len() - 1)));
            assert(decreases_to!(s => s[s.len() - 1]));
        }
        spec_size_of_list(reg, s) <= usize::MAX && list_fits(reg, s.subrange(0, s.len() - 1))
            && size_fits(reg, s[s.len() - 1])
    }
}

proof fn lemma_size_nonneg(reg: Seq<StructLayout>, t: SpecType)
    ensures
        spec_size_of(reg, t) >= 0,
    decreases t,
{
    match t {
        SpecType::Atomic(inner) => lemma_size_nonneg(reg, *inner),
        SpecType::Array(inner, n, packed) => if !packed {
            lemma_size_nonneg(reg, *inner);
            assert(n * spec_size_of(reg, *inner) >= 0) by (nonlinear_arith)
                requires spec_size_of(reg, *inner) >= 0;
        },
        SpecType::Tuple(elems) => {
            assert(decreases_to!(t => t->Tuple_0));
            lemma_size_list_nonneg(reg, elems);
        },
        _ => {},
    }
}

proof fn lemma_size_list_nonneg(reg: Seq<StructLayout>, s: Seq<SpecType>)
    ensures
        spec_size_of_list(reg, s) >= 0,
    decreases s,
{
    if s.len() > 0 {
        assert(decreases_to!(s => s.subrange(0, s.len() - 1)));
        assert(decreases_to!(s => s[s.len() - 1]));
        lemma_size_list_nonneg(reg, s.subrange(0, s.len() - 1));
        lemma_size_nonneg(reg, s[s.len() - 1]);
    }
}

impl Type {
    /// The size of this type in bytes.
    pub fn size_of(&self, reg: &Vec<StructLayout>) -> (r: usize)
        requires
            size_fits(reg@, self@),
        ensures
            r == spec_size_of(reg@, self@),
        decreases self,
    {
        proof {
            lemma_size_nonneg(reg@, self@);
        }
        match self {
            Type::I8 | Type::U8 | Type::Bool => 1,
            Type::I16 | Type::U16 => 2,
            Type::I32 | Type::U32 | Type::F32 => 4,
            Type::I64 | Type::U64 | Type::Usize | Type::F64 => 8,
            Type::Pointer { .. } | Type::Reference(..) | Type::Owned(..) | Type::Fn(..) | Type::Tensor(
                ..,
            ) => 8,
            Type::Atomic(inner) => inner.size_of(reg),
            Type::Array(inner, n, packed) => {
                if *packed {
                    (*n / 64 + if *n % 64 == 0 { 0 } else { 1 }) * 8
                } else {
                    let s = inner.size_of(reg);
                    proof {
                        lemma_size_nonneg(reg@, type_view(**inner));
                    }
                    *n * s
                }
            },
            Type::Tuple(elems) => {
                let mut total: usize = 0;
                let mut i: usize = 0;
                proof {
                    lemma_list_view(elems@);
                    assert(list_view(elems@).subrange(0, 0) =~= Seq::<SpecType>::empty());
                }
                while i < elems.len()
                    invariant
                        *self == Type::Tuple(*elems),
                        size_fits(reg@, self@),
                        0 <= i <= elems.len(),
                        list_view(elems@).len() == elems@.len(),
                        forall|j: int| 0 <= j < elems@.len() ==> #[trigger] list_view(elems@)[j]
                            == type_view(elems@[j]),
                        total == spec_size_of_list(reg@, list_view(elems@).subrange(0, i as int)),
                    decreases elems.len() - i,
                {
                    proof {
                        assert(decreases_to!(*self => (*self)->Tuple_0));
                        assert(decreases_to!(*elems => elems@));
                        assert(decreases_to!(elems@ => elems@[i as int]));
                        lemma_list_fits_prefix(reg@, list_view(elems@), i as int + 1);
                        let pre = list_view(elems@).subrange(0, i + 1);
                        assert(pre.subrange(0, pre.len() - 1) =~= list_view(elems@).subrange(0, i as int));
                    }
                    let s = elems[i].size_of(reg);
                    total = total + s;
                    i += 1;
                }
                proof {
                    assert(list_view(elems@).subrange(0, elems@.len() as int) =~= list_view(elems@));
                }
                total
            },
            Type::Struct(name) | Type::Enum(name) | Type::Concrete(name, _) => {
                match lookup_layout(reg, name) {
                    Some((size, _)) => size,
                    None => 0,
                }
            },
            _ => 0,
        }
    }

    /// The size in bytes of this type, or `None` when it, or the size of one
    /// of its parts, does not fit in a `usize` (where `size_of` may not be
    /// called).
    pub fn checked_size_of(&self, reg: &Vec<StructLayout>) -> (r: Option<usize>)
        ensures
            r is Some <==> size_fits(reg@, self@),
            r matches Some(v) ==> v == spec_size_of(reg@, self@),
        decreases self,
    {
        proof {
            lemma_size_nonneg(reg@, self@);
        }
        match self {
            Type::Atomic(inner) => inner.checked_size_of(reg),
            Type::Array(inner, n, packed) => {
                if *packed {
                    Some(self.size_of(reg))
                } else {
                    match inner.checked_size_of(reg) {
                        Some(s) => {
                            proof {
                                lemma_size_nonneg(reg@, type_view(**inner));
                            }
                            n.checked_mul(s)
                        },
                        None => None,
                    }
                }
            },
            Type::Tuple(elems) => {
                let mut total: usize = 0;
                let mut i: usize = 0;
                proof {
                    lemma_list_view(elems@);
                    assert(list_view(elems@).subrange(0, 0) =~= Seq::<SpecType>::empty());
                }
                while i < elems.len()
                    invariant
                        *self == Type::Tuple(*elems),
                        0 <= i <= elems.len(),
                        list_view(elems@).len() == elems@.len(),
                        forall|j: int| 0 <= j < elems@.len() ==> #[trigger] list_view(elems@)[j]
                            == type_view(elems@[j]),
                        total == spec_size_of_list(reg@, list_view(elems@).subrange(0, i as int)),
                        list_fits(reg@, list_view(elems@).subrange(0, i as int)),
                    decreases elems.len() - i,
                {
                    proof {
                        assert(decreases_to!(*self => (*self)->Tuple_0));
                        assert(decreases_to!(*elems => elems@));
                        assert(decreases_to!(elems@ => elems@[i as int]));
                        let pre = list_view(elems@).subrange(0, i + 1);
                        assert(pre.subrange(0, pre.len() - 1) =~= list_view(elems@).subrange(0, i as int));
                        assert(pre[pre.len() - 1] == type_view(elems@[i as int]));
                    }
                    match elems[i].checked_size_of(reg) {
                        Some(s) => match total.checked_add(s) {
                            Some(t) => {
                                total = t;
                            },
                            None => {
                                proof {
                                    lemma_list_not_fits(reg@, list_view(elems@), i as int + 1);
                                }
                                return None;
                            },
                        },
                        None => {
                            proof {
                                lemma_list_not_fits(reg@, list_view(elems@), i as int + 1);
                            }
                            return None;
                        },
                    }
                    i += 1;
                }
                proof {
                    assert(list_view(elems@).subrange(0, elems@.len() as int) =~= list_view(elems@));
                }
                Some(total)
            },
            Type::Struct(name) | Type::Enum(name) | Type::Concrete(name, _) => {
                match lookup_layout(reg, name) {
                    Some((size, _)) => Some(size),
                    None => Some(0),
                }
            },
            _ => Some(self.size_of(reg)),
        }
    }

    /// The alignment of this type in bytes.
    pub fn align_of(&self, reg: &Vec<StructLayout>) -> (r: usize)
        ensures
            r == spec_align_of(reg@, self@),
        decreases self,
    {
        match self {
            Type::I8 | Type::U8 | Type::Bool => 1,
            Type::I16 | Type::U16 => 2,
            Type::I32 | Type::U32 | Type::F32 => 4,
            Type::I64 | Type::U64 | Type::Usize | Type::F64 => 8,
            Type::Pointer { .. } | Type::Reference(..) | Type::Owned(..) | Type::Fn(..) | Type::Tensor(
                ..,
            ) => 8,
            Type::Atomic(inner) => inner.align_of(reg),
            Type::Array(inner, _, packed) => {
                if *packed {
                    8
                } else {
                    inner.align_of(reg)
                }
            },
            Type::Tuple(elems) => {
                let mut best: usize = 1;
                let mut i: usize = 0;
                proof {
                    lemma_list_view(elems@);
                    assert(list_view(elems@).subrange(0, 0) =~= Seq::<SpecType>::empty());
                }
                while i < elems.len()
                    invariant
                        *self == Type::Tuple(*elems),
                        0 <= i <= elems.len(),
                        list_view(elems@).len() == elems@.len(),
                        forall|j: int| 0 <= j < elems@.len() ==> #[trigger] list_view(elems@)[j]
                            == type_view(elems@[j]),
                        best == spec_align_of_list(reg@, list_view(elems@).subrange(0, i as int)),
                    decreases elems.len() - i,
                {
                    proof {
                        assert(decreases_to!(*self => (*self)->Tuple_0));
                        assert(decreases_to!(*elems => elems@));
                        assert(decreases_to!(elems@ => elems@[i as int]));
                        let pre = list_view(elems@).subrange(0, i + 1);
                        assert(pre.subrange(0, pre.len() - 1) =~= list_view(elems@).subrange(0, i as int));
                    }
                    let a = elems[i].align_of(reg);
                    if a > best {
                        best = a;
                    }
                    i += 1;
                }
                proof {
                    assert(list_view(elems@).subrange(0, elems@.len() as int) =~= list_view(elems@));
                }
                best
            },
            Type::Struct(name) | Type::Enum(name) | Type::Concrete(name, _) => {
                match lookup_layout(reg, name) {
                    Some((_, align)) => align,
                    None => 1,
                }
            },
            _ => 1,
        }
    }
}

/// A list fits only when each of its prefixes does.
proof fn lemma_list_not_fits(reg: Seq<StructLayout>, s: Seq<SpecType>, k: int)
    requires
        0 < k <= s.len(),
        !list_fits(reg, s.subrange(0, k)),
    ensures
        !list_fits(reg, s),
{
    if list_fits(reg, s) {
        lemma_list_fits_prefix(reg, s, k);
    }
}

/// Every prefix of a list whose sizes fit also fits.
proof fn lemma_list_fits_prefix(reg: Seq<StructLayout>, s: Seq<SpecType>, k: int)
    requires
        list_fits(reg, s),
        0 < k <= s.len(),
    ensures
        spec_size_of_list(reg, s.subrange(0, k)) <= usize::MAX,
        size_fits(reg, s[k - 1]),
        list_fits(reg, s.subrange(0, k)),
    decreases s.len(),
{
    if k == s.len() {
        assert(s.subrange(0, k) =~= s);
    } else {
        let p = s.subrange(0, s.len() - 1);
        lemma_list_fits_prefix(reg, p, k);
        assert(p.subrange(0, k) =~= s.subrange(0, k));
    }
}

/// Two types are layout compatible when they are the same type, or when they
/// agree in size and alignment.
pub open spec fn spec_layout_compatible(reg: Seq<StructLayout>, from: SpecType, to: SpecType) -> bool {
    from == to || (spec_size_of(reg, from) == spec_size_of(reg, to) && spec_align_of(reg, from)
        == spec_align_of(reg, to))
}

/// Decides whether a value of type `from` may be reinterpreted as `to`.
pub fn prove_layout_compatibility(struct_registry: &Vec<StructLayout>, from: &Type, to: &Type) -> (r: bool)
    requires
        size_fits(struct_registry@, from@),
        size_fits(struct_registry@, to@),
    ensures
        r == spec_layout_compatible(struct_registry@, from@, to@),
{
    if crate::equality::types_equal(from, to) {
        return true;
    }
    from.size_of(struct_registry) == to.size_of(struct_registry) && from.align_of(struct_registry)
        == to.align_of(struct_registry)
}

/// Layout compatibility is an equivalence: every type is compatible with
/// itself, compatibility goes both ways, and it composes.
pub proof fn law_layout_compatibility_is_equivalence(
    reg: Seq<StructLayout>,
    a: SpecType,
    b: SpecType,
    c: SpecType,
)
    ensures
        spec_layout_compatible(reg, a, a),
        spec_layout_compatible(reg, a, b) == spec_layout_compatible(reg, b, a),
        spec_layout_compatible(reg, a, b) && spec_layout_compatible(reg, b, c) ==> spec_layout_compatible(reg, a, c),
{
}

/// Whether a type is a `Struct` or `Concrete` type whose name mentions `Ptr`.
pub open spec fn names_ptr(t: SpecType) -> bool {
    match t {
        SpecType::Struct(n) | SpecType::Concrete(n, _) => contains_seq(n, ptr_text()),
        _ => false,
    }
}

/// Flattening only ever rewrites a type whose name mentions `Ptr`, and
/// stops past depth ten: any other type, or any type past that depth, is
/// left as it is. (`flatten_nested_ptr` is stated over `spec_flatten`,
/// which has no debug context, so that context never changes a result.)
pub proof fn law_flatten_only_rewrites_ptr_names(t: SpecType, depth: nat)
    requires
        depth > 10 || !names_ptr(t),
    ensures
        spec_flatten(t, depth) == t,
{
}

} // verus!
