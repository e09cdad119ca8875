//! The Salt type representation and its mathematical model.
use vstd::prelude::*;
use crate::text::{contains_seq, contains_str};

verus! {

/// Where a raw pointer's target came from.
#[derive(Debug, PartialEq, Eq)]
pub enum Provenance {
    Naked,
}

/// A Salt type as the code generator sees it.
#[derive(Debug, PartialEq, Eq)]
pub enum Type {
    I8,
    I16,
    I32,
    I64,
    U8,
    U16,
    U32,
    U64,
    Usize,
    F32,
    F64,
    Bool,
    Unit,
    Never,
    SelfType,
    Struct(String),
    Enum(String),
    Generic(String),
    Concrete(String, Vec<Type>),
    Pointer { element: Box<Type>, provenance: Provenance, is_mutable: bool },
    Reference(Box<Type>, bool),
    Owned(Box<Type>),
    Atomic(Box<Type>),
    Array(Box<Type>, usize, bool),
    Tuple(Vec<Type>),
    Fn(Vec<Type>, Box<Type>),
    Tensor(Box<Type>, Vec<usize>),
}

/// The mathematical model of a `Type`: names are character sequences and
/// argument lists are sequences.
pub enum SpecType {
    I8,
    I16,
    I32,
    I64,
    U8,
    U16,
    U32,
    U64,
    Usize,
    F32,
    F64,
    Bool,
    Unit,
    Never,
    SelfType,
    Struct(Seq<char>),
    Enum(Seq<char>),
    Generic(Seq<char>),
    Concrete(Seq<char>, Seq<SpecType>),
    Pointer { element: Box<SpecType>, is_mutable: bool },
    Reference(Box<SpecType>, bool),
    Owned(Box<SpecType>),
    Atomic(Box<SpecType>),
    Array(Box<SpecType>, nat, bool),
    Tuple(Seq<SpecType>),
    Fn(Seq<SpecType>, Box<SpecType>),
    Tensor(Box<SpecType>, Seq<usize>),
}

/// The model of a type.
pub open spec fn type_view(t: Type) -> SpecType
    decreases t,
{
    match t {
        Type::I8 => SpecType::I8,
        Type::I16 => SpecType::I16,
        Type::I32 => SpecType::I32,
        Type::I64 => SpecType::I64,
        Type::U8 => SpecType::U8,
        Type::U16 => SpecType::U16,
        Type::U32 => SpecType::U32,
        Type::U64 => SpecType::U64,
        Type::Usize => SpecType::Usize,
        Type::F32 => SpecType::F32,
        Type::F64 => SpecType::F64,
        Type::Bool => SpecType::Bool,
        Type::Unit => SpecType::Unit,
        Type::Never => SpecType::Never,
        Type::SelfType => SpecType::SelfType,
        Type::Struct(s) => SpecType::Struct(s@),
        Type::Enum(s) => SpecType::Enum(s@),
        Type::Generic(s) => SpecType::Generic(s@),
        Type::Concrete(s, args) => {
            proof {
                assert(decreases_to!(t => t->Concrete_1));
                assert(decreases_to!(args => args@));
            }
            SpecType::Concrete(s@, list_view(args@))
        },
        Type::Pointer { element, provenance, is_mutable } => SpecType::Pointer {
            element: Box::new(type_view(*element)),
            is_mutable,
        },
        Type::Reference(inner, m) => SpecType::Reference(Box::new(type_view(*inner)), m),
        Type::Owned(inner) => SpecType::Owned(Box::new(type_view(*inner))),
        Type::Atomic(inner) => SpecType::Atomic(Box::new(type_view(*inner))),
        Type::Array(inner, n, packed) => SpecType::Array(
            Box::new(type_view(*inner)),
            n as nat,
            packed,
        ),
        Type::Tuple(elems) => {
            proof {
                assert(decreases_to!(t => t->Tuple_0));
                assert(decreases_to!(elems => elems@));
            }
            SpecType::Tuple(list_view(elems@))
        },
        Type::Fn(args, ret) => {
            proof {
                assert(decreases_to!(t => t->Fn_0));
                assert(decreases_to!(args => args@));
            }
            SpecType::Fn(list_view(args@), Box::new(type_view(*ret)))
        },
        Type::Tensor(inner, shape) => SpecType::Tensor(Box::new(type_view(*inner)), shape@),
    }
}

/// The models of a sequence of types.
pub open spec fn list_view(s: Seq<Type>) -> Seq<SpecType>
    decreases s,
{
    if s.len() == 0 {
        Seq::empty()
    } else {
        proof {
            assert(decreases_to!(s => s.subrange(0, s.len() - 1)));
            assert(decreases_to!(s => s[s.len() - 1]));
        }
        list_view(s.subrange(0, s.len() - 1)).push(type_view(s[s.len() - 1]))
    }
}

impl View for Type {
    type V = SpecType;

    open spec fn view(&self) -> SpecType {
        type_view(*self)
    }
}

/// `list_view` is the pointwise model.
pub broadcast proof fn lemma_list_view(s: Seq<Type>)
    ensures
        #[trigger] list_view(s).len() == s.len(),
        forall|i: int| 0 <= i < s.len() ==> #[trigger] list_view(s)[i] == type_view(s[i]),
    decreases s.len(),
{
    if s.len() > 0 {
        lemma_list_view(s.subrange(0, s.len() - 1));
    }
}

/// Two sequences of types with pointwise equal models have equal models.
pub proof fn lemma_list_view_eq(a: Seq<Type>, b: Seq<Type>)
    requires
        a.len() == b.len(),
        forall|i: int| 0 <= i < a.len() ==> type_view(#[trigger] a[i]) == type_view(b[i]),
    ensures
        list_view(a) == list_view(b),
{
    lemma_list_view(a);
    lemma_list_view(b);
    assert(list_view(a) =~= list_view(b));
}

/// A vector of types with given pointwise models has the sequence of those models.
pub proof fn lemma_list_view_of(a: Seq<Type>, m: Seq<SpecType>)
    requires
        a.len() == m.len(),
        forall|i: int| 0 <= i < a.len() ==> type_view(#[trigger] a[i]) == m[i],
    ensures
        list_view(a) == m,
{
    lemma_list_view(a);
    assert(list_view(a) =~= m);
}

/// A copy of a list of types.
pub fn copy_types(v: &Vec<Type>) -> (r: Vec<Type>)
    ensures
        list_view(r@) == list_view(v@),
        r@.len() == v@.len(),
        forall|i: int| 0 <= i < v@.len() ==> (#[trigger] r@[i])@ == v@[i]@,
{
    let mut out: Vec<Type> = Vec::new();
    let mut i: usize = 0;
    while i < v.len()
        invariant
            0 <= i <= v.len(),
            out@.len() == i,
            forall|j: int| 0 <= j < i ==> (#[trigger] out@[j])@ == v@[j]@,
        decreases v.len() - i,
    {
        out.push(v[i].clone());
        i += 1;
    }
    proof {
        lemma_list_view_eq(out@, v@);
    }
    out
}

impl Clone for Type {
    fn clone(&self) -> (r: Type)
        ensures
            r@ == self@,
        decreases self,
    {
        match self {
            Type::I8 => Type::I8,
            Type::I16 => Type::I16,
            Type::I32 => Type::I32,
            Type::I64 => Type::I64,
            Type::U8 => Type::U8,
            Type::U16 => Type::U16,
            Type::U32 => Type::U32,
            Type::U64 => Type::U64,
            Type::Usize => Type::Usize,
            Type::F32 => Type::F32,
            Type::F64 => Type::F64,
            Type::Bool => Type::Bool,
            Type::Unit => Type::Unit,
            Type::Never => Type::Never,
            Type::SelfType => Type::SelfType,
            Type::Struct(s) => Type::Struct(s.clone()),
            Type::Enum(s) => Type::Enum(s.clone()),
            Type::Generic(s) => Type::Generic(s.clone()),
            Type::Concrete(s, args) => {
                let mut out: Vec<Type> = Vec::new();
                let mut i: usize = 0;
                while i < args.len()
                    invariant
                        *self == Type::Concrete(*s, *args),
                        0 <= i <= args.len(),
                        out@.len() == i,
                        forall|j: int| 0 <= j < i ==> (#[trigger] out@[j])@ == args@[j]@,
                    decreases args.len() - i,
                {
                    proof {
                        assert(decreases_to!(*self => (*self)->Concrete_1));
                        assert(decreases_to!(*args => args@));
                        assert(decreases_to!(args@ => args@[i as int]));
                    }
                    out.push(args[i].clone());
                    i += 1;
                }
                proof {
                    lemma_list_view_eq(out@, args@);
                }
                Type::Concrete(s.clone(), out)
            },
            Type::Pointer { element, provenance, is_mutable } => Type::Pointer {
                element: Box::new((**element).clone()),
                provenance: Provenance::Naked,
                is_mutable: *is_mutable,
            },
            Type::Reference(inner, m) => Type::Reference(Box::new((**inner).clone()), *m),
            Type::Owned(inner) => Type::Owned(Box::new((**inner).clone())),
            Type::Atomic(inner) => Type::Atomic(Box::new((**inner).clone())),
            Type::Array(inner, n, p) => Type::Array(Box::new((**inner).clone()), *n, *p),
            Type::Tuple(elems) => {
                let mut out: Vec<Type> = Vec::new();
                let mut i: usize = 0;
                while i < elems.len()
                    invariant
                        *self == Type::Tuple(*elems),
                        0 <= i <= elems.len(),
                        out@.len() == i,
                        forall|j: int| 0 <= j < i ==> (#[trigger] out@[j])@ == elems@[j]@,
                    decreases elems.len() - i,
                {
                    proof {
                        assert(decreases_to!(*self => (*self)->Tuple_0));
                        assert(decreases_to!(*elems => elems@));
                        assert(decreases_to!(elems@ => elems@[i as int]));
                    }
                    out.push(elems[i].clone());
                    i += 1;
                }
                proof {
                    lemma_list_view_eq(out@, elems@);
                }
                Type::Tuple(out)
            },
            Type::Fn(args, ret) => {
                let mut out: Vec<Type> = Vec::new();
                let mut i: usize = 0;
                while i < args.len()
                    invariant
                        *self == Type::Fn(*args, *ret),
                        0 <= i <= args.len(),
                        out@.len() == i,
                        forall|j: int| 0 <= j < i ==> (#[trigger] out@[j])@ == args@[j]@,
                    decreases args.len() - i,
                {
                    proof {
                        assert(decreases_to!(*self => (*self)->Fn_0));
                        assert(decreases_to!(*args => args@));
                        assert(decreases_to!(args@ => args@[i as int]));
                    }
                    out.push(args[i].clone());
                    i += 1;
                }
                proof {
                    lemma_list_view_eq(out@, args@);
                }
                Type::Fn(out, Box::new((**ret).clone()))
            },
            Type::Tensor(inner, shape) => Type::Tensor(Box::new((**inner).clone()), shape.clone()),
        }
    }
}

/// Identifies a named type: its module path, its full name and, where it
/// applies, the type arguments it was specialised with.
#[derive(Debug, PartialEq, Eq)]
pub struct TypeKey {
    pub path: Vec<String>,
    pub name: String,
    pub specialization: Option<Vec<Type>>,
}

/// The unsigned integer types.
pub open spec fn spec_is_unsigned(t: SpecType) -> bool {
    t is U8 || t is U16 || t is U32 || t is U64 || t is Usize
}

/// Whether a type is represented by a machine pointer: raw pointers,
/// references, owned boxes, and generic types whose name mentions `Ptr`.
pub open spec fn spec_is_ptr_type(t: SpecType) -> bool {
    match t {
        SpecType::Pointer { .. } | SpecType::Reference(..) | SpecType::Owned(..) => true,
        SpecType::Concrete(name, _) => contains_seq(name, seq!['P', 't', 'r']),
        _ => false,
    }
}

/// The row/column of a type in the numeric promotion table.
pub open spec fn spec_numeric_idx(t: SpecType) -> Option<usize> {
    match t {
        SpecType::I8 => Some(0),
        SpecType::I16 => Some(1),
        SpecType::I32 => Some(2),
        SpecType::I64 => Some(3),
        SpecType::U8 => Some(4),
        SpecType::U16 => Some(5),
        SpecType::U32 => Some(6),
        SpecType::U64 => Some(7),
        SpecType::Usize => Some(8),
        SpecType::F32 => Some(9),
        SpecType::F64 => Some(10),
        SpecType::Bool => Some(11),
        _ => None,
    }
}

/// The width in bits of a scalar type; zero for every other type.
pub open spec fn spec_bit_width(t: SpecType) -> u32 {
    match t {
        SpecType::I8 | SpecType::U8 | SpecType::Bool => 8,
        SpecType::I16 | SpecType::U16 => 16,
        SpecType::I32 | SpecType::U32 | SpecType::F32 => 32,
        SpecType::I64 | SpecType::U64 | SpecType::Usize | SpecType::F64 => 64,
        _ => 0,
    }
}

impl Type {
    /// Whether this is an unsigned integer type.
    pub fn is_unsigned(&self) -> (r: bool)
        ensures
            r == spec_is_unsigned(self@),
    {
        match self {
            Type::U8 | Type::U16 | Type::U32 | Type::U64 | Type::Usize => true,
            _ => false,
        }
    }

    /// Whether values of this type are machine pointers.
    pub fn k_is_ptr_type(&self) -> (r: bool)
        ensures
            r == spec_is_ptr_type(self@),
    {
        match self {
            Type::Pointer { .. } | Type::Reference(..) | Type::Owned(..) => true,
            Type::Concrete(name, _) => {
                let ptr = "Ptr";
                proof {
                    reveal_strlit("Ptr");
                    assert(ptr@ =~= seq!['P', 't', 'r']);
                }
                contains_str(name.as_str(), ptr)
            },
            _ => false,
        }
    }
}

/// The index of a numeric type in the promotion table.
pub fn get_numeric_idx(ty: &Type) -> (r: Option<usize>)
    ensures
        r == spec_numeric_idx(ty@),
{
    match ty {
        Type::I8 => Some(0),
        Type::I16 => Some(1),
        Type::I32 => Some(2),
        Type::I64 => Some(3),
        Type::U8 => Some(4),
        Type::U16 => Some(5),
        Type::U32 => Some(6),
        Type::U64 => Some(7),
        Type::Usize => Some(8),
        Type::F32 => Some(9),
        Type::F64 => Some(10),
        Type::Bool => Some(11),
        _ => None,
    }
}

/// The storage width in bits of a scalar type (`bool` occupies a byte);
/// zero for non-scalar types.
pub fn get_bit_width(ty: &Type) -> (r: u32)
    ensures
        r == spec_bit_width(ty@),
{
    match ty {
        Type::I8 | Type::U8 | Type::Bool => 8,
        Type::I16 | Type::U16 => 16,
        Type::I32 | Type::U32 | Type::F32 => 32,
        Type::I64 | Type::U64 | Type::Usize | Type::F64 => 64,
        _ => 0,
    }
}

} // verus!
