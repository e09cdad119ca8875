//! The `Debug` rendering of types, used as the name of non-nominal type keys.
use vstd::prelude::*;
use crate::text::{decimal, usize_to_decimal};
use crate::types::{Type, SpecType, type_view, list_view, lemma_list_view};

verus! {

/// A character inside a quoted name, escaped the way `Debug` escapes the
/// common control characters, quotes and backslashes.
pub open spec fn escape_char(c: char) -> Seq<char> {
    if c == '\t' {
        seq!['\\', 't']
    } else if c == '\r' {
        seq!['\\', 'r']
    } else if c == '\n' {
        seq!['\\', 'n']
    } else if c == '\\' {
        seq!['\\', '\\']
    } else if c == '"' {
        seq!['\\', '"']
    } else if c == '\0' {
        seq!['\\', '0']
    } else {
        seq![c]
    }
}

/// The escaped characters of a name.
pub open spec fn escape_text(s: Seq<char>) -> Seq<char>
    decreases s.len(),
{
    if s.len() == 0 {
        Seq::empty()
    } else {
        escape_text(s.drop_last()) + escape_char(s.last())
    }
}

/// A name in double quotes.
pub open spec fn quoted(s: Seq<char>) -> Seq<char> {
    seq!['"'] + escape_text(s) + seq!['"']
}

pub open spec fn bool_text(b: bool) -> Seq<char> {
    if b { "true"@ } else { "false"@ }
}

/// The `Debug` rendering of a type.
pub open spec fn debug_text(t: SpecType) -> Seq<char>
    decreases t,
{
    match t {
        SpecType::I8 => "I8"@,
        SpecType::I16 => "I16"@,
        SpecType::I32 => "I32"@,
        SpecType::I64 => "I64"@,
        SpecType::U8 => "U8"@,
        SpecType::U16 => "U16"@,
        SpecType::U32 => "U32"@,
        SpecType::U64 => "U64"@,
        SpecType::Usize => "Usize"@,
        SpecType::F32 => "F32"@,
        SpecType::F64 => "F64"@,
        SpecType::Bool => "Bool"@,
        SpecType::Unit => "Unit"@,
        SpecType::Never => "Never"@,
        SpecType::SelfType => "SelfType"@,
        SpecType::Struct(s) => "Struct("@ + quoted(s) + ")"@,
        SpecType::Enum(s) => "Enum("@ + quoted(s) + ")"@,
        SpecType::Generic(s) => "Generic("@ + quoted(s) + ")"@,
        SpecType::Concrete(s, args) => {
            proof {
                assert(decreases_to!(t => t->Concrete_1));
            }
            "Concrete("@ + quoted(s) + ", ["@ + debug_list(args) + "])"@
        },
        SpecType::Pointer { element, is_mutable } => "Pointer { element: "@ + debug_text(*element)
            + ", provenance: Naked, is_mutable: "@ + bool_text(is_mutable) + " }"@,
        SpecType::Reference(inner, m) => "Reference("@ + debug_text(*inner) + ", "@ + bool_text(m)
            + ")"@,
        SpecType::Owned(inner) => "Owned("@ + debug_text(*inner) + ")"@,
        SpecType::Atomic(inner) => "Atomic("@ + debug_text(*inner) + ")"@,
        SpecType::Array(inner, n, p) => "Array("@ + debug_text(*inner) + ", "@ + decimal(n) + ", "@
            + bool_text(p) + ")"@,
        SpecType::Tuple(elems) => {
            proof {
                assert(decreases_to!(t => t->Tuple_0));
            }
            "Tuple(["@ + debug_list(elems) + "])"@
        },
        SpecType::Fn(args, ret) => {
            proof {
                assert(decreases_to!(t => t->Fn_0));
            }
            "Fn(["@ + debug_list(args) + "], "@ + debug_text(*ret) + ")"@
        },
        SpecType::Tensor(inner, shape) => "Tensor("@ + debug_text(*inner) + ", ["@ + decimal_list(
            shape,
        ) + "])"@,
    }
}

/// The renderings of a list of types, separated by `", "`.
pub open spec fn debug_list(s: Seq<SpecType>) -> Seq<char>
    decreases s,
{
    if s.len() == 0 {
        Seq::empty()
    } else {
        proof {
            assert(decreases_to!(s => s.subrange(0, s.len() - 1)));
            assert(decreases_to!(s => s[s.len() - 1]));
        }
        if s.len() == 1 {
            debug_text(s[0])
        } else {
            debug_list(s.subrange(0, s.len() - 1)) + ", "@ + debug_text(s[s.len() - 1])
        }
    }
}

/// Decimal renderings of a list of sizes, separated by `", "`.
pub open spec fn decimal_list(s: Seq<usize>) -> Seq<char>
    decreases s.len(),
{
    if s.len() == 0 {
        Seq::empty()
    } else if s.len() == 1 {
        decimal(s[0] as nat)
    } else {
        decimal_list(s.drop_last()) + ", "@ + decimal(s.last() as nat)
    }
}

/// Appends the escaped characters of `name` to `out`.
fn append_escaped(out: &mut String, name: &str)
    ensures
        final(out)@ == old(out)@ + escape_text(name@),
{
    let n = name.unicode_len();
    let mut i: usize = 0;
    while i < n
        invariant
            n == name@.len(),
            0 <= i <= n,
            out@ == old(out)@ + escape_text(name@.subrange(0, i as int)),
        decreases n - i,
    {
        let c = name.get_char(i);
        proof {
            reveal_strlit("\\t");
            reveal_strlit("\\r");
            reveal_strlit("\\n");
            reveal_strlit("\\\\");
            reveal_strlit("\\\"");
            reveal_strlit("\\0");
        }
        if c == '\t' {
            out.append("\\t");
        } else if c == '\r' {
            out.append("\\r");
        } else if c == '\n' {
            out.append("\\n");
        } else if c == '\\' {
            out.append("\\\\");
        } else if c == '"' {
            out.append("\\\"");
        } else if c == '\0' {
            out.append("\\0");
        } else {
            out.append(name.substring_char(i, i + 1));
        }
        proof {
            let pre = name@.subrange(0, i + 1);
            assert(pre.drop_last() =~= name@.subrange(0, i as int));
            assert(pre.last() == c);
            assert(name@.subrange(i as int, i + 1) =~= seq![c]);
        }
        i += 1;
    }
    assert(name@.subrange(0, n as int) =~= name@);
}

fn append_quoted(out: &mut String, name: &str)
    ensures
        final(out)@ == old(out)@ + quoted(name@),
{
    proof {
        reveal_strlit("\"");
    }
    out.append("\"");
    append_escaped(out, name);
    out.append("\"");
    assert(out@ =~= old(out)@ + quoted(name@));
}

fn append_bool(out: &mut String, b: bool)
    ensures
        final(out)@ == old(out)@ + bool_text(b),
{
    proof {
        reveal_strlit("true");
        reveal_strlit("false");
    }
    if b {
        out.append("true");
    } else {
        out.append("false");
    }
}

/// Appends the renderings of a list of types.
fn append_debug_list(out: &mut String, items: &Vec<Type>)
    ensures
        final(out)@ == old(out)@ + debug_list(list_view(items@)),
    decreases items@, 1nat,
{
    let mut i: usize = 0;
    proof {
        lemma_list_view(items@);
        reveal_strlit(", ");
        assert(list_view(items@).subrange(0, 0) =~= Seq::<SpecType>::empty());
        assert(debug_list(Seq::<SpecType>::empty()) =~= Seq::<char>::empty());
    }
    while i < items.len()
        invariant
            0 <= i <= items.len(),
            list_view(items@).len() == items@.len(),
            forall|j: int| 0 <= j < items@.len() ==> #[trigger] list_view(items@)[j] == type_view(
                items@[j],
            ),
            out@ == old(out)@ + debug_list(list_view(items@).subrange(0, i as int)),
        decreases items.len() - i,
    {
        let ghost before = out@;
        if i > 0 {
            out.append(", ");
        }
        proof {
            assert(decreases_to!(items@ => items@[i as int]));
        }
        append_debug(out, &items[i]);
        proof {
            let s = list_view(items@).subrange(0, i + 1);
            assert(s.subrange(0, s.len() - 1) =~= list_view(items@).subrange(0, i as int));
            assert(s[s.len() - 1] == type_view(items@[i as int]));
            if i == 0 {
                assert(out@ =~= old(out)@ + debug_list(s));
            } else {
                assert(out@ =~= old(out)@ + debug_list(s));
            }
        }
        i += 1;
    }
    assert(list_view(items@).subrange(0, items@.len() as int) =~= list_view(items@));
}

fn append_decimal_list(out: &mut String, items: &Vec<usize>)
    ensures
        final(out)@ == old(out)@ + decimal_list(items@),
{
    let mut i: usize = 0;
    proof {
        reveal_strlit(", ");
        assert(items@.subrange(0, 0) =~= Seq::<usize>::empty());
    }
    while i < items.len()
        invariant
            0 <= i <= items.len(),
            out@ == old(out)@ + decimal_list(items@.subrange(0, i as int)),
        decreases items.len() - i,
    {
        if i > 0 {
            out.append(", ");
        }
        let d = usize_to_decimal(items[i]);
        out.append(d.as_str());
        proof {
            let s = items@.subrange(0, i + 1);
            assert(s.drop_last() =~= items@.subrange(0, i as int));
            assert(out@ =~= old(out)@ + decimal_list(s));
        }
        i += 1;
    }
    assert(items@.subrange(0, items@.len() as int) =~= items@);
}

/// Appends the `Debug` rendering of `t`.
fn append_debug(out: &mut String, t: &Type)
    ensures
        final(out)@ == old(out)@ + debug_text(t@),
    decreases t, 0nat,
{
    let ghost before = out@;
    match t {
        Type::I8 => { proof { reveal_strlit("I8"); } out.append("I8"); },
        Type::I16 => { proof { reveal_strlit("I16"); } out.append("I16"); },
        Type::I32 => { proof { reveal_strlit("I32"); } out.append("I32"); },
        Type::I64 => { proof { reveal_strlit("I64"); } out.append("I64"); },
        Type::U8 => { proof { reveal_strlit("U8"); } out.append("U8"); },
        Type::U16 => { proof { reveal_strlit("U16"); } out.append("U16"); },
        Type::U32 => { proof { reveal_strlit("U32"); } out.append("U32"); },
        Type::U64 => { proof { reveal_strlit("U64"); } out.append("U64"); },
        Type::Usize => { proof { reveal_strlit("Usize"); } out.append("Usize"); },
        Type::F32 => { proof { reveal_strlit("F32"); } out.append("F32"); },
        Type::F64 => { proof { reveal_strlit("F64"); } out.append("F64"); },
        Type::Bool => { proof { reveal_strlit("Bool"); } out.append("Bool"); },
        Type::Unit => { proof { reveal_strlit("Unit"); } out.append("Unit"); },
        Type::Never => { proof { reveal_strlit("Never"); } out.append("Never"); },
        Type::SelfType => { proof { reveal_strlit("SelfType"); } out.append("SelfType"); },
        Type::Struct(s) => {
            proof { reveal_strlit("Struct("); reveal_strlit(")"); }
            out.append("Struct(");
            append_quoted(out, s.as_str());
            out.append(")");
            assert(out@ =~= before + debug_text(t@));
        },
        Type::Enum(s) => {
            proof { reveal_strlit("Enum("); reveal_strlit(")"); }
            out.append("Enum(");
            append_quoted(out, s.as_str());
            out.append(")");
            assert(out@ =~= before + debug_text(t@));
        },
        Type::Generic(s) => {
            proof { reveal_strlit("Generic("); reveal_strlit(")"); }
            out.append("Generic(");
            append_quoted(out, s.as_str());
            out.append(")");
            assert(out@ =~= before + debug_text(t@));
        },
        Type::Concrete(s, args) => {
            proof { reveal_strlit("Concrete("); reveal_strlit(", ["); reveal_strlit("])"); }
            out.append("Concrete(");
            append_quoted(out, s.as_str());
            out.append(", [");
            proof {
                assert(decreases_to!(*t => (*t)->Concrete_1));
                assert(decreases_to!(*args => args@));
            }
            append_debug_list(out, args);
            out.append("])");
            assert(out@ =~= before + debug_text(t@));
        },
        Type::Pointer { element, provenance, is_mutable } => {
            proof {
                reveal_strlit("Pointer { element: ");
                reveal_strlit(", provenance: Naked, is_mutable: ");
                reveal_strlit(" }");
            }
            out.append("Pointer { element: ");
            append_debug(out, &**element);
            out.append(", provenance: Naked, is_mutable: ");
            append_bool(out, *is_mutable);
            out.append(" }");
            assert(out@ =~= before + debug_text(t@));
        },
        Type::Reference(inner, m) => {
            proof { reveal_strlit("Reference("); reveal_strlit(", "); reveal_strlit(")"); }
            out.append("Reference(");
            append_debug(out, &**inner);
            out.append(", ");
            append_bool(out, *m);
            out.append(")");
            assert(out@ =~= before + debug_text(t@));
        },
        Type::Owned(inner) => {
            proof { reveal_strlit("Owned("); reveal_strlit(")"); }
            out.append("Owned(");
            append_debug(out, &**inner);
            out.append(")");
            assert(out@ =~= before + debug_text(t@));
        },
        Type::Atomic(inner) => {
            proof { reveal_strlit("Atomic("); reveal_strlit(")"); }
            out.append("Atomic(");
            append_debug(out, &**inner);
            out.append(")");
            assert(out@ =~= before + debug_text(t@));
        },
        Type::Array(inner, n, p) => {
            proof { reveal_strlit("Array("); reveal_strlit(", "); reveal_strlit(")"); }
            out.append("Array(");
            append_debug(out, &**inner);
            out.append(", ");
            let d = usize_to_decimal(*n);
            out.append(d.as_str());
            out.append(", ");
            append_bool(out, *p);
            out.append(")");
            assert(out@ =~= before + debug_text(t@));
        },
        Type::Tuple(elems) => {
            proof { reveal_strlit("Tuple(["); reveal_strlit("])"); }
            out.append("Tuple([");
            proof {
                assert(decreases_to!(*t => (*t)->Tuple_0));
                assert(decreases_to!(*elems => elems@));
            }
            append_debug_list(out, elems);
            out.append("])");
            assert(out@ =~= before + debug_text(t@));
        },
        Type::Fn(args, ret) => {
            proof { reveal_strlit("Fn(["); reveal_strlit("], "); reveal_strlit(")"); }
            out.append("Fn([");
            proof {
                assert(decreases_to!(*t => (*t)->Fn_0));
                assert(decreases_to!(*args => args@));
            }
            append_debug_list(out, args);
            out.append("], ");
            append_debug(out, &**ret);
            out.append(")");
            assert(out@ =~= before + debug_text(t@));
        },
        Type::Tensor(inner, shape) => {
            proof { reveal_strlit("Tensor("); reveal_strlit(", ["); reveal_strlit("])"); }
            out.append("Tensor(");
            append_debug(out, &**inner);
            out.append(", [");
            append_decimal_list(out, shape);
            out.append("])");
            assert(out@ =~= before + debug_text(t@));
        },
    }
}

/// The `Debug` rendering of a type as a new string.
pub fn debug_string(t: &Type) -> (r: String)
    ensures
        r@ == debug_text(t@),
{
    let mut out = String::new();
    append_debug(&mut out, t);
    assert(out@ =~= debug_text(t@));
    out
}

} // verus!
