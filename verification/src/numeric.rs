//! Numeric code generation: which MLIR operation implements a binary
//! operator on a given type, which predicate a comparison uses, and which
//! extension widens one integer type to another.
use vstd::prelude::*;
use crate::types::{Type, SpecType, spec_is_unsigned, spec_numeric_idx, spec_bit_width};

verus! {

/// A binary operator of the surface language, compound assignments included.
#[derive(Clone, Copy, Debug, PartialEq, Eq, Structural)]
pub enum BinOp {
    Add,
    Sub,
    Mul,
    Div,
    Rem,
    And,
    Or,
    BitXor,
    BitAnd,
    BitOr,
    Shl,
    Shr,
    Eq,
    Lt,
    Le,
    Ne,
    Ge,
    Gt,
    AddAssign,
    SubAssign,
    MulAssign,
    DivAssign,
    RemAssign,
    BitXorAssign,
    BitAndAssign,
    BitOrAssign,
    ShlAssign,
    ShrAssign,
}

/// The floating-point types.
pub open spec fn spec_is_float(t: SpecType) -> bool {
    t is F32 || t is F64
}

/// Types whose values are addresses and are compared with `llvm.icmp`.
pub open spec fn spec_is_address(t: SpecType) -> bool {
    t is Reference || t is Owned || t is Pointer
}

/// The six comparison operators.
pub open spec fn spec_is_comparison(op: BinOp) -> bool {
    op is Eq || op is Lt || op is Le || op is Ne || op is Ge || op is Gt
}

/// The MLIR operation that computes `op` on operands of type `t`: the float
/// form on floats, the unsigned form of division, remainder and right shift
/// on unsigned integers, and for a comparison the compare operation of the
/// operand kind.
pub open spec fn spec_arith_op(op: BinOp, t: SpecType) -> Seq<char> {
    let f = spec_is_float(t);
    let u = spec_is_unsigned(t);
    match op {
        BinOp::Add | BinOp::AddAssign => if f { "arith.addf"@ } else { "arith.addi"@ },
        BinOp::Sub | BinOp::SubAssign => if f { "arith.subf"@ } else { "arith.subi"@ },
        BinOp::Mul | BinOp::MulAssign => if f { "arith.mulf"@ } else { "arith.muli"@ },
        BinOp::Div | BinOp::DivAssign => if f {
            "arith.divf"@
        } else if u {
            "arith.divui"@
        } else {
            "arith.divsi"@
        },
        BinOp::Rem | BinOp::RemAssign => if f {
            "arith.remf"@
        } else if u {
            "arith.remui"@
        } else {
            "arith.remsi"@
        },
        BinOp::BitAnd | BinOp::BitAndAssign | BinOp::And => "arith.andi"@,
        BinOp::BitOr | BinOp::BitOrAssign | BinOp::Or => "arith.ori"@,
        BinOp::BitXor | BinOp::BitXorAssign => "arith.xori"@,
        BinOp::Shl | BinOp::ShlAssign => "arith.shli"@,
        BinOp::Shr | BinOp::ShrAssign => if u { "arith.shrui"@ } else { "arith.shrsi"@ },
        BinOp::Eq | BinOp::Lt | BinOp::Le | BinOp::Gt | BinOp::Ge | BinOp::Ne => if f {
            "arith.cmpf"@
        } else if spec_is_address(t) {
            "llvm.icmp"@
        } else {
            "arith.cmpi"@
        },
    }
}

/// The predicate of a comparison: ordered predicates on floats, unsigned
/// ones on unsigned integers and raw pointers, signed ones otherwise; any
/// other operator gets `eq`.
pub open spec fn spec_comparison_pred(op: BinOp, t: SpecType) -> Seq<char> {
    let f = spec_is_float(t);
    let u = spec_is_unsigned(t) || t is Pointer;
    match op {
        BinOp::Eq => if f { "oeq"@ } else { "eq"@ },
        BinOp::Ne => if f { "une"@ } else { "ne"@ },
        BinOp::Lt => if f { "olt"@ } else if u { "ult"@ } else { "slt"@ },
        BinOp::Le => if f { "ole"@ } else if u { "ule"@ } else { "sle"@ },
        BinOp::Gt => if f { "ogt"@ } else if u { "ugt"@ } else { "sgt"@ },
        BinOp::Ge => if f { "oge"@ } else if u { "uge"@ } else { "sge"@ },
        _ => "eq"@,
    }
}

/// The MLIR operation for `op` applied to operands of type `ty`.
pub fn get_arith_op(op: &BinOp, ty: &Type) -> (r: String)
    ensures
        r@ == spec_arith_op(*op, ty@),
{
    let is_float = match ty {
        Type::F32 | Type::F64 => true,
        _ => false,
    };
    let is_unsigned = ty.is_unsigned();
    match op {
        BinOp::Add | BinOp::AddAssign => if is_float {
            String::from_str("arith.addf")
        } else {
            String::from_str("arith.addi")
        },
        BinOp::Sub | BinOp::SubAssign => if is_float {
            String::from_str("arith.subf")
        } else {
            String::from_str("arith.subi")
        },
        BinOp::Mul | BinOp::MulAssign => if is_float {
            String::from_str("arith.mulf")
        } else {
            String::from_str("arith.muli")
        },
        BinOp::Div | BinOp::DivAssign => if is_float {
            String::from_str("arith.divf")
        } else if is_unsigned {
            String::from_str("arith.divui")
        } else {
            String::from_str("arith.divsi")
        },
        BinOp::Rem | BinOp::RemAssign => if is_float {
            String::from_str("arith.remf")
        } else if is_unsigned {
            String::from_str("arith.remui")
        } else {
            String::from_str("arith.remsi")
        },
        BinOp::BitAnd | BinOp::BitAndAssign | BinOp::And => String::from_str("arith.andi"),
        BinOp::BitOr | BinOp::BitOrAssign | BinOp::Or => String::from_str("arith.ori"),
        BinOp::BitXor | BinOp::BitXorAssign => String::from_str("arith.xori"),
        BinOp::Shl | BinOp::ShlAssign => String::from_str("arith.shli"),
        BinOp::Shr | BinOp::ShrAssign => if is_unsigned {
            String::from_str("arith.shrui")
        } else {
            String::from_str("arith.shrsi")
        },
        BinOp::Eq | BinOp::Lt | BinOp::Le | BinOp::Gt | BinOp::Ge | BinOp::Ne => {
            if is_float {
                String::from_str("arith.cmpf")
            } else {
                match ty {
                    Type::Reference(..) | Type::Owned(..) | Type::Pointer { .. } => String::from_str(
                        "llvm.icmp",
                    ),
                    _ => String::from_str("arith.cmpi"),
                }
            }
        },
    }
}

/// The comparison predicate for `op` on operands of type `ty`.
pub fn get_comparison_pred(op: &BinOp, ty: &Type) -> (r: String)
    ensures
        r@ == spec_comparison_pred(*op, ty@),
{
    let is_float = match ty {
        Type::F32 | Type::F64 => true,
        _ => false,
    };
    let is_unsigned = ty.is_unsigned() || match ty {
        Type::Pointer { .. } => true,
        _ => false,
    };
    match op {
        BinOp::Eq => if is_float {
            String::from_str("oeq")
        } else {
            String::from_str("eq")
        },
        BinOp::Ne => if is_float {
            String::from_str("une")
        } else {
            String::from_str("ne")
        },
        BinOp::Lt => if is_float {
            String::from_str("olt")
        } else if is_unsigned {
            String::from_str("ult")
        } else {
            String::from_str("slt")
        },
        BinOp::Le => if is_float {
            String::from_str("ole")
        } else if is_unsigned {
            String::from_str("ule")
        } else {
            String::from_str("sle")
        },
        BinOp::Gt => if is_float {
            String::from_str("ogt")
        } else if is_unsigned {
            String::from_str("ugt")
        } else {
            String::from_str("sgt")
        },
        BinOp::Ge => if is_float {
            String::from_str("oge")
        } else if is_unsigned {
            String::from_str("uge")
        } else {
            String::from_str("sge")
        },
        _ => String::from_str("eq"),
    }
}

/// The width and signedness of the integer rows of the promotion table
/// (rows 0 to 8: `i8`..`i64`, `u8`..`u64`, `usize`).
pub open spec fn spec_int_row(i: int) -> Option<(int, bool)> {
    if i == 0 {
        Some((8, true))
    } else if i == 1 {
        Some((16, true))
    } else if i == 2 {
        Some((32, true))
    } else if i == 3 {
        Some((64, true))
    } else if i == 4 {
        Some((8, false))
    } else if i == 5 {
        Some((16, false))
    } else if i == 6 {
        Some((32, false))
    } else if i == 7 || i == 8 {
        Some((64, false))
    } else {
        None
    }
}

/// The MLIR name of the integer type of a width.
pub open spec fn spec_int_name(w: int) -> Seq<char> {
    if w == 8 {
        "i8"@
    } else if w == 16 {
        "i16"@
    } else if w == 32 {
        "i32"@
    } else {
        "i64"@
    }
}

/// The promotion from the type at table index `src` to the one at `dst`, as
/// (operation, source MLIR type, target MLIR type): an integer widens to any
/// strictly wider integer, by sign extension when the source is signed and
/// zero extension otherwise; `f32` widens to `f64`; nothing else promotes.
pub open spec fn spec_promotion(src: int, dst: int) -> Option<(Seq<char>, Seq<char>, Seq<char>)> {
    if src == 9 && dst == 10 {
        Some(("arith.extf"@, "f32"@, "f64"@))
    } else {
        match (spec_int_row(src), spec_int_row(dst)) {
            (Some((ws, signed)), Some((wd, _))) => if ws < wd {
                Some(
                    (
                        if signed { "arith.extsi"@ } else { "arith.extui"@ },
                        spec_int_name(ws),
                        spec_int_name(wd),
                    ),
                )
            } else {
                None
            },
            _ => None,
        }
    }
}

fn int_row(i: usize) -> (r: Option<(u32, bool)>)
    ensures
        match r {
            Some((w, s)) => spec_int_row(i as int) == Some((w as int, s)),
            None => spec_int_row(i as int) is None,
        },
{
    if i == 0 {
        Some((8, true))
    } else if i == 1 {
        Some((16, true))
    } else if i == 2 {
        Some((32, true))
    } else if i == 3 {
        Some((64, true))
    } else if i == 4 {
        Some((8, false))
    } else if i == 5 {
        Some((16, false))
    } else if i == 6 {
        Some((32, false))
    } else if i == 7 || i == 8 {
        Some((64, false))
    } else {
        None
    }
}

fn int_name(w: u32) -> (r: String)
    ensures
        r@ == spec_int_name(w as int),
{
    if w == 8 {
        String::from_str("i8")
    } else if w == 16 {
        String::from_str("i16")
    } else if w == 32 {
        String::from_str("i32")
    } else {
        String::from_str("i64")
    }
}

/// The entry of the numeric promotion table at row `src` (the source type's
/// index, see `get_numeric_idx`) and column `dst` (the target's).
pub fn promotion_op(src: usize, dst: usize) -> (r: Option<(String, String, String)>)
    requires
        src < 12,
        dst < 12,
    ensures
        match r {
            Some((op, from, to)) => spec_promotion(src as int, dst as int) == Some((op@, from@, to@)),
            None => spec_promotion(src as int, dst as int) is None,
        },
{
    if src == 9 && dst == 10 {
        return Some((String::from_str("arith.extf"), String::from_str("f32"), String::from_str("f64")));
    }
    match (int_row(src), int_row(dst)) {
        (Some((ws, signed)), Some((wd, _))) => if ws < wd {
            let op = if signed {
                String::from_str("arith.extsi")
            } else {
                String::from_str("arith.extui")
            };
            Some((op, int_name(ws), int_name(wd)))
        } else {
            None
        },
        _ => None,
    }
}

/// The integer types.
pub open spec fn spec_is_integer(t: SpecType) -> bool {
    t is I8 || t is I16 || t is I32 || t is I64 || spec_is_unsigned(t)
}

/// Between two numeric types (those with a table index), a promotion exists
/// exactly when both are integers and the target is strictly wider in bits,
/// or the source is `f32` and the target `f64`; an integer promotion sign
/// extends exactly when the source is signed.
pub proof fn law_promotion_is_widening(a: SpecType, b: SpecType)
    requires
        spec_numeric_idx(a) is Some,
        spec_numeric_idx(b) is Some,
    ensures
        ({
            let p = spec_promotion(spec_numeric_idx(a)->0 as int, spec_numeric_idx(b)->0 as int);
            &&& p is Some <==> ((spec_is_integer(a) && spec_is_integer(b) && spec_bit_width(a)
                < spec_bit_width(b)) || (a is F32 && b is F64))
            &&& spec_is_integer(a) ==> (p matches Some(e) ==> (e.0 == "arith.extsi"@
                <==> !spec_is_unsigned(a)))
        }),
{
    reveal_strlit("arith.extsi");
    reveal_strlit("arith.extui");
    assert("arith.extsi"@[9] != "arith.extui"@[9]);
}

/// An ordering comparison lowers to a three-letter predicate: its first
/// letter is the kind of comparison the operands call for (`o`rdered on
/// floats, `u`nsigned on unsigned integers and raw pointers, `s`igned
/// otherwise), then `l` or `g` for the direction, then `t` for a strict
/// and `e` for a non-strict comparison.
pub proof fn law_ordering_predicates(op: BinOp, t: SpecType)
    requires
        op is Lt || op is Le || op is Gt || op is Ge,
    ensures
        spec_comparison_pred(op, t).len() == 3,
        spec_comparison_pred(op, t)[0] == (if spec_is_float(t) {
            'o'
        } else if spec_is_unsigned(t) || t is Pointer {
            'u'
        } else {
            's'
        }),
        spec_comparison_pred(op, t)[1] == (if op is Lt || op is Le { 'l' } else { 'g' }),
        spec_comparison_pred(op, t)[2] == (if op is Lt || op is Gt { 't' } else { 'e' }),
{
    reveal_strlit("olt");
    reveal_strlit("ult");
    reveal_strlit("slt");
    reveal_strlit("ole");
    reveal_strlit("ule");
    reveal_strlit("sle");
    reveal_strlit("ogt");
    reveal_strlit("ugt");
    reveal_strlit("sgt");
    reveal_strlit("oge");
    reveal_strlit("uge");
    reveal_strlit("sge");
}

} // verus!
