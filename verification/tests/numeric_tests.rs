use salt_front::numeric::{get_arith_op, get_comparison_pred, promotion_op, BinOp};
use salt_front::types::{get_numeric_idx, Provenance, Type};

fn ptr_to(t: Type) -> Type {
    Type::Pointer { element: Box::new(t), provenance: Provenance::Naked, is_mutable: false }
}

#[test]
fn arith_op_integer_and_float_forms() {
    assert_eq!(get_arith_op(&BinOp::Add, &Type::I32), "arith.addi");
    assert_eq!(get_arith_op(&BinOp::AddAssign, &Type::F64), "arith.addf");
    assert_eq!(get_arith_op(&BinOp::Sub, &Type::U8), "arith.subi");
    assert_eq!(get_arith_op(&BinOp::Mul, &Type::F32), "arith.mulf");
    assert_eq!(get_arith_op(&BinOp::BitXorAssign, &Type::U64), "arith.xori");
    assert_eq!(get_arith_op(&BinOp::Shl, &Type::I8), "arith.shli");
}

#[test]
fn arith_op_signedness_matters_for_div_rem_shr() {
    assert_eq!(get_arith_op(&BinOp::Div, &Type::U32), "arith.divui");
    assert_eq!(get_arith_op(&BinOp::Div, &Type::I32), "arith.divsi");
    assert_eq!(get_arith_op(&BinOp::DivAssign, &Type::F32), "arith.divf");
    assert_eq!(get_arith_op(&BinOp::Rem, &Type::Usize), "arith.remui");
    assert_eq!(get_arith_op(&BinOp::RemAssign, &Type::I64), "arith.remsi");
    assert_eq!(get_arith_op(&BinOp::Rem, &Type::F64), "arith.remf");
    assert_eq!(get_arith_op(&BinOp::Shr, &Type::U16), "arith.shrui");
    assert_eq!(get_arith_op(&BinOp::ShrAssign, &Type::I16), "arith.shrsi");
}

#[test]
fn arith_op_logical_operators_are_bitwise() {
    assert_eq!(get_arith_op(&BinOp::And, &Type::Bool), "arith.andi");
    assert_eq!(get_arith_op(&BinOp::Or, &Type::Bool), "arith.ori");
    assert_eq!(get_arith_op(&BinOp::BitAndAssign, &Type::U8), "arith.andi");
    assert_eq!(get_arith_op(&BinOp::BitOr, &Type::I32), "arith.ori");
}

#[test]
fn arith_op_comparisons_by_operand_kind() {
    assert_eq!(get_arith_op(&BinOp::Eq, &Type::I32), "arith.cmpi");
    assert_eq!(get_arith_op(&BinOp::Lt, &Type::F64), "arith.cmpf");
    assert_eq!(get_arith_op(&BinOp::Ne, &ptr_to(Type::U8)), "llvm.icmp");
    assert_eq!(get_arith_op(&BinOp::Ge, &Type::Reference(Box::new(Type::I64), false)), "llvm.icmp");
    assert_eq!(get_arith_op(&BinOp::Gt, &Type::Owned(Box::new(Type::I64))), "llvm.icmp");
    assert_eq!(get_arith_op(&BinOp::Le, &Type::Bool), "arith.cmpi");
}

#[test]
fn comparison_predicates() {
    assert_eq!(get_comparison_pred(&BinOp::Eq, &Type::I32), "eq");
    assert_eq!(get_comparison_pred(&BinOp::Eq, &Type::F32), "oeq");
    assert_eq!(get_comparison_pred(&BinOp::Ne, &Type::F64), "une");
    assert_eq!(get_comparison_pred(&BinOp::Ne, &Type::U8), "ne");
    assert_eq!(get_comparison_pred(&BinOp::Lt, &Type::I64), "slt");
    assert_eq!(get_comparison_pred(&BinOp::Lt, &Type::U64), "ult");
    assert_eq!(get_comparison_pred(&BinOp::Le, &Type::F32), "ole");
    assert_eq!(get_comparison_pred(&BinOp::Gt, &ptr_to(Type::I8)), "ugt");
    assert_eq!(get_comparison_pred(&BinOp::Ge, &Type::I16), "sge");
    assert_eq!(get_comparison_pred(&BinOp::Ge, &Type::Usize), "uge");
}

#[test]
fn comparison_predicate_of_non_comparison_is_eq() {
    assert_eq!(get_comparison_pred(&BinOp::Add, &Type::F32), "eq");
    assert_eq!(get_comparison_pred(&BinOp::Shl, &Type::U32), "eq");
}

fn promo(from: &Type, to: &Type) -> Option<(String, String, String)> {
    promotion_op(get_numeric_idx(from).unwrap(), get_numeric_idx(to).unwrap())
}

fn triple(a: &str, b: &str, c: &str) -> Option<(String, String, String)> {
    Some((a.to_string(), b.to_string(), c.to_string()))
}

#[test]
fn promotion_sign_and_zero_extension() {
    assert_eq!(promo(&Type::I32, &Type::I64), triple("arith.extsi", "i32", "i64"));
    assert_eq!(promo(&Type::I32, &Type::Usize), triple("arith.extsi", "i32", "i64"));
    assert_eq!(promo(&Type::I8, &Type::U16), triple("arith.extsi", "i8", "i16"));
    assert_eq!(promo(&Type::U8, &Type::I32), triple("arith.extui", "i8", "i32"));
    assert_eq!(promo(&Type::U32, &Type::U64), triple("arith.extui", "i32", "i64"));
    assert_eq!(promo(&Type::U16, &Type::Usize), triple("arith.extui", "i16", "i64"));
    assert_eq!(promo(&Type::F32, &Type::F64), triple("arith.extf", "f32", "f64"));
}

#[test]
fn promotion_never_narrows_or_keeps_width() {
    assert_eq!(promo(&Type::I64, &Type::I32), None);
    assert_eq!(promo(&Type::I32, &Type::U32), None);
    assert_eq!(promo(&Type::U64, &Type::Usize), None);
    assert_eq!(promo(&Type::Usize, &Type::I64), None);
    assert_eq!(promo(&Type::F64, &Type::F32), None);
    assert_eq!(promo(&Type::Bool, &Type::I32), None);
    assert_eq!(promo(&Type::I32, &Type::F64), None);
    assert_eq!(promo(&Type::I8, &Type::I8), None);
}
