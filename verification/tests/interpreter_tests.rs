//! Runtime values of the interpreter.
use salt_front::interpreter::Value;

#[test]
fn value_conversions() {
    assert_eq!(Value::I32(-7).as_i64(), -7);
    assert_eq!(Value::I64(1 << 33).as_i32(), 0);
    assert_eq!(Value::I64((1 << 32) + 5).as_i32(), 5);
    assert_eq!(Value::Bool(true).as_i32(), 1);
    assert_eq!(Value::Bool(false).as_i64(), 0);
    assert_eq!(Value::Str("x".to_string()).as_i64(), 0);
    assert_eq!(Value::Unit.as_i32(), 0);
}

#[test]
fn value_truthiness() {
    assert!(Value::I32(3).as_bool());
    assert!(!Value::I64(0).as_bool());
    assert!(Value::Str("a".to_string()).as_bool());
    assert!(!Value::Str(String::new()).as_bool());
    assert!(!Value::Unit.as_bool());
    assert!(Value::Return(Box::new(Value::Bool(true))).as_bool());
}

#[test]
fn return_values() {
    let r = Value::Return(Box::new(Value::I64(42)));
    assert!(r.is_return());
    assert!(!Value::I64(42).is_return());
    assert_eq!(r.unwrap_return().as_i64(), 42);
    assert_eq!(Value::I32(5).unwrap_return().as_i32(), 5);
}

#[test]
fn display_text() {
    assert_eq!(Value::I32(-12).display_text(), "-12");
    assert_eq!(Value::I64(9000000000).display_text(), "9000000000");
    assert_eq!(Value::Bool(false).display_text(), "false");
    assert_eq!(Value::Str("hi".to_string()).display_text(), "hi");
    assert_eq!(Value::Unit.display_text(), "()");
    assert_eq!(Value::Return(Box::new(Value::I32(0))).display_text(), "0");
}
