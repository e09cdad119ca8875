//! Runtime values of the Salt tree-walking interpreter, and the errors of
//! compile-time constant evaluation.
use vstd::prelude::*;
use crate::text::{i64_to_decimal, decimal};

verus! {

/// A runtime value.
#[derive(Debug)]
pub enum Value {
    I32(i32),
    I64(i64),
    Bool(bool),
    Str(String),
    Unit,
    /// A value on its way out of a function through `return`.
    Return(Box<Value>),
}

/// Why a constant expression could not be evaluated.
#[derive(Debug)]
pub enum EvalError {
    NonConstExpression(String),
    TypeMismatch(String),
    MathError(String),
    RecursionLimitExceeded,
    UnsupportedExpr(String),
}

/// The truth value of a value: non-zero numbers and non-empty strings are
/// true, unit is false, and a returned value is judged by what it carries.
pub open spec fn spec_as_bool(v: Value) -> bool
    decreases v,
{
    match v {
        Value::Bool(b) => b,
        Value::I32(x) => x != 0,
        Value::I64(x) => x != 0,
        Value::Str(s) => s@.len() > 0,
        Value::Unit => false,
        Value::Return(inner) => spec_as_bool(*inner),
    }
}

/// The text `println` shows for a value.
pub open spec fn spec_display(v: Value) -> Seq<char>
    decreases v,
{
    match v {
        Value::I32(x) => signed_decimal(x as int),
        Value::I64(x) => signed_decimal(x as int),
        Value::Bool(b) => if b {
            "true"@
        } else {
            "false"@
        },
        Value::Str(s) => s@,
        Value::Unit => "()"@,
        Value::Return(inner) => spec_display(*inner),
    }
}

/// The decimal text of an integer, with a leading `'-'` when negative.
pub open spec fn signed_decimal(v: int) -> Seq<char> {
    if v < 0 {
        seq!['-'] + decimal((-v) as nat)
    } else {
        decimal(v as nat)
    }
}

impl Value {
    /// The value as an `i32`: an `i64` is truncated, `true` is 1, and
    /// anything else that is not a number is 0.
    pub fn as_i32(&self) -> (r: i32)
        ensures
            r == match *self {
                Value::I32(v) => v,
                Value::I64(v) => v as i32,
                Value::Bool(b) => if b {
                    1i32
                } else {
                    0i32
                },
                _ => 0i32,
            },
    {
        match self {
            Value::I32(v) => *v,
            Value::I64(v) => *v as i32,
            Value::Bool(b) => if *b {
                1
            } else {
                0
            },
            _ => 0,
        }
    }

    /// The value as an `i64`: `true` is 1, and anything else that is not a
    /// number is 0.
    pub fn as_i64(&self) -> (r: i64)
        ensures
            r == match *self {
                Value::I32(v) => v as i64,
                Value::I64(v) => v,
                Value::Bool(b) => if b {
                    1i64
                } else {
                    0i64
                },
                _ => 0i64,
            },
    {
        match self {
            Value::I32(v) => *v as i64,
            Value::I64(v) => *v,
            Value::Bool(b) => if *b {
                1
            } else {
                0
            },
            _ => 0,
        }
    }

    /// The truth value of the value.
    pub fn as_bool(&self) -> (r: bool)
        ensures
            r == spec_as_bool(*self),
        decreases self,
    {
        match self {
            Value::Bool(b) => *b,
            Value::I32(v) => *v != 0,
            Value::I64(v) => *v != 0,
            Value::Str(s) => s.unicode_len() > 0,
            Value::Unit => false,
            Value::Return(v) => v.as_bool(),
        }
    }

    /// Whether the value is on its way out through `return`.
    pub fn is_return(&self) -> (r: bool)
        ensures
            r == (*self is Return),
    {
        match self {
            Value::Return(_) => true,
            _ => false,
        }
    }

    /// The value a `return` carries; any other value as it is.
    pub fn unwrap_return(self) -> (r: Value)
        ensures
            r == match self {
                Value::Return(v) => *v,
                other => other,
            },
    {
        match self {
            Value::Return(v) => *v,
            other => other,
        }
    }

    /// The text `println` shows for the value.
    pub fn display_text(&self) -> (r: String)
        ensures
            r@ == spec_display(*self),
        decreases self,
    {
        match self {
            Value::I32(v) => i64_to_decimal(*v as i64),
            Value::I64(v) => i64_to_decimal(*v),
            Value::Bool(b) => if *b {
                "true".to_string()
            } else {
                "false".to_string()
            },
            Value::Str(s) => s.clone(),
            Value::Unit => "()".to_string(),
            Value::Return(v) => v.display_text(),
        }
    }
}

} // verus!
