//! Verified core of the Salt compiler front end.
use vstd::prelude::*;

pub mod text;
pub mod types;
pub mod numeric;
pub mod debug_text;
pub mod resolution;
pub mod equality;
pub mod layout;
pub mod driver;
pub mod type_map;
pub mod inference;
pub mod substitution;
pub mod smt;
pub mod z3_shim;
pub mod slice_verifier;
pub mod exhaustiveness;
pub mod interpreter;
pub mod symbolic;
pub mod contracts;
pub mod specialization;

verus! {
} // verus!
