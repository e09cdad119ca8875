//! Contract checks at calls and returns.
use salt_front::contracts::{BoolExpr, IntExpr};
use salt_front::symbolic::VerificationEngine;
use salt_front::z3_shim::{Config, Context};

fn var(n: &str) -> Box<IntExpr> {
    Box::new(IntExpr::Var(n.to_string()))
}

fn lit(v: i64) -> Box<IntExpr> {
    Box::new(IntExpr::Lit(v))
}

fn names(ns: &[&str]) -> Vec<String> {
    ns.iter().map(|s| s.to_string()).collect()
}

const VIOLATION: &str = "Verification failed: precondition check: the call can violate a requirement of the callee";

#[test]
fn no_preconditions_always_pass() {
    let ctx = Context::new(&Config::new());
    assert_eq!(VerificationEngine::verify(&ctx, &vec![], &names(&["x"]), &vec![IntExpr::Other], &vec![]), Ok(()));
}

#[test]
fn constant_arguments_are_checked() {
    let ctx = Context::new(&Config::new());
    let req = vec![BoolExpr::Gt(var("x"), lit(0))];
    assert_eq!(VerificationEngine::verify(&ctx, &req, &names(&["x"]), &vec![IntExpr::Lit(5)], &vec![]), Ok(()));
    assert_eq!(
        VerificationEngine::verify(&ctx, &req, &names(&["x"]), &vec![IntExpr::Lit(0)], &vec![]),
        Err(VIOLATION.to_string())
    );
}

#[test]
fn untranslatable_argument_or_clause_is_an_error() {
    let ctx = Context::new(&Config::new());
    let req = vec![BoolExpr::Gt(var("x"), lit(0))];
    let r = VerificationEngine::verify(&ctx, &req, &names(&["x"]), &vec![IntExpr::Other], &vec![]);
    assert!(r.unwrap_err().starts_with("FORMAL SOUNDNESS ERROR: Cannot translate argument"));
    let r2 = VerificationEngine::verify(&ctx, &vec![BoolExpr::Other], &names(&["x"]), &vec![IntExpr::Lit(1)], &vec![]);
    assert_eq!(r2, Err("Verification Logic Error: Could not translate requirement expression".to_string()));
}

#[test]
fn path_conditions_constrain_arguments() {
    let ctx = Context::new(&Config::new());
    let req = vec![BoolExpr::Ge(var("n"), lit(1))];
    let args = vec![IntExpr::Add(var("y"), lit(1))];
    let path = vec![BoolExpr::Ge(var("y"), lit(0))];
    assert_eq!(VerificationEngine::verify(&ctx, &req, &names(&["n"]), &args, &path), Ok(()));
    assert_eq!(VerificationEngine::verify(&ctx, &req, &names(&["n"]), &args, &vec![]), Err(VIOLATION.to_string()));
}

#[test]
fn postcondition_proven_under_preconditions() {
    let ctx = Context::new(&Config::new());
    let ens = vec![BoolExpr::Gt(var("result"), lit(0))];
    let req = vec![BoolExpr::Gt(var("x"), lit(0))];
    let ret = IntExpr::Add(var("x"), lit(1));
    assert_eq!(
        VerificationEngine::verify_postcondition(&ctx, &ens, &req, &ret, &names(&["x"]), &vec![], "inc", false),
        Ok(true)
    );
}

#[test]
fn postcondition_violation_is_reported() {
    let ctx = Context::new(&Config::new());
    let ens = vec![BoolExpr::Gt(var("result"), lit(0))];
    let req = vec![BoolExpr::Gt(var("x"), lit(0))];
    let ret = IntExpr::Sub(var("x"), lit(1));
    assert_eq!(
        VerificationEngine::verify_postcondition(&ctx, &ens, &req, &ret, &names(&["x"]), &vec![], "dec", false),
        Err("Postcondition violation in 'dec': a postcondition clause is not satisfied for all return paths.".to_string())
    );
}

#[test]
fn postcondition_through_untracked_local_is_deferred() {
    let ctx = Context::new(&Config::new());
    let ens = vec![BoolExpr::Gt(var("result"), lit(0))];
    let ret = IntExpr::Var("acc".to_string());
    assert_eq!(
        VerificationEngine::verify_postcondition(&ctx, &ens, &vec![], &ret, &names(&["x"]), &vec![], "sum", false),
        Ok(false)
    );
}

#[test]
fn postcondition_checks_skipped() {
    let ctx = Context::new(&Config::new());
    let ens = vec![BoolExpr::Gt(var("result"), lit(0))];
    let ret = IntExpr::Lit(-1);
    assert_eq!(
        VerificationEngine::verify_postcondition(&ctx, &vec![], &vec![], &ret, &names(&[]), &vec![], "f", false),
        Ok(false)
    );
    assert_eq!(
        VerificationEngine::verify_postcondition(&ctx, &ens, &vec![], &ret, &names(&[]), &vec![], "f", true),
        Ok(false)
    );
    assert_eq!(
        VerificationEngine::verify_postcondition(&ctx, &ens, &vec![], &IntExpr::Other, &names(&[]), &vec![], "f", false),
        Ok(false)
    );
}

#[test]
fn field_reads_share_one_function_per_name() {
    let ctx = Context::new(&Config::new());
    let len_of = |e: Box<IntExpr>| Box::new(IntExpr::Field("len".to_string(), e));
    let req = vec![BoolExpr::Gt(len_of(var("buf")), lit(0))];
    let args = vec![IntExpr::Var("data".to_string())];
    let path = vec![BoolExpr::Ge(len_of(var("data")), lit(4))];
    assert_eq!(VerificationEngine::verify(&ctx, &req, &names(&["buf"]), &args, &path), Ok(()));
    assert_eq!(VerificationEngine::verify(&ctx, &req, &names(&["buf"]), &args, &vec![]), Err(VIOLATION.to_string()));
}
