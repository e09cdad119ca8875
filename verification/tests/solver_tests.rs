//! The solver facade on small satisfiability questions.
use salt_front::symbolic::SymbolicContext;
use salt_front::z3_shim::{Bool, Config, Context, Dynamic, FuncDecl, Int, Params, SatResult, Solver, Sort, Symbol};

/// Test that `is_provably_safe` returns true for trivially unsatisfiable violations
#[test]
fn test_trivially_safe_contradiction() {
    let z3_cfg = Config::new();
    let z3_ctx = Context::new(&z3_cfg);
    
    // Create a contradiction: x > 0 AND x < 0 (impossible)
    let x = Int::new_const(&z3_ctx, "x");
    let zero = Int::from_i64(&z3_ctx, 0);
    
    let gt_zero = x.gt(&zero);
    let lt_zero = x.lt(&zero);
    let contradiction = Bool::and(&z3_ctx, &[&gt_zero, &lt_zero]);
    
    // This should be UNSAT (no value of x satisfies both x > 0 and x < 0)
    let mut solver = Solver::new(&z3_ctx);
    solver.assert_formula(&contradiction);
    assert_eq!(solver.check(), SatResult::Unsat, 
        "Contradiction should be unsatisfiable");
}

/// Test that satisfiable violations return false
#[test]
fn test_satisfiable_violation_returns_false() {
    let z3_cfg = Config::new();
    let z3_ctx = Context::new(&z3_cfg);
    
    // Create a satisfiable condition: x > 5 (counterexample: x = 6)
    let x = Int::new_const(&z3_ctx, "x");
    let five = Int::from_i64(&z3_ctx, 5);
    let gt_five = x.gt(&five);
    
    // This should be SAT (x = 6 satisfies x > 5)
    let mut solver = Solver::new(&z3_ctx);
    solver.assert_formula(&gt_five);
    assert_eq!(solver.check(), SatResult::Sat,
        "x > 5 should be satisfiable");
}

/// Test that always-false conditions are UNSAT
#[test]
fn test_always_false_is_unsat() {
    let z3_cfg = Config::new();
    let z3_ctx = Context::new(&z3_cfg);
    
    // Create: false (literal)
    let always_false = Bool::from_bool(&z3_ctx, false);
    
    let mut solver = Solver::new(&z3_ctx);
    solver.assert_formula(&always_false);
    assert_eq!(solver.check(), SatResult::Unsat,
        "Always-false should be unsatisfiable");
}

/// Test that always-true conditions are SAT
#[test]
fn test_always_true_is_sat() {
    let z3_cfg = Config::new();
    let z3_ctx = Context::new(&z3_cfg);
    
    // Create: true (literal)
    let always_true = Bool::from_bool(&z3_ctx, true);
    
    let mut solver = Solver::new(&z3_ctx);
    solver.assert_formula(&always_true);
    assert_eq!(solver.check(), SatResult::Sat,
        "Always-true should be satisfiable");
}

/// Test bounds check scenario: i < len where len = 10 and i ∈ [0, 10)
#[test]
fn test_bounds_check_provable() {
    let z3_cfg = Config::new();
    let z3_ctx = Context::new(&z3_cfg);
    
    // Domain constraints: 0 <= i < 10, len = 10
    let i = Int::new_const(&z3_ctx, "i");
    let len = Int::from_i64(&z3_ctx, 10);
    let zero = Int::from_i64(&z3_ctx, 0);
    
    let i_ge_0 = i.ge(&zero);
    let i_lt_10 = i.lt(&len);
    
    // Violation: i >= len (out of bounds)
    let violation = i.ge(&len);
    
    // With domain constraints, violation should be UNSAT
    let mut solver = Solver::new(&z3_ctx);
    solver.assert_formula(&i_ge_0);
    solver.assert_formula(&i_lt_10);
    solver.assert_formula(&violation);
    
    assert_eq!(solver.check(), SatResult::Unsat,
        "With i ∈ [0, 10), violation i >= 10 should be unsatisfiable");
}


#[test]
fn push_and_pop_restore_assertions() {
    let z3_cfg = Config::new();
    let z3_ctx = Context::new(&z3_cfg);
    let x = Int::new_const(&z3_ctx, "x");
    let one = Int::from_i64(&z3_ctx, 1);
    let mut solver = Solver::new(&z3_ctx);
    solver.assert_formula(&x.ge(&one));
    solver.push();
    solver.assert_formula(&x.lt(&one));
    assert_eq!(solver.check(), SatResult::Unsat);
    solver.pop(1);
    assert_eq!(solver.check(), SatResult::Sat);
    solver.reset();
    assert_eq!(solver.check(), SatResult::Sat);
}

#[test]
fn arithmetic_terms_and_models() {
    let z3_cfg = Config::new();
    let z3_ctx = Context::new(&z3_cfg);
    let x = Int::new_const(&z3_ctx, "x");
    let two = Int::from_i64(&z3_ctx, 2);
    let six = Int::from_u64(&z3_ctx, 6);
    let prod = Int::mul(&z3_ctx, &[&x, &two]);
    let diff = Int::sub(&z3_ctx, &[&six, &prod]);
    let zero = Int::from_i64(&z3_ctx, 0);
    let mut solver = Solver::new(&z3_ctx);
    solver.assert_formula(&diff._eq(&zero));
    assert_eq!(solver.check(), SatResult::Sat);
    let model = solver.get_model().unwrap();
    let value = model.eval(&x, true).unwrap();
    assert_eq!(value.as_i64(), Some(3));
    assert_eq!(value.as_u64(), Some(3));
}

#[test]
fn boolean_connectives() {
    let z3_cfg = Config::new();
    let z3_ctx = Context::new(&z3_cfg);
    let p = Bool::new_const(&z3_ctx, "p");
    let q = Bool::new_const(&z3_ctx, "q");
    let mut solver = Solver::new(&z3_ctx);
    solver.assert_formula(&p.implies(&q));
    solver.assert_formula(&p);
    solver.assert_formula(&q.not());
    assert_eq!(solver.check(), SatResult::Unsat);
    let mut solver2 = Solver::new(&z3_ctx);
    let both = Bool::and(&z3_ctx, &[&p, &q]);
    solver2.assert_formula(&both._eq(&Bool::from_bool(&z3_ctx, true)));
    let x = p.ite(&Int::from_i64(&z3_ctx, 1), &Int::from_i64(&z3_ctx, 2));
    solver2.assert_formula(&x._eq(&Int::from_i64(&z3_ctx, 2)));
    assert_eq!(solver2.check(), SatResult::Unsat);
}

#[test]
fn field_functions_are_declared_once() {
    let z3_cfg = Config::new();
    let z3_ctx = Context::new(&z3_cfg);
    let mut sym = SymbolicContext::new(&z3_ctx);
    let obj = Int::new_const(&z3_ctx, "obj");
    let arg = Dynamic::from_int(&obj);
    let len1 = sym.get_field_func("len").apply(&[&arg]).as_int().unwrap();
    let len2 = sym.get_field_func("len").apply(&[&arg]).as_int().unwrap();
    let cap = sym.get_field_func("cap").apply(&[&arg]).as_int().unwrap();
    let mut solver = Solver::new(&z3_ctx);
    solver.assert_formula(&len1.lt(&len2));
    assert_eq!(solver.check(), SatResult::Unsat);
    let mut solver2 = Solver::new(&z3_ctx);
    solver2.assert_formula(&len1.lt(&cap));
    assert_eq!(solver2.check(), SatResult::Sat);
    assert!(sym.get_field_func("len").apply(&[&arg]).as_bool().is_none());
}

#[test]
fn declared_functions_have_their_sorts() {
    let z3_cfg = Config::new();
    let z3_ctx = Context::new(&z3_cfg);
    let int_sort = Sort::int_sort(&z3_ctx);
    let bool_sort = Sort::bool(&z3_ctx);
    let even = FuncDecl::new(&z3_ctx, Symbol::String("even".to_string()), &[&int_sort], &bool_sort);
    let n = Int::from_i64(&z3_ctx, 4);
    let app = even.apply(&[&Dynamic::from_int(&n)]);
    assert!(app.as_int().is_none());
    let holds = app.as_bool().unwrap();
    let mut solver = Solver::new(&z3_ctx);
    solver.assert_formula(&holds);
    solver.assert_formula(&holds.not());
    assert_eq!(solver.check(), SatResult::Unsat);
    let bv = Sort::bitvector(&z3_ctx, 8);
    let g = FuncDecl::new(&z3_ctx, Symbol::Int(7), &[], &bv);
    assert!(g.apply(&[]).as_int().is_none());
}

#[test]
fn modulus_remainder_and_fresh_constants() {
    let z3_cfg = Config::new();
    let z3_ctx = Context::new(&z3_cfg);
    let x = Int::new_const(&z3_ctx, "x");
    let seven = Int::from_i64(&z3_ctx, 7);
    let three = Int::from_i64(&z3_ctx, 3);
    let two = Int::from_i64(&z3_ctx, 2);
    let one = Int::from_i64(&z3_ctx, 1);
    let mut solver = Solver::new(&z3_ctx);
    solver.assert_formula(&x._eq(&seven));
    solver.assert_formula(&x.modulo(&three)._eq(&two));
    assert_eq!(solver.check(), SatResult::Unsat);
    let mut solver = Solver::new(&z3_ctx);
    solver.assert_formula(&x._eq(&seven));
    solver.assert_formula(&x.rem(&three)._eq(&one));
    assert_eq!(solver.check(), SatResult::Sat);
    let f1 = Int::fresh_const(&z3_ctx, "k");
    let f2 = Int::fresh_const(&z3_ctx, "k");
    let mut solver = Solver::new(&z3_ctx);
    solver.assert_formula(&f1._eq(&one));
    solver.assert_formula(&f2._eq(&two));
    assert_eq!(solver.check(), SatResult::Sat);
    let b = Bool::new_const(&z3_ctx, "b");
    let mut solver = Solver::new(&z3_ctx);
    solver.assert_formula(&b._eq(&b.not()));
    assert_eq!(solver.check(), SatResult::Unsat);
    let sum = Int::add(&z3_ctx, &[&x, &one]);
    let mut solver = Solver::new(&z3_ctx);
    solver.assert_formula(&sum.le(&x));
    assert_eq!(solver.check(), SatResult::Unsat);
}

#[test]
fn numerals_read_back_when_they_fit() {
    let z3_cfg = Config::new();
    let z3_ctx = Context::new(&z3_cfg);
    assert_eq!(Int::from_i64(&z3_ctx, -5).as_i64(), Some(-5));
    assert_eq!(Int::from_i64(&z3_ctx, -5).as_u64(), None);
    assert_eq!(Int::from_u64(&z3_ctx, u64::MAX).as_u64(), Some(u64::MAX));
    assert_eq!(Int::from_u64(&z3_ctx, u64::MAX).as_i64(), None);
    assert_eq!(Int::new_const(&z3_ctx, "y").as_i64(), None);
}

#[test]
fn no_model_after_unsat_and_params_apply() {
    let z3_cfg = Config::new();
    let z3_ctx = Context::new(&z3_cfg);
    let x = Int::new_const(&z3_ctx, "x");
    let mut params = Params::new(&z3_ctx);
    params.set_u32("timeout", 1000);
    let mut solver = Solver::new(&z3_ctx);
    solver.set_params(&params);
    solver.assert_formula(&x.lt(&x));
    assert_eq!(solver.check(), SatResult::Unsat);
    assert!(solver.get_model().is_none());
}

#[test]
fn terms_of_one_context_combine() {
    let z3_cfg = Config::new();
    let z3_ctx = Context::new(&z3_cfg);
    let a = Int::from_i64(&z3_ctx, 2);
    let b = Int::from_i64(&z3_ctx, 3);
    let mut solver = Solver::new(&z3_ctx);
    solver.assert_formula(&a.ge(&b));
    assert_eq!(solver.check(), SatResult::Unsat);
}
