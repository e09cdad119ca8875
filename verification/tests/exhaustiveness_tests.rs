//! Match exhaustiveness, by name and by discriminant.
use salt_front::exhaustiveness::{
    check_exhaustiveness, exhaustiveness_outcome, exhaustiveness_query, extract_covered_variants, has_wildcard,
    verify_exhaustiveness_z3, EnumInfo, ExhaustivenessResult, MatchArm, Pattern,
};
use salt_front::types::Type;
use salt_front::z3_shim::{Config, Context, Int, SatResult, Solver};

fn ident(s: &str) -> String {
    s.to_string()
}

fn variant(path: &[&str]) -> Pattern {
    Pattern::Variant { path: path.iter().map(|s| s.to_string()).collect(), fields: None }
}

fn arm(pattern: Pattern) -> MatchArm {
    MatchArm { pattern }
}

fn option_info() -> EnumInfo {
    EnumInfo {
        name: "std__core__option__Option".to_string(),
        variants: vec![("Some".to_string(), vec![Type::I64], 0), ("None".to_string(), vec![], 1)],
    }
}

#[test]
fn test_has_wildcard_true() {
    let arms = vec![MatchArm { pattern: Pattern::Wildcard }];
    assert!(has_wildcard(&arms));
}

#[test]
fn test_has_wildcard_false() {
    let arms = vec![MatchArm { pattern: Pattern::Variant { path: vec![ident("Some")], fields: None } }];
    assert!(!has_wildcard(&arms));
}

#[test]
fn test_extract_covered_variants() {
    let arms = vec![
        MatchArm { pattern: Pattern::Variant { path: vec![ident("Option"), ident("Some")], fields: None } },
        MatchArm { pattern: Pattern::Variant { path: vec![ident("Option"), ident("None")], fields: None } },
    ];
    let covered = extract_covered_variants(&arms);
    assert!(covered.contains(&"Some".to_string()));
    assert!(covered.contains(&"None".to_string()));
    assert_eq!(covered.len(), 2);
}

#[test]
fn test_or_pattern_coverage() {
    let arms = vec![MatchArm {
        pattern: Pattern::Or(vec![
            Pattern::Variant { path: vec![ident("A")], fields: None },
            Pattern::Variant { path: vec![ident("B")], fields: None },
        ]),
    }];
    let covered = extract_covered_variants(&arms);
    assert!(covered.contains(&"A".to_string()));
    assert!(covered.contains(&"B".to_string()));
}

#[test]
fn by_name_reports_missing_variants_in_order() {
    let registry = vec![option_info()];
    let ty = Type::Concrete("Option".to_string(), vec![Type::I64]);
    let arms = vec![arm(variant(&["Option", "Some"]))];
    assert_eq!(
        check_exhaustiveness(&registry, &ty, &arms),
        ExhaustivenessResult::MissingVariants(vec!["None".to_string()])
    );
    let all = vec![arm(variant(&["Some"])), arm(variant(&["None"]))];
    assert_eq!(check_exhaustiveness(&registry, &ty, &all), ExhaustivenessResult::Exhaustive);
    let catch_all = vec![arm(Pattern::Ident { name: "x".to_string() })];
    assert_eq!(check_exhaustiveness(&registry, &ty, &catch_all), ExhaustivenessResult::Exhaustive);
}

#[test]
fn by_name_unverifiable_cases() {
    let registry = vec![option_info()];
    assert_eq!(
        check_exhaustiveness(&registry, &Type::I32, &vec![]),
        ExhaustivenessResult::Unverifiable("Exhaustiveness checking only supported for enums, got I32".to_string())
    );
    assert_eq!(
        check_exhaustiveness(&registry, &Type::Enum("Color".to_string()), &vec![]),
        ExhaustivenessResult::Unverifiable("Enum 'Color' not found in registry".to_string())
    );
}

#[test]
fn solver_proves_exhaustive_match() {
    let cfg = Config::new();
    let ctx = Context::new(&cfg);
    let info = option_info();
    let arms = vec![arm(Pattern::Or(vec![variant(&["Some"]), variant(&["None"])]))];
    assert_eq!(verify_exhaustiveness_z3(&ctx, &info, &arms), ExhaustivenessResult::Exhaustive);
    let wild = vec![arm(variant(&["Some"])), arm(Pattern::Wildcard)];
    assert_eq!(verify_exhaustiveness_z3(&ctx, &info, &wild), ExhaustivenessResult::Exhaustive);
}

#[test]
fn solver_finds_missing_variant() {
    let cfg = Config::new();
    let ctx = Context::new(&cfg);
    let info = option_info();
    let arms = vec![arm(variant(&["Some"])), arm(Pattern::Other)];
    assert_eq!(
        verify_exhaustiveness_z3(&ctx, &info, &arms),
        ExhaustivenessResult::MissingVariants(vec!["None".to_string()])
    );
    assert_eq!(
        verify_exhaustiveness_z3(&ctx, &info, &vec![]),
        ExhaustivenessResult::MissingVariants(vec!["Some".to_string(), "None".to_string()])
    );
}

#[test]
fn catch_all_inside_alternatives_needs_no_query() {
    let cfg = Config::new();
    let ctx = Context::new(&cfg);
    let info = option_info();
    let arms = vec![arm(variant(&["Some"])), arm(Pattern::Or(vec![Pattern::Other, Pattern::Wildcard]))];
    let d = Int::new_const(&ctx, "discriminant");
    assert!(exhaustiveness_query(&ctx, &d, &info, &arms).is_none());
    assert_eq!(verify_exhaustiveness_z3(&ctx, &info, &arms), ExhaustivenessResult::Exhaustive);
}

#[test]
fn exhaustiveness_query_is_satisfiable_exactly_when_a_variant_is_missing() {
    let cfg = Config::new();
    let ctx = Context::new(&cfg);
    let info = option_info();
    let d = Int::new_const(&ctx, "discriminant");
    let partial = vec![arm(variant(&["None"]))];
    let q = exhaustiveness_query(&ctx, &d, &info, &partial).unwrap();
    let mut solver = Solver::new(&ctx);
    solver.assert_formula(&q);
    assert_eq!(solver.check(), SatResult::Sat);
    let full = vec![arm(variant(&["None"])), arm(variant(&["Some"]))];
    let q2 = exhaustiveness_query(&ctx, &d, &info, &full).unwrap();
    let mut solver2 = Solver::new(&ctx);
    solver2.assert_formula(&q2);
    assert_eq!(solver2.check(), SatResult::Unsat);
}

#[test]
fn outcome_of_each_solver_answer() {
    let info = option_info();
    let arms = vec![arm(variant(&["Some"]))];
    assert_eq!(exhaustiveness_outcome(SatResult::Unsat, None, &info, &arms), ExhaustivenessResult::Exhaustive);
    assert_eq!(
        exhaustiveness_outcome(SatResult::Unknown, None, &info, &arms),
        ExhaustivenessResult::Unverifiable("Z3 timeout during exhaustiveness check".to_string())
    );
    assert_eq!(
        exhaustiveness_outcome(SatResult::Sat, Some(1), &info, &arms),
        ExhaustivenessResult::MissingVariants(vec!["None".to_string()])
    );
    // A witness that names a covered variant, or no variant, falls back to the names no arm gives.
    assert_eq!(
        exhaustiveness_outcome(SatResult::Sat, Some(0), &info, &arms),
        ExhaustivenessResult::MissingVariants(vec!["None".to_string()])
    );
    assert_eq!(
        exhaustiveness_outcome(SatResult::Sat, Some(7), &info, &arms),
        ExhaustivenessResult::MissingVariants(vec!["None".to_string()])
    );
}
