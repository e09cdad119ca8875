//! Compile-time verification of function contracts with the solver: at a
//! call, each `requires` clause of the callee, with the call's arguments
//! put for its parameters, is proven or refuted; at a return, each
//! `ensures` clause, with the returned value put for `result`, is proven
//! or refuted under the function's own `requires` clauses.
//!
//! Contract clauses and arguments are integer expressions over named
//! variables; an expression the solver cannot take is `Other`.
use vstd::prelude::*;
use crate::smt::{IntTerm, Formula, Env, satisfiable, formulas_modeled, formula_modeled, int_modeled, eval_int,
    eval_formula, eval_all, eval_sum, eval_difference, eval_product, lemma_eval_all, lemma_eval_any, lemma_formulas_modeled,
    lemma_ints_modeled};
use crate::z3_shim::{Context, Solver, Params, Int, Bool, SatResult, no_nul, int_terms, formulas};
use crate::symbolic::{VerificationEngine, SymbolicContext};
use crate::z3_shim::{Dynamic, SortKind};
use crate::text::{concat3, str_eq};

verus! {

/// An integer expression of a contract or an argument.
#[derive(Debug)]
pub enum IntExpr {
    Lit(i64),
    Var(String),
    Add(Box<IntExpr>, Box<IntExpr>),
    Sub(Box<IntExpr>, Box<IntExpr>),
    Mul(Box<IntExpr>, Box<IntExpr>),
    /// A field of an object, read through the field's uninterpreted
    /// function.
    Field(String, Box<IntExpr>),
    /// An expression the solver cannot take.
    Other,
}

/// A Boolean expression of a contract clause.
#[derive(Debug)]
pub enum BoolExpr {
    Lit(bool),
    Lt(Box<IntExpr>, Box<IntExpr>),
    Le(Box<IntExpr>, Box<IntExpr>),
    Gt(Box<IntExpr>, Box<IntExpr>),
    Ge(Box<IntExpr>, Box<IntExpr>),
    Eq(Box<IntExpr>, Box<IntExpr>),
    Ne(Box<IntExpr>, Box<IntExpr>),
    And(Box<BoolExpr>, Box<BoolExpr>),
    Or(Box<BoolExpr>, Box<BoolExpr>),
    Not(Box<BoolExpr>),
    /// A clause the solver cannot take.
    Other,
}

/// Every variable name in the expression can name a solver constant.
pub open spec fn int_names_ok(e: IntExpr) -> bool
    decreases e,
{
    match e {
        IntExpr::Var(n) => no_nul(n@),
        IntExpr::Add(a, b) | IntExpr::Sub(a, b) | IntExpr::Mul(a, b) => int_names_ok(*a) && int_names_ok(*b),
        IntExpr::Field(f, o) => no_nul(f@) && int_names_ok(*o),
        _ => true,
    }
}

/// Every variable name in the clause can name a solver constant.
pub open spec fn bool_names_ok(b: BoolExpr) -> bool
    decreases b,
{
    match b {
        BoolExpr::Lt(x, y) | BoolExpr::Le(x, y) | BoolExpr::Gt(x, y) | BoolExpr::Ge(x, y) | BoolExpr::Eq(x, y)
        | BoolExpr::Ne(x, y) => int_names_ok(*x) && int_names_ok(*y),
        BoolExpr::And(p, q) | BoolExpr::Or(p, q) => bool_names_ok(*p) && bool_names_ok(*q),
        BoolExpr::Not(p) => bool_names_ok(*p),
        _ => true,
    }
}

pub open spec fn ints_names_ok(s: Seq<IntExpr>) -> bool {
    forall|i: int| 0 <= i < s.len() ==> int_names_ok(#[trigger] s[i])
}

pub open spec fn bools_names_ok(s: Seq<BoolExpr>) -> bool {
    forall|i: int| 0 <= i < s.len() ==> bool_names_ok(#[trigger] s[i])
}

/// The names of a list of strings.
pub open spec fn string_views(v: Seq<String>) -> Seq<Seq<char>> {
    v.map_values(|s: String| s@)
}

/// The index of the first occurrence of `n` in `names`.
pub open spec fn first_index(names: Seq<Seq<char>>, n: Seq<char>) -> Option<int>
    decreases names.len(),
{
    if names.len() == 0 {
        None
    } else {
        match first_index(names.drop_last(), n) {
            Some(i) => Some(i),
            None => if names.last() == n {
                Some(names.len() - 1)
            } else {
                None
            },
        }
    }
}

/// The solver term of an expression in which each variable named by
/// `names[i]` (for `i` below the number of replacements) stands for the
/// term of `repl[i]`; replacements are not substituted in turn. `None`
/// when some part cannot be taken.
pub open spec fn int_term(e: IntExpr, names: Seq<Seq<char>>, repl: Seq<IntExpr>, top: bool) -> Option<IntTerm>
    decreases (if top { 1nat } else { 0nat }), e,
{
    match e {
        IntExpr::Lit(v) => Some(IntTerm::Lit(v as int)),
        IntExpr::Var(n) => {
            if top {
                match first_index(names, n@) {
                    Some(i) => if i < repl.len() {
                        int_term(repl[i], names, repl, false)
                    } else {
                        Some(IntTerm::Var(n@))
                    },
                    None => Some(IntTerm::Var(n@)),
                }
            } else {
                Some(IntTerm::Var(n@))
            }
        },
        IntExpr::Add(a, b) => match (int_term(*a, names, repl, top), int_term(*b, names, repl, top)) {
            (Some(x), Some(y)) => Some(IntTerm::Add(seq![x, y])),
            _ => None,
        },
        IntExpr::Sub(a, b) => match (int_term(*a, names, repl, top), int_term(*b, names, repl, top)) {
            (Some(x), Some(y)) => Some(IntTerm::Sub(seq![x, y])),
            _ => None,
        },
        IntExpr::Mul(a, b) => match (int_term(*a, names, repl, top), int_term(*b, names, repl, top)) {
            (Some(x), Some(y)) => Some(IntTerm::Mul(seq![x, y])),
            _ => None,
        },
        IntExpr::Field(_, o) => match int_term(*o, names, repl, top) {
            Some(_) => Some(IntTerm::Opaque),
            None => None,
        },
        IntExpr::Other => None,
    }
}

/// The term of an expression as written, with no substitution.
pub open spec fn plain_term(e: IntExpr) -> Option<IntTerm> {
    int_term(e, Seq::empty(), Seq::empty(), true)
}

/// The solver formula of a clause, with the substitution of `int_term`.
pub open spec fn bool_formula(b: BoolExpr, names: Seq<Seq<char>>, repl: Seq<IntExpr>) -> Option<Formula>
    decreases b,
{
    match b {
        BoolExpr::Lit(v) => Some(Formula::Lit(v)),
        BoolExpr::Lt(x, y) => match (int_term(*x, names, repl, true), int_term(*y, names, repl, true)) {
            (Some(s), Some(t)) => Some(Formula::Lt(Box::new(s), Box::new(t))),
            _ => None,
        },
        BoolExpr::Le(x, y) => match (int_term(*x, names, repl, true), int_term(*y, names, repl, true)) {
            (Some(s), Some(t)) => Some(Formula::Le(Box::new(s), Box::new(t))),
            _ => None,
        },
        BoolExpr::Gt(x, y) => match (int_term(*x, names, repl, true), int_term(*y, names, repl, true)) {
            (Some(s), Some(t)) => Some(Formula::Gt(Box::new(s), Box::new(t))),
            _ => None,
        },
        BoolExpr::Ge(x, y) => match (int_term(*x, names, repl, true), int_term(*y, names, repl, true)) {
            (Some(s), Some(t)) => Some(Formula::Ge(Box::new(s), Box::new(t))),
            _ => None,
        },
        BoolExpr::Eq(x, y) => match (int_term(*x, names, repl, true), int_term(*y, names, repl, true)) {
            (Some(s), Some(t)) => Some(Formula::IntEq(Box::new(s), Box::new(t))),
            _ => None,
        },
        BoolExpr::Ne(x, y) => match (int_term(*x, names, repl, true), int_term(*y, names, repl, true)) {
            (Some(s), Some(t)) => Some(Formula::Not(Box::new(Formula::IntEq(Box::new(s), Box::new(t))))),
            _ => None,
        },
        BoolExpr::And(p, q) => match (bool_formula(*p, names, repl), bool_formula(*q, names, repl)) {
            (Some(f), Some(g)) => Some(Formula::And(seq![f, g])),
            _ => None,
        },
        BoolExpr::Or(p, q) => match (bool_formula(*p, names, repl), bool_formula(*q, names, repl)) {
            (Some(f), Some(g)) => Some(Formula::Or(seq![f, g])),
            _ => None,
        },
        BoolExpr::Not(p) => match bool_formula(*p, names, repl) {
            Some(f) => Some(Formula::Not(Box::new(f))),
            None => None,
        },
        BoolExpr::Other => None,
    }
}

/// The formula of a clause as written.
pub open spec fn plain_formula(b: BoolExpr) -> Option<Formula> {
    bool_formula(b, Seq::empty(), Seq::empty())
}

/// The formulas of the clauses that the solver can take, in order; the
/// others are left out.
pub open spec fn known_formulas(s: Seq<BoolExpr>) -> Seq<Formula>
    decreases s.len(),
{
    if s.len() == 0 {
        Seq::empty()
    } else {
        match plain_formula(s.last()) {
            Some(f) => known_formulas(s.drop_last()).push(f),
            None => known_formulas(s.drop_last()),
        }
    }
}

// ----------------------------------------------------------------------
// What the expressions mean
// ----------------------------------------------------------------------

/// The value of an integer expression when each variable holds the value
/// the assignment gives it (fields and untranslatable parts are given 0;
/// the laws below exclude them).
pub open spec fn expr_value(e: IntExpr, env: Env) -> int
    decreases e,
{
    match e {
        IntExpr::Lit(v) => v as int,
        IntExpr::Var(n) => (env.ints)(n@),
        IntExpr::Add(a, b) => expr_value(*a, env) + expr_value(*b, env),
        IntExpr::Sub(a, b) => expr_value(*a, env) - expr_value(*b, env),
        IntExpr::Mul(a, b) => expr_value(*a, env) * expr_value(*b, env),
        _ => 0,
    }
}

/// Whether a clause holds when each variable holds the value the
/// assignment gives it.
pub open spec fn clause_holds(b: BoolExpr, env: Env) -> bool
    decreases b,
{
    match b {
        BoolExpr::Lit(v) => v,
        BoolExpr::Lt(x, y) => expr_value(*x, env) < expr_value(*y, env),
        BoolExpr::Le(x, y) => expr_value(*x, env) <= expr_value(*y, env),
        BoolExpr::Gt(x, y) => expr_value(*x, env) > expr_value(*y, env),
        BoolExpr::Ge(x, y) => expr_value(*x, env) >= expr_value(*y, env),
        BoolExpr::Eq(x, y) => expr_value(*x, env) == expr_value(*y, env),
        BoolExpr::Ne(x, y) => expr_value(*x, env) != expr_value(*y, env),
        BoolExpr::And(p, q) => clause_holds(*p, env) && clause_holds(*q, env),
        BoolExpr::Or(p, q) => clause_holds(*p, env) || clause_holds(*q, env),
        BoolExpr::Not(p) => !clause_holds(*p, env),
        BoolExpr::Other => false,
    }
}

/// The expression reads no field.
pub open spec fn int_field_free(e: IntExpr) -> bool
    decreases e,
{
    match e {
        IntExpr::Add(a, b) | IntExpr::Sub(a, b) | IntExpr::Mul(a, b) => int_field_free(*a) && int_field_free(*b),
        IntExpr::Field(_, _) => false,
        _ => true,
    }
}

/// The clause reads no field.
pub open spec fn bool_field_free(b: BoolExpr) -> bool
    decreases b,
{
    match b {
        BoolExpr::Lt(x, y) | BoolExpr::Le(x, y) | BoolExpr::Gt(x, y) | BoolExpr::Ge(x, y) | BoolExpr::Eq(x, y)
        | BoolExpr::Ne(x, y) => int_field_free(*x) && int_field_free(*y),
        BoolExpr::And(p, q) | BoolExpr::Or(p, q) => bool_field_free(*p) && bool_field_free(*q),
        BoolExpr::Not(p) => bool_field_free(*p),
        _ => true,
    }
}

pub open spec fn ints_field_free(s: Seq<IntExpr>) -> bool {
    forall|i: int| 0 <= i < s.len() ==> int_field_free(#[trigger] s[i])
}

pub open spec fn bools_field_free(s: Seq<BoolExpr>) -> bool {
    forall|i: int| 0 <= i < s.len() ==> bool_field_free(#[trigger] s[i])
}

/// The assignment at a call: each parameter that has an argument holds the
/// value of that argument (the first such parameter, where a name repeats);
/// every other name keeps its value.
pub open spec fn bind_args(env: Env, names: Seq<Seq<char>>, args: Seq<IntExpr>) -> Env {
    Env {
        ints: |n: Seq<char>|
            match first_index(names, n) {
                Some(i) => if i < args.len() {
                    expr_value(args[i], env)
                } else {
                    (env.ints)(n)
                },
                None => (env.ints)(n),
            },
        bools: env.bools,
    }
}

proof fn lemma_first_index_bound(names: Seq<Seq<char>>, n: Seq<char>)
    ensures
        first_index(names, n) matches Some(i) ==> 0 <= i < names.len() && names[i] == n,
    decreases names.len(),
{
    if names.len() > 0 {
        lemma_first_index_bound(names.drop_last(), n);
    }
}

proof fn lemma_int_term_value(e: IntExpr, names: Seq<Seq<char>>, repl: Seq<IntExpr>, top: bool, env: Env)
    requires
        int_field_free(e),
        ints_field_free(repl),
        int_term(e, names, repl, top) is Some,
    ensures
        eval_int(int_term(e, names, repl, top)->0, env) == expr_value(
            e,
            if top { bind_args(env, names, repl) } else { env },
        ),
        int_modeled(int_term(e, names, repl, top)->0),
    decreases (if top { 1nat } else { 0nat }), e,
{
    match e {
        IntExpr::Var(n) => {
            if top {
                match first_index(names, n@) {
                    Some(i) => if i < repl.len() {
                        lemma_first_index_bound(names, n@);
                        assert(int_field_free(repl[i]));
                        lemma_int_term_value(repl[i], names, repl, false, env);
                    },
                    None => {},
                }
            }
        },
        IntExpr::Add(a, b) | IntExpr::Sub(a, b) | IntExpr::Mul(a, b) => {
            lemma_int_term_value(*a, names, repl, top, env);
            lemma_int_term_value(*b, names, repl, top, env);
            let x = int_term(*a, names, repl, top)->0;
            let y = int_term(*b, names, repl, top)->0;
            let ts = seq![x, y];
            let one = seq![x];
            assert(ts.drop_last() =~= one);
            assert(ts.last() == y);
            assert(one.drop_last() =~= Seq::<IntTerm>::empty());
            assert(one.last() == x);
            assert(one[0] == x);
            assert(eval_sum(Seq::<IntTerm>::empty(), env) == 0);
            assert(eval_sum(one, env) == eval_int(x, env));
            assert(eval_sum(ts, env) == eval_int(x, env) + eval_int(y, env));
            assert(eval_difference(one, env) == eval_int(x, env));
            assert(eval_difference(ts, env) == eval_int(x, env) - eval_int(y, env));
            assert(eval_product(Seq::<IntTerm>::empty(), env) == 1);
            assert(eval_product(one, env) == eval_int(x, env));
            assert(eval_product(ts, env) == eval_int(x, env) * eval_int(y, env));
            lemma_ints_modeled(ts);
        },
        _ => {},
    }
}

proof fn lemma_bool_formula_value(b: BoolExpr, names: Seq<Seq<char>>, repl: Seq<IntExpr>, env: Env)
    requires
        bool_field_free(b),
        ints_field_free(repl),
        bool_formula(b, names, repl) is Some,
    ensures
        eval_formula(bool_formula(b, names, repl)->0, env) == clause_holds(b, bind_args(env, names, repl)),
        formula_modeled(bool_formula(b, names, repl)->0),
    decreases b,
{
    let goal = eval_formula(bool_formula(b, names, repl)->0, env) == clause_holds(b, bind_args(env, names, repl));
    match b {
        BoolExpr::Lt(x, y) => {
            lemma_int_term_value(*x, names, repl, true, env);
            lemma_int_term_value(*y, names, repl, true, env);
            let senv = bind_args(env, names, repl);
            let s = int_term(*x, names, repl, true)->0;
            let t = int_term(*y, names, repl, true)->0;
            assert(eval_int(s, env) == expr_value(*x, senv));
            assert(eval_int(t, env) == expr_value(*y, senv));
            assert(bool_formula(b, names, repl) == Some(Formula::Lt(Box::new(s), Box::new(t))));
            assert(clause_holds(b, senv) == (expr_value(*x, senv) < expr_value(*y, senv)));
            assert(goal);
        },
        BoolExpr::Le(x, y) => {
            lemma_int_term_value(*x, names, repl, true, env);
            lemma_int_term_value(*y, names, repl, true, env);
            let senv = bind_args(env, names, repl);
            let s = int_term(*x, names, repl, true)->0;
            let t = int_term(*y, names, repl, true)->0;
            assert(eval_int(s, env) == expr_value(*x, senv));
            assert(eval_int(t, env) == expr_value(*y, senv));
            assert(bool_formula(b, names, repl) == Some(Formula::Le(Box::new(s), Box::new(t))));
            assert(clause_holds(b, senv) == (expr_value(*x, senv) <= expr_value(*y, senv)));
            assert(goal);
        },
        BoolExpr::Gt(x, y) => {
            lemma_int_term_value(*x, names, repl, true, env);
            lemma_int_term_value(*y, names, repl, true, env);
            let senv = bind_args(env, names, repl);
            let s = int_term(*x, names, repl, true)->0;
            let t = int_term(*y, names, repl, true)->0;
            assert(eval_int(s, env) == expr_value(*x, senv));
            assert(eval_int(t, env) == expr_value(*y, senv));
            assert(bool_formula(b, names, repl) == Some(Formula::Gt(Box::new(s), Box::new(t))));
            assert(clause_holds(b, senv) == (expr_value(*x, senv) > expr_value(*y, senv)));
            assert(goal);
        },
        BoolExpr::Ge(x, y) => {
            lemma_int_term_value(*x, names, repl, true, env);
            lemma_int_term_value(*y, names, repl, true, env);
            let senv = bind_args(env, names, repl);
            let s = int_term(*x, names, repl, true)->0;
            let t = int_term(*y, names, repl, true)->0;
            assert(eval_int(s, env) == expr_value(*x, senv));
            assert(eval_int(t, env) == expr_value(*y, senv));
            assert(bool_formula(b, names, repl) == Some(Formula::Ge(Box::new(s), Box::new(t))));
            assert(clause_holds(b, senv) == (expr_value(*x, senv) >= expr_value(*y, senv)));
            assert(goal);
        },
        BoolExpr::Eq(x, y) => {
            lemma_int_term_value(*x, names, repl, true, env);
            lemma_int_term_value(*y, names, repl, true, env);
            let senv = bind_args(env, names, repl);
            let s = int_term(*x, names, repl, true)->0;
            let t = int_term(*y, names, repl, true)->0;
            assert(eval_int(s, env) == expr_value(*x, senv));
            assert(eval_int(t, env) == expr_value(*y, senv));
            assert(bool_formula(b, names, repl) == Some(Formula::IntEq(Box::new(s), Box::new(t))));
            assert(clause_holds(b, senv) == (expr_value(*x, senv) == expr_value(*y, senv)));
            assert(goal);
        },
        BoolExpr::Ne(x, y) => {
            lemma_int_term_value(*x, names, repl, true, env);
            lemma_int_term_value(*y, names, repl, true, env);
            let s = int_term(*x, names, repl, true)->0;
            let t = int_term(*y, names, repl, true)->0;
            let senv = bind_args(env, names, repl);
            assert(eval_int(s, env) == expr_value(*x, senv));
            assert(eval_int(t, env) == expr_value(*y, senv));
            assert(bool_formula(b, names, repl) == Some(
                Formula::Not(Box::new(Formula::IntEq(Box::new(s), Box::new(t)))),
            ));
            assert(formula_modeled(Formula::IntEq(Box::new(s), Box::new(t))));
            assert(eval_formula(Formula::IntEq(Box::new(s), Box::new(t)), env) == (eval_int(s, env) == eval_int(t, env)));
            assert(goal);
        },
        BoolExpr::And(p, q) => {
            lemma_bool_formula_value(*p, names, repl, env);
            lemma_bool_formula_value(*q, names, repl, env);
            let f = bool_formula(*p, names, repl)->0;
            let g = bool_formula(*q, names, repl)->0;
            let fs = seq![f, g];
            assert(fs.drop_last() =~= seq![f]);
            assert(seq![f].drop_last() =~= Seq::<Formula>::empty());
            lemma_formulas_modeled(fs);
            lemma_eval_all(fs, env);
            assert(fs[0] == f && fs[1] == g);
            assert(bool_formula(b, names, repl) == Some(Formula::And(fs)));
            assert(goal);
        },
        BoolExpr::Or(p, q) => {
            lemma_bool_formula_value(*p, names, repl, env);
            lemma_bool_formula_value(*q, names, repl, env);
            let f = bool_formula(*p, names, repl)->0;
            let g = bool_formula(*q, names, repl)->0;
            let fs = seq![f, g];
            assert(fs.drop_last() =~= seq![f]);
            assert(seq![f].drop_last() =~= Seq::<Formula>::empty());
            lemma_formulas_modeled(fs);
            lemma_eval_any(fs, env);
            assert(fs[0] == f && fs[1] == g);
            assert(bool_formula(b, names, repl) == Some(Formula::Or(fs)));
            assert(goal);
        },
        BoolExpr::Not(p) => {
            lemma_bool_formula_value(*p, names, repl, env);
            assert(goal);
        },
        _ => {
            assert(goal);
        },
    }
}

proof fn lemma_known_modeled(s: Seq<BoolExpr>)
    requires
        bools_field_free(s),
    ensures
        formulas_modeled(known_formulas(s)),
    decreases s.len(),
{
    if s.len() > 0 {
        let p = s.drop_last();
        assert forall|i: int| 0 <= i < p.len() implies bool_field_free(#[trigger] p[i]) by {
            assert(p[i] == s[i]);
        }
        lemma_known_modeled(p);
        match plain_formula(s.last()) {
            Some(f) => {
                assert(bool_field_free(s[s.len() - 1]));
                lemma_bool_formula_value(s.last(), Seq::empty(), Seq::empty(), Env { ints: |n: Seq<char>| 0, bools: |n: Seq<char>| false });
                assert(known_formulas(p).push(f).drop_last() =~= known_formulas(p));
            },
            None => {},
        }
    }
}

/// A translated clause means what the clause says: under any assignment,
/// its formula holds exactly when the clause holds with each parameter
/// holding its argument's value (`<=` is at most, `<` is less than, and so
/// on). Clauses that read fields are left out: a field is an uninterpreted
/// function.
pub proof fn law_clause_translation_is_faithful(
    b: BoolExpr,
    names: Seq<Seq<char>>,
    args: Seq<IntExpr>,
    env: Env,
)
    requires
        bool_field_free(b),
        ints_field_free(args),
        bool_formula(b, names, args) is Some,
    ensures
        eval_formula(bool_formula(b, names, args)->0, env) == clause_holds(b, bind_args(env, names, args)),
{
    lemma_bool_formula_value(b, names, args, env);
}

/// A call that meets a requirement whatever the values of its variables
/// can never be found to violate it: the query for that requirement has no
/// model, whatever the path conditions.
pub proof fn law_valid_requirement_has_no_counterexample(
    path: Seq<BoolExpr>,
    req: BoolExpr,
    names: Seq<Seq<char>>,
    args: Seq<IntExpr>,
)
    requires
        bools_field_free(path),
        bool_field_free(req),
        ints_field_free(args),
        bool_formula(req, names, args) is Some,
        forall|env: Env| #[trigger] clause_holds(req, bind_args(env, names, args)),
    ensures
        formulas_modeled(precondition_query(path, req, names, args)),
        !satisfiable(precondition_query(path, req, names, args)),
{
    let q = precondition_query(path, req, names, args);
    let f = bool_formula(req, names, args)->0;
    lemma_known_modeled(path);
    lemma_bool_formula_value(req, names, args, Env { ints: |n: Seq<char>| 0, bools: |n: Seq<char>| false });
    assert(q.drop_last() =~= known_formulas(path));
    assert(formula_modeled(Formula::Not(Box::new(f))));
    if satisfiable(q) {
        let env = choose|env: Env| #[trigger] eval_all(q, env);
        lemma_bool_formula_value(req, names, args, env);
        assert(clause_holds(req, bind_args(env, names, args)));
        assert(!eval_formula(q.last(), env));
    }
}

/// The index of the first occurrence of `n` in `names`.
fn first_index_exec(names: &Vec<String>, n: &str) -> (r: Option<usize>)
    ensures
        match r {
            Some(i) => first_index(string_views(names@), n@) == Some(i as int),
            None => first_index(string_views(names@), n@) is None,
        },
{
    let ghost views = string_views(names@);
    let mut i: usize = 0;
    while i < names.len()
        invariant
            0 <= i <= names@.len(),
            views == string_views(names@),
            first_index(views.subrange(0, i as int), n@) is None,
        decreases names@.len() - i,
    {
        proof {
            let a = views.subrange(0, i as int + 1);
            assert(a.drop_last() =~= views.subrange(0, i as int));
        }
        if str_eq(names[i].as_str(), n) {
            proof {
                let a = views.subrange(0, i as int + 1);
                assert(first_index(a, n@) == Some(i as int));
                lemma_first_index_prefix(views, n@, i as int + 1);
            }
            return Some(i);
        }
        i += 1;
    }
    proof {
        assert(views.subrange(0, names@.len() as int) =~= views);
    }
    None
}

/// Once a prefix holds `n`, the first occurrence in the whole list is the
/// one in the prefix.
proof fn lemma_first_index_prefix(names: Seq<Seq<char>>, n: Seq<char>, k: int)
    requires
        0 <= k <= names.len(),
        first_index(names.subrange(0, k), n) is Some,
    ensures
        first_index(names, n) == first_index(names.subrange(0, k), n),
    decreases names.len() - k,
{
    if k < names.len() {
        let a = names.subrange(0, k + 1);
        assert(a.drop_last() =~= names.subrange(0, k));
        lemma_first_index_prefix(names, n, k + 1);
    } else {
        assert(names.subrange(0, k) =~= names);
    }
}

/// The solver term of an integer expression, with the substitution of
/// `int_term`.
fn translate_int<'c>(
    ctx: &'c Context,
    sym: &mut SymbolicContext<'c>,
    e: &IntExpr,
    names: &Vec<String>,
    repl: &Vec<IntExpr>,
    top: bool,
) -> (r: Option<Int<'c>>)
    requires
        int_names_ok(*e),
        ints_names_ok(repl@),
        old(sym).wf(),
        *old(sym).context() == *ctx,
    ensures
        final(sym).wf(),
        final(sym).context() == old(sym).context(),
        match r {
            Some(i) => int_term(*e, string_views(names@), repl@, top) == Some(i.term()) && i.context() == *ctx,
            None => int_term(*e, string_views(names@), repl@, top) is None,
        },
    decreases (if top { 1nat } else { 0nat }), *e,
{
    match e {
        IntExpr::Lit(v) => Some(Int::from_i64(ctx, *v)),
        IntExpr::Var(n) => {
            if top {
                match first_index_exec(names, n.as_str()) {
                    Some(i) => {
                        if i < repl.len() {
                            return translate_int(ctx, sym, &repl[i], names, repl, false);
                        }
                    },
                    None => {},
                }
            }
            Some(Int::new_const(ctx, n.as_str()))
        },
        IntExpr::Add(a, b) => {
            let x = translate_int(ctx, sym, &**a, names, repl, top);
            let y = translate_int(ctx, sym, &**b, names, repl, top);
            match (x, y) {
                (Some(x), Some(y)) => {
                    let parts = [&x, &y];
                    proof {
                        assert(int_terms(parts@) =~= seq![x.term(), y.term()]);
                    }
                    Some(Int::add(ctx, &parts))
                },
                _ => None,
            }
        },
        IntExpr::Sub(a, b) => {
            let x = translate_int(ctx, sym, &**a, names, repl, top);
            let y = translate_int(ctx, sym, &**b, names, repl, top);
            match (x, y) {
                (Some(x), Some(y)) => {
                    let parts = [&x, &y];
                    proof {
                        assert(int_terms(parts@) =~= seq![x.term(), y.term()]);
                    }
                    Some(Int::sub(ctx, &parts))
                },
                _ => None,
            }
        },
        IntExpr::Mul(a, b) => {
            let x = translate_int(ctx, sym, &**a, names, repl, top);
            let y = translate_int(ctx, sym, &**b, names, repl, top);
            match (x, y) {
                (Some(x), Some(y)) => {
                    let parts = [&x, &y];
                    proof {
                        assert(int_terms(parts@) =~= seq![x.term(), y.term()]);
                    }
                    Some(Int::mul(ctx, &parts))
                },
                _ => None,
            }
        },
        IntExpr::Field(f, o) => match translate_int(ctx, sym, &**o, names, repl, top) {
            Some(obj) => {
                let arg = Dynamic::from_int(&obj);
                let decl = sym.get_field_func(f.as_str());
                let args = [&arg];
                proof {
                    assert(crate::z3_shim::dynamic_sorts(args@) =~= seq![SortKind::Int]);
                }
                let app = decl.apply(&args);
                app.as_int()
            },
            None => None,
        },
        IntExpr::Other => None,
    }
}

/// The solver formula of a clause, with the substitution of `int_term`.
fn translate_bool<'c>(
    ctx: &'c Context,
    sym: &mut SymbolicContext<'c>,
    b: &BoolExpr,
    names: &Vec<String>,
    repl: &Vec<IntExpr>,
) -> (r: Option<Bool<'c>>)
    requires
        bool_names_ok(*b),
        ints_names_ok(repl@),
        old(sym).wf(),
        *old(sym).context() == *ctx,
    ensures
        final(sym).wf(),
        final(sym).context() == old(sym).context(),
        match r {
            Some(f) => bool_formula(*b, string_views(names@), repl@) == Some(f.formula()) && f.context() == *ctx,
            None => bool_formula(*b, string_views(names@), repl@) is None,
        },
    decreases *b,
{
    match b {
        BoolExpr::Lit(v) => Some(Bool::from_bool(ctx, *v)),
        BoolExpr::Lt(x, y) => match (translate_int(ctx, sym, &**x, names, repl, true), translate_int(ctx, sym, &**y, names, repl, true)) {
            (Some(s), Some(t)) => Some(s.lt(&t)),
            _ => None,
        },
        BoolExpr::Le(x, y) => match (translate_int(ctx, sym, &**x, names, repl, true), translate_int(ctx, sym, &**y, names, repl, true)) {
            (Some(s), Some(t)) => Some(s.le(&t)),
            _ => None,
        },
        BoolExpr::Gt(x, y) => match (translate_int(ctx, sym, &**x, names, repl, true), translate_int(ctx, sym, &**y, names, repl, true)) {
            (Some(s), Some(t)) => Some(s.gt(&t)),
            _ => None,
        },
        BoolExpr::Ge(x, y) => match (translate_int(ctx, sym, &**x, names, repl, true), translate_int(ctx, sym, &**y, names, repl, true)) {
            (Some(s), Some(t)) => Some(s.ge(&t)),
            _ => None,
        },
        BoolExpr::Eq(x, y) => match (translate_int(ctx, sym, &**x, names, repl, true), translate_int(ctx, sym, &**y, names, repl, true)) {
            (Some(s), Some(t)) => Some(s._eq(&t)),
            _ => None,
        },
        BoolExpr::Ne(x, y) => match (translate_int(ctx, sym, &**x, names, repl, true), translate_int(ctx, sym, &**y, names, repl, true)) {
            (Some(s), Some(t)) => Some(s._eq(&t).not()),
            _ => None,
        },
        BoolExpr::And(p, q) => match (translate_bool(ctx, sym, &**p, names, repl), translate_bool(ctx, sym, &**q, names, repl)) {
            (Some(f), Some(g)) => {
                let parts = [&f, &g];
                proof {
                    assert(formulas(parts@) =~= seq![f.formula(), g.formula()]);
                }
                Some(Bool::and(ctx, &parts))
            },
            _ => None,
        },
        BoolExpr::Or(p, q) => match (translate_bool(ctx, sym, &**p, names, repl), translate_bool(ctx, sym, &**q, names, repl)) {
            (Some(f), Some(g)) => {
                let parts = [&f, &g];
                proof {
                    assert(formulas(parts@) =~= seq![f.formula(), g.formula()]);
                }
                Some(Bool::or(ctx, &parts))
            },
            _ => None,
        },
        BoolExpr::Not(p) => match translate_bool(ctx, sym, &**p, names, repl) {
            Some(f) => Some(f.not()),
            None => None,
        },
        BoolExpr::Other => None,
    }
}

/// Asserts the formulas of the clauses that the solver can take.
fn assert_known<'c>(ctx: &'c Context, sym: &mut SymbolicContext<'c>, solver: &mut Solver<'c>, conds: &Vec<BoolExpr>)
    requires
        old(solver).context() == *ctx,
        bools_names_ok(conds@),
        old(sym).wf(),
        *old(sym).context() == *ctx,
    ensures
        final(sym).wf(),
        final(sym).context() == old(sym).context(),
        final(solver).context() == *ctx,
        final(solver).assertions() == old(solver).assertions() + known_formulas(conds@),
        final(solver).scope_marks() == old(solver).scope_marks(),
{
    let ghost start = solver.assertions();
    let empty_names: Vec<String> = Vec::new();
    let empty_repl: Vec<IntExpr> = Vec::new();
    let mut i: usize = 0;
    while i < conds.len()
        invariant
            0 <= i <= conds@.len(),
            solver.context() == *ctx,
            bools_names_ok(conds@),
            empty_names@.len() == 0,
            empty_repl@.len() == 0,
            solver.assertions() == start + known_formulas(conds@.subrange(0, i as int)),
            solver.scope_marks() == old(solver).scope_marks(),
            sym.wf(),
            *sym.context() == *ctx,
            sym.context() == old(sym).context(),
        decreases conds@.len() - i,
    {
        proof {
            let a = conds@.subrange(0, i as int + 1);
            assert(a.drop_last() =~= conds@.subrange(0, i as int));
            assert(string_views(empty_names@) =~= Seq::<Seq<char>>::empty());
            assert(empty_repl@ =~= Seq::<IntExpr>::empty());
            assert(bool_names_ok(conds@[i as int]));
        }
        match translate_bool(ctx, sym, &conds[i], &empty_names, &empty_repl) {
            Some(f) => {
                solver.assert_formula(&f);
                proof {
                    assert(solver.assertions() =~= start + known_formulas(conds@.subrange(0, i as int + 1)));
                }
            },
            None => {},
        }
        i += 1;
    }
    proof {
        assert(conds@.subrange(0, conds@.len() as int) =~= conds@);
    }
}

/// A fresh solver with the timeout that contract checks use.
fn contract_solver<'c>(ctx: &'c Context) -> (r: Solver<'c>)
    ensures
        r.context() == *ctx,
        r.assertions() == Seq::<Formula>::empty(),
        r.depth() == 0,
        r.scope_marks() == Seq::<nat>::empty(),
{
    let mut solver = Solver::new(ctx);
    let mut params = Params::new(ctx);
    let timeout = "timeout";
    proof {
        reveal_strlit("timeout");
    }
    params.set_u32(timeout, 100);
    solver.set_params(&params);
    proof {
        solver.lemma_depth();
    }
    solver
}

/// The error when a call argument cannot be taken by the solver.
pub open spec fn argument_error() -> Seq<char> {
    "FORMAL SOUNDNESS ERROR: Cannot translate argument to Z3. Verification needs every argument to be expressible in the solver domain."@
}

/// The error when a `requires` clause cannot be taken by the solver.
pub open spec fn requirement_error() -> Seq<char> {
    "Verification Logic Error: Could not translate requirement expression"@
}

/// The error when a call can violate a `requires` clause.
pub open spec fn precondition_violation() -> Seq<char> {
    "Verification failed: precondition check: the call can violate a requirement of the callee"@
}

/// The query of a `requires` clause at a call: the caller's known path
/// conditions and the negation of the clause with the arguments put for
/// the parameters. A model is a way the call violates the clause.
pub open spec fn precondition_query(
    path: Seq<BoolExpr>,
    req: BoolExpr,
    params: Seq<Seq<char>>,
    args: Seq<IntExpr>,
) -> Seq<Formula> {
    known_formulas(path).push(Formula::Not(Box::new(bool_formula(req, params, args)->0)))
}

/// A requirement that the solver can take and that, with the arguments put
/// in for the parameters, holds whatever the values of the variables.
pub open spec fn requirement_always_holds(req: BoolExpr, names: Seq<Seq<char>>, args: Seq<IntExpr>) -> bool {
    &&& bool_field_free(req)
    &&& bool_formula(req, names, args) is Some
    &&& forall|env: Env| #[trigger] clause_holds(req, bind_args(env, names, args))
}

/// Every requirement holds at the call whatever the values of the
/// variables.
pub open spec fn call_meets_requirements(pre: Seq<BoolExpr>, names: Seq<Seq<char>>, args: Seq<IntExpr>) -> bool {
    forall|j: int| 0 <= j < pre.len() ==> #[trigger] requirement_always_holds(pre[j], names, args)
}

/// What a precondition check concludes from the solver's answer: only a
/// `Sat` answer (the clause can be violated) rejects the call; `Unsat`
/// proves the clause and `Unknown` lets the call pass.
pub fn precondition_outcome(answer: SatResult) -> (r: Option<String>)
    ensures
        answer == SatResult::Sat <==> r is Some,
        r matches Some(m) ==> m@ == precondition_violation(),
{
    match answer {
        SatResult::Sat => Some(
            "Verification failed: precondition check: the call can violate a requirement of the callee".to_string(),
        ),
        _ => None,
    }
}

impl VerificationEngine {
    /// Checks the `requires` clauses of a callee at a call, with the
    /// argument expressions put for the parameters (a parameter without an
    /// argument stays a free constant), under the caller's path conditions
    /// that the solver can take. The call is rejected when an argument or
    /// a clause cannot be taken, or when the solver finds a way to violate
    /// a clause; a clause the solver cannot decide lets the call pass.
    pub fn verify<'c>(
        z3_ctx: &'c Context,
        preconditions: &Vec<BoolExpr>,
        params: &Vec<String>,
        arg_exprs: &Vec<IntExpr>,
        path_conditions: &Vec<BoolExpr>,
    ) -> (r: Result<(), String>)
        requires
            bools_names_ok(preconditions@),
            ints_names_ok(arg_exprs@),
            bools_names_ok(path_conditions@),
        ensures
            preconditions@.len() == 0 ==> r is Ok,
            preconditions@.len() > 0 && (exists|i: int| 0 <= i < arg_exprs@.len() && #[trigger] plain_term(arg_exprs@[i]) is None)
                ==> (r matches Err(m) && m@ == argument_error()),
            r is Ok && preconditions@.len() > 0 ==> (forall|i: int| 0 <= i < arg_exprs@.len() ==> #[trigger] plain_term(
                arg_exprs@[i],
            ) is Some) && (forall|j: int| 0 <= j < preconditions@.len() ==> #[trigger] bool_formula(
                preconditions@[j],
                string_views(params@),
                arg_exprs@,
            ) is Some),
            r matches Err(m) ==> m@ == argument_error() || m@ == requirement_error() || m@ == precondition_violation(),
            call_meets_requirements(preconditions@, string_views(params@), arg_exprs@) && ints_field_free(arg_exprs@)
                && bools_field_free(path_conditions@) && (forall|i: int| 0 <= i < arg_exprs@.len() ==> #[trigger] plain_term(
                arg_exprs@[i],
            ) is Some) ==> r is Ok,
            r matches Err(m) && m@ == requirement_error() ==> exists|j: int| 0 <= j < preconditions@.len() && #[trigger] bool_formula(
                preconditions@[j],
                string_views(params@),
                arg_exprs@,
            ) is None,
            r matches Err(m) && m@ == precondition_violation() ==> exists|j: int| 0 <= j < preconditions@.len() && bool_formula(
                preconditions@[j],
                string_views(params@),
                arg_exprs@,
            ) is Some && (formulas_modeled(
                #[trigger] precondition_query(path_conditions@, preconditions@[j], string_views(params@), arg_exprs@),
            ) ==> satisfiable(precondition_query(path_conditions@, preconditions@[j], string_views(params@), arg_exprs@))),
    {
        proof {
            reveal_strlit("FORMAL SOUNDNESS ERROR: Cannot translate argument to Z3. Verification needs every argument to be expressible in the solver domain.");
            reveal_strlit("Verification Logic Error: Could not translate requirement expression");
            reveal_strlit("Verification failed: precondition check: the call can violate a requirement of the callee");
            assert(argument_error().len() != requirement_error().len());
            assert(argument_error().len() != precondition_violation().len());
            assert(requirement_error().len() != precondition_violation().len());
        }
        if preconditions.len() == 0 {
            return Ok(());
        }
        let mut sym = SymbolicContext::new(z3_ctx);
        let empty_names: Vec<String> = Vec::new();
        let empty_repl: Vec<IntExpr> = Vec::new();
        proof {
            assert(string_views(empty_names@) =~= Seq::<Seq<char>>::empty());
            assert(empty_repl@ =~= Seq::<IntExpr>::empty());
        }
        let mut i: usize = 0;
        while i < arg_exprs.len()
            invariant
                0 <= i <= arg_exprs@.len(),
                sym.wf(),
                *sym.context() == *z3_ctx,
                preconditions@.len() > 0,
                argument_error() != requirement_error(),
                argument_error() != precondition_violation(),
                requirement_error() != precondition_violation(),
                ints_names_ok(arg_exprs@),
                string_views(empty_names@) == Seq::<Seq<char>>::empty(),
                empty_repl@ == Seq::<IntExpr>::empty(),
                forall|k: int| 0 <= k < i ==> #[trigger] plain_term(arg_exprs@[k]) is Some,
            decreases arg_exprs@.len() - i,
        {
            proof {
                assert(int_names_ok(arg_exprs@[i as int]));
            }
            if translate_int(z3_ctx, &mut sym, &arg_exprs[i], &empty_names, &empty_repl, true).is_none() {
                proof {
                    assert(plain_term(arg_exprs@[i as int]) is None);
                }
                return Err(
                    "FORMAL SOUNDNESS ERROR: Cannot translate argument to Z3. Verification needs every argument to be expressible in the solver domain.".to_string(),
                );
            }
            i += 1;
        }
        let mut j: usize = 0;
        while j < preconditions.len()
            invariant
                0 <= j <= preconditions@.len(),
                sym.wf(),
                *sym.context() == *z3_ctx,
                preconditions@.len() > 0,
                argument_error() != requirement_error(),
                argument_error() != precondition_violation(),
                requirement_error() != precondition_violation(),
                bools_names_ok(preconditions@),
                ints_names_ok(arg_exprs@),
                bools_names_ok(path_conditions@),
                forall|k: int| 0 <= k < arg_exprs@.len() ==> #[trigger] plain_term(arg_exprs@[k]) is Some,
                forall|k: int| 0 <= k < j ==> #[trigger] bool_formula(
                    preconditions@[k],
                    string_views(params@),
                    arg_exprs@,
                ) is Some,
            decreases preconditions@.len() - j,
        {
            proof {
                assert(bool_names_ok(preconditions@[j as int]));
            }
            match translate_bool(z3_ctx, &mut sym, &preconditions[j], params, arg_exprs) {
                None => {
                    proof {
                        if call_meets_requirements(preconditions@, string_views(params@), arg_exprs@) {
                            assert(requirement_always_holds(preconditions@[j as int], string_views(params@), arg_exprs@));
                        }
                    }
                    return Err("Verification Logic Error: Could not translate requirement expression".to_string());
                },
                Some(req) => {
                    let mut solver = contract_solver(z3_ctx);
                    assert_known(z3_ctx, &mut sym, &mut solver, path_conditions);
                    let negated = req.not();
                    solver.assert_formula(&negated);
                    let ghost q = precondition_query(path_conditions@, preconditions@[j as int], string_views(params@), arg_exprs@);
                    proof {
                        assert(solver.assertions() =~= q);
                    }
                    let answer = solver.check();
                    match precondition_outcome(answer) {
                        Some(m) => {
                            proof {
                                assert(formulas_modeled(q) ==> satisfiable(q));
                                if call_meets_requirements(preconditions@, string_views(params@), arg_exprs@)
                                    && ints_field_free(arg_exprs@) && bools_field_free(path_conditions@) {
                                    assert(requirement_always_holds(preconditions@[j as int], string_views(params@), arg_exprs@));
                                    law_valid_requirement_has_no_counterexample(
                                        path_conditions@,
                                        preconditions@[j as int],
                                        string_views(params@),
                                        arg_exprs@,
                                    );
                                }
                            }
                            return Err(m);
                        },
                        None => {},
                    }
                },
            }
            j += 1;
        }
        Ok(())
    }
}

/// Whether the expression reads a variable that is neither a parameter nor
/// `result`: such a local (a mutated accumulator, say) is unconstrained for
/// the solver.
pub open spec fn uses_untracked(e: IntExpr, params: Seq<Seq<char>>) -> bool
    decreases e,
{
    match e {
        IntExpr::Var(n) => !params.contains(n@) && n@ != "result"@,
        IntExpr::Add(a, b) | IntExpr::Sub(a, b) | IntExpr::Mul(a, b) => uses_untracked(*a, params) || uses_untracked(
            *b,
            params,
        ),
        _ => false,
    }
}

/// Whether a list of names holds `n`.
fn holds(names: &Vec<String>, n: &str) -> (r: bool)
    ensures
        r == string_views(names@).contains(n@),
{
    let mut i: usize = 0;
    while i < names.len()
        invariant
            0 <= i <= names@.len(),
            forall|k: int| 0 <= k < i ==> names@[k]@ != n@,
        decreases names@.len() - i,
    {
        if str_eq(names[i].as_str(), n) {
            proof {
                assert(string_views(names@)[i as int] == n@);
            }
            return true;
        }
        i += 1;
    }
    proof {
        assert forall|k: int| 0 <= k < string_views(names@).len() implies string_views(names@)[k] != n@ by {
            assert(string_views(names@)[k] == names@[k]@);
        }
    }
    false
}

/// Whether the expression reads an untracked local.
fn expr_uses_untracked_local(e: &IntExpr, params: &Vec<String>) -> (r: bool)
    ensures
        r == uses_untracked(*e, string_views(params@)),
    decreases *e,
{
    match e {
        IntExpr::Var(n) => {
            let result_name = "result";
            proof {
                reveal_strlit("result");
            }
            !holds(params, n.as_str()) && !str_eq(n.as_str(), result_name)
        },
        IntExpr::Add(a, b) | IntExpr::Sub(a, b) | IntExpr::Mul(a, b) => expr_uses_untracked_local(&**a, params)
            || expr_uses_untracked_local(&**b, params),
        _ => false,
    }
}

/// The verdict on one postcondition clause.
#[derive(Debug, PartialEq, Eq, Structural)]
pub enum ClauseVerdict {
    /// No input violates the clause.
    Proven,
    /// The solver found inputs that violate it.
    Violated,
    /// Left to a runtime assertion.
    Deferred,
}

/// What a postcondition check concludes from the solver's answer on a
/// clause: `Unsat` proves it; `Sat` is a violation unless the returned
/// expression reads an untracked local, which defers the clause, as does
/// `Unknown`.
pub fn clause_verdict(answer: SatResult, return_uses_untracked: bool) -> (r: ClauseVerdict)
    ensures
        answer == SatResult::Unsat <==> r == ClauseVerdict::Proven,
        (answer == SatResult::Sat && !return_uses_untracked) <==> r == ClauseVerdict::Violated,
{
    match answer {
        SatResult::Unsat => ClauseVerdict::Proven,
        SatResult::Sat => if return_uses_untracked {
            ClauseVerdict::Deferred
        } else {
            ClauseVerdict::Violated
        },
        SatResult::Unknown => ClauseVerdict::Deferred,
    }
}

/// The error when a postcondition of `fn_name` can be violated.
pub open spec fn postcondition_violation(fn_name: Seq<char>) -> Seq<char> {
    "Postcondition violation in '"@ + fn_name + "': a postcondition clause is not satisfied for all return paths."@
}

/// The query of a postcondition clause: the function's own preconditions
/// and the path conditions that the solver can take, `result` equal to
/// the returned expression, and the negation of the clause. A model is a
/// way to return a value that violates the clause.
pub open spec fn postcondition_query(
    pre: Seq<BoolExpr>,
    path: Seq<BoolExpr>,
    ret: IntExpr,
    post: BoolExpr,
) -> Seq<Formula> {
    known_formulas(pre) + known_formulas(path) + seq![
        Formula::IntEq(Box::new(IntTerm::Var("result"@)), Box::new(plain_term(ret)->0)),
        Formula::Not(Box::new(plain_formula(post)->0)),
    ]
}

impl VerificationEngine {
    /// Checks the postcondition clauses of `fn_name` at a return of
    /// `return_expr`, under its preconditions and the path conditions that
    /// the solver can take. Clauses the solver cannot take, and all clauses
    /// when the returned expression cannot be taken, are skipped. Answers
    /// whether some clause was proven, or the violation of a clause; a
    /// violation found through an untracked local is deferred to run time.
    pub fn verify_postcondition<'c>(
        z3_ctx: &'c Context,
        postconditions: &Vec<BoolExpr>,
        preconditions: &Vec<BoolExpr>,
        return_expr: &IntExpr,
        params: &Vec<String>,
        path_conditions: &Vec<BoolExpr>,
        fn_name: &str,
        skip_checks: bool,
    ) -> (r: Result<bool, String>)
        requires
            bools_names_ok(postconditions@),
            bools_names_ok(preconditions@),
            bools_names_ok(path_conditions@),
            int_names_ok(*return_expr),
        ensures
            postconditions@.len() == 0 || skip_checks ==> r == Ok::<bool, String>(false),
            plain_term(*return_expr) is None ==> r == Ok::<bool, String>(false),
            r == Ok::<bool, String>(true) ==> exists|j: int| 0 <= j < postconditions@.len() && plain_formula(
                postconditions@[j],
            ) is Some && (formulas_modeled(
                #[trigger] postcondition_query(preconditions@, path_conditions@, *return_expr, postconditions@[j]),
            ) ==> !satisfiable(postcondition_query(preconditions@, path_conditions@, *return_expr, postconditions@[j]))),
            r matches Err(m) ==> m@ == postcondition_violation(fn_name@) && !uses_untracked(
                *return_expr,
                string_views(params@),
            ) && exists|j: int| 0 <= j < postconditions@.len() && plain_formula(postconditions@[j]) is Some && (
            formulas_modeled(
                #[trigger] postcondition_query(preconditions@, path_conditions@, *return_expr, postconditions@[j]),
            ) ==> satisfiable(postcondition_query(preconditions@, path_conditions@, *return_expr, postconditions@[j]))),
    {
        if postconditions.len() == 0 || skip_checks {
            return Ok(false);
        }
        let mut sym = SymbolicContext::new(z3_ctx);
        let mut solver = contract_solver(z3_ctx);
        assert_known(z3_ctx, &mut sym, &mut solver, preconditions);
        assert_known(z3_ctx, &mut sym, &mut solver, path_conditions);
        let ghost base = known_formulas(preconditions@) + known_formulas(path_conditions@);
        proof {
            assert(solver.assertions() =~= base);
        }
        let empty_names: Vec<String> = Vec::new();
        let empty_repl: Vec<IntExpr> = Vec::new();
        proof {
            assert(string_views(empty_names@) =~= Seq::<Seq<char>>::empty());
            assert(empty_repl@ =~= Seq::<IntExpr>::empty());
        }
        let ret = match translate_int(z3_ctx, &mut sym, return_expr, &empty_names, &empty_repl, true) {
            Some(v) => v,
            None => {
                return Ok(false);
            },
        };
        let untracked = expr_uses_untracked_local(return_expr, params);
        let result_name = "result";
        proof {
            reveal_strlit("result");
            assert(no_nul(result_name@));
        }
        let mut verified = false;
        let mut j: usize = 0;
        while j < postconditions.len()
            invariant
                0 <= j <= postconditions@.len(),
                bools_names_ok(postconditions@),
                solver.context() == *z3_ctx,
                solver.assertions() == base,
                solver.scope_marks() == Seq::<nat>::empty(),
                postconditions@.len() > 0,
                !skip_checks,
                sym.wf(),
                *sym.context() == *z3_ctx,
                ret.context() == *z3_ctx,
                plain_term(*return_expr) == Some(ret.term()),
                untracked == uses_untracked(*return_expr, string_views(params@)),
                result_name@ == "result"@,
                no_nul(result_name@),
                string_views(empty_names@) == Seq::<Seq<char>>::empty(),
                empty_repl@ == Seq::<IntExpr>::empty(),
                base == known_formulas(preconditions@) + known_formulas(path_conditions@),
                verified ==> exists|k: int| 0 <= k < postconditions@.len() && plain_formula(postconditions@[k]) is Some
                    && (formulas_modeled(
                    #[trigger] postcondition_query(preconditions@, path_conditions@, *return_expr, postconditions@[k]),
                ) ==> !satisfiable(postcondition_query(preconditions@, path_conditions@, *return_expr, postconditions@[k]))),
            decreases postconditions@.len() - j,
        {
            proof {
                assert(bool_names_ok(postconditions@[j as int]));
            }
            match translate_bool(z3_ctx, &mut sym, &postconditions[j], &empty_names, &empty_repl) {
                None => {},
                Some(ens) => {
                    let result_sym = Int::new_const(z3_ctx, result_name);
                    let binding = result_sym._eq(&ret);
                    let negated = ens.not();
                    solver.push();
                    proof {
                        solver.lemma_depth();
                    }
                    solver.assert_formula(&binding);
                    solver.assert_formula(&negated);
                    let ghost q = postcondition_query(preconditions@, path_conditions@, *return_expr, postconditions@[j as int]);
                    proof {
                        assert(solver.assertions() =~= q);
                    }
                    let answer = solver.check();
                    proof {
                        solver.lemma_depth();
                    }
                    match clause_verdict(answer, untracked) {
                        ClauseVerdict::Proven => {
                            verified = true;
                        },
                        ClauseVerdict::Violated => {
                            proof {
                                assert(formulas_modeled(q) ==> satisfiable(q));
                            }
                            return Err(concat3("Postcondition violation in '", fn_name, "': a postcondition clause is not satisfied for all return paths."));
                        },
                        ClauseVerdict::Deferred => {},
                    }
                    solver.pop(1);
                    proof {
                        assert(solver.assertions() =~= base);
                    }
                },
            }
            j += 1;
        }
        Ok(verified)
    }
}

} // verus!
