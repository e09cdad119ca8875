//! The mathematical meaning of the integer and Boolean terms that the
//! solver facade builds: terms over named integer and Boolean constants,
//! their value under an assignment, and satisfiability of a list of
//! formulas.
use vstd::prelude::*;

verus! {

/// An integer-sorted term.
pub enum IntTerm {
    /// The integer constant with this name.
    Var(Seq<char>),
    /// A numeral.
    Lit(int),
    /// The sum of the terms.
    Add(Seq<IntTerm>),
    /// The first term minus the others.
    Sub(Seq<IntTerm>),
    /// The product of the terms.
    Mul(Seq<IntTerm>),
    /// Integer modulus (kept, but given no meaning here).
    Mod(Box<IntTerm>, Box<IntTerm>),
    /// Integer remainder (kept, but given no meaning here).
    Rem(Box<IntTerm>, Box<IntTerm>),
    /// If-then-else on a formula.
    Ite(Box<Formula>, Box<IntTerm>, Box<IntTerm>),
    /// A term whose meaning is not modeled.
    Opaque,
}

/// A Boolean-sorted term.
pub enum Formula {
    Lit(bool),
    /// The Boolean constant with this name.
    Var(Seq<char>),
    Not(Box<Formula>),
    /// Conjunction of the formulas (true when there are none).
    And(Seq<Formula>),
    /// Disjunction of the formulas (false when there are none).
    Or(Seq<Formula>),
    Implies(Box<Formula>, Box<Formula>),
    /// Equality of two formulas.
    Iff(Box<Formula>, Box<Formula>),
    Le(Box<IntTerm>, Box<IntTerm>),
    Lt(Box<IntTerm>, Box<IntTerm>),
    Ge(Box<IntTerm>, Box<IntTerm>),
    Gt(Box<IntTerm>, Box<IntTerm>),
    /// Equality of two integer terms.
    IntEq(Box<IntTerm>, Box<IntTerm>),
    /// A formula whose meaning is not modeled.
    Opaque,
}

/// An assignment of values to the named constants.
pub struct Env {
    pub ints: spec_fn(Seq<char>) -> int,
    pub bools: spec_fn(Seq<char>) -> bool,
}

/// Whether a term has a meaning here: it contains no unmodeled part.
pub open spec fn int_modeled(t: IntTerm) -> bool
    decreases t, 1nat,
{
    match t {
        IntTerm::Var(_) | IntTerm::Lit(_) => true,
        IntTerm::Add(ts) | IntTerm::Sub(ts) | IntTerm::Mul(ts) => ints_modeled(ts),
        IntTerm::Ite(c, a, b) => formula_modeled(*c) && int_modeled(*a) && int_modeled(*b),
        _ => false,
    }
}

/// `int_modeled` for every term of a list.
pub open spec fn ints_modeled(ts: Seq<IntTerm>) -> bool
    decreases ts, 0nat,
{
    if ts.len() == 0 {
        true
    } else {
        proof {
            assert(decreases_to!(ts => ts.drop_last()));
            assert(decreases_to!(ts => ts.last()));
        }
        ints_modeled(ts.drop_last()) && int_modeled(ts.last())
    }
}

/// Whether a formula has a meaning here.
pub open spec fn formula_modeled(f: Formula) -> bool
    decreases f, 1nat,
{
    match f {
        Formula::Lit(_) | Formula::Var(_) => true,
        Formula::Not(g) => formula_modeled(*g),
        Formula::And(fs) | Formula::Or(fs) => formulas_modeled(fs),
        Formula::Implies(a, b) | Formula::Iff(a, b) => formula_modeled(*a) && formula_modeled(*b),
        Formula::Le(a, b) | Formula::Lt(a, b) | Formula::Ge(a, b) | Formula::Gt(a, b)
        | Formula::IntEq(a, b) => int_modeled(*a) && int_modeled(*b),
        Formula::Opaque => false,
    }
}

/// `formula_modeled` for every formula of a list.
pub open spec fn formulas_modeled(fs: Seq<Formula>) -> bool
    decreases fs, 0nat,
{
    if fs.len() == 0 {
        true
    } else {
        proof {
            assert(decreases_to!(fs => fs.drop_last()));
            assert(decreases_to!(fs => fs.last()));
        }
        formulas_modeled(fs.drop_last()) && formula_modeled(fs.last())
    }
}

/// The value of a term under an assignment.
pub open spec fn eval_int(t: IntTerm, env: Env) -> int
    decreases t, 1nat,
{
    match t {
        IntTerm::Var(n) => (env.ints)(n),
        IntTerm::Lit(v) => v,
        IntTerm::Add(ts) => eval_sum(ts, env),
        IntTerm::Sub(ts) => eval_difference(ts, env),
        IntTerm::Mul(ts) => eval_product(ts, env),
        IntTerm::Ite(c, a, b) => if eval_formula(*c, env) {
            eval_int(*a, env)
        } else {
            eval_int(*b, env)
        },
        _ => 0,
    }
}

/// The sum of the values of a list of terms.
pub open spec fn eval_sum(ts: Seq<IntTerm>, env: Env) -> int
    decreases ts, 0nat,
{
    if ts.len() == 0 {
        0
    } else {
        proof {
            assert(decreases_to!(ts => ts.drop_last()));
            assert(decreases_to!(ts => ts.last()));
        }
        eval_sum(ts.drop_last(), env) + eval_int(ts.last(), env)
    }
}

/// The first value minus the following ones.
pub open spec fn eval_difference(ts: Seq<IntTerm>, env: Env) -> int
    decreases ts, 0nat,
{
    if ts.len() == 0 {
        0
    } else if ts.len() == 1 {
        proof {
            assert(decreases_to!(ts => ts[0]));
        }
        eval_int(ts[0], env)
    } else {
        proof {
            assert(decreases_to!(ts => ts.drop_last()));
            assert(decreases_to!(ts => ts.last()));
        }
        eval_difference(ts.drop_last(), env) - eval_int(ts.last(), env)
    }
}

/// The product of the values of a list of terms.
pub open spec fn eval_product(ts: Seq<IntTerm>, env: Env) -> int
    decreases ts, 0nat,
{
    if ts.len() == 0 {
        1
    } else {
        proof {
            assert(decreases_to!(ts => ts.drop_last()));
            assert(decreases_to!(ts => ts.last()));
        }
        eval_product(ts.drop_last(), env) * eval_int(ts.last(), env)
    }
}

/// The truth value of a formula under an assignment.
pub open spec fn eval_formula(f: Formula, env: Env) -> bool
    decreases f, 1nat,
{
    match f {
        Formula::Lit(b) => b,
        Formula::Var(n) => (env.bools)(n),
        Formula::Not(g) => !eval_formula(*g, env),
        Formula::And(fs) => eval_all(fs, env),
        Formula::Or(fs) => eval_any(fs, env),
        Formula::Implies(a, b) => eval_formula(*a, env) ==> eval_formula(*b, env),
        Formula::Iff(a, b) => eval_formula(*a, env) == eval_formula(*b, env),
        Formula::Le(a, b) => eval_int(*a, env) <= eval_int(*b, env),
        Formula::Lt(a, b) => eval_int(*a, env) < eval_int(*b, env),
        Formula::Ge(a, b) => eval_int(*a, env) >= eval_int(*b, env),
        Formula::Gt(a, b) => eval_int(*a, env) > eval_int(*b, env),
        Formula::IntEq(a, b) => eval_int(*a, env) == eval_int(*b, env),
        Formula::Opaque => false,
    }
}

/// Whether every formula of a list holds.
pub open spec fn eval_all(fs: Seq<Formula>, env: Env) -> bool
    decreases fs, 0nat,
{
    if fs.len() == 0 {
        true
    } else {
        proof {
            assert(decreases_to!(fs => fs.drop_last()));
            assert(decreases_to!(fs => fs.last()));
        }
        eval_all(fs.drop_last(), env) && eval_formula(fs.last(), env)
    }
}

/// Whether some formula of a list holds.
pub open spec fn eval_any(fs: Seq<Formula>, env: Env) -> bool
    decreases fs, 0nat,
{
    if fs.len() == 0 {
        false
    } else {
        proof {
            assert(decreases_to!(fs => fs.drop_last()));
            assert(decreases_to!(fs => fs.last()));
        }
        eval_any(fs.drop_last(), env) || eval_formula(fs.last(), env)
    }
}

/// Whether some assignment makes every formula of the list true.
pub open spec fn satisfiable(fs: Seq<Formula>) -> bool {
    exists|env: Env| #[trigger] eval_all(fs, env)
}

/// `eval_all` holds exactly when each formula holds.
pub proof fn lemma_eval_all(fs: Seq<Formula>, env: Env)
    ensures
        eval_all(fs, env) <==> forall|i: int| 0 <= i < fs.len() ==> #[trigger] eval_formula(fs[i], env),
    decreases fs.len(),
{
    if fs.len() > 0 {
        lemma_eval_all(fs.drop_last(), env);
        if eval_all(fs, env) {
            assert forall|i: int| 0 <= i < fs.len() implies #[trigger] eval_formula(fs[i], env) by {
                if i < fs.len() - 1 {
                    assert(fs.drop_last()[i] == fs[i]);
                }
            }
        } else {
            if eval_all(fs.drop_last(), env) {
                assert(!eval_formula(fs[fs.len() - 1], env));
            } else {
                let i = choose|i: int| 0 <= i < fs.drop_last().len() && !eval_formula(fs.drop_last()[i], env);
                assert(fs.drop_last()[i] == fs[i]);
            }
        }
    }
}

/// `eval_any` holds exactly when some formula holds.
pub proof fn lemma_eval_any(fs: Seq<Formula>, env: Env)
    ensures
        eval_any(fs, env) <==> exists|i: int| 0 <= i < fs.len() && #[trigger] eval_formula(fs[i], env),
    decreases fs.len(),
{
    if fs.len() > 0 {
        lemma_eval_any(fs.drop_last(), env);
        if eval_any(fs, env) {
            if eval_any(fs.drop_last(), env) {
                let i = choose|i: int| 0 <= i < fs.drop_last().len() && eval_formula(fs.drop_last()[i], env);
                assert(fs.drop_last()[i] == fs[i]);
            } else {
                assert(eval_formula(fs[fs.len() - 1], env));
            }
        } else {
            assert forall|i: int| 0 <= i < fs.len() implies !#[trigger] eval_formula(fs[i], env) by {
                if i < fs.len() - 1 {
                    assert(fs.drop_last()[i] == fs[i]);
                }
            }
        }
    }
}

/// `formulas_modeled` holds exactly when each formula is modeled.
pub proof fn lemma_formulas_modeled(fs: Seq<Formula>)
    ensures
        formulas_modeled(fs) <==> forall|i: int| 0 <= i < fs.len() ==> #[trigger] formula_modeled(fs[i]),
    decreases fs.len(),
{
    if fs.len() > 0 {
        lemma_formulas_modeled(fs.drop_last());
        if formulas_modeled(fs) {
            assert forall|i: int| 0 <= i < fs.len() implies #[trigger] formula_modeled(fs[i]) by {
                if i < fs.len() - 1 {
                    assert(fs.drop_last()[i] == fs[i]);
                }
            }
        } else {
            if formulas_modeled(fs.drop_last()) {
                assert(!formula_modeled(fs[fs.len() - 1]));
            } else {
                let i = choose|i: int| 0 <= i < fs.drop_last().len() && !formula_modeled(fs.drop_last()[i]);
                assert(fs.drop_last()[i] == fs[i]);
            }
        }
    }
}

/// `ints_modeled` holds exactly when each term is modeled.
pub proof fn lemma_ints_modeled(ts: Seq<IntTerm>)
    ensures
        ints_modeled(ts) <==> forall|i: int| 0 <= i < ts.len() ==> #[trigger] int_modeled(ts[i]),
    decreases ts.len(),
{
    if ts.len() > 0 {
        lemma_ints_modeled(ts.drop_last());
        if ints_modeled(ts) {
            assert forall|i: int| 0 <= i < ts.len() implies #[trigger] int_modeled(ts[i]) by {
                if i < ts.len() - 1 {
                    assert(ts.drop_last()[i] == ts[i]);
                }
            }
        } else {
            if ints_modeled(ts.drop_last()) {
                assert(!int_modeled(ts[ts.len() - 1]));
            } else {
                let i = choose|i: int| 0 <= i < ts.drop_last().len() && !int_modeled(ts.drop_last()[i]);
                assert(ts.drop_last()[i] == ts[i]);
            }
        }
    }
}

} // verus!
