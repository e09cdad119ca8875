//! Bounds-check elision for buffer slices. For `buf.slice(start, end)` and
//! accesses into such a view, the solver looks for a counterexample to the
//! bounds; when there is none the runtime check can be dropped.
//!
//! The physical invariants of a buffer are always assumed: its length is
//! positive and `0 <= start <= end <= length`. A constant length, start or
//! end narrows the search, and so does an upper bound on `end` found by a
//! SIMD scan (which is itself at most the length).
use vstd::prelude::*;
use crate::smt::{IntTerm, Formula, Env, eval_formula, eval_all, satisfiable, formula_modeled,
    formulas_modeled, int_modeled, ints_modeled, eval_int, eval_sum, lemma_eval_any};
use crate::z3_shim::{Context, Solver, Int, Bool, SatResult, no_nul, int_terms, formulas};
use crate::text::{concat3, i64_to_decimal, decimal};

verus! {

/// The outcome of a proof attempt.
#[derive(Debug, Clone, PartialEq, Eq)]
pub enum SliceProofResult {
    /// No counterexample exists: the check can be elided.
    Proven,
    /// A counterexample exists: the check stays; the text says where.
    Unsafe(String),
    /// The solver gave no answer: the check stays.
    Unknown,
}

/// What is known about a slice at the point of an access.
#[derive(Debug, Clone)]
pub struct SliceInfo {
    pub buf_length: Option<i64>,
    pub slice_start: Option<i64>,
    pub slice_end: Option<i64>,
    pub discovery_bound: Option<i64>,
    pub func_name: String,
}

impl SliceInfo {
    /// Nothing known yet, in function `func_name`.
    pub fn new(func_name: &str) -> (r: SliceInfo)
        ensures
            r.buf_length is None,
            r.slice_start is None,
            r.slice_end is None,
            r.discovery_bound is None,
            r.func_name@ == func_name@,
    {
        SliceInfo {
            buf_length: None,
            slice_start: None,
            slice_end: None,
            discovery_bound: None,
            func_name: func_name.to_string(),
        }
    }

    /// The buffer's length is `len`.
    pub fn with_buf_length(self, len: i64) -> (r: SliceInfo)
        ensures
            r == (SliceInfo { buf_length: Some(len), ..self }),
    {
        let mut s = self;
        s.buf_length = Some(len);
        s
    }

    /// The slice is `start..end`.
    pub fn with_slice(self, start: i64, end: i64) -> (r: SliceInfo)
        ensures
            r == (SliceInfo { slice_start: Some(start), slice_end: Some(end), ..self }),
    {
        let mut s = self;
        s.slice_start = Some(start);
        s.slice_end = Some(end);
        s
    }

    /// A scan found that the slice ends at or before `bound`.
    pub fn with_discovery_bound(self, bound: i64) -> (r: SliceInfo)
        ensures
            r == (SliceInfo { discovery_bound: Some(bound), ..self }),
    {
        let mut s = self;
        s.discovery_bound = Some(bound);
        s
    }
}

// ----------------------------------------------------------------------
// What the queries mean
// ----------------------------------------------------------------------

pub open spec fn buf_len_name() -> Seq<char> {
    seq!['b', 'u', 'f', '_', 'l', 'e', 'n']
}

pub open spec fn start_name() -> Seq<char> {
    seq!['s', 't', 'a', 'r', 't']
}

pub open spec fn end_name() -> Seq<char> {
    seq!['e', 'n', 'd']
}

pub open spec fn offset_name() -> Seq<char> {
    seq!['o', 'f', 'f', 's', 'e', 't']
}

/// Whether a buffer of length `b` with a slice `s..e` is consistent with
/// what `info` records: the physical invariants, the known constants and
/// the discovery bound.
pub open spec fn slice_consistent(info: SliceInfo, b: int, s: int, e: int) -> bool {
    &&& b > 0
    &&& 0 <= s <= e <= b
    &&& (info.buf_length matches Some(len) ==> b == len)
    &&& (info.slice_start matches Some(v) ==> s == v)
    &&& (info.slice_end matches Some(v) ==> e == v)
    &&& (info.discovery_bound matches Some(d) ==> e <= d && d <= b)
}

/// An access at `offset` into a slice is safe when every consistent
/// buffer and slice has `start + offset < end`.
pub open spec fn access_safe(info: SliceInfo, offset: int) -> bool {
    forall|b: int, s: int, e: int| #[trigger] slice_consistent(info, b, s, e) ==> s + offset < e
}

/// An access at any offset `o` with `0 <= o` (and `o < bound` when a bound is
/// known) into a slice is safe when every consistent case has `start + o < end`.
pub open spec fn dynamic_access_safe(info: SliceInfo, bound: Option<i64>) -> bool {
    forall|b: int, s: int, e: int, o: int|
        #[trigger] slice_consistent(info, b, s, e) && #[trigger] offset_allowed(bound, o) ==> s + o < e
}

/// A symbolic offset is non-negative and below the bound, when one is known.
pub open spec fn offset_allowed(bound: Option<i64>, o: int) -> bool {
    0 <= o && (bound matches Some(u) ==> o < u)
}

/// Creating `buf.slice(start, end)` on a buffer of length `len` is valid.
pub open spec fn creation_valid(len: int, start: int, end: int) -> bool {
    0 <= start <= end <= len
}

/// The text of a signed integer.
pub open spec fn signed_text(v: int) -> Seq<char> {
    if v < 0 {
        seq!['-'] + decimal((-v) as nat)
    } else {
        decimal(v as nat)
    }
}

/// The counterexample report for a constant offset.
pub open spec fn access_report(func_name: Seq<char>, offset: int) -> Seq<char> {
    "Counterexample in '"@ + func_name + "': access at offset "@ + signed_text(offset)
        + " may exceed slice bounds"@
}

/// The counterexample report for a symbolic offset.
pub open spec fn dynamic_report(func_name: Seq<char>) -> Seq<char> {
    "Counterexample in '"@ + func_name + "': symbolic offset may exceed slice bounds"@
}

/// The report for an invalid slice creation.
pub open spec fn creation_report() -> Seq<char> {
    "Slice bounds may exceed buffer"@
}

// ----------------------------------------------------------------------
// Formulas
// ----------------------------------------------------------------------

pub open spec fn var(n: Seq<char>) -> Box<IntTerm> {
    Box::new(IntTerm::Var(n))
}

pub open spec fn lit(v: int) -> Box<IntTerm> {
    Box::new(IntTerm::Lit(v))
}

/// The assignment that gives the buffer, slice and offset these values.
pub open spec fn slice_env(b: int, s: int, e: int, o: int) -> Env {
    Env {
        ints: |n: Seq<char>| if n == buf_len_name() {
            b
        } else if n == start_name() {
            s
        } else if n == end_name() {
            e
        } else if n == offset_name() {
            o
        } else {
            0
        },
        bools: |n: Seq<char>| false,
    }
}

proof fn lemma_names_distinct()
    ensures
        buf_len_name() != start_name(),
        buf_len_name() != end_name(),
        buf_len_name() != offset_name(),
        start_name() != end_name(),
        start_name() != offset_name(),
        end_name() != offset_name(),
{
    assert(buf_len_name().len() != start_name().len());
    assert(buf_len_name().len() != end_name().len());
    assert(buf_len_name().len() != offset_name().len());
    assert(start_name().len() != end_name().len());
    assert(start_name()[0] != offset_name()[0]);
    assert(end_name().len() != offset_name().len());
}

/// `eval_all` of a list with one more formula.
proof fn lemma_eval_all_push(fs: Seq<Formula>, f: Formula, env: Env)
    ensures
        eval_all(fs.push(f), env) == (eval_all(fs, env) && eval_formula(f, env)),
        formulas_modeled(fs.push(f)) == (formulas_modeled(fs) && formula_modeled(f)),
{
    assert(fs.push(f).drop_last() =~= fs);
}

fn name_const<'c>(ctx: &'c Context, name: &str, Ghost(expected): Ghost<Seq<char>>) -> (r: Int<'c>)
    requires
        name@ == expected,
        no_nul(expected),
    ensures
        r.term() == IntTerm::Var(expected),
        r.context() == *ctx,
{
    Int::new_const(ctx, name)
}

proof fn lemma_no_nul_names()
    ensures
        no_nul(buf_len_name()),
        no_nul(start_name()),
        no_nul(end_name()),
        no_nul(offset_name()),
{
}

/// Numerals evaluate to themselves.
proof fn lemma_lits(env: Env, vs: Seq<int>)
    ensures
        forall|i: int| 0 <= i < vs.len() ==> eval_int(IntTerm::Lit(#[trigger] vs[i]), env) == vs[i],
{
}

/// The violation that slice creation looks for, as a one-formula query.
pub open spec fn creation_query(len: int, start: int, end: int) -> Seq<Formula> {
    seq![
        Formula::Or(
            seq![
                Formula::Gt(lit(start), lit(end)),
                Formula::Gt(lit(end), lit(len)),
                Formula::Lt(lit(start), lit(0)),
            ],
        ),
    ]
}

proof fn lemma_creation_query(len: int, start: int, end: int)
    ensures
        formulas_modeled(creation_query(len, start, end)),
        satisfiable(creation_query(len, start, end)) <==> !creation_valid(len, start, end),
{
    let q = creation_query(len, start, end);
    let fs = q[0]->Or_0;
    crate::smt::lemma_formulas_modeled(fs);
    assert(int_modeled(IntTerm::Lit(start)) && int_modeled(IntTerm::Lit(end)) && int_modeled(IntTerm::Lit(len))
        && int_modeled(IntTerm::Lit(0)));
    assert(formula_modeled(fs[0]) && formula_modeled(fs[1]) && formula_modeled(fs[2]));
    assert(formula_modeled(q[0]));
    crate::smt::lemma_formulas_modeled(q);
    let env = slice_env(0, 0, 0, 0);
    lemma_lits(env, seq![start, end, len, 0]);
    lemma_eval_any(fs, env);
    assert(q.drop_last() =~= Seq::<Formula>::empty());
    crate::smt::lemma_eval_all(q, env);
    if satisfiable(q) {
        let w = choose|w: Env| #[trigger] eval_all(q, w);
        crate::smt::lemma_eval_all(q, w);
        lemma_lits(w, seq![start, end, len, 0]);
        lemma_eval_any(fs, w);
        assert(eval_formula(q[0], w));
    }
    if !creation_valid(len, start, end) {
        if start > end {
            assert(eval_formula(fs[0], env));
        } else if end > len {
            assert(eval_formula(fs[1], env));
        } else {
            assert(eval_formula(fs[2], env));
        }
        assert(eval_formula(q[0], env));
        assert(eval_all(q, env));
    }
}

/// What a creation proof concludes from the solver's answer on
/// `creation_query`: no violation proves the slice, a violation is
/// reported, and no answer leaves the runtime check in place.
pub fn creation_outcome(answer: SatResult) -> (r: SliceProofResult)
    ensures
        answer == SatResult::Unsat <==> r == SliceProofResult::Proven,
        answer == SatResult::Sat <==> (r matches SliceProofResult::Unsafe(m) && m@ == creation_report()),
        answer == SatResult::Unknown <==> r == SliceProofResult::Unknown,
{
    match answer {
        SatResult::Unsat => SliceProofResult::Proven,
        SatResult::Sat => SliceProofResult::Unsafe("Slice bounds may exceed buffer".to_string()),
        SatResult::Unknown => SliceProofResult::Unknown,
    }
}

/// Proves a slice creation `buf.slice(slice_start, slice_end)` on a buffer
/// of length `buf_length` in bounds, by asking the solver for a violation.
pub fn verify_slice_creation(z3_ctx: &Context, buf_length: i64, slice_start: i64, slice_end: i64) -> (r:
    SliceProofResult)
    ensures
        r == SliceProofResult::Proven ==> creation_valid(buf_length as int, slice_start as int, slice_end as int),
        r is Unsafe ==> !creation_valid(buf_length as int, slice_start as int, slice_end as int),
        r matches SliceProofResult::Unsafe(m) ==> m@ == creation_report(),
        r == SliceProofResult::Proven ==> !satisfiable(creation_query(buf_length as int, slice_start as int, slice_end as int)),
        r is Unsafe ==> satisfiable(creation_query(buf_length as int, slice_start as int, slice_end as int)),
{
    let mut solver = Solver::new(z3_ctx);
    let zero = Int::from_i64(z3_ctx, 0);
    let len = Int::from_i64(z3_ctx, buf_length);
    let start = Int::from_i64(z3_ctx, slice_start);
    let end = Int::from_i64(z3_ctx, slice_end);
    let v1 = start.gt(&end);
    let v2 = end.gt(&len);
    let v3 = start.lt(&zero);
    let violations = [&v1, &v2, &v3];
    let any_violation = Bool::or(z3_ctx, &violations);
    solver.assert_formula(&any_violation);
    proof {
        assert(formulas(violations@) =~= creation_query(buf_length as int, slice_start as int, slice_end as int)[0]->Or_0);
        assert(solver.assertions() =~= creation_query(buf_length as int, slice_start as int, slice_end as int));
        lemma_creation_query(buf_length as int, slice_start as int, slice_end as int);
    }
    creation_outcome(solver.check())
}

/// The physical invariants of a buffer and slice.
pub open spec fn physical_query() -> Seq<Formula> {
    seq![
        Formula::Gt(var(buf_len_name()), lit(0)),
        Formula::Ge(var(start_name()), lit(0)),
        Formula::Le(var(start_name()), var(end_name())),
        Formula::Le(var(end_name()), var(buf_len_name())),
    ]
}

/// `base` with the constants that `info` knows.
pub open spec fn known_query(info: SliceInfo, base: Seq<Formula>) -> Seq<Formula> {
    let q1 = match info.buf_length {
        Some(l) => base.push(Formula::IntEq(var(buf_len_name()), lit(l as int))),
        None => base,
    };
    let q2 = match info.slice_start {
        Some(v) => q1.push(Formula::IntEq(var(start_name()), lit(v as int))),
        None => q1,
    };
    match info.slice_end {
        Some(v) => q2.push(Formula::IntEq(var(end_name()), lit(v as int))),
        None => q2,
    }
}

/// `base` with the discovery bound, if `info` has one.
pub open spec fn discovery_query(info: SliceInfo, base: Seq<Formula>) -> Seq<Formula> {
    match info.discovery_bound {
        Some(d) => base.push(Formula::Le(var(end_name()), lit(d as int))).push(
            Formula::Le(lit(d as int), var(buf_len_name())),
        ),
        None => base,
    }
}

/// `start + o >= end`, the violation of an access.
pub open spec fn violation(o: IntTerm) -> Formula {
    Formula::Ge(Box::new(IntTerm::Add(seq![IntTerm::Var(start_name()), o])), var(end_name()))
}

/// The query for an access at a constant offset.
pub open spec fn access_query(info: SliceInfo, offset: int) -> Seq<Formula> {
    discovery_query(info, known_query(info, physical_query())).push(violation(IntTerm::Lit(offset)))
}

/// The value of `start + o`.
proof fn lemma_eval_violation(o: IntTerm, env: Env)
    requires
        int_modeled(o),
    ensures
        eval_formula(violation(o), env) == ((env.ints)(start_name()) + eval_int(o, env) >= (env.ints)(end_name())),
        formula_modeled(violation(o)),
{
    let ts = seq![IntTerm::Var(start_name()), o];
    assert(ts.drop_last() =~= seq![IntTerm::Var(start_name())]);
    assert(ts.drop_last().drop_last() =~= Seq::<IntTerm>::empty());
    assert(eval_sum(Seq::<IntTerm>::empty(), env) == 0);
    assert(eval_int(IntTerm::Var(start_name()), env) == (env.ints)(start_name()));
    assert(eval_int(IntTerm::Var(end_name()), env) == (env.ints)(end_name()));
    assert(int_modeled(IntTerm::Var(start_name())));
    assert(int_modeled(IntTerm::Var(end_name())));
    assert(ints_modeled(Seq::<IntTerm>::empty()));
    assert(eval_sum(ts.drop_last(), env) == (env.ints)(start_name()));
    assert(eval_sum(ts, env) == (env.ints)(start_name()) + eval_int(o, env));
    assert(eval_int(IntTerm::Add(ts), env) == eval_sum(ts, env));
    assert(ints_modeled(ts.drop_last()));
    assert(ints_modeled(ts));
    assert(int_modeled(IntTerm::Add(ts)));
}

/// The named constants and numerals evaluate as expected and are modeled.
proof fn lemma_var_lit(env: Env)
    ensures
        forall|n: Seq<char>| #[trigger] eval_int(IntTerm::Var(n), env) == (env.ints)(n),
        forall|v: int| #[trigger] eval_int(IntTerm::Lit(v), env) == v,
        forall|n: Seq<char>| #[trigger] int_modeled(IntTerm::Var(n)),
        forall|v: int| #[trigger] int_modeled(IntTerm::Lit(v)),
{
}

/// What the physical invariants say about an assignment.
proof fn lemma_physical(env: Env)
    ensures
        eval_all(physical_query(), env) == ((env.ints)(buf_len_name()) > 0 && (env.ints)(start_name()) >= 0
            && (env.ints)(start_name()) <= (env.ints)(end_name()) && (env.ints)(end_name()) <= (env.ints)(
            buf_len_name())),
        formulas_modeled(physical_query()),
{
    let b = (env.ints)(buf_len_name());
    let st = (env.ints)(start_name());
    let e = (env.ints)(end_name());
    let p = physical_query();
    lemma_var_lit(env);
    assert(eval_int(*lit(0), env) == 0);
    assert(eval_int(*var(buf_len_name()), env) == b);
    assert(eval_int(*var(start_name()), env) == st);
    assert(eval_int(*var(end_name()), env) == e);
    assert(int_modeled(*lit(0)));
    assert(int_modeled(*var(buf_len_name())));
    assert(int_modeled(*var(start_name())));
    assert(int_modeled(*var(end_name())));
    let f0 = Formula::Gt(var(buf_len_name()), lit(0));
    let f1 = Formula::Ge(var(start_name()), lit(0));
    let f2 = Formula::Le(var(start_name()), var(end_name()));
    let f3 = Formula::Le(var(end_name()), var(buf_len_name()));
    assert(eval_formula(f0, env) == (b > 0));
    assert(eval_formula(f1, env) == (st >= 0));
    assert(eval_formula(f2, env) == (st <= e));
    assert(eval_formula(f3, env) == (e <= b));
    assert(formula_modeled(f0) && formula_modeled(f1) && formula_modeled(f2) && formula_modeled(f3));
    let e0 = Seq::<Formula>::empty();
    lemma_eval_all_push(e0, f0, env);
    lemma_eval_all_push(e0.push(f0), f1, env);
    lemma_eval_all_push(e0.push(f0).push(f1), f2, env);
    lemma_eval_all_push(e0.push(f0).push(f1).push(f2), f3, env);
    assert(e0.push(f0).push(f1).push(f2).push(f3) =~= p);
}

/// What the common part of the access queries says about an assignment.
/// Comparisons of a named constant with a numeral.
proof fn lemma_atom(env: Env, n: Seq<char>, v: int)
    ensures
        eval_formula(Formula::IntEq(var(n), lit(v)), env) == ((env.ints)(n) == v),
        eval_formula(Formula::Le(var(n), lit(v)), env) == ((env.ints)(n) <= v),
        eval_formula(Formula::Le(lit(v), var(n)), env) == (v <= (env.ints)(n)),
        eval_formula(Formula::Lt(var(n), lit(v)), env) == ((env.ints)(n) < v),
        eval_formula(Formula::Ge(var(n), lit(v)), env) == ((env.ints)(n) >= v),
        formula_modeled(Formula::IntEq(var(n), lit(v))),
        formula_modeled(Formula::Le(var(n), lit(v))),
        formula_modeled(Formula::Le(lit(v), var(n))),
        formula_modeled(Formula::Lt(var(n), lit(v))),
        formula_modeled(Formula::Ge(var(n), lit(v))),
{
    assert(eval_int(*var(n), env) == (env.ints)(n));
    assert(eval_int(*lit(v), env) == v);
    assert(int_modeled(*var(n)));
    assert(int_modeled(*lit(v)));
}

proof fn lemma_eval_slice_part(info: SliceInfo, env: Env)
    ensures
        eval_all(discovery_query(info, known_query(info, physical_query())), env) == slice_consistent(
            info,
            (env.ints)(buf_len_name()),
            (env.ints)(start_name()),
            (env.ints)(end_name()),
        ),
        formulas_modeled(discovery_query(info, known_query(info, physical_query()))),
{
    let p = physical_query();
    lemma_physical(env);
    lemma_var_lit(env);
    let q1 = match info.buf_length {
        Some(l) => p.push(Formula::IntEq(var(buf_len_name()), lit(l as int))),
        None => p,
    };
    match info.buf_length {
        Some(l) => {
            lemma_atom(env, buf_len_name(), l as int);
            lemma_eval_all_push(p, Formula::IntEq(var(buf_len_name()), lit(l as int)), env);
        },
        None => {},
    }
    let q2 = match info.slice_start {
        Some(v) => q1.push(Formula::IntEq(var(start_name()), lit(v as int))),
        None => q1,
    };
    match info.slice_start {
        Some(v) => {
            lemma_atom(env, start_name(), v as int);
            lemma_eval_all_push(q1, Formula::IntEq(var(start_name()), lit(v as int)), env);
        },
        None => {},
    }
    let q3 = known_query(info, p);
    match info.slice_end {
        Some(v) => {
            lemma_atom(env, end_name(), v as int);
            lemma_eval_all_push(q2, Formula::IntEq(var(end_name()), lit(v as int)), env);
        },
        None => {},
    }
    match info.discovery_bound {
        Some(d) => {
            lemma_atom(env, end_name(), d as int);
            lemma_atom(env, buf_len_name(), d as int);
            lemma_eval_all_push(q3, Formula::Le(var(end_name()), lit(d as int)), env);
            lemma_eval_all_push(
                q3.push(Formula::Le(var(end_name()), lit(d as int))),
                Formula::Le(lit(d as int), var(buf_len_name())),
                env,
            );
        },
        None => {},
    }
}

proof fn lemma_access_query(info: SliceInfo, offset: int)
    ensures
        formulas_modeled(access_query(info, offset)),
        satisfiable(access_query(info, offset)) <==> !access_safe(info, offset),
{
    let base = discovery_query(info, known_query(info, physical_query()));
    let v = violation(IntTerm::Lit(offset));
    let q = access_query(info, offset);
    let env0 = slice_env(0, 0, 0, 0);
    lemma_eval_slice_part(info, env0);
    lemma_eval_violation(IntTerm::Lit(offset), env0);
    lemma_eval_all_push(base, v, env0);
    if satisfiable(q) {
        let w = choose|w: Env| #[trigger] eval_all(q, w);
        lemma_eval_slice_part(info, w);
        lemma_eval_violation(IntTerm::Lit(offset), w);
        lemma_eval_all_push(base, v, w);
        assert(slice_consistent(info, (w.ints)(buf_len_name()), (w.ints)(start_name()), (w.ints)(end_name())));
    }
    if !access_safe(info, offset) {
        let (b, st, e) = choose|b: int, st: int, e: int| #[trigger] slice_consistent(info, b, st, e) && !(st + offset < e);
        let env = slice_env(b, st, e, 0);
        lemma_names_distinct();
        lemma_eval_slice_part(info, env);
        lemma_eval_violation(IntTerm::Lit(offset), env);
        lemma_eval_all_push(base, v, env);
        assert(eval_all(q, env));
    }
}

/// Asserts the physical invariants, the known constants and the discovery
/// bound of `slice` over the constants `buf_len`, `start` and `end`.
fn assert_slice_facts<'c>(
    z3_ctx: &'c Context,
    solver: &mut Solver<'c>,
    slice: &SliceInfo,
    buf_len: &Int<'c>,
    start: &Int<'c>,
    end: &Int<'c>,
)
    requires
        buf_len.term() == IntTerm::Var(buf_len_name()),
        start.term() == IntTerm::Var(start_name()),
        end.term() == IntTerm::Var(end_name()),
        old(solver).context() == *z3_ctx,
        buf_len.context() == *z3_ctx,
        start.context() == *z3_ctx,
        end.context() == *z3_ctx,
    ensures
        final(solver).context() == *z3_ctx,
        final(solver).assertions() == old(solver).assertions() + discovery_query(
            *slice,
            known_query(*slice, physical_query()),
        ),
{
    let ghost before = solver.assertions();
    let zero = Int::from_i64(z3_ctx, 0);
    solver.assert_formula(&buf_len.gt(&zero));
    solver.assert_formula(&start.ge(&zero));
    solver.assert_formula(&start.le(end));
    solver.assert_formula(&end.le(buf_len));
    proof {
        assert(solver.assertions() =~= before + physical_query());
    }
    let ghost q1 = solver.assertions();
    match slice.buf_length {
        Some(len) => {
            let c = Int::from_i64(z3_ctx, len);
            solver.assert_formula(&buf_len._eq(&c));
        },
        None => {},
    }
    match slice.slice_start {
        Some(v) => {
            let c = Int::from_i64(z3_ctx, v);
            solver.assert_formula(&start._eq(&c));
        },
        None => {},
    }
    match slice.slice_end {
        Some(v) => {
            let c = Int::from_i64(z3_ctx, v);
            solver.assert_formula(&end._eq(&c));
        },
        None => {},
    }
    proof {
        assert(solver.assertions() =~= before + known_query(*slice, physical_query()));
    }
    match slice.discovery_bound {
        Some(d) => {
            let c = Int::from_i64(z3_ctx, d);
            solver.assert_formula(&end.le(&c));
            solver.assert_formula(&c.le(buf_len));
        },
        None => {},
    }
    proof {
        assert(solver.assertions() =~= before + discovery_query(*slice, known_query(*slice, physical_query())));
    }
}

/// The constants `buf_len`, `start` and `end` of a query.
fn slice_constants<'c>(z3_ctx: &'c Context) -> (r: (Int<'c>, Int<'c>, Int<'c>))
    ensures
        r.0.term() == IntTerm::Var(buf_len_name()),
        r.1.term() == IntTerm::Var(start_name()),
        r.2.term() == IntTerm::Var(end_name()),
        r.0.context() == *z3_ctx,
        r.1.context() == *z3_ctx,
        r.2.context() == *z3_ctx,
{
    proof {
        lemma_no_nul_names();
        reveal_strlit("buf_len");
        reveal_strlit("start");
        reveal_strlit("end");
        assert("buf_len"@ =~= buf_len_name());
        assert("start"@ =~= start_name());
        assert("end"@ =~= end_name());
    }
    let buf_len = name_const(z3_ctx, "buf_len", Ghost(buf_len_name()));
    let start = name_const(z3_ctx, "start", Ghost(start_name()));
    let end = name_const(z3_ctx, "end", Ghost(end_name()));
    (buf_len, start, end)
}

/// The report for an access at a constant offset.
fn access_report_text(func_name: &str, offset: i64) -> (r: String)
    ensures
        r@ == access_report(func_name@, offset as int),
{
    let head = concat3("Counterexample in '", func_name, "': access at offset ");
    let digits = i64_to_decimal(offset);
    let r = concat3(head.as_str(), digits.as_str(), " may exceed slice bounds");
    proof {
        assert(r@ =~= access_report(func_name@, offset as int));
    }
    r
}

/// What an access proof at a constant `offset` in function `func_name`
/// concludes from the solver's answer on `access_query`.
pub fn access_outcome(answer: SatResult, func_name: &str, offset: i64) -> (r: SliceProofResult)
    ensures
        answer == SatResult::Unsat <==> r == SliceProofResult::Proven,
        answer == SatResult::Sat <==> (r matches SliceProofResult::Unsafe(m) && m@ == access_report(
            func_name@,
            offset as int,
        )),
        answer == SatResult::Unknown <==> r == SliceProofResult::Unknown,
{
    match answer {
        SatResult::Unsat => SliceProofResult::Proven,
        SatResult::Sat => SliceProofResult::Unsafe(access_report_text(func_name, offset)),
        SatResult::Unknown => SliceProofResult::Unknown,
    }
}

/// Proves an access at `access_offset` into a slice in bounds: the solver
/// looks for a buffer and slice consistent with `slice` where
/// `start + access_offset >= end`.
pub fn verify_slice_access(z3_ctx: &Context, slice: &SliceInfo, access_offset: i64) -> (r: SliceProofResult)
    ensures
        r == SliceProofResult::Proven ==> access_safe(*slice, access_offset as int),
        r is Unsafe ==> !access_safe(*slice, access_offset as int),
        r matches SliceProofResult::Unsafe(m) ==> m@ == access_report(slice.func_name@, access_offset as int),
        r == SliceProofResult::Proven ==> !satisfiable(access_query(*slice, access_offset as int)),
        r is Unsafe ==> satisfiable(access_query(*slice, access_offset as int)),
{
    let mut solver = Solver::new(z3_ctx);
    let (buf_len, start, end) = slice_constants(z3_ctx);
    assert_slice_facts(z3_ctx, &mut solver, slice, &buf_len, &start, &end);
    let offset_const = Int::from_i64(z3_ctx, access_offset);
    let parts = [&start, &offset_const];
    let access_pos = Int::add(z3_ctx, &parts);
    let violation_formula = access_pos.ge(&end);
    solver.assert_formula(&violation_formula);
    proof {
        assert(int_terms(parts@) =~= seq![IntTerm::Var(start_name()), IntTerm::Lit(access_offset as int)]);
        assert(solver.assertions() =~= access_query(*slice, access_offset as int));
        lemma_access_query(*slice, access_offset as int);
    }
    access_outcome(solver.check(), slice.func_name.as_str(), access_offset)
}

/// The query for an access at a symbolic offset.
pub open spec fn dynamic_query(info: SliceInfo, bound: Option<i64>) -> Seq<Formula> {
    let base = discovery_query(info, known_query(info, physical_query())).push(
        Formula::Ge(var(offset_name()), lit(0)),
    );
    let bounded = match bound {
        Some(u) => base.push(Formula::Lt(var(offset_name()), lit(u as int))),
        None => base,
    };
    bounded.push(violation(IntTerm::Var(offset_name())))
}

proof fn lemma_dynamic_eval(info: SliceInfo, bound: Option<i64>, env: Env)
    ensures
        eval_all(dynamic_query(info, bound), env) == (slice_consistent(
            info,
            (env.ints)(buf_len_name()),
            (env.ints)(start_name()),
            (env.ints)(end_name()),
        ) && offset_allowed(bound, (env.ints)(offset_name())) && (env.ints)(start_name()) + (env.ints)(
            offset_name(),
        ) >= (env.ints)(end_name())),
        formulas_modeled(dynamic_query(info, bound)),
{
    let part = discovery_query(info, known_query(info, physical_query()));
    let g = Formula::Ge(var(offset_name()), lit(0));
    let base = part.push(g);
    let bounded = match bound {
        Some(u) => base.push(Formula::Lt(var(offset_name()), lit(u as int))),
        None => base,
    };
    let v = violation(IntTerm::Var(offset_name()));
    lemma_eval_slice_part(info, env);
    lemma_atom(env, offset_name(), 0);
    lemma_eval_all_push(part, g, env);
    match bound {
        Some(u) => {
            lemma_atom(env, offset_name(), u as int);
            lemma_eval_all_push(base, Formula::Lt(var(offset_name()), lit(u as int)), env);
        },
        None => {},
    }
    assert(int_modeled(IntTerm::Var(offset_name())));
    assert(eval_int(IntTerm::Var(offset_name()), env) == (env.ints)(offset_name()));
    lemma_eval_violation(IntTerm::Var(offset_name()), env);
    lemma_eval_all_push(bounded, v, env);
}

proof fn lemma_dynamic_query(info: SliceInfo, bound: Option<i64>)
    ensures
        formulas_modeled(dynamic_query(info, bound)),
        satisfiable(dynamic_query(info, bound)) <==> !dynamic_access_safe(info, bound),
{
    let q = dynamic_query(info, bound);
    lemma_dynamic_eval(info, bound, slice_env(0, 0, 0, 0));
    if satisfiable(q) {
        let w = choose|w: Env| #[trigger] eval_all(q, w);
        lemma_dynamic_eval(info, bound, w);
        assert(slice_consistent(info, (w.ints)(buf_len_name()), (w.ints)(start_name()), (w.ints)(end_name())));
        assert(offset_allowed(bound, (w.ints)(offset_name())));
    }
    if !dynamic_access_safe(info, bound) {
        let (b, st, e, o) = choose|b: int, st: int, e: int, o: int| #[trigger] slice_consistent(info, b, st, e)
            && #[trigger] offset_allowed(bound, o) && !(st + o < e);
        let env = slice_env(b, st, e, o);
        lemma_names_distinct();
        lemma_dynamic_eval(info, bound, env);
        assert(eval_all(q, env));
    }
}

/// The constant `offset` of a query.
fn offset_constant<'c>(z3_ctx: &'c Context) -> (r: Int<'c>)
    ensures
        r.term() == IntTerm::Var(offset_name()),
        r.context() == *z3_ctx,
{
    proof {
        lemma_no_nul_names();
        reveal_strlit("offset");
        assert("offset"@ =~= offset_name());
    }
    name_const(z3_ctx, "offset", Ghost(offset_name()))
}

/// The report for an access at a symbolic offset.
fn dynamic_report_text(func_name: &str) -> (r: String)
    ensures
        r@ == dynamic_report(func_name@),
{
    concat3("Counterexample in '", func_name, "': symbolic offset may exceed slice bounds")
}

/// What an access proof at a symbolic offset in function `func_name`
/// concludes from the solver's answer on `dynamic_query`.
pub fn dynamic_outcome(answer: SatResult, func_name: &str) -> (r: SliceProofResult)
    ensures
        answer == SatResult::Unsat <==> r == SliceProofResult::Proven,
        answer == SatResult::Sat <==> (r matches SliceProofResult::Unsafe(m) && m@ == dynamic_report(
            func_name@,
        )),
        answer == SatResult::Unknown <==> r == SliceProofResult::Unknown,
{
    match answer {
        SatResult::Unsat => SliceProofResult::Proven,
        SatResult::Sat => SliceProofResult::Unsafe(dynamic_report_text(func_name)),
        SatResult::Unknown => SliceProofResult::Unknown,
    }
}

/// Proves an access at a symbolic offset `i` into a slice in bounds, where
/// `0 <= i` and, when `offset_upper_bound` is known, `i < offset_upper_bound`
/// (from a loop invariant, say). Without such a bound the access cannot be
/// proven and a runtime check stays.
pub fn verify_dynamic_slice_access(z3_ctx: &Context, slice: &SliceInfo, offset_upper_bound: Option<i64>) -> (r:
    SliceProofResult)
    ensures
        r == SliceProofResult::Proven ==> dynamic_access_safe(*slice, offset_upper_bound),
        r is Unsafe ==> !dynamic_access_safe(*slice, offset_upper_bound),
        r matches SliceProofResult::Unsafe(m) ==> m@ == dynamic_report(slice.func_name@),
        r == SliceProofResult::Proven ==> !satisfiable(dynamic_query(*slice, offset_upper_bound)),
        r is Unsafe ==> satisfiable(dynamic_query(*slice, offset_upper_bound)),
{
    let mut solver = Solver::new(z3_ctx);
    let (buf_len, start, end) = slice_constants(z3_ctx);
    let offset = offset_constant(z3_ctx);
    let zero = Int::from_i64(z3_ctx, 0);
    assert_slice_facts(z3_ctx, &mut solver, slice, &buf_len, &start, &end);
    solver.assert_formula(&offset.ge(&zero));
    match offset_upper_bound {
        Some(bound) => {
            let bound_const = Int::from_i64(z3_ctx, bound);
            solver.assert_formula(&offset.lt(&bound_const));
        },
        None => {},
    }
    let parts = [&start, &offset];
    let access_pos = Int::add(z3_ctx, &parts);
    let violation_formula = access_pos.ge(&end);
    solver.assert_formula(&violation_formula);
    proof {
        assert(int_terms(parts@) =~= seq![IntTerm::Var(start_name()), IntTerm::Var(offset_name())]);
        assert(solver.assertions() =~= dynamic_query(*slice, offset_upper_bound));
        lemma_dynamic_query(*slice, offset_upper_bound);
    }
    dynamic_outcome(solver.check(), slice.func_name.as_str())
}

// ----------------------------------------------------------------------
// Laws
// ----------------------------------------------------------------------

/// A symbolic offset bounded by `u` is safe exactly when every constant
/// offset from `0` up to `u` is.
pub proof fn law_dynamic_bound_is_every_offset(info: SliceInfo, u: i64)
    ensures
        dynamic_access_safe(info, Some(u)) <==> forall|o: int| 0 <= o < u ==> #[trigger] access_safe(info, o),
{
    if dynamic_access_safe(info, Some(u)) {
        assert forall|o: int| 0 <= o < u implies #[trigger] access_safe(info, o) by {
            assert forall|b: int, s: int, e: int| #[trigger] slice_consistent(info, b, s, e) implies s + o < e by {
                assert(offset_allowed(Some(u), o));
            }
        }
    }
    if forall|o: int| 0 <= o < u ==> #[trigger] access_safe(info, o) {
        assert forall|b: int, s: int, e: int, o: int|
            #[trigger] slice_consistent(info, b, s, e) && #[trigger] offset_allowed(Some(u), o) implies s + o
            < e by {
            assert(access_safe(info, o));
        }
    }
}

/// An access that is safe stays safe at any smaller offset.
pub proof fn law_smaller_offset_stays_safe(info: SliceInfo, o: int, smaller: int)
    requires
        access_safe(info, o),
        smaller <= o,
    ensures
        access_safe(info, smaller),
{
    assert forall|b: int, s: int, e: int| #[trigger] slice_consistent(info, b, s, e) implies s + smaller < e by {
        assert(s + o < e);
    }
}

/// Whether `more` knows everything `less` knows (and perhaps more).
pub open spec fn refines(more: SliceInfo, less: SliceInfo) -> bool {
    &&& (less.buf_length matches Some(v) ==> more.buf_length == Some(v))
    &&& (less.slice_start matches Some(v) ==> more.slice_start == Some(v))
    &&& (less.slice_end matches Some(v) ==> more.slice_end == Some(v))
    &&& (less.discovery_bound matches Some(v) ==> more.discovery_bound == Some(v))
}

/// Knowing more about a slice never loses a proof: what is safe with less
/// information is safe with more.
pub proof fn law_more_facts_keep_proofs(more: SliceInfo, less: SliceInfo, o: int)
    requires
        refines(more, less),
        access_safe(less, o),
    ensures
        access_safe(more, o),
{
    assert forall|b: int, s: int, e: int| #[trigger] slice_consistent(more, b, s, e) implies s + o < e by {
        assert(slice_consistent(less, b, s, e));
    }
}

/// A validly created slice `start..end` of a buffer of length `len > 0`
/// admits every access at an offset below its length `end - start`.
pub proof fn law_valid_slice_admits_inner_accesses(len: i64, start: i64, end: i64, o: int, name: String)
    requires
        creation_valid(len as int, start as int, end as int),
        0 <= o < end - start,
    ensures
        access_safe(
            SliceInfo {
                buf_length: Some(len),
                slice_start: Some(start),
                slice_end: Some(end),
                discovery_bound: None,
                func_name: name,
            },
            o,
        ),
{
}

} // verus!
