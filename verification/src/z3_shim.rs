//! A thin facade over the Z3 solver. Every term built through it records,
//! in ghost state, the `IntTerm` or `Formula` it stands for, and the solver
//! records the formulas asserted into it, so that the answer of a check can
//! be stated over them.
//!
//! Every value of the facade records the context it was made from, and an
//! operation that combines values requires them all to come from one
//! context: Z3 panics, or worse, otherwise.
use vstd::prelude::*;
use crate::smt::{IntTerm, Formula, satisfiable, formulas_modeled};
use z3::ast::Ast;
use z3::Config as Z3Config;
use z3::Context as Z3Context;
use z3::Solver as Z3Solver;
use z3::Params as Z3Params;
use z3::Model as Z3Model;
use z3::ast::Int as Z3Int;
use z3::ast::Bool as Z3Bool;
use z3::SatResult as Z3SatResult;
use z3::Sort as Z3Sort;
use z3::Symbol as Z3Symbol;
use z3::FuncDecl as Z3FuncDecl;
use z3::ast::Dynamic as Z3Dynamic;

verus! {

#[verifier::external_type_specification]
#[verifier::external_body]
pub struct ExZ3Config(Z3Config);

#[verifier::external_type_specification]
#[verifier::external_body]
pub struct ExZ3Context(Z3Context);

#[verifier::external_type_specification]
#[verifier::external_body]
pub struct ExZ3Solver<'c>(Z3Solver<'c>);

#[verifier::external_type_specification]
#[verifier::external_body]
pub struct ExZ3Params<'c>(Z3Params<'c>);

#[verifier::external_type_specification]
#[verifier::external_body]
pub struct ExZ3Model<'c>(Z3Model<'c>);

#[verifier::external_type_specification]
#[verifier::external_body]
pub struct ExZ3Int<'c>(Z3Int<'c>);

#[verifier::external_type_specification]
#[verifier::external_body]
pub struct ExZ3Bool<'c>(Z3Bool<'c>);

#[verifier::external_type_specification]
#[verifier::external_body]
pub struct ExZ3Sort<'c>(Z3Sort<'c>);

#[verifier::external_type_specification]
#[verifier::external_body]
pub struct ExZ3FuncDecl<'c>(Z3FuncDecl<'c>);

#[verifier::external_type_specification]
#[verifier::external_body]
pub struct ExZ3Dynamic<'c>(Z3Dynamic<'c>);

/// Whether a name can be handed to Z3, which keeps names as C strings.
pub open spec fn no_nul(s: Seq<char>) -> bool {
    forall|i: int| 0 <= i < s.len() ==> s[i] != '\0'
}

// ----------------------------------------------------------------------
// Calls into the `z3` crate
// ----------------------------------------------------------------------

/// Whether a number can name a Z3 symbol: Z3 accepts 0 to 2^30 - 1.
pub open spec fn symbol_int_ok(i: u32) -> bool {
    i < 0x4000_0000
}

/// `Z3Config::new`: a default configuration.
#[verifier::external_body]
fn z3_config_new() -> Z3Config {
    Z3Config::new()
}

/// `Z3Context::new`: a fresh context.
#[verifier::external_body]
fn z3_context_new(cfg: &Z3Config) -> Z3Context {
    Z3Context::new(cfg)
}

/// `Z3Solver::new`: a solver with no assertions, in context `ctx`.
#[verifier::external_body]
fn z3_solver_new<'c>(ctx: &'c Context) -> Z3Solver<'c> {
    Z3Solver::new(&ctx.raw)
}

/// `Z3Solver::assert`: adds a formula to the solver. The crate does not
/// check that the formula belongs to the solver's context; the facade
/// requires it.
#[verifier::external_body]
fn z3_solver_assert<'c>(s: &Solver<'c>, f: &Bool<'c>)
    requires
        f.context() == s.context(),
{
    s.raw.assert(&f.raw)
}

/// `Z3Solver::push`: opens a backtracking point.
#[verifier::external_body]
fn z3_solver_push<'c>(s: &Z3Solver<'c>) {
    s.push()
}

/// `Z3Solver::pop`: drops the `n` innermost backtracking points with
/// the formulas asserted since them.
#[verifier::external_body]
fn z3_solver_pop<'c>(s: &Z3Solver<'c>, n: u32) {
    s.pop(n)
}

/// `Z3Solver::reset`: removes every assertion.
#[verifier::external_body]
fn z3_solver_reset<'c>(s: &Z3Solver<'c>) {
    s.reset()
}

/// `Z3Solver::set_params`: passes parameters (such as a timeout) on. The
/// crate does not check that they belong to the solver's context; the
/// facade requires it.
#[verifier::external_body]
fn z3_solver_set_params<'c>(s: &Solver<'c>, p: &Params<'c>)
    requires
        p.context() == s.context(),
{
    s.raw.set_params(&p.raw)
}

/// `Z3Solver::check`. Z3 answers `Unsat` only when the asserted formulas
/// have no model and `Sat` only when they have one; `Unknown` says nothing.
/// The claim is made of the formulas that the facade recorded for the
/// solver, which are the ones asserted into it; where a formula contains a
/// part that is not modeled (`Formula::Opaque`, modulus, remainder) nothing
/// is claimed.
#[verifier::external_body]
fn z3_solver_check<'c>(s: &Solver<'c>) -> (r: SatResult)
    ensures
        r == SatResult::Unsat && formulas_modeled(s.asserted@) ==> !satisfiable(s.asserted@),
        r == SatResult::Sat && formulas_modeled(s.asserted@) ==> satisfiable(s.asserted@),
{
    match s.raw.check() {
        Z3SatResult::Unsat => SatResult::Unsat,
        Z3SatResult::Unknown => SatResult::Unknown,
        Z3SatResult::Sat => SatResult::Sat,
    }
}

/// `Z3Solver::get_model`: the model of the last check. Z3 keeps a model
/// after a check that answered `Sat`, and has none after one that answered
/// `Unsat` (the crate turns the missing model into `None`). Nothing is
/// claimed when the facade has no record of the last answer.
#[verifier::external_body]
fn z3_solver_get_model<'c>(s: &Solver<'c>) -> (r: Option<Z3Model<'c>>)
    ensures
        s.last_check() == Some(SatResult::Sat) ==> r is Some,
        s.last_check() == Some(SatResult::Unsat) ==> r is None,
{
    s.raw.get_model()
}

/// `Z3Model::eval` on an integer term, with model completion (the crate
/// always asks for it). Z3 documents that evaluation fails only on a term
/// with a quantifier, a partial model, a term that is not well sorted, or an
/// interrupt; the facade builds none of these, so the call succeeds. The
/// crate does not check that the term belongs to the model's context; the
/// facade requires it. What value the model gives is not claimed.
#[verifier::external_body]
fn z3_model_eval_int<'c>(m: &Model<'c>, t: &Int<'c>) -> (r: Option<Z3Int<'c>>)
    requires
        t.context() == m.context(),
    ensures
        r is Some,
{
    m.raw.eval(&t.raw)
}

/// `Z3Params::new`: an empty parameter set in context `ctx`.
#[verifier::external_body]
fn z3_params_new<'c>(ctx: &'c Context) -> Z3Params<'c> {
    Z3Params::new(&ctx.raw)
}

/// `Z3Params::set_u32`: sets a numeric parameter.
#[verifier::external_body]
fn z3_params_set_u32<'c>(p: &mut Z3Params<'c>, key: &str, value: u32)
    requires
        no_nul(key@),
{
    p.set_u32(key, value)
}

/// `Z3Int::new_const`: the integer constant with this name.
#[verifier::external_body]
fn z3_int_const<'c>(ctx: &'c Context, name: &str) -> Z3Int<'c>
    requires
        no_nul(name@),
{
    Z3Int::new_const(&ctx.raw, name)
}

/// `Z3Int::fresh_const`: a constant distinct from every other.
#[verifier::external_body]
fn z3_int_fresh<'c>(ctx: &'c Context, prefix: &str) -> Z3Int<'c>
    requires
        no_nul(prefix@),
{
    Z3Int::fresh_const(&ctx.raw, prefix)
}

/// `Z3Int::from_i64`: a numeral.
#[verifier::external_body]
fn z3_int_from_i64<'c>(ctx: &'c Context, v: i64) -> Z3Int<'c> {
    Z3Int::from_i64(&ctx.raw, v)
}

/// `Z3Int::from_u64`: a numeral.
#[verifier::external_body]
fn z3_int_from_u64<'c>(ctx: &'c Context, v: u64) -> Z3Int<'c> {
    Z3Int::from_u64(&ctx.raw, v)
}

/// `Z3Int::add`: the sum of one or more terms; the crate asserts that they
/// all belong to `ctx`.
#[verifier::external_body]
fn z3_int_add<'c>(ctx: &'c Context, args: &[&Int<'c>]) -> Z3Int<'c>
    requires
        args@.len() > 0,
        ints_in(args@, *ctx),
{
    let raws: Vec<&Z3Int<'c>> = args.iter().map(|a| &a.raw).collect();
    Z3Int::add(&ctx.raw, &raws)
}

/// `Z3Int::sub`: the first term minus the others; the crate asserts that
/// they all belong to `ctx`.
#[verifier::external_body]
fn z3_int_sub<'c>(ctx: &'c Context, args: &[&Int<'c>]) -> Z3Int<'c>
    requires
        args@.len() > 0,
        ints_in(args@, *ctx),
{
    let raws: Vec<&Z3Int<'c>> = args.iter().map(|a| &a.raw).collect();
    Z3Int::sub(&ctx.raw, &raws)
}

/// `Z3Int::mul`: the product of one or more terms; the crate asserts that
/// they all belong to `ctx`.
#[verifier::external_body]
fn z3_int_mul<'c>(ctx: &'c Context, args: &[&Int<'c>]) -> Z3Int<'c>
    requires
        args@.len() > 0,
        ints_in(args@, *ctx),
{
    let raws: Vec<&Z3Int<'c>> = args.iter().map(|a| &a.raw).collect();
    Z3Int::mul(&ctx.raw, &raws)
}

/// `Z3Int::ge`; the crate asserts that both terms share a context.
#[verifier::external_body]
fn z3_int_ge<'c>(a: &Int<'c>, b: &Int<'c>) -> Z3Bool<'c>
    requires
        a.context() == b.context(),
{
    a.raw.ge(&b.raw)
}

/// `Z3Int::gt`; the crate asserts that both terms share a context.
#[verifier::external_body]
fn z3_int_gt<'c>(a: &Int<'c>, b: &Int<'c>) -> Z3Bool<'c>
    requires
        a.context() == b.context(),
{
    a.raw.gt(&b.raw)
}

/// `Z3Int::le`; the crate asserts that both terms share a context.
#[verifier::external_body]
fn z3_int_le<'c>(a: &Int<'c>, b: &Int<'c>) -> Z3Bool<'c>
    requires
        a.context() == b.context(),
{
    a.raw.le(&b.raw)
}

/// `Z3Int::lt`; the crate asserts that both terms share a context.
#[verifier::external_body]
fn z3_int_lt<'c>(a: &Int<'c>, b: &Int<'c>) -> Z3Bool<'c>
    requires
        a.context() == b.context(),
{
    a.raw.lt(&b.raw)
}

/// `Z3Int::modulo`; the crate asserts that both terms share a context.
#[verifier::external_body]
fn z3_int_modulo<'c>(a: &Int<'c>, b: &Int<'c>) -> Z3Int<'c>
    requires
        a.context() == b.context(),
{
    a.raw.modulo(&b.raw)
}

/// `Z3Int::rem`; the crate asserts that both terms share a context.
#[verifier::external_body]
fn z3_int_rem<'c>(a: &Int<'c>, b: &Int<'c>) -> Z3Int<'c>
    requires
        a.context() == b.context(),
{
    a.raw.rem(&b.raw)
}

/// `z3::ast::Ast::_eq` on integer terms; the crate panics when the terms do
/// not share a context.
#[verifier::external_body]
fn z3_int_eq<'c>(a: &Int<'c>, b: &Int<'c>) -> Z3Bool<'c>
    requires
        a.context() == b.context(),
{
    a.raw._eq(&b.raw)
}

/// `Z3Int::as_i64`: the value of a numeral, when it fits in an `i64`
/// (`Z3_get_numeral_int64` succeeds exactly then). A term that the facade
/// records as the numeral `v` is the Z3 numeral `v`; for other terms
/// nothing is claimed.
#[verifier::external_body]
fn z3_int_as_i64<'c>(a: &Int<'c>) -> (r: Option<i64>)
    ensures
        a.term() matches IntTerm::Lit(v) ==> r == (if i64::MIN <= v <= i64::MAX {
            Some(v as i64)
        } else {
            None
        }),
{
    a.raw.as_i64()
}

/// `Z3Int::as_u64`: the value of a numeral, when it fits in a `u64`
/// (`Z3_get_numeral_uint64` succeeds exactly then). As for `as_i64`, only
/// terms recorded as numerals are claimed of.
#[verifier::external_body]
fn z3_int_as_u64<'c>(a: &Int<'c>) -> (r: Option<u64>)
    ensures
        a.term() matches IntTerm::Lit(v) ==> r == (if 0 <= v <= u64::MAX {
            Some(v as u64)
        } else {
            None
        }),
{
    a.raw.as_u64()
}

/// `Z3Bool::new_const`: the Boolean constant with this name.
#[verifier::external_body]
fn z3_bool_const<'c>(ctx: &'c Context, name: &str) -> Z3Bool<'c>
    requires
        no_nul(name@),
{
    Z3Bool::new_const(&ctx.raw, name)
}

/// `Z3Bool::from_bool`: a truth value.
#[verifier::external_body]
fn z3_bool_from_bool<'c>(ctx: &'c Context, b: bool) -> Z3Bool<'c> {
    Z3Bool::from_bool(&ctx.raw, b)
}

/// `Z3Bool::not`.
#[verifier::external_body]
fn z3_bool_not<'c>(a: &Z3Bool<'c>) -> Z3Bool<'c> {
    a.not()
}

/// `Z3Bool::and`; the crate asserts that every argument belongs to `ctx`.
/// An empty list is accepted: Z3's documentation asks for at least one
/// argument, but the source brought here builds the empty conjunction
/// `(and)`, which is true, as the facade records it.
#[verifier::external_body]
fn z3_bool_and<'c>(ctx: &'c Context, args: &[&Bool<'c>]) -> Z3Bool<'c>
    requires
        bools_in(args@, *ctx),
{
    let raws: Vec<&Z3Bool<'c>> = args.iter().map(|a| &a.raw).collect();
    Z3Bool::and(&ctx.raw, &raws)
}

/// `Z3Bool::or`; the crate asserts that every argument belongs to `ctx`.
/// An empty list is accepted: Z3's documentation asks for at least one
/// argument, but the source brought here builds the empty disjunction
/// `(or)`, which is false, as the facade records it.
#[verifier::external_body]
fn z3_bool_or<'c>(ctx: &'c Context, args: &[&Bool<'c>]) -> Z3Bool<'c>
    requires
        bools_in(args@, *ctx),
{
    let raws: Vec<&Z3Bool<'c>> = args.iter().map(|a| &a.raw).collect();
    Z3Bool::or(&ctx.raw, &raws)
}

/// `Z3Bool::implies`; the crate asserts that both terms share a context.
#[verifier::external_body]
fn z3_bool_implies<'c>(a: &Bool<'c>, b: &Bool<'c>) -> Z3Bool<'c>
    requires
        a.context() == b.context(),
{
    a.raw.implies(&b.raw)
}

/// `Z3Bool::ite` on integer branches. The crate does not check that the
/// three terms share a context; the facade requires it.
#[verifier::external_body]
fn z3_bool_ite<'c>(c: &Bool<'c>, a: &Int<'c>, b: &Int<'c>) -> Z3Int<'c>
    requires
        a.context() == c.context(),
        b.context() == c.context(),
{
    c.raw.ite(&a.raw, &b.raw)
}

/// `z3::ast::Ast::_eq` on Boolean terms; the crate panics when the terms
/// do not share a context.
#[verifier::external_body]
fn z3_bool_eq<'c>(a: &Bool<'c>, b: &Bool<'c>) -> Z3Bool<'c>
    requires
        a.context() == b.context(),
{
    a.raw._eq(&b.raw)
}

/// `z3::Sort::int`.
#[verifier::external_body]
fn z3_sort_int<'c>(ctx: &'c Context) -> Z3Sort<'c> {
    Z3Sort::int(&ctx.raw)
}

/// `z3::Sort::bool`.
#[verifier::external_body]
fn z3_sort_bool<'c>(ctx: &'c Context) -> Z3Sort<'c> {
    Z3Sort::bool(&ctx.raw)
}

/// `z3::Sort::bitvector`; Z3 has no bit-vectors of width zero.
#[verifier::external_body]
fn z3_sort_bitvector<'c>(ctx: &'c Context, sz: u32) -> Z3Sort<'c>
    requires
        sz > 0,
{
    Z3Sort::bitvector(&ctx.raw, sz)
}

/// `z3::FuncDecl::new`: an uninterpreted function with this name and
/// signature. The crate asserts that the sorts belong to `ctx`; Z3 accepts
/// only numbers below 2^30 as symbols.
#[verifier::external_body]
fn z3_func_decl_new<'c>(ctx: &'c Context, name: &Symbol, domain: &[&Sort<'c>], range: &Sort<'c>) -> Z3FuncDecl<'c>
    requires
        name matches Symbol::String(s) ==> no_nul(s@),
        name matches Symbol::Int(i) ==> symbol_int_ok(*i),
        sorts_in(domain@, *ctx),
        range.context() == *ctx,
{
    let sym = match name {
        Symbol::String(s) => Z3Symbol::String(s.clone()),
        Symbol::Int(i) => Z3Symbol::Int(*i),
    };
    let raws: Vec<&Z3Sort<'c>> = domain.iter().map(|d| &d.raw).collect();
    Z3FuncDecl::new(&ctx.raw, sym, &raws, &range.raw)
}

/// `z3::FuncDecl::apply`: the application to arguments of the declared
/// sorts; the crate asserts that the arguments share the declaration's
/// context.
#[verifier::external_body]
fn z3_func_decl_apply<'c>(f: &FuncDecl<'c>, args: &[&Dynamic<'c>]) -> Z3Dynamic<'c>
    requires
        dynamic_sorts(args@) == f.domain(),
        dynamics_in(args@, f.context()),
{
    let raws: Vec<&Z3Dynamic<'c>> = args.iter().map(|a| &a.raw).collect();
    f.raw.apply(&raws)
}

/// `z3::ast::Dynamic::from_ast` on an integer term.
#[verifier::external_body]
fn z3_dynamic_from_int<'c>(i: &Z3Int<'c>) -> Z3Dynamic<'c> {
    Z3Dynamic::from_ast(i)
}

/// `z3::ast::Dynamic::as_int`: the term as an integer term, exactly when
/// its sort is the integers. The sort the facade records for a term is the
/// one Z3 gives it.
#[verifier::external_body]
fn z3_dynamic_as_int<'c>(d: &Dynamic<'c>) -> (r: Option<Z3Int<'c>>)
    ensures
        r is Some <==> d.sort() == SortKind::Int,
{
    d.raw.as_int()
}

/// `z3::ast::Dynamic::as_bool`: the term as a Boolean term, exactly when its
/// sort is the Booleans.
#[verifier::external_body]
fn z3_dynamic_as_bool<'c>(d: &Dynamic<'c>) -> (r: Option<Z3Bool<'c>>)
    ensures
        r is Some <==> d.sort() == SortKind::Bool,
{
    d.raw.as_bool()
}

// ----------------------------------------------------------------------
// The facade
// ----------------------------------------------------------------------

/// The answer of a satisfiability check.
#[derive(Debug, Clone, Copy, PartialEq, Eq, Structural)]
pub enum SatResult {
    Sat,
    Unsat,
    Unknown,
}

/// Solver configuration.
pub struct Config {
    raw: Z3Config,
}

impl Config {
    /// The default configuration.
    pub fn new() -> (r: Config) {
        Config { raw: z3_config_new() }
    }
}

/// A Z3 context, which owns every term made from it.
pub struct Context {
    raw: Z3Context,
}

impl Context {
    /// A fresh context.
    pub fn new(cfg: &Config) -> (r: Context) {
        Context { raw: z3_context_new(&cfg.raw) }
    }
}

/// Solver parameters, with the numeric settings made through the facade.
pub struct Params<'c> {
    raw: Z3Params<'c>,
    ctx: &'c Context,
    settings: Ghost<Map<Seq<char>, u32>>,
}

impl<'c> Params<'c> {
    /// The context the parameter set belongs to.
    pub closed spec fn context(&self) -> Context {
        *self.ctx
    }

    /// The numeric parameters set so far, by name.
    pub closed spec fn settings(&self) -> Map<Seq<char>, u32> {
        self.settings@
    }

    /// An empty parameter set.
    pub fn new(ctx: &'c Context) -> (r: Params<'c>)
        ensures
            r.settings() == Map::<Seq<char>, u32>::empty(),
            r.context() == *ctx,
    {
        Params { raw: z3_params_new(ctx), ctx, settings: Ghost(Map::empty()) }
    }

    /// Sets a numeric parameter, such as `"timeout"` in milliseconds; a
    /// later setting of the same name replaces an earlier one.
    pub fn set_u32(&mut self, key: &str, value: u32)
        requires
            no_nul(key@),
        ensures
            final(self).settings() == old(self).settings().insert(key@, value),
            final(self).context() == old(self).context(),
    {
        z3_params_set_u32(&mut self.raw, key, value);
        self.settings = Ghost(self.settings@.insert(key@, value));
    }
}

/// An integer term, with the term it stands for and its context.
pub struct Int<'c> {
    raw: Z3Int<'c>,
    ctx: &'c Context,
    term: Ghost<IntTerm>,
}

/// A Boolean term, with the formula it stands for and its context.
pub struct Bool<'c> {
    raw: Z3Bool<'c>,
    ctx: &'c Context,
    formula: Ghost<Formula>,
}

/// A satisfying assignment found by a check.
pub struct Model<'c> {
    raw: Z3Model<'c>,
    ctx: &'c Context,
}

impl<'c> Model<'c> {
    /// The context the model belongs to.
    pub closed spec fn context(&self) -> Context {
        *self.ctx
    }
}

/// A solver, with its context, the formulas asserted into it and, for each
/// open backtracking point, how many of them were asserted before it.
pub struct Solver<'c> {
    raw: Z3Solver<'c>,
    ctx: &'c Context,
    asserted: Ghost<Seq<Formula>>,
    scopes: Ghost<Seq<nat>>,
    last: Ghost<Option<SatResult>>,
}

/// The terms of a list of integer terms.
pub open spec fn int_terms<'c>(args: Seq<&Int<'c>>) -> Seq<IntTerm> {
    args.map_values(|a: &Int<'c>| a.term())
}

/// The formulas of a list of Boolean terms.
pub open spec fn formulas<'c>(args: Seq<&Bool<'c>>) -> Seq<Formula> {
    args.map_values(|a: &Bool<'c>| a.formula())
}

/// Every integer term of the list belongs to context `c`.
pub open spec fn ints_in<'c>(args: Seq<&Int<'c>>, c: Context) -> bool {
    forall|i: int| 0 <= i < args.len() ==> (#[trigger] args[i]).context() == c
}

/// Every Boolean term of the list belongs to context `c`.
pub open spec fn bools_in<'c>(args: Seq<&Bool<'c>>, c: Context) -> bool {
    forall|i: int| 0 <= i < args.len() ==> (#[trigger] args[i]).context() == c
}

/// Every sort of the list belongs to context `c`.
pub open spec fn sorts_in<'c>(sorts: Seq<&Sort<'c>>, c: Context) -> bool {
    forall|i: int| 0 <= i < sorts.len() ==> (#[trigger] sorts[i]).context() == c
}

/// Every term of the list belongs to context `c`.
pub open spec fn dynamics_in<'c>(args: Seq<&Dynamic<'c>>, c: Context) -> bool {
    forall|i: int| 0 <= i < args.len() ==> (#[trigger] args[i]).context() == c
}

impl<'c> Int<'c> {
    /// The term this value stands for.
    pub closed spec fn term(&self) -> IntTerm {
        self.term@
    }

    /// The context the term belongs to.
    pub closed spec fn context(&self) -> Context {
        *self.ctx
    }

    /// The integer constant named `name`.
    pub fn new_const(ctx: &'c Context, name: &str) -> (r: Int<'c>)
        requires
            no_nul(name@),
        ensures
            r.term() == IntTerm::Var(name@),
            r.context() == *ctx,
    {
        Int { raw: z3_int_const(ctx, name), ctx, term: Ghost(IntTerm::Var(name@)) }
    }

    /// A constant that no other term names.
    pub fn fresh_const(ctx: &'c Context, prefix: &str) -> (r: Int<'c>)
        requires
            no_nul(prefix@),
        ensures
            r.term() == IntTerm::Opaque,
            r.context() == *ctx,
    {
        Int { raw: z3_int_fresh(ctx, prefix), ctx, term: Ghost(IntTerm::Opaque) }
    }

    /// The numeral `v`.
    pub fn from_i64(ctx: &'c Context, v: i64) -> (r: Int<'c>)
        ensures
            r.term() == IntTerm::Lit(v as int),
            r.context() == *ctx,
    {
        Int { raw: z3_int_from_i64(ctx, v), ctx, term: Ghost(IntTerm::Lit(v as int)) }
    }

    /// The numeral `v`.
    pub fn from_u64(ctx: &'c Context, v: u64) -> (r: Int<'c>)
        ensures
            r.term() == IntTerm::Lit(v as int),
            r.context() == *ctx,
    {
        Int { raw: z3_int_from_u64(ctx, v), ctx, term: Ghost(IntTerm::Lit(v as int)) }
    }

    /// The sum of one or more terms of context `ctx`.
    pub fn add(ctx: &'c Context, args: &[&Int<'c>]) -> (r: Int<'c>)
        requires
            args@.len() > 0,
            ints_in(args@, *ctx),
        ensures
            r.term() == IntTerm::Add(int_terms(args@)),
            r.context() == *ctx,
    {
        Int { raw: z3_int_add(ctx, args), ctx, term: Ghost(IntTerm::Add(int_terms(args@))) }
    }

    /// The first term minus the others, all of context `ctx`.
    pub fn sub(ctx: &'c Context, args: &[&Int<'c>]) -> (r: Int<'c>)
        requires
            args@.len() > 0,
            ints_in(args@, *ctx),
        ensures
            r.term() == IntTerm::Sub(int_terms(args@)),
            r.context() == *ctx,
    {
        Int { raw: z3_int_sub(ctx, args), ctx, term: Ghost(IntTerm::Sub(int_terms(args@))) }
    }

    /// The product of one or more terms of context `ctx`.
    pub fn mul(ctx: &'c Context, args: &[&Int<'c>]) -> (r: Int<'c>)
        requires
            args@.len() > 0,
            ints_in(args@, *ctx),
        ensures
            r.term() == IntTerm::Mul(int_terms(args@)),
            r.context() == *ctx,
    {
        Int { raw: z3_int_mul(ctx, args), ctx, term: Ghost(IntTerm::Mul(int_terms(args@))) }
    }

    /// `self >= other`.
    pub fn ge(&self, other: &Int<'c>) -> (r: Bool<'c>)
        requires
            other.context() == self.context(),
        ensures
            r.formula() == Formula::Ge(Box::new(self.term()), Box::new(other.term())),
            r.context() == self.context(),
    {
        Bool {
            raw: z3_int_ge(self, other),
            ctx: self.ctx,
            formula: Ghost(Formula::Ge(Box::new(self.term()), Box::new(other.term()))),
        }
    }

    /// `self > other`.
    pub fn gt(&self, other: &Int<'c>) -> (r: Bool<'c>)
        requires
            other.context() == self.context(),
        ensures
            r.formula() == Formula::Gt(Box::new(self.term()), Box::new(other.term())),
            r.context() == self.context(),
    {
        Bool {
            raw: z3_int_gt(self, other),
            ctx: self.ctx,
            formula: Ghost(Formula::Gt(Box::new(self.term()), Box::new(other.term()))),
        }
    }

    /// `self <= other`.
    pub fn le(&self, other: &Int<'c>) -> (r: Bool<'c>)
        requires
            other.context() == self.context(),
        ensures
            r.formula() == Formula::Le(Box::new(self.term()), Box::new(other.term())),
            r.context() == self.context(),
    {
        Bool {
            raw: z3_int_le(self, other),
            ctx: self.ctx,
            formula: Ghost(Formula::Le(Box::new(self.term()), Box::new(other.term()))),
        }
    }

    /// `self < other`.
    pub fn lt(&self, other: &Int<'c>) -> (r: Bool<'c>)
        requires
            other.context() == self.context(),
        ensures
            r.formula() == Formula::Lt(Box::new(self.term()), Box::new(other.term())),
            r.context() == self.context(),
    {
        Bool {
            raw: z3_int_lt(self, other),
            ctx: self.ctx,
            formula: Ghost(Formula::Lt(Box::new(self.term()), Box::new(other.term()))),
        }
    }

    /// `self mod other`.
    pub fn modulo(&self, other: &Int<'c>) -> (r: Int<'c>)
        requires
            other.context() == self.context(),
        ensures
            r.term() == IntTerm::Mod(Box::new(self.term()), Box::new(other.term())),
            r.context() == self.context(),
    {
        Int {
            raw: z3_int_modulo(self, other),
            ctx: self.ctx,
            term: Ghost(IntTerm::Mod(Box::new(self.term()), Box::new(other.term()))),
        }
    }

    /// `self rem other`.
    pub fn rem(&self, other: &Int<'c>) -> (r: Int<'c>)
        requires
            other.context() == self.context(),
        ensures
            r.term() == IntTerm::Rem(Box::new(self.term()), Box::new(other.term())),
            r.context() == self.context(),
    {
        Int {
            raw: z3_int_rem(self, other),
            ctx: self.ctx,
            term: Ghost(IntTerm::Rem(Box::new(self.term()), Box::new(other.term()))),
        }
    }

    /// `self == other`.
    pub fn _eq(&self, other: &Int<'c>) -> (r: Bool<'c>)
        requires
            other.context() == self.context(),
        ensures
            r.formula() == Formula::IntEq(Box::new(self.term()), Box::new(other.term())),
            r.context() == self.context(),
    {
        Bool {
            raw: z3_int_eq(self, other),
            ctx: self.ctx,
            formula: Ghost(Formula::IntEq(Box::new(self.term()), Box::new(other.term()))),
        }
    }

    /// The value of a numeral, when it fits in an `i64`.
    pub fn as_i64(&self) -> (r: Option<i64>)
        ensures
            self.term() matches IntTerm::Lit(v) ==> r == (if i64::MIN <= v <= i64::MAX {
                Some(v as i64)
            } else {
                None
            }),
    {
        z3_int_as_i64(self)
    }

    /// The value of a numeral, when it fits in a `u64`.
    pub fn as_u64(&self) -> (r: Option<u64>)
        ensures
            self.term() matches IntTerm::Lit(v) ==> r == (if 0 <= v <= u64::MAX {
                Some(v as u64)
            } else {
                None
            }),
    {
        z3_int_as_u64(self)
    }
}

impl<'c> Bool<'c> {
    /// The formula this value stands for.
    pub closed spec fn formula(&self) -> Formula {
        self.formula@
    }

    /// The context the formula belongs to.
    pub closed spec fn context(&self) -> Context {
        *self.ctx
    }

    /// The Boolean constant named `name`.
    pub fn new_const(ctx: &'c Context, name: &str) -> (r: Bool<'c>)
        requires
            no_nul(name@),
        ensures
            r.formula() == Formula::Var(name@),
            r.context() == *ctx,
    {
        Bool { raw: z3_bool_const(ctx, name), ctx, formula: Ghost(Formula::Var(name@)) }
    }

    /// The truth value `b`.
    pub fn from_bool(ctx: &'c Context, b: bool) -> (r: Bool<'c>)
        ensures
            r.formula() == Formula::Lit(b),
            r.context() == *ctx,
    {
        Bool { raw: z3_bool_from_bool(ctx, b), ctx, formula: Ghost(Formula::Lit(b)) }
    }

    /// Negation.
    pub fn not(&self) -> (r: Bool<'c>)
        ensures
            r.formula() == Formula::Not(Box::new(self.formula())),
            r.context() == self.context(),
    {
        Bool { raw: z3_bool_not(&self.raw), ctx: self.ctx, formula: Ghost(Formula::Not(Box::new(self.formula()))) }
    }

    /// Conjunction of formulas of context `ctx`.
    pub fn and(ctx: &'c Context, args: &[&Bool<'c>]) -> (r: Bool<'c>)
        requires
            bools_in(args@, *ctx),
        ensures
            r.formula() == Formula::And(formulas(args@)),
            r.context() == *ctx,
    {
        Bool { raw: z3_bool_and(ctx, args), ctx, formula: Ghost(Formula::And(formulas(args@))) }
    }

    /// Disjunction of formulas of context `ctx`.
    pub fn or(ctx: &'c Context, args: &[&Bool<'c>]) -> (r: Bool<'c>)
        requires
            bools_in(args@, *ctx),
        ensures
            r.formula() == Formula::Or(formulas(args@)),
            r.context() == *ctx,
    {
        Bool { raw: z3_bool_or(ctx, args), ctx, formula: Ghost(Formula::Or(formulas(args@))) }
    }

    /// Implication.
    pub fn implies(&self, other: &Bool<'c>) -> (r: Bool<'c>)
        requires
            other.context() == self.context(),
        ensures
            r.formula() == Formula::Implies(Box::new(self.formula()), Box::new(other.formula())),
            r.context() == self.context(),
    {
        Bool {
            raw: z3_bool_implies(self, other),
            ctx: self.ctx,
            formula: Ghost(Formula::Implies(Box::new(self.formula()), Box::new(other.formula()))),
        }
    }

    /// If-then-else on integer branches.
    pub fn ite(&self, t: &Int<'c>, e: &Int<'c>) -> (r: Int<'c>)
        requires
            t.context() == self.context(),
            e.context() == self.context(),
        ensures
            r.term() == IntTerm::Ite(Box::new(self.formula()), Box::new(t.term()), Box::new(e.term())),
            r.context() == self.context(),
    {
        Int {
            raw: z3_bool_ite(self, t, e),
            ctx: self.ctx,
            term: Ghost(IntTerm::Ite(Box::new(self.formula()), Box::new(t.term()), Box::new(e.term()))),
        }
    }

    /// `self == other`.
    pub fn _eq(&self, other: &Bool<'c>) -> (r: Bool<'c>)
        requires
            other.context() == self.context(),
        ensures
            r.formula() == Formula::Iff(Box::new(self.formula()), Box::new(other.formula())),
            r.context() == self.context(),
    {
        Bool {
            raw: z3_bool_eq(self, other),
            ctx: self.ctx,
            formula: Ghost(Formula::Iff(Box::new(self.formula()), Box::new(other.formula()))),
        }
    }
}

impl<'c> Solver<'c> {
    /// The formulas asserted and not popped, in order.
    pub closed spec fn assertions(&self) -> Seq<Formula> {
        self.asserted@
    }

    /// The context the solver belongs to.
    pub closed spec fn context(&self) -> Context {
        *self.ctx
    }

    /// The number of open backtracking points.
    pub closed spec fn depth(&self) -> nat {
        self.scopes@.len()
    }

    /// How many formulas were asserted before each open backtracking point.
    pub closed spec fn scope_marks(&self) -> Seq<nat> {
        self.scopes@
    }

    /// There is one mark per open backtracking point.
    pub proof fn lemma_depth(&self)
        ensures
            self.depth() == self.scope_marks().len(),
    {
    }

    /// The answer of the last check, when nothing was asserted, pushed,
    /// popped or reset since; `None` otherwise.
    pub closed spec fn last_check(&self) -> Option<SatResult> {
        self.last@
    }

    /// A solver with no assertions.
    pub fn new(ctx: &'c Context) -> (r: Solver<'c>)
        ensures
            r.assertions() == Seq::<Formula>::empty(),
            r.depth() == 0,
            r.last_check() is None,
            r.context() == *ctx,
    {
        Solver {
            raw: z3_solver_new(ctx),
            ctx,
            asserted: Ghost(Seq::empty()),
            scopes: Ghost(Seq::empty()),
            last: Ghost(None),
        }
    }

    /// Adds a formula of the solver's context.
    pub fn assert_formula(&mut self, f: &Bool<'c>)
        requires
            f.context() == old(self).context(),
        ensures
            final(self).assertions() == old(self).assertions().push(f.formula()),
            final(self).scope_marks() == old(self).scope_marks(),
            final(self).last_check() is None,
            final(self).context() == old(self).context(),
    {
        z3_solver_assert(self, f);
        self.asserted = Ghost(self.asserted@.push(f.formula()));
        self.last = Ghost(None);
    }

    /// Opens a backtracking point.
    pub fn push(&mut self)
        ensures
            final(self).assertions() == old(self).assertions(),
            final(self).scope_marks() == old(self).scope_marks().push(old(self).assertions().len()),
            final(self).last_check() is None,
            final(self).context() == old(self).context(),
    {
        z3_solver_push(&self.raw);
        self.scopes = Ghost(self.scopes@.push(self.asserted@.len()));
        self.last = Ghost(None);
    }

    /// Drops the `n` innermost backtracking points and what was asserted
    /// since the outermost of them.
    pub fn pop(&mut self, n: u32)
        requires
            n <= old(self).depth(),
            forall|i: int| 0 <= i < old(self).depth() ==> #[trigger] old(self).scope_marks()[i]
                <= old(self).assertions().len(),
        ensures
            n == 0 ==> final(self).assertions() == old(self).assertions(),
            n > 0 ==> final(self).assertions() == old(self).assertions().take(
                old(self).scope_marks()[old(self).depth() - n] as int,
            ),
            final(self).scope_marks() == old(self).scope_marks().take(old(self).depth() - n),
            final(self).last_check() is None,
            final(self).context() == old(self).context(),
    {
        z3_solver_pop(&self.raw, n);
        if n > 0 {
            let ghost k = self.scopes@[self.scopes@.len() - n];
            self.asserted = Ghost(self.asserted@.take(k as int));
        }
        self.scopes = Ghost(self.scopes@.take(self.scopes@.len() - n));
        self.last = Ghost(None);
    }

    /// Removes every assertion and backtracking point.
    pub fn reset(&mut self)
        ensures
            final(self).assertions() == Seq::<Formula>::empty(),
            final(self).depth() == 0,
            final(self).last_check() is None,
            final(self).context() == old(self).context(),
    {
        z3_solver_reset(&self.raw);
        self.asserted = Ghost(Seq::empty());
        self.scopes = Ghost(Seq::empty());
        self.last = Ghost(None);
    }

    /// Passes parameters of the solver's context on to the solver.
    pub fn set_params(&self, params: &Params<'c>)
        requires
            params.context() == self.context(),
    {
        z3_solver_set_params(self, params)
    }

    /// Checks whether the asserted formulas have a model, and records the
    /// answer. Z3 may answer `Unknown` (on a timeout, say) whatever is
    /// asserted.
    pub fn check(&mut self) -> (r: SatResult)
        ensures
            r == SatResult::Unsat && formulas_modeled(old(self).assertions()) ==> !satisfiable(
                old(self).assertions(),
            ),
            r == SatResult::Sat && formulas_modeled(old(self).assertions()) ==> satisfiable(
                old(self).assertions(),
            ),
            final(self).assertions() == old(self).assertions(),
            final(self).scope_marks() == old(self).scope_marks(),
            final(self).last_check() == Some(r),
            final(self).context() == old(self).context(),
    {
        let r = z3_solver_check(self);
        self.last = Ghost(Some(r));
        r
    }

    /// The model found by the last check: there is one after a `Sat`
    /// answer and none after an `Unsat` answer.
    pub fn get_model(&self) -> (r: Option<Model<'c>>)
        ensures
            self.last_check() == Some(SatResult::Sat) ==> r is Some,
            self.last_check() == Some(SatResult::Unsat) ==> r is None,
            r matches Some(m) ==> m.context() == self.context(),
    {
        match z3_solver_get_model(self) {
            Some(m) => Some(Model { raw: m, ctx: self.ctx }),
            None => None,
        }
    }
}

impl<'c> Model<'c> {
    /// The value the model gives an integer term of its context, as a term
    /// itself.
    pub fn eval(&self, t: &Int<'c>, _complete: bool) -> (r: Option<Int<'c>>)
        requires
            t.context() == self.context(),
        ensures
            r is Some,
            r matches Some(v) ==> v.term() == IntTerm::Opaque && v.context() == self.context(),
    {
        match z3_model_eval_int(self, t) {
            Some(v) => Some(Int { raw: v, ctx: self.ctx, term: Ghost(IntTerm::Opaque) }),
            None => None,
        }
    }
}

/// The sort of a term, as far as the facade tells sorts apart.
pub enum SortKind {
    Int,
    Bool,
    BitVector(u32),
}

/// A sort.
pub struct Sort<'c> {
    raw: Z3Sort<'c>,
    ctx: &'c Context,
    kind: Ghost<SortKind>,
}

impl<'c> Sort<'c> {
    /// Which sort this is.
    pub closed spec fn kind(&self) -> SortKind {
        self.kind@
    }

    /// The context the sort belongs to.
    pub closed spec fn context(&self) -> Context {
        *self.ctx
    }

    /// The integers.
    pub fn int_sort(ctx: &'c Context) -> (r: Sort<'c>)
        ensures
            r.kind() == SortKind::Int,
            r.context() == *ctx,
    {
        Sort { raw: z3_sort_int(ctx), ctx, kind: Ghost(SortKind::Int) }
    }

    /// The Booleans.
    pub fn bool(ctx: &'c Context) -> (r: Sort<'c>)
        ensures
            r.kind() == SortKind::Bool,
            r.context() == *ctx,
    {
        Sort { raw: z3_sort_bool(ctx), ctx, kind: Ghost(SortKind::Bool) }
    }

    /// Bit-vectors of width `sz`.
    pub fn bitvector(ctx: &'c Context, sz: u32) -> (r: Sort<'c>)
        requires
            sz > 0,
        ensures
            r.kind() == SortKind::BitVector(sz),
            r.context() == *ctx,
    {
        Sort { raw: z3_sort_bitvector(ctx, sz), ctx, kind: Ghost(SortKind::BitVector(sz)) }
    }
}

/// The name of a declaration: a string or a number.
#[derive(Debug)]
pub enum Symbol {
    String(String),
    Int(u32),
}

/// A term of any sort.
pub struct Dynamic<'c> {
    raw: Z3Dynamic<'c>,
    ctx: &'c Context,
    sort: Ghost<SortKind>,
}

/// The sorts of a list of terms.
pub open spec fn dynamic_sorts<'c>(args: Seq<&Dynamic<'c>>) -> Seq<SortKind> {
    args.map_values(|a: &Dynamic<'c>| a.sort())
}

/// The sorts of a list of sorts.
pub open spec fn sort_kinds<'c>(sorts: Seq<&Sort<'c>>) -> Seq<SortKind> {
    sorts.map_values(|s: &Sort<'c>| s.kind())
}

impl<'c> Dynamic<'c> {
    /// The sort of this term.
    pub closed spec fn sort(&self) -> SortKind {
        self.sort@
    }

    /// The context the term belongs to.
    pub closed spec fn context(&self) -> Context {
        *self.ctx
    }

    /// An integer term seen as a term of any sort.
    pub fn from_int(i: &Int<'c>) -> (r: Dynamic<'c>)
        ensures
            r.sort() == SortKind::Int,
            r.context() == i.context(),
    {
        Dynamic { raw: z3_dynamic_from_int(&i.raw), ctx: i.ctx, sort: Ghost(SortKind::Int) }
    }

    /// The term as an integer term, when its sort is the integers.
    pub fn as_int(&self) -> (r: Option<Int<'c>>)
        ensures
            r is Some <==> self.sort() == SortKind::Int,
            r matches Some(i) ==> i.term() == IntTerm::Opaque && i.context() == self.context(),
    {
        match z3_dynamic_as_int(self) {
            Some(i) => Some(Int { raw: i, ctx: self.ctx, term: Ghost(IntTerm::Opaque) }),
            None => None,
        }
    }

    /// The term as a Boolean term, when its sort is the Booleans.
    pub fn as_bool(&self) -> (r: Option<Bool<'c>>)
        ensures
            r is Some <==> self.sort() == SortKind::Bool,
            r matches Some(b) ==> b.formula() == Formula::Opaque && b.context() == self.context(),
    {
        match z3_dynamic_as_bool(self) {
            Some(b) => Some(Bool { raw: b, ctx: self.ctx, formula: Ghost(Formula::Opaque) }),
            None => None,
        }
    }
}

/// An uninterpreted function declaration.
pub struct FuncDecl<'c> {
    raw: Z3FuncDecl<'c>,
    ctx: &'c Context,
    name: Ghost<Seq<char>>,
    domain: Ghost<Seq<SortKind>>,
    range: Ghost<SortKind>,
}

impl<'c> FuncDecl<'c> {
    /// The declared name, when it is a string.
    pub closed spec fn name(&self) -> Seq<char> {
        self.name@
    }

    /// The sorts of the arguments.
    pub closed spec fn domain(&self) -> Seq<SortKind> {
        self.domain@
    }

    /// The sort of the result.
    pub closed spec fn range(&self) -> SortKind {
        self.range@
    }

    /// The context the declaration belongs to.
    pub closed spec fn context(&self) -> Context {
        *self.ctx
    }

    /// Declares a function with this name and signature, over sorts of
    /// context `ctx`.
    pub fn new(ctx: &'c Context, name: Symbol, domain: &[&Sort<'c>], range: &Sort<'c>) -> (r: FuncDecl<'c>)
        requires
            name matches Symbol::String(s) ==> no_nul(s@),
            name matches Symbol::Int(i) ==> symbol_int_ok(i),
            sorts_in(domain@, *ctx),
            range.context() == *ctx,
        ensures
            name matches Symbol::String(s) ==> r.name() == s@,
            r.domain() == sort_kinds(domain@),
            r.range() == range.kind(),
            r.context() == *ctx,
    {
        let raw = z3_func_decl_new(ctx, &name, domain, range);
        let ghost n = match name {
            Symbol::String(s) => s@,
            Symbol::Int(_) => Seq::empty(),
        };
        FuncDecl { raw, ctx, name: Ghost(n), domain: Ghost(sort_kinds(domain@)), range: Ghost(range.kind()) }
    }

    /// The application of the function to arguments of the declared sorts
    /// and of its context.
    pub fn apply(&self, args: &[&Dynamic<'c>]) -> (r: Dynamic<'c>)
        requires
            dynamic_sorts(args@) == self.domain(),
            dynamics_in(args@, self.context()),
        ensures
            r.sort() == self.range(),
            r.context() == self.context(),
    {
        Dynamic { raw: z3_func_decl_apply(self, args), ctx: self.ctx, sort: Ghost(self.range()) }
    }
}

} // verus!
