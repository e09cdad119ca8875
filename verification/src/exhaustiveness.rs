//! Match exhaustiveness for enums: by variant name, and by discriminant
//! with the solver.
use vstd::prelude::*;
use crate::types::{Type, SpecType};
use crate::text::{concat2, concat3, contains_seq, contains_str, ends_with_seq, ends_with_str, str_eq};
use crate::debug_text::{debug_string, debug_text};
use crate::smt::{IntTerm, Formula, Env, eval_formula, eval_all, eval_any, satisfiable, formula_modeled,
    formulas_modeled, lemma_eval_all, lemma_eval_any, lemma_formulas_modeled};
use crate::z3_shim::{Context, Solver, Params, Int, Bool, SatResult, formulas, bools_in};

verus! {

/// A match pattern, as far as exhaustiveness looks at it.
#[derive(Debug)]
pub enum Pattern {
    /// `_`
    Wildcard,
    /// A binding that matches anything.
    Ident { name: String },
    /// An enum variant, by its path; the field patterns are not looked at.
    Variant { path: Vec<String>, fields: Option<Vec<Pattern>> },
    /// Alternatives.
    Or(Vec<Pattern>),
    /// A literal, tuple or struct pattern.
    Other,
}

/// One arm of a match; only its pattern matters here.
#[derive(Debug)]
pub struct MatchArm {
    pub pattern: Pattern,
}

/// A registered enum: its name and, for each variant, its name, payload
/// types and discriminant.
#[derive(Debug)]
pub struct EnumInfo {
    pub name: String,
    pub variants: Vec<(String, Vec<Type>, u32)>,
}

/// The verdict on a match.
#[derive(Debug, PartialEq, Eq)]
pub enum ExhaustivenessResult {
    /// Every variant is covered.
    Exhaustive,
    /// These variants are not covered.
    MissingVariants(Vec<String>),
    /// No verdict, for the reason given.
    Unverifiable(String),
}

// ----------------------------------------------------------------------
// By name
// ----------------------------------------------------------------------

/// Whether a pattern matches every value.
pub open spec fn spec_matches_all(p: Pattern) -> bool
    decreases p, 1nat,
{
    match p {
        Pattern::Wildcard | Pattern::Ident { .. } => true,
        Pattern::Or(ps) => {
            proof {
                assert(decreases_to!(p => p->Or_0));
                assert(decreases_to!(ps => ps@));
            }
            spec_any_matches_all(ps@)
        },
        _ => false,
    }
}

/// Whether some pattern of a list matches every value.
pub open spec fn spec_any_matches_all(ps: Seq<Pattern>) -> bool
    decreases ps, 0nat,
{
    if ps.len() == 0 {
        false
    } else {
        proof {
            assert(decreases_to!(ps => ps.drop_last()));
            assert(decreases_to!(ps => ps.last()));
        }
        spec_any_matches_all(ps.drop_last()) || spec_matches_all(ps.last())
    }
}

/// Whether some arm matches every value.
pub open spec fn spec_has_wildcard(arms: Seq<MatchArm>) -> bool {
    exists|i: int| 0 <= i < arms.len() && #[trigger] spec_matches_all(arms[i].pattern)
}

/// Whether a pattern names the variant `name` (by the last segment of a
/// variant path, through alternatives).
pub open spec fn spec_covers(p: Pattern, name: Seq<char>) -> bool
    decreases p, 1nat,
{
    match p {
        Pattern::Variant { path, .. } => path@.len() > 0 && path@.last()@ == name,
        Pattern::Or(ps) => {
            proof {
                assert(decreases_to!(p => p->Or_0));
                assert(decreases_to!(ps => ps@));
            }
            spec_any_covers(ps@, name)
        },
        _ => false,
    }
}

/// Whether some pattern of a list names the variant.
pub open spec fn spec_any_covers(ps: Seq<Pattern>, name: Seq<char>) -> bool
    decreases ps, 0nat,
{
    if ps.len() == 0 {
        false
    } else {
        proof {
            assert(decreases_to!(ps => ps.drop_last()));
            assert(decreases_to!(ps => ps.last()));
        }
        spec_any_covers(ps.drop_last(), name) || spec_covers(ps.last(), name)
    }
}

/// Whether some arm names the variant.
pub open spec fn arms_cover(arms: Seq<MatchArm>, name: Seq<char>) -> bool {
    exists|i: int| 0 <= i < arms.len() && #[trigger] spec_covers(arms[i].pattern, name)
}

/// The names of the variants that no arm names, in declaration order.
pub open spec fn missing_names(variants: Seq<(String, Vec<Type>, u32)>, arms: Seq<MatchArm>) -> Seq<Seq<char>>
    decreases variants.len(),
{
    if variants.len() == 0 {
        Seq::empty()
    } else {
        let rest = missing_names(variants.drop_last(), arms);
        let n = variants.last().0@;
        if arms_cover(arms, n) {
            rest
        } else {
            rest.push(n)
        }
    }
}

/// The names of a list of strings.
pub open spec fn names_of(v: Seq<String>) -> Seq<Seq<char>> {
    v.map_values(|s: String| s@)
}

/// The enum a scrutinee type names, if exhaustiveness can check it: an
/// enum, or a named generic type whose name mentions `Result` or `Option`.
pub open spec fn scrutinee_enum(t: SpecType) -> Option<Seq<char>> {
    match t {
        SpecType::Enum(n) => Some(n),
        SpecType::Concrete(n, _) => if contains_seq(n, "Result"@) || contains_seq(n, "Option"@) {
            Some(n)
        } else {
            None
        },
        _ => None,
    }
}

/// Whether a registered enum is the one named: the same name, or one is
/// the other with a module path in front.
pub open spec fn enum_name_matches(info: Seq<char>, wanted: Seq<char>) -> bool {
    info == wanted || ends_with_seq(wanted, "__"@ + info) || ends_with_seq(info, "__"@ + wanted)
}

/// The first registered enum that is the one named.
pub open spec fn find_enum(reg: Seq<EnumInfo>, wanted: Seq<char>) -> Option<int> {
    if exists|i: int| 0 <= i < reg.len() && #[trigger] enum_name_matches(reg[i].name@, wanted) {
        Some(
            choose|i: int|
                0 <= i < reg.len() && #[trigger] enum_name_matches(reg[i].name@, wanted) && forall|j: int|
                    0 <= j < i ==> !enum_name_matches(reg[j].name@, wanted),
        )
    } else {
        None
    }
}

pub open spec fn unsupported_message(t: SpecType) -> Seq<char> {
    "Exhaustiveness checking only supported for enums, got "@ + debug_text(t)
}

pub open spec fn not_found_message(name: Seq<char>) -> Seq<char> {
    "Enum '"@ + name + "' not found in registry"@
}

/// Whether a pattern matches every value.
pub fn matches_all(pattern: &Pattern) -> (r: bool)
    ensures
        r == spec_matches_all(*pattern),
    decreases pattern, 1nat,
{
    match pattern {
        Pattern::Wildcard | Pattern::Ident { .. } => true,
        Pattern::Or(ps) => {
            proof {
                assert(decreases_to!(*pattern => (*pattern)->Or_0));
                assert(decreases_to!(*ps => ps@));
            }
            any_matches_all(ps)
        },
        _ => false,
    }
}

fn any_matches_all(ps: &Vec<Pattern>) -> (r: bool)
    ensures
        r == spec_any_matches_all(ps@),
    decreases ps@, 0nat,
{
    let mut i: usize = 0;
    let mut found = false;
    while i < ps.len()
        invariant
            0 <= i <= ps@.len(),
            found == spec_any_matches_all(ps@.subrange(0, i as int)),
        decreases ps@.len() - i,
    {
        proof {
            assert(decreases_to!(ps@ => ps@[i as int]));
            let a = ps@.subrange(0, i as int + 1);
            assert(a.drop_last() =~= ps@.subrange(0, i as int));
        }
        let here = matches_all(&ps[i]);
        found = found || here;
        i += 1;
    }
    proof {
        assert(ps@.subrange(0, ps@.len() as int) =~= ps@);
    }
    found
}

/// Whether some arm matches every value.
pub fn has_wildcard(arms: &Vec<MatchArm>) -> (r: bool)
    ensures
        r == spec_has_wildcard(arms@),
{
    let mut i: usize = 0;
    while i < arms.len()
        invariant
            0 <= i <= arms@.len(),
            forall|j: int| 0 <= j < i ==> !#[trigger] spec_matches_all(arms@[j].pattern),
        decreases arms@.len() - i,
    {
        if matches_all(&arms[i].pattern) {
            return true;
        }
        i += 1;
    }
    false
}

/// Whether a pattern names the variant `name`.
pub fn covers(pattern: &Pattern, name: &str) -> (r: bool)
    ensures
        r == spec_covers(*pattern, name@),
    decreases pattern, 1nat,
{
    match pattern {
        Pattern::Variant { path, .. } => {
            if path.len() == 0 {
                false
            } else {
                str_eq(path[path.len() - 1].as_str(), name)
            }
        },
        Pattern::Or(ps) => {
            proof {
                assert(decreases_to!(*pattern => (*pattern)->Or_0));
                assert(decreases_to!(*ps => ps@));
            }
            any_covers(ps, name)
        },
        _ => false,
    }
}

fn any_covers(ps: &Vec<Pattern>, name: &str) -> (r: bool)
    ensures
        r == spec_any_covers(ps@, name@),
    decreases ps@, 0nat,
{
    let mut i: usize = 0;
    let mut found = false;
    while i < ps.len()
        invariant
            0 <= i <= ps@.len(),
            found == spec_any_covers(ps@.subrange(0, i as int), name@),
        decreases ps@.len() - i,
    {
        proof {
            assert(decreases_to!(ps@ => ps@[i as int]));
            let a = ps@.subrange(0, i as int + 1);
            assert(a.drop_last() =~= ps@.subrange(0, i as int));
        }
        let here = covers(&ps[i], name);
        found = found || here;
        i += 1;
    }
    proof {
        assert(ps@.subrange(0, ps@.len() as int) =~= ps@);
    }
    found
}

/// Whether some arm names the variant `name`.
pub fn arms_cover_name(arms: &Vec<MatchArm>, name: &str) -> (r: bool)
    ensures
        r == arms_cover(arms@, name@),
{
    let mut i: usize = 0;
    while i < arms.len()
        invariant
            0 <= i <= arms@.len(),
            forall|j: int| 0 <= j < i ==> !#[trigger] spec_covers(arms@[j].pattern, name@),
        decreases arms@.len() - i,
    {
        if covers(&arms[i].pattern, name) {
            return true;
        }
        i += 1;
    }
    false
}

/// The variants that no arm names, in declaration order.
pub fn missing_variants(info: &EnumInfo, arms: &Vec<MatchArm>) -> (r: Vec<String>)
    ensures
        names_of(r@) == missing_names(info.variants@, arms@),
{
    let mut out: Vec<String> = Vec::new();
    let mut i: usize = 0;
    while i < info.variants.len()
        invariant
            0 <= i <= info.variants@.len(),
            names_of(out@) == missing_names(info.variants@.subrange(0, i as int), arms@),
        decreases info.variants@.len() - i,
    {
        proof {
            let a = info.variants@.subrange(0, i as int + 1);
            assert(a.drop_last() =~= info.variants@.subrange(0, i as int));
        }
        let name = &info.variants[i].0;
        if !arms_cover_name(arms, name.as_str()) {
            let ghost before = out@;
            out.push(name.clone());
            proof {
                assert(names_of(out@) =~= names_of(before).push(name@));
            }
        }
        i += 1;
    }
    proof {
        assert(info.variants@.subrange(0, info.variants@.len() as int) =~= info.variants@);
    }
    out
}

fn enum_name_matches_exec(info: &str, wanted: &str) -> (r: bool)
    ensures
        r == enum_name_matches(info@, wanted@),
{
    if str_eq(info, wanted) {
        return true;
    }
    let a = concat2("__", info);
    let b = concat2("__", wanted);
    ends_with_str(wanted, a.as_str()) || ends_with_str(info, b.as_str())
}

/// The first registered enum that is the one named.
pub fn find_enum_info<'a>(registry: &'a Vec<EnumInfo>, wanted: &str) -> (r: Option<&'a EnumInfo>)
    ensures
        match r {
            Some(info) => find_enum(registry@, wanted@) matches Some(i) && *info == registry@[i],
            None => find_enum(registry@, wanted@) is None,
        },
{
    let mut i: usize = 0;
    while i < registry.len()
        invariant
            0 <= i <= registry@.len(),
            forall|j: int| 0 <= j < i ==> !#[trigger] enum_name_matches(registry@[j].name@, wanted@),
        decreases registry@.len() - i,
    {
        if enum_name_matches_exec(registry[i].name.as_str(), wanted) {
            proof {
                let k = choose|k: int|
                    0 <= k < registry@.len() && #[trigger] enum_name_matches(registry@[k].name@, wanted@)
                        && forall|j: int| 0 <= j < k ==> !enum_name_matches(registry@[j].name@, wanted@);
                if k < i {
                } else if k > i {
                    assert(!enum_name_matches(registry@[i as int].name@, wanted@));
                }
            }
            return Some(&registry[i]);
        }
        i += 1;
    }
    None
}

fn unsupported_text(t: &Type) -> (r: String)
    ensures
        r@ == unsupported_message(t@),
{
    let d = debug_string(t);
    concat2("Exhaustiveness checking only supported for enums, got ", d.as_str())
}

fn scrutinee_name(t: &Type) -> (r: Option<String>)
    ensures
        match r {
            Some(n) => scrutinee_enum(t@) == Some(n@),
            None => scrutinee_enum(t@) is None,
        },
{
    match t {
        Type::Enum(name) => Some(name.clone()),
        Type::Concrete(name, _) => {
            if contains_str(name.as_str(), "Result") || contains_str(name.as_str(), "Option") {
                Some(name.clone())
            } else {
                None
            }
        },
        _ => None,
    }
}

/// Checks by variant name whether the arms of a match on `scrutinee_ty`
/// cover every variant of the enum it names (looked up in `registry`).
/// A pattern that matches everything makes the match exhaustive.
pub fn check_exhaustiveness(registry: &Vec<EnumInfo>, scrutinee_ty: &Type, arms: &Vec<MatchArm>) -> (r:
    ExhaustivenessResult)
    ensures
        match scrutinee_enum(scrutinee_ty@) {
            None => r matches ExhaustivenessResult::Unverifiable(m) && m@ == unsupported_message(scrutinee_ty@),
            Some(name) => match find_enum(registry@, name) {
                None => r matches ExhaustivenessResult::Unverifiable(m) && m@ == not_found_message(name),
                Some(i) => if spec_has_wildcard(arms@) || missing_names(registry@[i].variants@, arms@).len()
                    == 0 {
                    r == ExhaustivenessResult::Exhaustive
                } else {
                    r matches ExhaustivenessResult::MissingVariants(v) && names_of(v@) == missing_names(
                        registry@[i].variants@,
                        arms@,
                    )
                },
            },
        },
{
    let enum_name = match scrutinee_name(scrutinee_ty) {
        Some(name) => name,
        None => {
            return ExhaustivenessResult::Unverifiable(unsupported_text(scrutinee_ty));
        },
    };
    let info = match find_enum_info(registry, enum_name.as_str()) {
        Some(info) => info,
        None => {
            return ExhaustivenessResult::Unverifiable(
                concat3("Enum '", enum_name.as_str(), "' not found in registry"),
            );
        },
    };
    verdict_by_name(info, arms)
}

/// The verdict for a found enum.
fn verdict_by_name(info: &EnumInfo, arms: &Vec<MatchArm>) -> (r: ExhaustivenessResult)
    ensures
        if spec_has_wildcard(arms@) || missing_names(info.variants@, arms@).len() == 0 {
            r == ExhaustivenessResult::Exhaustive
        } else {
            r matches ExhaustivenessResult::MissingVariants(v) && names_of(v@) == missing_names(
                info.variants@,
                arms@,
            )
        },
{
    if has_wildcard(arms) {
        return ExhaustivenessResult::Exhaustive;
    }
    let missing = missing_variants(info, arms);
    if missing.len() == 0 {
        ExhaustivenessResult::Exhaustive
    } else {
        ExhaustivenessResult::MissingVariants(missing)
    }
}

// ----------------------------------------------------------------------
// By discriminant, with the solver
// ----------------------------------------------------------------------

pub open spec fn discriminant_name() -> Seq<char> {
    seq!['d', 'i', 's', 'c', 'r', 'i', 'm', 'i', 'n', 'a', 'n', 't']
}

/// The discriminant of the first variant with this name.
pub open spec fn tag_of(variants: Seq<(String, Vec<Type>, u32)>, name: Seq<char>) -> Option<u32>
    decreases variants.len(),
{
    if variants.len() == 0 {
        None
    } else {
        match tag_of(variants.drop_last(), name) {
            Some(t) => Some(t),
            None => if variants.last().0@ == name {
                Some(variants.last().2)
            } else {
                None
            },
        }
    }
}

/// The name a variant pattern refers to: the last segment of its path.
pub open spec fn pattern_variant_name(path: Seq<String>) -> Seq<char> {
    if path.len() > 0 {
        path.last()@
    } else {
        Seq::empty()
    }
}

/// The constraint a pattern puts on the discriminant: none for a pattern
/// that matches everything (an empty list of alternatives counts as one).
pub open spec fn pattern_formula(p: Pattern, variants: Seq<(String, Vec<Type>, u32)>) -> Option<Formula>
    decreases p, 1nat,
{
    match p {
        Pattern::Wildcard | Pattern::Ident { .. } => None,
        Pattern::Variant { path, .. } => match tag_of(variants, pattern_variant_name(path@)) {
            Some(t) => Some(
                Formula::IntEq(Box::new(IntTerm::Var(discriminant_name())), Box::new(IntTerm::Lit(t as int))),
            ),
            None => Some(Formula::Lit(false)),
        },
        Pattern::Or(ps) => {
            proof {
                assert(decreases_to!(p => p->Or_0));
                assert(decreases_to!(ps => ps@));
            }
            match alternatives_formulas(ps@, variants) {
                Some(fs) => if fs.len() == 0 {
                    None
                } else {
                    Some(Formula::Or(fs))
                },
                None => None,
            }
        },
        Pattern::Other => Some(Formula::Lit(false)),
    }
}

/// The constraints of a list of alternatives, or none if one of them
/// matches everything.
pub open spec fn alternatives_formulas(ps: Seq<Pattern>, variants: Seq<(String, Vec<Type>, u32)>) -> Option<
    Seq<Formula>,
>
    decreases ps, 0nat,
{
    if ps.len() == 0 {
        Some(Seq::empty())
    } else {
        proof {
            assert(decreases_to!(ps => ps.drop_last()));
            assert(decreases_to!(ps => ps.last()));
        }
        match alternatives_formulas(ps.drop_last(), variants) {
            Some(fs) => match pattern_formula(ps.last(), variants) {
                Some(f) => Some(fs.push(f)),
                None => None,
            },
            None => None,
        }
    }
}

/// Whether a pattern admits a value whose discriminant is `d`.
pub open spec fn admits(p: Pattern, variants: Seq<(String, Vec<Type>, u32)>, d: int) -> bool
    decreases p, 1nat,
{
    match p {
        Pattern::Wildcard | Pattern::Ident { .. } => true,
        Pattern::Variant { path, .. } => tag_of(variants, pattern_variant_name(path@)) matches Some(t) && d
            == t,
        Pattern::Or(ps) => {
            proof {
                assert(decreases_to!(p => p->Or_0));
                assert(decreases_to!(ps => ps@));
            }
            ps@.len() == 0 || any_admits(ps@, variants, d)
        },
        Pattern::Other => false,
    }
}

/// Whether some alternative admits the discriminant.
pub open spec fn any_admits(ps: Seq<Pattern>, variants: Seq<(String, Vec<Type>, u32)>, d: int) -> bool
    decreases ps, 0nat,
{
    if ps.len() == 0 {
        false
    } else {
        proof {
            assert(decreases_to!(ps => ps.drop_last()));
            assert(decreases_to!(ps => ps.last()));
        }
        any_admits(ps.drop_last(), variants, d) || admits(ps.last(), variants, d)
    }
}

/// Every variant's discriminant is admitted by some arm.
pub open spec fn all_tags_covered(variants: Seq<(String, Vec<Type>, u32)>, arms: Seq<MatchArm>) -> bool {
    forall|k: int| 0 <= k < variants.len() ==> #[trigger] tag_admitted(arms, variants, variants[k].2 as int)
}

/// Whether some arm admits the discriminant `d`.
pub open spec fn tag_admitted(arms: Seq<MatchArm>, variants: Seq<(String, Vec<Type>, u32)>, d: int) -> bool {
    exists|i: int| 0 <= i < arms.len() && #[trigger] admits(arms[i].pattern, variants, d)
}

/// Whether `n` is the name of one of the variants.
pub open spec fn is_variant_name(variants: Seq<(String, Vec<Type>, u32)>, n: Seq<char>) -> bool {
    exists|k: int| 0 <= k < variants.len() && #[trigger] variants[k].0@ == n
}

/// An assignment of `d` to the discriminant.
pub open spec fn discriminant_env(d: int) -> Env {
    Env { ints: |n: Seq<char>| d, bools: |n: Seq<char>| false }
}

/// The constraint of a pattern evaluates to whether it admits the
/// discriminant; a pattern without one admits everything.
proof fn lemma_pattern_formula(p: Pattern, variants: Seq<(String, Vec<Type>, u32)>, env: Env)
    ensures
        match pattern_formula(p, variants) {
            Some(f) => formula_modeled(f) && eval_formula(f, env) == admits(
                p,
                variants,
                (env.ints)(discriminant_name()),
            ),
            None => admits(p, variants, (env.ints)(discriminant_name())),
        },
    decreases p, 1nat,
{
    let d = (env.ints)(discriminant_name());
    match p {
        Pattern::Variant { path, .. } => {
            match tag_of(variants, pattern_variant_name(path@)) {
                Some(t) => {
                    assert(crate::smt::eval_int(IntTerm::Var(discriminant_name()), env) == d);
                    assert(crate::smt::eval_int(IntTerm::Lit(t as int), env) == t);
                    assert(crate::smt::int_modeled(IntTerm::Var(discriminant_name())));
                    assert(crate::smt::int_modeled(IntTerm::Lit(t as int)));
                },
                None => {},
            }
        },
        Pattern::Or(ps) => {
            lemma_alternatives(ps@, variants, env);
            match alternatives_formulas(ps@, variants) {
                Some(fs) => {
                    if fs.len() > 0 {
                        lemma_eval_any(fs, env);
                    }
                },
                None => {},
            }
        },
        _ => {},
    }
}

/// `lemma_pattern_formula` for alternatives.
proof fn lemma_alternatives(ps: Seq<Pattern>, variants: Seq<(String, Vec<Type>, u32)>, env: Env)
    ensures
        match alternatives_formulas(ps, variants) {
            Some(fs) => fs.len() == ps.len() && formulas_modeled(fs) && eval_any(fs, env) == any_admits(
                ps,
                variants,
                (env.ints)(discriminant_name()),
            ),
            None => ps.len() > 0 && any_admits(ps, variants, (env.ints)(discriminant_name())),
        },
    decreases ps, 0nat,
{
    if ps.len() > 0 {
        lemma_alternatives(ps.drop_last(), variants, env);
        lemma_pattern_formula(ps.last(), variants, env);
        match alternatives_formulas(ps.drop_last(), variants) {
            Some(fs) => match pattern_formula(ps.last(), variants) {
                Some(f) => {
                    assert(fs.push(f).drop_last() =~= fs);
                },
                None => {},
            },
            None => {},
        }
    }
}


/// The discriminant of the first variant with this name.
fn tag_of_exec(info: &EnumInfo, name: &str) -> (r: Option<u32>)
    ensures
        r == tag_of(info.variants@, name@),
{
    let mut result: Option<u32> = None;
    let mut i: usize = 0;
    while i < info.variants.len()
        invariant
            0 <= i <= info.variants@.len(),
            result == tag_of(info.variants@.subrange(0, i as int), name@),
        decreases info.variants@.len() - i,
    {
        proof {
            let a = info.variants@.subrange(0, i as int + 1);
            assert(a.drop_last() =~= info.variants@.subrange(0, i as int));
        }
        if result.is_none() && str_eq(info.variants[i].0.as_str(), name) {
            result = Some(info.variants[i].2);
        }
        i += 1;
    }
    proof {
        assert(info.variants@.subrange(0, info.variants@.len() as int) =~= info.variants@);
    }
    result
}

/// The formulas of a list of Boolean terms held by value.
pub open spec fn owned_formulas<'c>(v: Seq<Bool<'c>>) -> Seq<Formula> {
    v.map_values(|b: Bool<'c>| b.formula())
}

/// Every term of a list held by value belongs to context `c`.
pub open spec fn owned_in<'c>(v: Seq<Bool<'c>>, c: Context) -> bool {
    forall|j: int| 0 <= j < v.len() ==> (#[trigger] v[j]).context() == c
}

/// References to each term of a list.
fn refs_of<'a, 'c>(v: &'a Vec<Bool<'c>>, Ghost(c): Ghost<Context>) -> (r: Vec<&'a Bool<'c>>)
    requires
        owned_in(v@, c),
    ensures
        formulas(r@) == owned_formulas(v@),
        bools_in(r@, c),
{
    let mut out: Vec<&'a Bool<'c>> = Vec::new();
    let mut i: usize = 0;
    while i < v.len()
        invariant
            0 <= i <= v@.len(),
            out@.len() == i,
            owned_in(v@, c),
            forall|j: int| 0 <= j < i ==> (#[trigger] out@[j]).formula() == v@[j].formula(),
            forall|j: int| 0 <= j < i ==> (#[trigger] out@[j]).context() == c,
        decreases v@.len() - i,
    {
        out.push(&v[i]);
        i += 1;
    }
    proof {
        assert(formulas(out@) =~= owned_formulas(v@));
    }
    out
}

/// The constraint a pattern puts on the discriminant.
fn pattern_to_z3_constraint<'c>(
    z3_ctx: &'c Context,
    pattern: &Pattern,
    discrim: &Int<'c>,
    enum_info: &EnumInfo,
) -> (r: Option<Bool<'c>>)
    requires
        discrim.term() == IntTerm::Var(discriminant_name()),
        discrim.context() == *z3_ctx,
    ensures
        r matches Some(b) ==> b.context() == *z3_ctx,
        match r {
            Some(b) => pattern_formula(*pattern, enum_info.variants@) == Some(b.formula()),
            None => pattern_formula(*pattern, enum_info.variants@) is None,
        },
    decreases pattern, 1nat,
{
    match pattern {
        Pattern::Wildcard | Pattern::Ident { .. } => None,
        Pattern::Variant { path, .. } => {
            let empty = "";
            proof {
                reveal_strlit("");
                assert(empty@ =~= Seq::<char>::empty());
            }
            let name: &str = if path.len() > 0 {
                path[path.len() - 1].as_str()
            } else {
                empty
            };
            match tag_of_exec(enum_info, name) {
                Some(t) => {
                    let tag_val = Int::from_i64(z3_ctx, t as i64);
                    Some(discrim._eq(&tag_val))
                },
                None => Some(Bool::from_bool(z3_ctx, false)),
            }
        },
        Pattern::Or(ps) => {
            proof {
                assert(decreases_to!(*pattern => (*pattern)->Or_0));
                assert(decreases_to!(*ps => ps@));
            }
            let constraints = match alternatives_to_z3(z3_ctx, ps, discrim, enum_info) {
                Some(c) => c,
                None => {
                    return None;
                },
            };
            if constraints.len() == 0 {
                None
            } else {
                let refs = refs_of(&constraints, Ghost(*z3_ctx));
                Some(Bool::or(z3_ctx, refs.as_slice()))
            }
        },
        Pattern::Other => Some(Bool::from_bool(z3_ctx, false)),
    }
}

/// Once a prefix of the alternatives matches everything, so do all of them.
proof fn lemma_alternatives_none(ps: Seq<Pattern>, variants: Seq<(String, Vec<Type>, u32)>, k: int)
    requires
        0 < k <= ps.len(),
        alternatives_formulas(ps.subrange(0, k), variants) is None,
    ensures
        alternatives_formulas(ps, variants) is None,
    decreases ps.len() - k,
{
    if k < ps.len() {
        let a = ps.subrange(0, k + 1);
        assert(a.drop_last() =~= ps.subrange(0, k));
        lemma_alternatives_none(ps, variants, k + 1);
    } else {
        assert(ps.subrange(0, k) =~= ps);
    }
}

/// The constraints of a list of alternatives, or none if one of them
/// matches everything.
fn alternatives_to_z3<'c>(
    z3_ctx: &'c Context,
    ps: &Vec<Pattern>,
    discrim: &Int<'c>,
    enum_info: &EnumInfo,
) -> (r: Option<Vec<Bool<'c>>>)
    requires
        discrim.term() == IntTerm::Var(discriminant_name()),
        discrim.context() == *z3_ctx,
    ensures
        r matches Some(v) ==> owned_in(v@, *z3_ctx),
        match r {
            Some(v) => alternatives_formulas(ps@, enum_info.variants@) == Some(owned_formulas(v@)),
            None => alternatives_formulas(ps@, enum_info.variants@) is None,
        },
    decreases ps@, 0nat,
{
    let mut constraints: Vec<Bool<'c>> = Vec::new();
    let mut i: usize = 0;
    while i < ps.len()
        invariant
            0 <= i <= ps@.len(),
            discrim.term() == IntTerm::Var(discriminant_name()),
            discrim.context() == *z3_ctx,
            owned_in(constraints@, *z3_ctx),
            alternatives_formulas(ps@.subrange(0, i as int), enum_info.variants@) == Some(
                owned_formulas(constraints@),
            ),
        decreases ps@.len() - i,
    {
        proof {
            assert(decreases_to!(ps@ => ps@[i as int]));
            let a = ps@.subrange(0, i as int + 1);
            assert(a.drop_last() =~= ps@.subrange(0, i as int));
        }
        match pattern_to_z3_constraint(z3_ctx, &ps[i], discrim, enum_info) {
            Some(c) => {
                let ghost before = constraints@;
                constraints.push(c);
                proof {
                    assert(owned_formulas(constraints@) =~= owned_formulas(before).push(
                        constraints@.last().formula(),
                    ));
                }
            },
            None => {
                proof {
                    lemma_alternatives_none(ps@, enum_info.variants@, i as int + 1);
                }
                return None;
            },
        }
        i += 1;
    }
    proof {
        assert(ps@.subrange(0, ps@.len() as int) =~= ps@);
    }
    Some(constraints)
}

/// `discriminant == tag` for every variant, in order.
pub open spec fn valid_formulas(variants: Seq<(String, Vec<Type>, u32)>) -> Seq<Formula> {
    variants.map_values(
        |v: (String, Vec<Type>, u32)|
            Formula::IntEq(Box::new(IntTerm::Var(discriminant_name())), Box::new(IntTerm::Lit(v.2 as int))),
    )
}

/// The names of the variants, in order.
pub open spec fn variant_names(variants: Seq<(String, Vec<Type>, u32)>) -> Seq<Seq<char>> {
    variants.map_values(|v: (String, Vec<Type>, u32)| v.0@)
}

/// The query: a valid discriminant that no arm admits.
pub open spec fn uncovered_query(variants: Seq<(String, Vec<Type>, u32)>, cov: Seq<Formula>) -> Seq<Formula> {
    seq![
        Formula::And(
            seq![
                Formula::Or(valid_formulas(variants)),
                Formula::Not(Box::new(Formula::Or(cov))),
            ],
        ),
    ]
}

proof fn lemma_uncovered_eval(
    variants: Seq<(String, Vec<Type>, u32)>,
    arms: Seq<MatchArm>,
    cov: Seq<Formula>,
    env: Env,
)
    requires
        cov.len() == arms.len(),
        forall|i: int| 0 <= i < arms.len() ==> pattern_formula(#[trigger] arms[i].pattern, variants) == Some(cov[i]),
    ensures
        formulas_modeled(uncovered_query(variants, cov)),
        eval_all(uncovered_query(variants, cov), env) == ((exists|k: int|
            0 <= k < variants.len() && (env.ints)(discriminant_name()) == #[trigger] variants[k].2 as int)
            && !tag_admitted(arms, variants, (env.ints)(discriminant_name()))),
{
    let d = (env.ints)(discriminant_name());
    let vf = valid_formulas(variants);
    let q = uncovered_query(variants, cov);
    assert(crate::smt::eval_int(IntTerm::Var(discriminant_name()), env) == d);
    assert(crate::smt::int_modeled(IntTerm::Var(discriminant_name())));
    assert forall|k: int| 0 <= k < vf.len() implies #[trigger] eval_formula(vf[k], env) == (d == variants[k].2
        as int) by {
        assert(crate::smt::eval_int(IntTerm::Lit(variants[k].2 as int), env) == variants[k].2 as int);
    }
    assert forall|k: int| 0 <= k < vf.len() implies #[trigger] formula_modeled(vf[k]) by {
        assert(crate::smt::int_modeled(IntTerm::Lit(variants[k].2 as int)));
    }
    lemma_eval_any(vf, env);
    lemma_formulas_modeled(vf);
    assert forall|i: int| 0 <= i < cov.len() implies #[trigger] eval_formula(cov[i], env) == admits(
        arms[i].pattern,
        variants,
        d,
    ) by {
        lemma_pattern_formula(arms[i].pattern, variants, env);
    }
    assert forall|i: int| 0 <= i < cov.len() implies #[trigger] formula_modeled(cov[i]) by {
        lemma_pattern_formula(arms[i].pattern, variants, env);
    }
    lemma_eval_any(cov, env);
    lemma_formulas_modeled(cov);
    let inner = seq![Formula::Or(vf), Formula::Not(Box::new(Formula::Or(cov)))];
    assert(q[0] == Formula::And(inner));
    assert(eval_formula(inner[0], env) == eval_any(vf, env));
    assert(eval_formula(Formula::Or(cov), env) == eval_any(cov, env));
    assert(eval_formula(inner[1], env) == !eval_any(cov, env));
    assert(formula_modeled(inner[0]) == formulas_modeled(vf));
    assert(formula_modeled(Formula::Or(cov)) == formulas_modeled(cov));
    assert(formula_modeled(inner[1]) == formulas_modeled(cov));
    lemma_eval_all(inner, env);
    lemma_formulas_modeled(inner);
    lemma_eval_all(q, env);
    lemma_formulas_modeled(q);
    assert(eval_formula(q[0], env) == (eval_any(vf, env) && !eval_any(cov, env)));
    assert(eval_all(q, env) == eval_formula(q[0], env));
    assert(formulas_modeled(vf));
    assert(formulas_modeled(cov));
    assert(formulas_modeled(inner));
    assert(formula_modeled(q[0]));
    if eval_any(vf, env) {
        let k = choose|k: int| 0 <= k < vf.len() && #[trigger] eval_formula(vf[k], env);
        assert(d == variants[k].2 as int);
    }
    if exists|k: int| 0 <= k < variants.len() && d == #[trigger] variants[k].2 as int {
        let k = choose|k: int| 0 <= k < variants.len() && d == #[trigger] variants[k].2 as int;
        assert(eval_formula(vf[k], env));
    }
    if eval_any(cov, env) {
        let i = choose|i: int| 0 <= i < cov.len() && #[trigger] eval_formula(cov[i], env);
        assert(admits(arms[i].pattern, variants, d));
    }
    if tag_admitted(arms, variants, d) {
        let i = choose|i: int| 0 <= i < arms.len() && #[trigger] admits(arms[i].pattern, variants, d);
        assert(eval_formula(cov[i], env));
    }
}

proof fn lemma_uncovered_query(variants: Seq<(String, Vec<Type>, u32)>, arms: Seq<MatchArm>, cov: Seq<Formula>)
    requires
        cov.len() == arms.len(),
        forall|i: int| 0 <= i < arms.len() ==> pattern_formula(#[trigger] arms[i].pattern, variants) == Some(cov[i]),
    ensures
        formulas_modeled(uncovered_query(variants, cov)),
        satisfiable(uncovered_query(variants, cov)) <==> !all_tags_covered(variants, arms),
{
    let q = uncovered_query(variants, cov);
    lemma_uncovered_eval(variants, arms, cov, discriminant_env(0));
    if satisfiable(q) {
        let w = choose|w: Env| #[trigger] eval_all(q, w);
        lemma_uncovered_eval(variants, arms, cov, w);
        let k = choose|k: int| 0 <= k < variants.len() && (w.ints)(discriminant_name()) == #[trigger] variants[k].2
            as int;
        assert(!tag_admitted(arms, variants, variants[k].2 as int));
    }
    if !all_tags_covered(variants, arms) {
        let k = choose|k: int| 0 <= k < variants.len() && !#[trigger] tag_admitted(arms, variants, variants[k].2 as int);
        let env = discriminant_env(variants[k].2 as int);
        lemma_uncovered_eval(variants, arms, cov, env);
        assert(eval_all(q, env));
    }
}

/// Every name that `missing_names` gives is a variant's name.
proof fn lemma_missing_are_variants(variants: Seq<(String, Vec<Type>, u32)>, arms: Seq<MatchArm>)
    ensures
        forall|j: int| 0 <= j < missing_names(variants, arms).len() ==> is_variant_name(
            variants,
            #[trigger] missing_names(variants, arms)[j],
        ),
    decreases variants.len(),
{
    if variants.len() > 0 {
        lemma_missing_are_variants(variants.drop_last(), arms);
        let m = missing_names(variants, arms);
        let rest = missing_names(variants.drop_last(), arms);
        assert forall|j: int| 0 <= j < m.len() implies is_variant_name(variants, #[trigger] m[j]) by {
            if j < rest.len() {
                assert(m[j] == rest[j]);
                let k = choose|k: int| 0 <= k < variants.drop_last().len() && #[trigger] variants.drop_last()[k].0@
                    == rest[j];
                assert(variants[k] == variants.drop_last()[k]);
            } else {
                assert(variants[variants.len() - 1].0@ == m[j]);
            }
        }
    }
}

fn discriminant_const<'c>(z3_ctx: &'c Context) -> (r: Int<'c>)
    ensures
        r.term() == IntTerm::Var(discriminant_name()),
        r.context() == *z3_ctx,
{
    let name = "discriminant";
    proof {
        reveal_strlit("discriminant");
        assert(name@ =~= discriminant_name());
    }
    Int::new_const(z3_ctx, name)
}

fn all_variant_names(info: &EnumInfo) -> (r: Vec<String>)
    ensures
        names_of(r@) == variant_names(info.variants@),
{
    let mut out: Vec<String> = Vec::new();
    let mut i: usize = 0;
    while i < info.variants.len()
        invariant
            0 <= i <= info.variants@.len(),
            out@.len() == i,
            forall|j: int| 0 <= j < i ==> (#[trigger] out@[j])@ == info.variants@[j].0@,
        decreases info.variants@.len() - i,
    {
        out.push(info.variants[i].0.clone());
        i += 1;
    }
    proof {
        assert(names_of(out@) =~= variant_names(info.variants@));
    }
    out
}

/// The patterns of the arms, in order.
pub open spec fn arm_patterns(arms: Seq<MatchArm>) -> Seq<Pattern> {
    arms.map_values(|a: MatchArm| a.pattern)
}

/// Some arm's pattern puts no constraint on the discriminant: a wildcard, a
/// binding, or alternatives one of which is such a pattern.
pub open spec fn has_catch_all(arms: Seq<MatchArm>, variants: Seq<(String, Vec<Type>, u32)>) -> bool {
    exists|i: int| 0 <= i < arms.len() && (#[trigger] pattern_formula(arms[i].pattern, variants)) is None
}

/// The constraint of each arm, in order (meaningful when no arm is a
/// catch-all).
pub open spec fn arm_constraints(arms: Seq<MatchArm>, variants: Seq<(String, Vec<Type>, u32)>) -> Seq<Formula> {
    Seq::new(arms.len(), |i: int| pattern_formula(arms[i].pattern, variants)->0)
}

/// A list of alternatives has constraints exactly when none of them is a
/// catch-all, and then they are the alternatives' constraints in order.
proof fn lemma_alternatives_shape(ps: Seq<Pattern>, variants: Seq<(String, Vec<Type>, u32)>)
    ensures
        match alternatives_formulas(ps, variants) {
            Some(fs) => fs.len() == ps.len() && forall|i: int| 0 <= i < ps.len() ==> pattern_formula(
                #[trigger] ps[i],
                variants,
            ) == Some(fs[i]),
            None => exists|i: int| 0 <= i < ps.len() && (#[trigger] pattern_formula(ps[i], variants)) is None,
        },
    decreases ps.len(),
{
    if ps.len() > 0 {
        let p = ps.drop_last();
        lemma_alternatives_shape(p, variants);
        match alternatives_formulas(p, variants) {
            Some(fs) => {
                assert forall|i: int| 0 <= i < p.len() implies #[trigger] ps[i] == p[i] by {}
                match pattern_formula(ps.last(), variants) {
                    Some(f) => {
                        assert forall|i: int| 0 <= i < ps.len() implies pattern_formula(
                            #[trigger] ps[i],
                            variants,
                        ) == Some(fs.push(f)[i]) by {
                            if i < p.len() {
                                assert(ps[i] == p[i]);
                            }
                        }
                    },
                    None => {
                        assert(pattern_formula(ps[ps.len() - 1], variants) is None);
                    },
                }
            },
            None => {
                let i = choose|i: int| 0 <= i < p.len() && (#[trigger] pattern_formula(p[i], variants)) is None;
                assert(ps[i] == p[i]);
            },
        }
    }
}

/// With no catch-all arm, `arm_constraints` are the arms' constraints.
proof fn lemma_arm_constraints(arms: Seq<MatchArm>, variants: Seq<(String, Vec<Type>, u32)>)
    requires
        !has_catch_all(arms, variants),
    ensures
        arm_constraints(arms, variants).len() == arms.len(),
        forall|i: int| 0 <= i < arms.len() ==> pattern_formula(#[trigger] arms[i].pattern, variants) == Some(
            arm_constraints(arms, variants)[i],
        ),
{
    assert forall|i: int| 0 <= i < arms.len() implies pattern_formula(#[trigger] arms[i].pattern, variants) == Some(
        arm_constraints(arms, variants)[i],
    ) by {
        if pattern_formula(arms[i].pattern, variants) is None {
            assert(has_catch_all(arms, variants));
        }
    }
}

/// Builds the query of the exhaustiveness check over the constant
/// `discrim`: a valid discriminant (one of the variants' tags) that no
/// arm's constraint admits. There is no query when some arm is a
/// catch-all.
pub fn exhaustiveness_query<'c>(z3_ctx: &'c Context, discrim: &Int<'c>, enum_info: &EnumInfo, arms: &Vec<MatchArm>) -> (r:
    Option<Bool<'c>>)
    requires
        discrim.term() == IntTerm::Var(discriminant_name()),
        discrim.context() == *z3_ctx,
    ensures
        r is None <==> has_catch_all(arms@, enum_info.variants@),
        r matches Some(b) ==> b.context() == *z3_ctx && seq![b.formula()] == uncovered_query(
            enum_info.variants@,
            arm_constraints(arms@, enum_info.variants@),
        ),
{
    let mut valid_constraints: Vec<Bool<'c>> = Vec::new();
    let mut k: usize = 0;
    while k < enum_info.variants.len()
        invariant
            0 <= k <= enum_info.variants@.len(),
            discrim.term() == IntTerm::Var(discriminant_name()),
            discrim.context() == *z3_ctx,
            owned_in(valid_constraints@, *z3_ctx),
            owned_formulas(valid_constraints@) == valid_formulas(enum_info.variants@.subrange(0, k as int)),
        decreases enum_info.variants@.len() - k,
    {
        let tag_val = Int::from_i64(z3_ctx, enum_info.variants[k].2 as i64);
        let ghost before = valid_constraints@;
        proof {
            assert(owned_formulas(before).len() == before.len());
            assert(before.len() == k);
        }
        let c = discrim._eq(&tag_val);
        proof {
            assert(c.formula() == Formula::IntEq(
                Box::new(IntTerm::Var(discriminant_name())),
                Box::new(IntTerm::Lit(enum_info.variants@[k as int].2 as int)),
            ));
        }
        valid_constraints.push(c);
        proof {
            let a = owned_formulas(valid_constraints@);
            let b = valid_formulas(enum_info.variants@.subrange(0, k as int + 1));
            assert(a.len() == b.len());
            assert forall|j: int| 0 <= j < a.len() implies a[j] == b[j] by {
                if j < k {
                    assert(valid_constraints@[j] == before[j]);
                    assert(a[j] == owned_formulas(before)[j]);
                    assert(owned_formulas(before)[j] == valid_formulas(enum_info.variants@.subrange(0, k as int))[j]);
                }
            }
            assert(a =~= b);
        }
        k += 1;
    }
    proof {
        assert(enum_info.variants@.subrange(0, enum_info.variants@.len() as int) =~= enum_info.variants@);
    }
    let valid_refs = refs_of(&valid_constraints, Ghost(*z3_ctx));
    let is_valid = Bool::or(z3_ctx, valid_refs.as_slice());
    let mut covered_constraints: Vec<Bool<'c>> = Vec::new();
    let mut i: usize = 0;
    while i < arms.len()
        invariant
            0 <= i <= arms@.len(),
            discrim.term() == IntTerm::Var(discriminant_name()),
            discrim.context() == *z3_ctx,
            owned_in(covered_constraints@, *z3_ctx),
            covered_constraints@.len() == i,
            forall|j: int| 0 <= j < i ==> pattern_formula(#[trigger] arms@[j].pattern, enum_info.variants@) == Some(
                covered_constraints@[j].formula(),
            ),
        decreases arms@.len() - i,
    {
        match pattern_to_z3_constraint(z3_ctx, &arms[i].pattern, discrim, enum_info) {
            Some(c) => {
                covered_constraints.push(c);
            },
            None => {
                proof {
                    assert(has_catch_all(arms@, enum_info.variants@));
                }
                return None;
            },
        }
        i += 1;
    }
    let ghost cov = owned_formulas(covered_constraints@);
    proof {
        if has_catch_all(arms@, enum_info.variants@) {
            let j = choose|j: int| 0 <= j < arms@.len() && (#[trigger] pattern_formula(
                arms@[j].pattern,
                enum_info.variants@,
            )) is None;
            assert(pattern_formula(arms@[j].pattern, enum_info.variants@) == Some(covered_constraints@[j].formula()));
        }
        lemma_arm_constraints(arms@, enum_info.variants@);
        assert(cov =~= arm_constraints(arms@, enum_info.variants@));
    }
    let covered_refs = refs_of(&covered_constraints, Ghost(*z3_ctx));
    let is_covered = Bool::or(z3_ctx, covered_refs.as_slice());
    let not_covered = is_covered.not();
    let parts = [&is_valid, &not_covered];
    let uncovered = Bool::and(z3_ctx, &parts);
    proof {
        assert(formulas(parts@) =~= seq![
            Formula::Or(valid_formulas(enum_info.variants@)),
            Formula::Not(Box::new(Formula::Or(cov))),
        ]);
        assert(seq![uncovered.formula()] =~= uncovered_query(enum_info.variants@, cov));
    }
    Some(uncovered)
}

/// The index of the first variant whose discriminant is `d`.
pub open spec fn first_with_tag(variants: Seq<(String, Vec<Type>, u32)>, d: int) -> Option<int>
    decreases variants.len(),
{
    if variants.len() == 0 {
        None
    } else {
        match first_with_tag(variants.drop_last(), d) {
            Some(k) => Some(k),
            None => if variants.last().2 as int == d {
                Some(variants.len() - 1)
            } else {
                None
            },
        }
    }
}

/// What a check that found a missing discriminant reports: the variant of
/// the discriminant `witness` that the solver's model gives, when there is
/// one and no arm names it; otherwise the variants that no arm names.
pub open spec fn sat_missing_names(
    witness: Option<i64>,
    variants: Seq<(String, Vec<Type>, u32)>,
    arms: Seq<MatchArm>,
) -> Seq<Seq<char>> {
    match witness {
        Some(d) => match first_with_tag(variants, d as int) {
            Some(k) => if !arms_cover(arms, variants[k].0@) {
                seq![variants[k].0@]
            } else {
                missing_names(variants, arms)
            },
            None => missing_names(variants, arms),
        },
        None => missing_names(variants, arms),
    }
}

/// Once a prefix has a variant with discriminant `d`, so does the whole
/// list, at the same index.
proof fn lemma_first_with_tag_prefix(variants: Seq<(String, Vec<Type>, u32)>, d: int, n: int)
    requires
        0 <= n <= variants.len(),
        first_with_tag(variants.subrange(0, n), d) is Some,
    ensures
        first_with_tag(variants, d) == first_with_tag(variants.subrange(0, n), d),
        0 <= first_with_tag(variants, d)->0 < n,
    decreases variants.len() - n,
{
    if n < variants.len() {
        let a = variants.subrange(0, n + 1);
        assert(a.drop_last() =~= variants.subrange(0, n));
        lemma_first_with_tag_prefix(variants, d, n + 1);
    } else {
        assert(variants.subrange(0, n) =~= variants);
    }
    lemma_first_with_tag_bound(variants.subrange(0, n), d);
}

proof fn lemma_first_with_tag_bound(variants: Seq<(String, Vec<Type>, u32)>, d: int)
    ensures
        first_with_tag(variants, d) matches Some(k) ==> 0 <= k < variants.len() && variants[k].2 as int == d,
    decreases variants.len(),
{
    if variants.len() > 0 {
        lemma_first_with_tag_bound(variants.drop_last(), d);
    }
}

/// The index of the first variant whose discriminant is `d`.
fn first_with_tag_exec(info: &EnumInfo, d: i64) -> (r: Option<usize>)
    ensures
        match r {
            Some(k) => first_with_tag(info.variants@, d as int) == Some(k as int),
            None => first_with_tag(info.variants@, d as int) is None,
        },
{
    let mut k: usize = 0;
    while k < info.variants.len()
        invariant
            0 <= k <= info.variants@.len(),
            first_with_tag(info.variants@.subrange(0, k as int), d as int) is None,
        decreases info.variants@.len() - k,
    {
        proof {
            let a = info.variants@.subrange(0, k as int + 1);
            assert(a.drop_last() =~= info.variants@.subrange(0, k as int));
        }
        if info.variants[k].2 as i64 == d {
            proof {
                lemma_first_with_tag_prefix(info.variants@, d as int, k as int + 1);
            }
            return Some(k);
        }
        k += 1;
    }
    proof {
        assert(info.variants@.subrange(0, info.variants@.len() as int) =~= info.variants@);
    }
    None
}

/// What the exhaustiveness check concludes from the solver's answer on its
/// query and, after a `Sat` answer, the discriminant `witness` read from the
/// model: no uncovered discriminant makes the match exhaustive, no answer
/// leaves it unverified, and an uncovered one reports `sat_missing_names`.
pub fn exhaustiveness_outcome(answer: SatResult, witness: Option<i64>, enum_info: &EnumInfo, arms: &Vec<MatchArm>) -> (r:
    ExhaustivenessResult)
    ensures
        answer == SatResult::Unsat <==> r == ExhaustivenessResult::Exhaustive,
        answer == SatResult::Unknown <==> (r matches ExhaustivenessResult::Unverifiable(m) && m@
            == "Z3 timeout during exhaustiveness check"@),
        answer == SatResult::Sat <==> (r matches ExhaustivenessResult::MissingVariants(v) && names_of(v@)
            == sat_missing_names(witness, enum_info.variants@, arms@)),
{
    match answer {
        SatResult::Unsat => ExhaustivenessResult::Exhaustive,
        SatResult::Unknown => ExhaustivenessResult::Unverifiable("Z3 timeout during exhaustiveness check".to_string()),
        SatResult::Sat => {
            if let Some(d) = witness {
                if let Some(k) = first_with_tag_exec(enum_info, d) {
                    proof {
                        lemma_first_with_tag_bound(enum_info.variants@, d as int);
                    }
                    let name = &enum_info.variants[k].0;
                    if !arms_cover_name(arms, name.as_str()) {
                        let mut found: Vec<String> = Vec::new();
                        found.push(name.clone());
                        proof {
                            assert(names_of(found@) =~= seq![name@]);
                        }
                        return ExhaustivenessResult::MissingVariants(found);
                    }
                }
            }
            ExhaustivenessResult::MissingVariants(missing_variants(enum_info, arms))
        },
    }
}

/// Every name that `missing_names` gives is named by no arm.
proof fn lemma_missing_uncovered(variants: Seq<(String, Vec<Type>, u32)>, arms: Seq<MatchArm>)
    ensures
        forall|j: int| 0 <= j < missing_names(variants, arms).len() ==> !arms_cover(
            arms,
            #[trigger] missing_names(variants, arms)[j],
        ),
    decreases variants.len(),
{
    if variants.len() > 0 {
        lemma_missing_uncovered(variants.drop_last(), arms);
        let m = missing_names(variants, arms);
        let rest = missing_names(variants.drop_last(), arms);
        assert forall|j: int| 0 <= j < m.len() implies !arms_cover(arms, #[trigger] m[j]) by {
            if j < rest.len() {
                assert(m[j] == rest[j]);
            }
        }
    }
}

/// The names in a report after a `Sat` answer are names of variants that no
/// arm names; with distinct variant names and a discriminant left
/// uncovered there is at least one.
proof fn lemma_sat_missing(witness: Option<i64>, variants: Seq<(String, Vec<Type>, u32)>, arms: Seq<MatchArm>)
    requires
        !all_tags_covered(variants, arms),
    ensures
        forall|j: int| 0 <= j < sat_missing_names(witness, variants, arms).len() ==> is_variant_name(
            variants,
            #[trigger] sat_missing_names(witness, variants, arms)[j],
        ) && !arms_cover(arms, sat_missing_names(witness, variants, arms)[j]),
        variant_names(variants).no_duplicates() ==> sat_missing_names(witness, variants, arms).len() > 0,
{
    lemma_missing_are_variants(variants, arms);
    lemma_missing_uncovered(variants, arms);
    let s = sat_missing_names(witness, variants, arms);
    if witness is Some {
        let d = witness->0 as int;
        lemma_first_with_tag_bound(variants, d);
        if first_with_tag(variants, d) is Some {
            let k = first_with_tag(variants, d)->0;
            if !arms_cover(arms, variants[k].0@) {
                assert(s[0] == variants[k].0@);
                assert(is_variant_name(variants, s[0]));
            }
        }
    }
    if variant_names(variants).no_duplicates() && missing_names(variants, arms).len() == 0 {
        law_exhaustive_by_name_covers_tags(variants, arms);
    }
}

/// Checks with the solver whether the arms of a match cover every
/// discriminant of the enum: it looks for a valid discriminant that no
/// arm admits. A catch-all arm makes the match exhaustive at once; with
/// no arms every variant is missing. When the solver finds a missing
/// discriminant, the variant of the discriminant in its model is reported
/// (or, failing that, the variants no arm names).
pub fn verify_exhaustiveness_z3<'c>(z3_ctx: &'c Context, enum_info: &EnumInfo, arms: &Vec<MatchArm>) -> (r:
    ExhaustivenessResult)
    ensures
        has_catch_all(arms@, enum_info.variants@) ==> r == ExhaustivenessResult::Exhaustive,
        arms@.len() == 0 ==> (r matches ExhaustivenessResult::MissingVariants(v) && names_of(v@) == variant_names(
            enum_info.variants@,
        )),
        r == ExhaustivenessResult::Exhaustive ==> all_tags_covered(enum_info.variants@, arms@),
        r matches ExhaustivenessResult::MissingVariants(v) ==> forall|j: int| 0 <= j < v@.len() ==> is_variant_name(
            enum_info.variants@,
            #[trigger] v@[j]@,
        ),
        r matches ExhaustivenessResult::MissingVariants(v) ==> (arms@.len() > 0 ==> !all_tags_covered(
            enum_info.variants@,
            arms@,
        ) && (forall|j: int| 0 <= j < v@.len() ==> !arms_cover(arms@, #[trigger] v@[j]@)) && (variant_names(
            enum_info.variants@,
        ).no_duplicates() ==> v@.len() > 0)),
        r matches ExhaustivenessResult::Unverifiable(m) ==> m@ == "Z3 timeout during exhaustiveness check"@,
{
    if arms.len() == 0 {
        let names = all_variant_names(enum_info);
        proof {
            assert(names_of(names@).len() == names@.len());
            assert(variant_names(enum_info.variants@).len() == enum_info.variants@.len());
            assert forall|j: int| 0 <= j < names@.len() implies is_variant_name(
                enum_info.variants@,
                #[trigger] names@[j]@,
            ) by {
                assert(names_of(names@)[j] == names@[j]@);
                assert(variant_names(enum_info.variants@)[j] == enum_info.variants@[j].0@);
            }
        }
        return ExhaustivenessResult::MissingVariants(names);
    }
    let discrim = discriminant_const(z3_ctx);
    let uncovered = match exhaustiveness_query(z3_ctx, &discrim, enum_info, arms) {
        Some(q) => q,
        None => {
            proof {
                let i = choose|i: int| 0 <= i < arms@.len() && (#[trigger] pattern_formula(
                    arms@[i].pattern,
                    enum_info.variants@,
                )) is None;
                assert forall|t: int| #[trigger] tag_admitted(arms@, enum_info.variants@, t) by {
                    lemma_pattern_formula(arms@[i].pattern, enum_info.variants@, discriminant_env(t));
                    assert((discriminant_env(t).ints)(discriminant_name()) == t);
                    assert(admits(arms@[i].pattern, enum_info.variants@, t));
                }
            }
            return ExhaustivenessResult::Exhaustive;
        },
    };
    let mut solver = Solver::new(z3_ctx);
    let mut params = Params::new(z3_ctx);
    let timeout = "timeout";
    proof {
        reveal_strlit("timeout");
    }
    params.set_u32(timeout, 100);
    solver.set_params(&params);
    solver.assert_formula(&uncovered);
    let ghost cov = arm_constraints(arms@, enum_info.variants@);
    proof {
        assert(solver.assertions() =~= uncovered_query(enum_info.variants@, cov));
        lemma_arm_constraints(arms@, enum_info.variants@);
        lemma_uncovered_query(enum_info.variants@, arms@, cov);
    }
    let answer = solver.check();
    let witness: Option<i64> = if answer == SatResult::Sat {
        match solver.get_model() {
            Some(model) => match model.eval(&discrim, true) {
                Some(val) => val.as_i64(),
                None => None,
            },
            None => None,
        }
    } else {
        None
    };
    proof {
        if answer == SatResult::Sat {
            assert(!all_tags_covered(enum_info.variants@, arms@));
            lemma_sat_missing(witness, enum_info.variants@, arms@);
        }
    }
    let r = exhaustiveness_outcome(answer, witness, enum_info, arms);
    proof {
        match &r {
            ExhaustivenessResult::MissingVariants(v) => {
                assert forall|j: int| 0 <= j < v@.len() implies is_variant_name(
                    enum_info.variants@,
                    #[trigger] v@[j]@,
                ) && !arms_cover(arms@, v@[j]@) by {
                    assert(names_of(v@)[j] == v@[j]@);
                }
            },
            _ => {},
        }
    }
    r
}

/// Whether a list of names holds `n`.
fn holds_name(names: &Vec<String>, n: &str) -> (r: bool)
    ensures
        r == names_of(names@).contains(n@),
{
    let mut i: usize = 0;
    while i < names.len()
        invariant
            0 <= i <= names@.len(),
            forall|j: int| 0 <= j < i ==> (#[trigger] names@[j])@ != n@,
        decreases names@.len() - i,
    {
        if str_eq(names[i].as_str(), n) {
            proof {
                assert(names_of(names@)[i as int] == n@);
            }
            return true;
        }
        i += 1;
    }
    proof {
        if names_of(names@).contains(n@) {
            let j = choose|j: int| 0 <= j < names_of(names@).len() && names_of(names@)[j] == n@;
            assert(names@[j]@ == n@);
        }
    }
    false
}

/// Adds the variant names a pattern covers to `covered`, once each.
fn collect_variants_from_pattern(pattern: &Pattern, covered: &mut Vec<String>)
    requires
        names_of(old(covered)@).no_duplicates(),
    ensures
        names_of(final(covered)@).no_duplicates(),
        forall|n: Seq<char>| #[trigger] names_of(final(covered)@).contains(n) <==> (names_of(old(covered)@).contains(n)
            || spec_covers(*pattern, n)),
    decreases pattern, 1nat,
{
    match pattern {
        Pattern::Variant { path, .. } => {
            if path.len() > 0 {
                let last = &path[path.len() - 1];
                proof {
                    assert(path@.last() == *last);
                }
                if !holds_name(covered, last.as_str()) {
                    let ghost before = covered@;
                    covered.push(last.clone());
                    proof {
                        let nb = names_of(before);
                        let nc = names_of(covered@);
                        assert(nc =~= nb.push(last@));
                        assert forall|a: int, b: int| 0 <= a < b < nc.len() implies nc[a] != nc[b] by {
                            if b == nb.len() {
                                assert(nc[a] == nb[a]);
                                assert(nb.contains(nb[a]));
                            }
                        }
                        assert forall|n: Seq<char>| #[trigger] nc.contains(n) <==> (nb.contains(n) || n == last@) by {
                            if nc.contains(n) {
                                let k = choose|k: int| 0 <= k < nc.len() && nc[k] == n;
                                if k < nb.len() {
                                    assert(nb[k] == n);
                                }
                            }
                            if nb.contains(n) {
                                let k = choose|k: int| 0 <= k < nb.len() && nb[k] == n;
                                assert(nc[k] == n);
                            }
                            if n == last@ {
                                assert(nc[nb.len() as int] == n);
                            }
                        }
                    }
                }
            }
        },
        Pattern::Or(ps) => {
            proof {
                assert(decreases_to!(*pattern => (*pattern)->Or_0));
                assert(decreases_to!(*ps => ps@));
            }
            collect_from_alternatives(ps, covered);
        },
        _ => {},
    }
}

fn collect_from_alternatives(ps: &Vec<Pattern>, covered: &mut Vec<String>)
    requires
        names_of(old(covered)@).no_duplicates(),
    ensures
        names_of(final(covered)@).no_duplicates(),
        forall|n: Seq<char>| #[trigger] names_of(final(covered)@).contains(n) <==> (names_of(old(covered)@).contains(n)
            || spec_any_covers(ps@, n)),
    decreases ps@, 0nat,
{
    let ghost start = covered@;
    let mut i: usize = 0;
    while i < ps.len()
        invariant
            0 <= i <= ps@.len(),
            names_of(covered@).no_duplicates(),
            forall|n: Seq<char>| #[trigger] names_of(covered@).contains(n) <==> (names_of(start).contains(n)
                || spec_any_covers(ps@.subrange(0, i as int), n)),
        decreases ps@.len() - i,
    {
        proof {
            assert(decreases_to!(ps@ => ps@[i as int]));
            let a = ps@.subrange(0, i as int + 1);
            assert(a.drop_last() =~= ps@.subrange(0, i as int));
        }
        collect_variants_from_pattern(&ps[i], covered);
        i += 1;
    }
    proof {
        assert(ps@.subrange(0, ps@.len() as int) =~= ps@);
    }
}

/// The names of the variants the arms name, each once, in the order
/// they first appear.
pub fn extract_covered_variants(arms: &Vec<MatchArm>) -> (r: Vec<String>)
    ensures
        names_of(r@).no_duplicates(),
        forall|n: Seq<char>| #[trigger] names_of(r@).contains(n) <==> arms_cover(arms@, n),
{
    let mut covered: Vec<String> = Vec::new();
    proof {
        assert(names_of(covered@) =~= Seq::<Seq<char>>::empty());
    }
    let mut i: usize = 0;
    while i < arms.len()
        invariant
            0 <= i <= arms@.len(),
            names_of(covered@).no_duplicates(),
            forall|n: Seq<char>| #[trigger] names_of(covered@).contains(n) <==> exists|j: int|
                0 <= j < i && #[trigger] spec_covers(arms@[j].pattern, n),
        decreases arms@.len() - i,
    {
        let ghost before = covered@;
        collect_variants_from_pattern(&arms[i].pattern, &mut covered);
        proof {
            assert forall|n: Seq<char>| #[trigger] names_of(covered@).contains(n) <==> exists|j: int|
                0 <= j < i + 1 && #[trigger] spec_covers(arms@[j].pattern, n) by {
                if names_of(covered@).contains(n) && !spec_covers(arms@[i as int].pattern, n) {
                    assert(names_of(before).contains(n));
                }
                if exists|j: int| 0 <= j < i + 1 && #[trigger] spec_covers(arms@[j].pattern, n) {
                    let j = choose|j: int| 0 <= j < i + 1 && #[trigger] spec_covers(arms@[j].pattern, n);
                    if j < i {
                        assert(names_of(before).contains(n));
                    }
                }
            }
        }
        i += 1;
    }
    covered
}

// ----------------------------------------------------------------------
// Laws
// ----------------------------------------------------------------------

proof fn lemma_covers_admits(p: Pattern, variants: Seq<(String, Vec<Type>, u32)>, n: Seq<char>, t: u32)
    requires
        spec_covers(p, n),
        tag_of(variants, n) == Some(t),
    ensures
        admits(p, variants, t as int),
    decreases p, 1nat,
{
    match p {
        Pattern::Or(ps) => lemma_any_covers_admits(ps@, variants, n, t),
        _ => {},
    }
}

proof fn lemma_any_covers_admits(ps: Seq<Pattern>, variants: Seq<(String, Vec<Type>, u32)>, n: Seq<char>, t: u32)
    requires
        spec_any_covers(ps, n),
        tag_of(variants, n) == Some(t),
    ensures
        any_admits(ps, variants, t as int),
    decreases ps, 0nat,
{
    if ps.len() > 0 {
        if spec_any_covers(ps.drop_last(), n) {
            lemma_any_covers_admits(ps.drop_last(), variants, n, t);
        } else {
            lemma_covers_admits(ps.last(), variants, n, t);
        }
    }
}

proof fn lemma_matches_all_admits(p: Pattern, variants: Seq<(String, Vec<Type>, u32)>, d: int)
    requires
        spec_matches_all(p),
    ensures
        admits(p, variants, d),
    decreases p, 1nat,
{
    match p {
        Pattern::Or(ps) => lemma_any_matches_all_admits(ps@, variants, d),
        _ => {},
    }
}

proof fn lemma_any_matches_all_admits(ps: Seq<Pattern>, variants: Seq<(String, Vec<Type>, u32)>, d: int)
    requires
        spec_any_matches_all(ps),
    ensures
        any_admits(ps, variants, d),
    decreases ps, 0nat,
{
    if ps.len() > 0 {
        if spec_any_matches_all(ps.drop_last()) {
            lemma_any_matches_all_admits(ps.drop_last(), variants, d);
        } else {
            lemma_matches_all_admits(ps.last(), variants, d);
        }
    }
}

/// With distinct variant names, a variant's name leads to its own tag.
proof fn lemma_tag_of_distinct(variants: Seq<(String, Vec<Type>, u32)>, k: int)
    requires
        variant_names(variants).no_duplicates(),
        0 <= k < variants.len(),
    ensures
        tag_of(variants, variants[k].0@) == Some(variants[k].2),
    decreases variants.len(),
{
    let last = variants.len() - 1;
    let p = variants.drop_last();
    assert(variant_names(p) =~= variant_names(variants).drop_last());
    if k < last {
        lemma_tag_of_distinct(p, k);
        assert(p[k] == variants[k]);
    } else {
        lemma_tag_of_absent(p, variants[k].0@, variants);
    }
}

/// A name that no earlier variant has has no tag among them.
proof fn lemma_tag_of_absent(p: Seq<(String, Vec<Type>, u32)>, n: Seq<char>, variants: Seq<(String, Vec<Type>, u32)>)
    requires
        variant_names(variants).no_duplicates(),
        variants.len() > 0,
        p == variants.drop_last(),
        n == variants.last().0@,
    ensures
        tag_of(p, n) is None,
{
    assert forall|j: int| 0 <= j < p.len() implies p[j].0@ != n by {
        assert(variant_names(variants)[j] == p[j].0@);
        assert(variant_names(variants)[variants.len() - 1] == n);
    }
    lemma_tag_of_none(p, n);
}

proof fn lemma_tag_of_none(p: Seq<(String, Vec<Type>, u32)>, n: Seq<char>)
    requires
        forall|j: int| 0 <= j < p.len() ==> (#[trigger] p[j]).0@ != n,
    ensures
        tag_of(p, n) is None,
    decreases p.len(),
{
    if p.len() > 0 {
        assert forall|j: int| 0 <= j < p.drop_last().len() implies (#[trigger] p.drop_last()[j]).0@ != n by {
            assert(p.drop_last()[j] == p[j]);
        }
        lemma_tag_of_none(p.drop_last(), n);
        assert(p.last() == p[p.len() - 1]);
    }
}

/// With no variant missing by name, every variant is named by some arm.
proof fn lemma_no_missing(variants: Seq<(String, Vec<Type>, u32)>, arms: Seq<MatchArm>)
    requires
        missing_names(variants, arms).len() == 0,
    ensures
        forall|k: int| 0 <= k < variants.len() ==> arms_cover(arms, #[trigger] variants[k].0@),
    decreases variants.len(),
{
    if variants.len() > 0 {
        let p = variants.drop_last();
        lemma_no_missing(p, arms);
        assert forall|k: int| 0 <= k < variants.len() implies arms_cover(arms, #[trigger] variants[k].0@) by {
            if k < variants.len() - 1 {
                assert(p[k] == variants[k]);
            }
        }
    }
}

/// The two checks agree: when the variants have distinct names and the
/// check by name finds the match exhaustive (every variant named, or a
/// catch-all arm), every discriminant is covered too.
pub proof fn law_exhaustive_by_name_covers_tags(variants: Seq<(String, Vec<Type>, u32)>, arms: Seq<MatchArm>)
    requires
        variant_names(variants).no_duplicates(),
        spec_has_wildcard(arms) || missing_names(variants, arms).len() == 0,
    ensures
        all_tags_covered(variants, arms),
{
    if spec_has_wildcard(arms) {
        let i = choose|i: int| 0 <= i < arms.len() && #[trigger] spec_matches_all(arms[i].pattern);
        assert forall|k: int| 0 <= k < variants.len() implies #[trigger] tag_admitted(
            arms,
            variants,
            variants[k].2 as int,
        ) by {
            lemma_matches_all_admits(arms[i].pattern, variants, variants[k].2 as int);
        }
    } else {
        lemma_no_missing(variants, arms);
        assert forall|k: int| 0 <= k < variants.len() implies #[trigger] tag_admitted(
            arms,
            variants,
            variants[k].2 as int,
        ) by {
            assert(arms_cover(arms, variants[k].0@));
            let i = choose|i: int| 0 <= i < arms.len() && #[trigger] spec_covers(arms[i].pattern, variants[k].0@);
            lemma_tag_of_distinct(variants, k);
            lemma_covers_admits(arms[i].pattern, variants, variants[k].0@, variants[k].2);
        }
    }
}

/// A match on an enum, or on a named generic type whose name mentions
/// `Result` or `Option`, is checked against the enum of that name.
pub proof fn law_result_and_option_are_enums(n: Seq<char>, args: Seq<SpecType>)
    ensures
        scrutinee_enum(SpecType::Enum(n)) == Some(n),
        contains_seq(n, "Result"@) ==> scrutinee_enum(SpecType::Concrete(n, args)) == Some(n),
        contains_seq(n, "Option"@) ==> scrutinee_enum(SpecType::Concrete(n, args)) == Some(n),
{
}

/// No variant is missing by name exactly when every variant is named by
/// some arm.
pub proof fn law_complete_by_name(variants: Seq<(String, Vec<Type>, u32)>, arms: Seq<MatchArm>)
    ensures
        missing_names(variants, arms).len() == 0 <==> forall|k: int| 0 <= k < variants.len() ==> arms_cover(
            arms,
            #[trigger] variants[k].0@,
        ),
    decreases variants.len(),
{
    if missing_names(variants, arms).len() == 0 {
        lemma_no_missing(variants, arms);
    }
    if variants.len() > 0 {
        let p = variants.drop_last();
        law_complete_by_name(p, arms);
        if forall|k: int| 0 <= k < variants.len() ==> arms_cover(arms, #[trigger] variants[k].0@) {
            assert forall|k: int| 0 <= k < p.len() implies arms_cover(arms, #[trigger] p[k].0@) by {
                assert(p[k] == variants[k]);
            }
            assert(arms_cover(arms, variants[variants.len() - 1].0@));
        }
    }
}

} // verus!
