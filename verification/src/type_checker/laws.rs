//! What the exhaustiveness check guarantees of every `match`.

use crate::type_checker::exhaustive_pattern_match::{
    args_for, catch_all_extension, dedup, ends_with_catch_all, handed_down, has_early_catch_all,
    lemma_dedup, lemma_nesting, lemma_run_details_bounded, nesting, no_arg_names, seq_bounded,
    spec_check_exhaustive, spec_check_match, spec_details, spec_run_details, specific_details,
    unmatched, with_arg_names, case_names_where, CheckOutcome, MatchFailure, ScrutineeType,
};
use crate::wit_type::WitType;
use crate::type_checker::pattern::{
    catch_all_of, constructor_of, is_direct_catch_all, pattern_catch_all, pattern_constructor,
    ArmPattern, PView,
};
use vstd::prelude::*;

verus! {

/// The arms end with a catch-all, or some earlier arm already catches everything.
pub open spec fn tail_caught(ps: Seq<PView>) -> bool {
    ends_with_catch_all(ps) || has_early_catch_all(ps)
}

/// A view that is itself a wildcard or an identifier catches everything as itself.
proof fn lemma_direct_catch_all(v: PView)
    requires
        is_direct_catch_all(v),
    ensures
        catch_all_of(v) == Some(v),
{
}

/// What a view catches everything as catches everything as itself.
proof fn lemma_catch_all_idempotent(v: PView)
    ensures
        catch_all_of(v) matches Some(c) ==> catch_all_of(c) == Some(c),
{
    if let PView::Node(p) = v {
        lemma_pattern_catch_all_idempotent(p);
    }
}

proof fn lemma_pattern_catch_all_idempotent(p: crate::type_checker::pattern::ArmPattern)
    ensures
        crate::type_checker::pattern::pattern_catch_all(p) matches Some(c) ==> catch_all_of(c) == Some(c),
    decreases p,
{
    if let crate::type_checker::pattern::ArmPattern::As(_, inner) = p {
        lemma_pattern_catch_all_idempotent(*inner);
    }
}

/// Arms whose tail is caught are never found to miss constructors by one
/// check, and every argument list they hand down has its tail caught too.
proof fn lemma_check_exhaustive_tail_caught(ps: Seq<PView>, wa: Seq<Seq<char>>, na: Seq<Seq<char>>)
    requires
        tail_caught(ps),
    ensures
        !(spec_check_exhaustive(ps, wa, na) is Missing),
        spec_check_exhaustive(ps, wa, na) matches CheckOutcome::Covered(m) ==> forall|k: int|
            0 <= k < m.len() ==> tail_caught(#[trigger] m[k].1),
{
    if !has_early_catch_all(ps) {
        let rw = with_arg_names(ps, wa);
        let m = spec_check_exhaustive(ps, wa, na)->Covered_0;
        assert forall|k: int| 0 <= k < m.len() implies tail_caught(#[trigger] m[k].1) by {
            let key = dedup(rw)[k];
            let a = args_for(ps, wa, key);
            let ext = catch_all_extension(ps, a);
            let l = a + ext;
            assert(m[k].1 == l);
            if ext.len() > 0 {
                lemma_catch_all_idempotent(ps.last());
                assert(l.last() == ext[0]);
            } else {
                let j = choose|j: int| 0 <= j < a.len() && is_direct_catch_all(#[trigger] a[j]);
                assert(l[j] == a[j]);
                lemma_direct_catch_all(a[j]);
                if j < l.len() - 1 {
                    assert(has_early_catch_all(l));
                } else {
                    assert(l.last() == a[j]);
                }
            }
        }
    }
}

proof fn lemma_run_details_tail_caught(ps: Seq<PView>, ds: Seq<(Seq<Seq<char>>, Seq<Seq<char>>)>)
    requires
        tail_caught(ps),
    ensures
        !(spec_run_details(ps, ds) is Missing),
        spec_run_details(ps, ds) matches CheckOutcome::Covered(m) ==> forall|k: int|
            0 <= k < m.len() ==> tail_caught(#[trigger] m[k].1),
    decreases ds.len(),
{
    if ds.len() > 0 {
        lemma_run_details_tail_caught(ps, ds.drop_last());
        lemma_check_exhaustive_tail_caught(ps, ds.last().0, ds.last().1);
    }
}

/// A `match` whose last arm catches everything (a wildcard or a plain
/// identifier, possibly bound with `as`), or in which some earlier arm does,
/// is never reported as missing constructors, at any depth of nesting.
pub proof fn lemma_final_catch_all_never_missing(
    ps: Seq<PView>,
    scrutinee: Option<ScrutineeType>,
    fallback: Seq<(Seq<Seq<char>>, Seq<Seq<char>>)>,
    k: int,
)
    requires
        tail_caught(ps),
    ensures
        !(spec_check_match(ps, scrutinee, fallback, k) matches Err(MatchFailure::Missing(_))),
    decreases nesting(ps), handed_down(ps, scrutinee, fallback) - k,
{
    let ds = spec_details(scrutinee, fallback);
    lemma_run_details_tail_caught(ps, ds);
    if let CheckOutcome::Covered(m) = spec_run_details(ps, ds) {
        if 0 <= k < m.len() {
            lemma_nesting(ps);
            lemma_run_details_bounded(ps, ds, nesting(ps));
            lemma_nesting(m[k].1);
            lemma_final_catch_all_never_missing(m[k].1, None, fallback, 0);
            lemma_final_catch_all_never_missing(ps, scrutinee, fallback, k + 1);
        }
    }
}

/// An arm that follows an arm catching everything makes the `match` fail
/// as dead code, whenever there is some constructor to check the arms
/// against: the first catch-all is reported with the arm right after it.
pub proof fn lemma_arm_after_catch_all_is_dead_code(
    ps: Seq<PView>,
    scrutinee: Option<ScrutineeType>,
    fallback: Seq<(Seq<Seq<char>>, Seq<Seq<char>>)>,
)
    requires
        has_early_catch_all(ps),
        spec_details(scrutinee, fallback).len() > 0,
    ensures
        spec_check_match(ps, scrutinee, fallback, 0) matches Err(MatchFailure::DeadCode { .. }),
{
    lemma_run_details_dead(ps, spec_details(scrutinee, fallback));
}

proof fn lemma_run_details_dead(ps: Seq<PView>, ds: Seq<(Seq<Seq<char>>, Seq<Seq<char>>)>)
    requires
        has_early_catch_all(ps),
        ds.len() > 0,
    ensures
        spec_run_details(ps, ds) is DeadCode,
    decreases ds.len(),
{
    if ds.len() > 1 {
        lemma_run_details_dead(ps, ds.drop_last());
    } else {
        assert(spec_run_details(ps, ds.drop_last()) == CheckOutcome::Covered(Seq::<(Seq<char>, Seq<PView>)>::empty()));
    }
}

/// A pattern that names a constructor never catches everything.
proof fn lemma_constructor_not_catch_all(v: PView)
    ensures
        constructor_of(v) is Some ==> catch_all_of(v) is None,
{
    if let PView::Node(p) = v {
        lemma_pattern_constructor_not_catch_all(p);
    }
}

proof fn lemma_pattern_constructor_not_catch_all(p: ArmPattern)
    ensures
        pattern_constructor(p) is Some ==> pattern_catch_all(p) is None,
    decreases p,
{
    if let ArmPattern::As(_, inner) = p {
        lemma_pattern_constructor_not_catch_all(*inner);
    }
}

/// The name of the constructor a view names (empty when it names none).
pub open spec fn constructor_name(v: PView) -> Seq<char> {
    match constructor_of(v) {
        Some(c) => c.0,
        None => seq![],
    }
}

/// `ps[i]` names the constructor `k`.
pub open spec fn names_constructor(ps: Seq<PView>, i: int, k: Seq<char>) -> bool {
    constructor_of(ps[i]) matches Some(c) && c.0 == k
}

/// The arms of a flat match over constructors `with_arg` (taking an
/// argument) and `no_arg` (taking none), neither list sharing a name with the
/// other: every arm names one of these constructors; an arm naming a
/// constructor of `with_arg` has at most one argument pattern, which names no
/// constructor itself, and is the only arm naming it.
pub open spec fn flat_arms(ps: Seq<PView>, with_arg: Seq<Seq<char>>, no_arg: Seq<Seq<char>>) -> bool {
    &&& forall|k: Seq<char>| !(with_arg.contains(k) && no_arg.contains(k))
    &&& forall|i: int| 0 <= i < ps.len() ==> ((#[trigger] constructor_of(ps[i])) matches Some(c)
        && (with_arg.contains(c.0) || no_arg.contains(c.0))
        && (with_arg.contains(c.0) ==> c.1.len() <= 1
            && forall|j: int| 0 <= j < c.1.len() ==> (#[trigger] constructor_of(c.1[j])) is None))
    &&& forall|i: int, j: int| 0 <= i < ps.len() && 0 <= j < ps.len() && i != j
        && #[trigger] constructor_name(ps[i]) == #[trigger] constructor_name(ps[j])
        ==> !with_arg.contains(constructor_name(ps[i]))
}

/// Every constructor of the two lists is named by some arm.
pub open spec fn names_all(ps: Seq<PView>, with_arg: Seq<Seq<char>>, no_arg: Seq<Seq<char>>) -> bool {
    &&& forall|k: Seq<char>| with_arg.contains(k) ==> exists|i: int| 0 <= i < ps.len() && #[trigger] names_constructor(ps, i, k)
    &&& forall|k: Seq<char>| no_arg.contains(k) ==> exists|i: int| 0 <= i < ps.len() && #[trigger] names_constructor(ps, i, k)
}

/// A constructor of `with_arg` that an arm names is collected.
proof fn lemma_with_arg_names_named(ps: Seq<PView>, with_arg: Seq<Seq<char>>, k: Seq<char>, i: int)
    requires
        0 <= i < ps.len(),
        names_constructor(ps, i, k),
        with_arg.contains(k),
    ensures
        with_arg_names(ps, with_arg).contains(k),
    decreases ps.len(),
{
    let rest = with_arg_names(ps.drop_last(), with_arg);
    if i == ps.len() - 1 {
        let tail = with_arg_names(ps, with_arg);
        assert(tail == rest + seq![k]);
        assert(tail[rest.len() as int] == k);
    } else {
        assert(ps.drop_last()[i] == ps[i]);
        lemma_with_arg_names_named(ps.drop_last(), with_arg, k, i);
        let j = choose|j: int| 0 <= j < rest.len() && rest[j] == k;
        let tail = with_arg_names(ps, with_arg);
        assert(tail[j] == rest[j]);
    }
}

/// A constructor of `no_arg`, not among `with_arg`, that an arm names is collected.
proof fn lemma_no_arg_names_named(
    ps: Seq<PView>,
    with_arg: Seq<Seq<char>>,
    no_arg: Seq<Seq<char>>,
    k: Seq<char>,
    i: int,
)
    requires
        0 <= i < ps.len(),
        names_constructor(ps, i, k),
        no_arg.contains(k),
        !with_arg.contains(k),
    ensures
        no_arg_names(ps, with_arg, no_arg).contains(k),
    decreases ps.len(),
{
    let rest = no_arg_names(ps.drop_last(), with_arg, no_arg);
    if i == ps.len() - 1 {
        let tail = no_arg_names(ps, with_arg, no_arg);
        assert(tail == rest + seq![k]);
        assert(tail[rest.len() as int] == k);
    } else {
        assert(ps.drop_last()[i] == ps[i]);
        lemma_no_arg_names_named(ps.drop_last(), with_arg, no_arg, k, i);
        let j = choose|j: int| 0 <= j < rest.len() && rest[j] == k;
        let tail = no_arg_names(ps, with_arg, no_arg);
        assert(tail[j] == rest[j]);
    }
}

/// No argument patterns are collected for a constructor that no arm names.
proof fn lemma_args_for_not_named(ps: Seq<PView>, with_arg: Seq<Seq<char>>, k: Seq<char>)
    requires
        forall|i: int| 0 <= i < ps.len() ==> !#[trigger] names_constructor(ps, i, k),
    ensures
        args_for(ps, with_arg, k) == Seq::<PView>::empty(),
    decreases ps.len(),
{
    if ps.len() > 0 {
        let pre = ps.drop_last();
        assert forall|i: int| 0 <= i < pre.len() implies !#[trigger] names_constructor(pre, i, k) by {
            assert(pre[i] == ps[i]);
            assert(!names_constructor(ps, i, k));
        }
        lemma_args_for_not_named(pre, with_arg, k);
        assert(!names_constructor(ps, ps.len() - 1, k));
        assert(args_for(ps, with_arg, k) =~= Seq::<PView>::empty());
    }
}

/// The argument patterns collected from flat arms for a constructor are at
/// most one pattern, naming no constructor.
proof fn lemma_args_for_flat(ps: Seq<PView>, with_arg: Seq<Seq<char>>, no_arg: Seq<Seq<char>>, k: Seq<char>)
    requires
        flat_arms(ps, with_arg, no_arg),
    ensures
        args_for(ps, with_arg, k).len() <= 1,
        forall|j: int| 0 <= j < args_for(ps, with_arg, k).len() ==>
            (#[trigger] constructor_of(args_for(ps, with_arg, k)[j])) is None,
    decreases ps.len(),
{
    if ps.len() > 0 {
        let n = ps.len() - 1;
        let pre = ps.drop_last();
        assert(flat_arms(pre, with_arg, no_arg)) by {
            assert forall|i: int| 0 <= i < pre.len() implies #[trigger] pre[i] == ps[i] by {}
            assert forall|i: int| 0 <= i < pre.len() implies ((#[trigger] constructor_of(pre[i])) matches Some(c)
                && (with_arg.contains(c.0) || no_arg.contains(c.0))
                && (with_arg.contains(c.0) ==> c.1.len() <= 1
                    && forall|j: int| 0 <= j < c.1.len() ==> (#[trigger] constructor_of(c.1[j])) is None)) by {
                assert(pre[i] == ps[i]);
                assert(constructor_of(ps[i]) == constructor_of(pre[i]));
            }
            assert forall|i: int, j: int| 0 <= i < pre.len() && 0 <= j < pre.len() && i != j
                && #[trigger] constructor_name(pre[i]) == #[trigger] constructor_name(pre[j])
                implies !with_arg.contains(constructor_name(pre[i])) by {
                assert(pre[i] == ps[i]);
                assert(pre[j] == ps[j]);
                assert(constructor_name(ps[i]) == constructor_name(pre[i]));
                assert(constructor_name(ps[j]) == constructor_name(pre[j]));
            }
        }
        let c = constructor_of(ps[n])->0;
        assert(constructor_of(ps[n]) is Some);
        if c.0 == k && with_arg.contains(k) {
            assert forall|i: int| 0 <= i < pre.len() implies !#[trigger] names_constructor(pre, i, k) by {
                assert(pre[i] == ps[i]);
                if names_constructor(pre, i, k) {
                    assert(constructor_of(ps[i]) is Some);
                    assert(constructor_name(ps[i]) == constructor_name(ps[n]));
                }
            }
            lemma_args_for_not_named(pre, with_arg, k);
            assert(args_for(ps, with_arg, k) =~= c.1);
        } else {
            lemma_args_for_flat(pre, with_arg, no_arg, k);
            assert(args_for(ps, with_arg, k) =~= args_for(pre, with_arg, k));
        }
    }
}

/// Argument patterns of a flat arm pass every single check: none of them
/// names a constructor, and there is at most one of them.
proof fn lemma_flat_args_covered(args: Seq<PView>, wa: Seq<Seq<char>>, na: Seq<Seq<char>>)
    requires
        args.len() <= 1,
        forall|j: int| 0 <= j < args.len() ==> (#[trigger] constructor_of(args[j])) is None,
    ensures
        spec_check_exhaustive(args, wa, na) == CheckOutcome::Covered(Seq::<(Seq<char>, Seq<PView>)>::empty()),
{
    assert(!has_early_catch_all(args));
    if args.len() == 1 {
        let e = Seq::<PView>::empty();
        assert(args.drop_last() =~= e);
        assert(with_arg_names(e, wa) == Seq::<Seq<char>>::empty());
        assert(no_arg_names(e, wa, na) == Seq::<Seq<char>>::empty());
        assert(constructor_of(args[0]) is None);
        assert(args.last() == args[0]);
    }
    assert(with_arg_names(args, wa) =~= Seq::<Seq<char>>::empty());
    assert(no_arg_names(args, wa, na) =~= Seq::<Seq<char>>::empty());
    assert(dedup(Seq::<Seq<char>>::empty()) =~= Seq::<Seq<char>>::empty());
    let m = dedup(with_arg_names(args, wa)).map_values(
        |k: Seq<char>| (k, args_for(args, wa, k) + catch_all_extension(args, args_for(args, wa, k))),
    );
    assert(m =~= Seq::<(Seq<char>, Seq<PView>)>::empty());
}

proof fn lemma_flat_args_run_covered(args: Seq<PView>, ds: Seq<(Seq<Seq<char>>, Seq<Seq<char>>)>)
    requires
        args.len() <= 1,
        forall|j: int| 0 <= j < args.len() ==> (#[trigger] constructor_of(args[j])) is None,
    ensures
        spec_run_details(args, ds) == CheckOutcome::Covered(Seq::<(Seq<char>, Seq<PView>)>::empty()),
    decreases ds.len(),
{
    if ds.len() > 0 {
        lemma_flat_args_run_covered(args, ds.drop_last());
        lemma_flat_args_covered(args, ds.last().0, ds.last().1);
    }
}

/// The constructors handed down from the `k`-th on all pass, when each of
/// their argument lists does.
proof fn lemma_check_match_from(
    ps: Seq<PView>,
    scrutinee: Option<ScrutineeType>,
    fallback: Seq<(Seq<Seq<char>>, Seq<Seq<char>>)>,
    m: Seq<(Seq<char>, Seq<PView>)>,
    k: int,
)
    requires
        spec_run_details(ps, spec_details(scrutinee, fallback)) == CheckOutcome::Covered(m),
        0 <= k,
        forall|j: int| 0 <= j < m.len() ==> spec_check_match(#[trigger] m[j].1, None, fallback, 0) == Ok::<(), MatchFailure>(()),
    ensures
        spec_check_match(ps, scrutinee, fallback, k) == Ok::<(), MatchFailure>(()),
    decreases m.len() - k,
{
    if k < m.len() {
        assert(spec_check_match(m[k].1, None, fallback, 0) == Ok::<(), MatchFailure>(()));
        lemma_check_match_from(ps, scrutinee, fallback, m, k + 1);
    }
}

/// A match on an option, a result, a variant or an enum passes when its arms
/// name every constructor of the type, each constructor that takes an
/// argument exactly once with at most one argument pattern that names no
/// constructor (a wildcard, an identifier, a tuple, ...), whatever the
/// fallback constructors and in whatever order the arms come.
pub proof fn lemma_complete_flat_match_passes(
    ps: Seq<PView>,
    scrutinee: ScrutineeType,
    fallback: Seq<(Seq<Seq<char>>, Seq<Seq<char>>)>,
)
    requires
        specific_details(Some(scrutinee)) matches Some(d) && flat_arms(ps, d.0, d.1) && names_all(ps, d.0, d.1),
    ensures
        spec_check_match(ps, Some(scrutinee), fallback, 0) == Ok::<(), MatchFailure>(()),
{
    let d = specific_details(Some(scrutinee))->0;
    let (wa, na) = d;
    assert(spec_details(Some(scrutinee), fallback) == seq![d]);
    let e = Seq::<(Seq<Seq<char>>, Seq<Seq<char>>)>::empty();
    assert(spec_run_details(ps, e) == CheckOutcome::Covered(Seq::<(Seq<char>, Seq<PView>)>::empty()));
    assert(seq![d].drop_last() =~= e);
    assert(spec_run_details(ps, seq![d]) == spec_check_exhaustive(ps, wa, na));
    assert(!has_early_catch_all(ps)) by {
        assert forall|i: int| 0 <= i < ps.len() implies (#[trigger] catch_all_of(ps[i])) is None by {
            lemma_constructor_not_catch_all(ps[i]);
        }
    }
    if ps.len() > 0 {
        lemma_constructor_not_catch_all(ps.last());
        assert(constructor_of(ps[ps.len() - 1]) is Some);
    }
    assert(!ends_with_catch_all(ps));
    let rw = with_arg_names(ps, wa);
    let rn = no_arg_names(ps, wa, na);
    assert forall|k: Seq<char>| wa.contains(k) implies rw.contains(k) by {
        let i = choose|i: int| 0 <= i < ps.len() && #[trigger] names_constructor(ps, i, k);
        lemma_with_arg_names_named(ps, wa, k, i);
    }
    assert forall|k: Seq<char>| na.contains(k) implies rn.contains(k) by {
        let i = choose|i: int| 0 <= i < ps.len() && #[trigger] names_constructor(ps, i, k);
        lemma_no_arg_names_named(ps, wa, na, k, i);
    }
    let m = dedup(rw).map_values(
        |k: Seq<char>| (k, args_for(ps, wa, k) + catch_all_extension(ps, args_for(ps, wa, k))),
    );
    assert(spec_check_exhaustive(ps, wa, na) == CheckOutcome::Covered(m));
    assert forall|j: int| 0 <= j < m.len() implies spec_check_match(#[trigger] m[j].1, None, fallback, 0)
        == Ok::<(), MatchFailure>(()) by {
        let key = dedup(rw)[j];
        let a = args_for(ps, wa, key);
        assert(catch_all_extension(ps, a) == Seq::<PView>::empty());
        assert(m[j].1 =~= a);
        lemma_args_for_flat(ps, wa, na, key);
        lemma_flat_args_run_covered(a, spec_details(None, fallback));
    }
    lemma_check_match_from(ps, Some(scrutinee), fallback, m, 0);
}

/// `k` is a constructor of the scrutinee's type.
pub open spec fn is_constructor_of(scrutinee: ScrutineeType, k: Seq<char>) -> bool {
    match specific_details(Some(scrutinee)) {
        Some(d) => d.0.contains(k) || d.1.contains(k),
        None => false,
    }
}

/// A name collected by `with_arg_names` is among `with_arg` and named by some arm.
proof fn lemma_with_arg_names_sound(ps: Seq<PView>, with_arg: Seq<Seq<char>>, k: Seq<char>)
    requires
        with_arg_names(ps, with_arg).contains(k),
    ensures
        with_arg.contains(k),
        exists|i: int| 0 <= i < ps.len() && #[trigger] names_constructor(ps, i, k),
    decreases ps.len(),
{
    let pre = ps.drop_last();
    let rest = with_arg_names(pre, with_arg);
    let all = with_arg_names(ps, with_arg);
    let j = choose|j: int| 0 <= j < all.len() && all[j] == k;
    if j < rest.len() {
        assert(all[j] == rest[j]);
        assert(rest.contains(k));
        lemma_with_arg_names_sound(pre, with_arg, k);
        let i = choose|i: int| 0 <= i < pre.len() && #[trigger] names_constructor(pre, i, k);
        assert(pre[i] == ps[i]);
        assert(names_constructor(ps, i, k));
    } else {
        assert(names_constructor(ps, ps.len() - 1, k));
    }
}

/// A name collected by `no_arg_names` is among `no_arg`, not among
/// `with_arg`, and named by some arm.
proof fn lemma_no_arg_names_sound(ps: Seq<PView>, with_arg: Seq<Seq<char>>, no_arg: Seq<Seq<char>>, k: Seq<char>)
    requires
        no_arg_names(ps, with_arg, no_arg).contains(k),
    ensures
        no_arg.contains(k),
        !with_arg.contains(k),
        exists|i: int| 0 <= i < ps.len() && #[trigger] names_constructor(ps, i, k),
    decreases ps.len(),
{
    let pre = ps.drop_last();
    let rest = no_arg_names(pre, with_arg, no_arg);
    let all = no_arg_names(ps, with_arg, no_arg);
    let j = choose|j: int| 0 <= j < all.len() && all[j] == k;
    if j < rest.len() {
        assert(all[j] == rest[j]);
        assert(rest.contains(k));
        lemma_no_arg_names_sound(pre, with_arg, no_arg, k);
        let i = choose|i: int| 0 <= i < pre.len() && #[trigger] names_constructor(pre, i, k);
        assert(pre[i] == ps[i]);
        assert(names_constructor(ps, i, k));
    } else {
        assert(names_constructor(ps, ps.len() - 1, k));
    }
}

/// The keys that are not matched are exactly the keys outside `matched`.
proof fn lemma_unmatched_contains(keys: Seq<Seq<char>>, matched: Seq<Seq<char>>, k: Seq<char>)
    ensures
        unmatched(keys, matched).contains(k) <==> keys.contains(k) && !matched.contains(k),
    decreases keys.len(),
{
    if keys.len() > 0 {
        let pre = keys.drop_last();
        let rest = unmatched(pre, matched);
        let all = unmatched(keys, matched);
        lemma_unmatched_contains(pre, matched, k);
        if all.contains(k) {
            let j = choose|j: int| 0 <= j < all.len() && all[j] == k;
            if j < rest.len() {
                assert(all[j] == rest[j]);
                assert(rest.contains(k));
                let i = choose|i: int| 0 <= i < pre.len() && pre[i] == k;
                assert(keys[i] == k);
            } else {
                assert(keys[keys.len() - 1] == k);
            }
        }
        if keys.contains(k) && !matched.contains(k) {
            let i = choose|i: int| 0 <= i < keys.len() && keys[i] == k;
            if i < keys.len() - 1 {
                assert(pre[i] == k);
                let j = choose|j: int| 0 <= j < rest.len() && rest[j] == k;
                assert(all[j] == rest[j]);
            } else {
                assert(all[rest.len() as int] == k);
            }
        }
    }
}

/// A match on an option, a result, a variant or an enum in which no arm
/// catches everything, some arm names a constructor of the type and some
/// constructor is named by no arm, fails as missing exactly the constructors
/// of the type that no arm names.
pub proof fn lemma_missing_are_exactly_unnamed(
    ps: Seq<PView>,
    scrutinee: ScrutineeType,
    fallback: Seq<(Seq<Seq<char>>, Seq<Seq<char>>)>,
)
    requires
        specific_details(Some(scrutinee)) matches Some(d) && (forall|k: Seq<char>| !(d.0.contains(k) && d.1.contains(k)))
            && (exists|i: int, k: Seq<char>| 0 <= i < ps.len() && (d.0.contains(k) || d.1.contains(k))
                && #[trigger] names_constructor(ps, i, k))
            && (exists|k: Seq<char>| (d.0.contains(k) || d.1.contains(k))
                && forall|i: int| 0 <= i < ps.len() ==> !#[trigger] names_constructor(ps, i, k)),
        forall|i: int| 0 <= i < ps.len() ==> (#[trigger] catch_all_of(ps[i])) is None,
    ensures
        spec_check_match(ps, Some(scrutinee), fallback, 0) matches Err(MatchFailure::Missing(ms)) && forall|k: Seq<char>|
            ms.contains(k) <==> is_constructor_of(scrutinee, k)
                && forall|i: int| 0 <= i < ps.len() ==> !#[trigger] names_constructor(ps, i, k),
{
    let d = specific_details(Some(scrutinee))->0;
    let (wa, na) = d;
    assert(spec_details(Some(scrutinee), fallback) == seq![d]);
    let e = Seq::<(Seq<Seq<char>>, Seq<Seq<char>>)>::empty();
    assert(spec_run_details(ps, e) == CheckOutcome::Covered(Seq::<(Seq<char>, Seq<PView>)>::empty()));
    assert(seq![d].drop_last() =~= e);
    assert(spec_run_details(ps, seq![d]) == spec_check_exhaustive(ps, wa, na));
    assert(!has_early_catch_all(ps));
    if ps.len() > 0 {
        assert(catch_all_of(ps[ps.len() - 1]) is None);
    }
    assert(!ends_with_catch_all(ps));
    let rw = with_arg_names(ps, wa);
    let rn = no_arg_names(ps, wa, na);
    let (i0, k0) = choose|i: int, k: Seq<char>| 0 <= i < ps.len() && (wa.contains(k) || na.contains(k))
        && #[trigger] names_constructor(ps, i, k);
    if wa.contains(k0) {
        lemma_with_arg_names_named(ps, wa, k0, i0);
    } else {
        lemma_no_arg_names_named(ps, wa, na, k0, i0);
    }
    assert(rw.len() > 0 || rn.len() > 0);
    let k1 = choose|k: Seq<char>| (wa.contains(k) || na.contains(k))
        && forall|i: int| 0 <= i < ps.len() ==> !#[trigger] names_constructor(ps, i, k);
    if wa.contains(k1) {
        if rw.contains(k1) {
            lemma_with_arg_names_sound(ps, wa, k1);
        }
    } else {
        if rn.contains(k1) {
            lemma_no_arg_names_sound(ps, wa, na, k1);
        }
    }
    let ms = unmatched(dedup(wa), rw) + unmatched(dedup(na), rn);
    assert(spec_check_exhaustive(ps, wa, na) == CheckOutcome::Missing(ms));
    assert forall|k: Seq<char>| ms.contains(k) <==> (wa.contains(k) || na.contains(k))
        && forall|i: int| 0 <= i < ps.len() ==> !#[trigger] names_constructor(ps, i, k) by {
        let u1 = unmatched(dedup(wa), rw);
        let u2 = unmatched(dedup(na), rn);
        lemma_unmatched_contains(dedup(wa), rw, k);
        lemma_unmatched_contains(dedup(na), rn, k);
        lemma_dedup(wa);
        lemma_dedup(na);
        if ms.contains(k) {
            let j = choose|j: int| 0 <= j < ms.len() && ms[j] == k;
            if j < u1.len() {
                assert(u1[j] == k);
            } else {
                assert(u2[j - u1.len()] == k);
            }
        }
        if u1.contains(k) {
            let j = choose|j: int| 0 <= j < u1.len() && u1[j] == k;
            assert(ms[j] == k);
        }
        if u2.contains(k) {
            let j = choose|j: int| 0 <= j < u2.len() && u2[j] == k;
            assert(ms[u1.len() + j] == k);
        }
        if exists|i: int| 0 <= i < ps.len() && #[trigger] names_constructor(ps, i, k) {
            let i = choose|i: int| 0 <= i < ps.len() && #[trigger] names_constructor(ps, i, k);
            if wa.contains(k) {
                lemma_with_arg_names_named(ps, wa, k, i);
            }
            if na.contains(k) && !wa.contains(k) {
                lemma_no_arg_names_named(ps, wa, na, k, i);
            }
        } else {
            if rw.contains(k) {
                lemma_with_arg_names_sound(ps, wa, k);
            }
            if rn.contains(k) {
                lemma_no_arg_names_sound(ps, wa, na, k);
            }
        }
    }
}

/// The argument patterns of the constructor a view names (none when it names none).
pub open spec fn constructor_args(v: PView) -> Seq<PView> {
    match constructor_of(v) {
        Some(c) => c.1,
        None => seq![],
    }
}

/// A case that carries a payload is among the names of the payload cases.
proof fn lemma_payload_case_named(cases: Seq<(String, Option<WitType>)>, i: int)
    requires
        0 <= i < cases.len(),
        cases[i].1 is Some,
    ensures
        case_names_where(cases, true).contains(cases[i].0@),
    decreases cases.len(),
{
    let pre = cases.drop_last();
    let rest = case_names_where(pre, true);
    let all = case_names_where(cases, true);
    if i == cases.len() - 1 {
        assert(all[rest.len() as int] == cases[i].0@);
    } else {
        assert(pre[i] == cases[i]);
        lemma_payload_case_named(pre, i);
        let q = choose|q: int| 0 <= q < rest.len() && rest[q] == cases[i].0@;
        assert(all[q] == rest[q]);
    }
}

/// Every argument pattern of an arm naming a constructor that takes an
/// argument is among the patterns collected for that constructor.
proof fn lemma_args_for_includes(ps: Seq<PView>, wa: Seq<Seq<char>>, name: Seq<char>, j: int, p: int)
    requires
        wa.contains(name),
        0 <= j < ps.len(),
        constructor_of(ps[j]) matches Some(c) && c.0 == name && 0 <= p < c.1.len(),
    ensures
        exists|q: int| 0 <= q < args_for(ps, wa, name).len()
            && args_for(ps, wa, name)[q] == constructor_args(ps[j])[p],
    decreases ps.len(),
{
    let pre = ps.drop_last();
    let rest = args_for(pre, wa, name);
    let all = args_for(ps, wa, name);
    let c = constructor_of(ps[j])->0;
    if j == ps.len() - 1 {
        assert(all == rest + c.1);
        assert(all[rest.len() + p] == c.1[p]);
    } else {
        assert(pre[j] == ps[j]);
        lemma_args_for_includes(pre, wa, name, j, p);
        let q = choose|q: int| 0 <= q < rest.len() && rest[q] == c.1[p];
        assert(all[q] == rest[q]);
    }
}

/// When an arm naming a constructor that takes an argument has a catch-all
/// argument, and a later arm names the same constructor with some argument,
/// the collected argument patterns hold a catch-all before their last one.
proof fn lemma_args_for_early_catch_all(
    ps: Seq<PView>,
    wa: Seq<Seq<char>>,
    name: Seq<char>,
    j: int,
    k: int,
    p: int,
)
    requires
        wa.contains(name),
        0 <= j < k < ps.len(),
        constructor_of(ps[j]) matches Some(c) && c.0 == name && 0 <= p < c.1.len() && catch_all_of(c.1[p]) is Some,
        constructor_of(ps[k]) matches Some(c) && c.0 == name && c.1.len() > 0,
    ensures
        has_early_catch_all(args_for(ps, wa, name)),
    decreases ps.len(),
{
    let pre = ps.drop_last();
    let rest = args_for(pre, wa, name);
    let all = args_for(ps, wa, name);
    assert(pre[j] == ps[j]);
    if k == ps.len() - 1 {
        let ck = constructor_of(ps[k])->0;
        lemma_args_for_includes(pre, wa, name, j, p);
        let q = choose|q: int| 0 <= q < rest.len() && rest[q] == constructor_args(pre[j])[p];
        assert(all == rest + ck.1);
        assert(all[q] == rest[q]);
        assert(catch_all_of(all[q]) is Some);
        assert(q < all.len() - 1);
    } else {
        assert(pre[k] == ps[k]);
        lemma_args_for_early_catch_all(pre, wa, name, j, k, p);
        let q = choose|q: int| 0 <= q < rest.len() - 1 && (#[trigger] catch_all_of(rest[q])) is Some;
        assert(all.len() >= rest.len()) by {
            assert(all == rest + (all.subrange(rest.len() as int, all.len() as int)));
        }
        assert(all[q] == rest[q]);
        assert(catch_all_of(all[q]) is Some);
    }
}

/// A catch-all before the last pattern stays one when patterns are appended.
proof fn lemma_early_catch_all_extend(l: Seq<PView>, e: Seq<PView>)
    requires
        has_early_catch_all(l),
    ensures
        has_early_catch_all(l + e),
{
    let q = choose|q: int| 0 <= q < l.len() - 1 && (#[trigger] catch_all_of(l[q])) is Some;
    assert((l + e)[q] == l[q]);
}

/// When the argument patterns handed down for one constructor fail their
/// check, so does the whole match.
proof fn lemma_check_match_err_from(
    ps: Seq<PView>,
    scrutinee: Option<ScrutineeType>,
    fallback: Seq<(Seq<Seq<char>>, Seq<Seq<char>>)>,
    m: Seq<(Seq<char>, Seq<PView>)>,
    k: int,
    jj: int,
)
    requires
        spec_run_details(ps, spec_details(scrutinee, fallback)) == CheckOutcome::Covered(m),
        0 <= k <= jj < m.len(),
        spec_check_match(m[jj].1, None, fallback, 0) is Err,
    ensures
        spec_check_match(ps, scrutinee, fallback, k) is Err,
    decreases jj - k,
{
    if k < jj {
        if spec_check_match(m[k].1, None, fallback, 0) is Ok {
            lemma_check_match_err_from(ps, scrutinee, fallback, m, k + 1, jj);
        }
    }
}

/// In a match on a variant, the argument patterns of a case that carries a
/// payload are checked one level down: when an arm names such a case with an
/// argument that catches everything and a later arm names the same case
/// with an argument again, the match fails (given any constructors to check
/// the arguments against), as `click(a) => .., click(b) => ..` does.
pub proof fn lemma_payload_arguments_are_checked(
    ps: Seq<PView>,
    scrutinee: ScrutineeType,
    fallback: Seq<(Seq<Seq<char>>, Seq<Seq<char>>)>,
    name: Seq<char>,
    j: int,
    k: int,
    p: int,
)
    requires
        scrutinee matches ScrutineeType::Variant(cases) && exists|i: int|
            0 <= i < cases@.len() && (#[trigger] cases@[i]).0@ == name && cases@[i].1 is Some,
        0 <= j < k < ps.len(),
        constructor_of(ps[j]) matches Some(c) && c.0 == name && 0 <= p < c.1.len() && catch_all_of(c.1[p]) is Some,
        constructor_of(ps[k]) matches Some(c) && c.0 == name && c.1.len() > 0,
        fallback.len() > 0,
    ensures
        spec_check_match(ps, Some(scrutinee), fallback, 0) is Err,
{
    let cases = scrutinee->Variant_0;
    let i = choose|i: int| 0 <= i < cases@.len() && (#[trigger] cases@[i]).0@ == name && cases@[i].1 is Some;
    lemma_payload_case_named(cases@, i);
    let d = specific_details(Some(scrutinee))->0;
    let (wa, na) = d;
    assert(wa.contains(name));
    assert(spec_details(Some(scrutinee), fallback) == seq![d]);
    let e = Seq::<(Seq<Seq<char>>, Seq<Seq<char>>)>::empty();
    assert(spec_run_details(ps, e) == CheckOutcome::Covered(Seq::<(Seq<char>, Seq<PView>)>::empty()));
    assert(seq![d].drop_last() =~= e);
    assert(spec_run_details(ps, seq![d]) == spec_check_exhaustive(ps, wa, na));
    if let CheckOutcome::Covered(m) = spec_check_exhaustive(ps, wa, na) {
        let rw = with_arg_names(ps, wa);
        lemma_with_arg_names_named(ps, wa, name, j);
        lemma_dedup(rw);
        let jj = choose|jj: int| 0 <= jj < dedup(rw).len() && dedup(rw)[jj] == name;
        let a = args_for(ps, wa, name);
        lemma_args_for_early_catch_all(ps, wa, name, j, k, p);
        assert(m[jj].1 == a + catch_all_extension(ps, a));
        lemma_early_catch_all_extend(a, catch_all_extension(ps, a));
        assert(spec_details(None, fallback) == fallback);
        lemma_run_details_dead(m[jj].1, fallback);
        lemma_check_match_err_from(ps, Some(scrutinee), fallback, m, 0, jj);
    }
}

} // verus!
