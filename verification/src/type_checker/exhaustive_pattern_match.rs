//! Exhaustiveness of `match` expressions.
//!
//! Each arm pattern is checked against the constructors of the scrutinee's
//! type (the cases of an option, a result, a variant or an enum): an arm that
//! follows a catch-all (`_` or a plain identifier) is dead code, and when some
//! constructors are matched but others are not, and no arm catches the rest,
//! the missing constructors are reported. The argument patterns collected for
//! each constructor are then checked the same way, one level down.

use crate::text::{clone_strings, contains_string, string_views};
use crate::type_checker::pattern::{
    catch_all_of, classify, constructor_of, is_direct_catch_all, is_direct_catch_all_view,
    lemma_catch_all_unnamed, lemma_literal_bounded, lemma_pattern_bounded, pviews, view_bounded,
    ArmPattern, Classified, PView, PatternView,
};
use crate::wit_type::{NameOptionTypePair, TypeVariant, WitType};
use vstd::prelude::*;

verus! {

/// The strings of `s` without repetitions, each at the place of its first occurrence.
pub open spec fn dedup(s: Seq<Seq<char>>) -> Seq<Seq<char>>
    decreases s.len(),
{
    if s.len() == 0 {
        seq![]
    } else {
        let d = dedup(s.drop_last());
        if d.contains(s.last()) {
            d
        } else {
            d.push(s.last())
        }
    }
}

/// A sequence without repetitions.
pub open spec fn distinct(s: Seq<Seq<char>>) -> bool {
    forall|i: int, j: int| 0 <= i < s.len() && 0 <= j < s.len() && i != j ==> s[i] != s[j]
}

/// `dedup` keeps exactly the elements of its argument, once each.
pub proof fn lemma_dedup(s: Seq<Seq<char>>)
    ensures
        distinct(dedup(s)),
        forall|x: Seq<char>| dedup(s).contains(x) <==> s.contains(x),
    decreases s.len(),
{
    if s.len() > 0 {
        lemma_dedup(s.drop_last());
        let d = dedup(s.drop_last());
        let l = s.last();
        assert forall|x: Seq<char>| dedup(s).contains(x) <==> s.contains(x) by {
            if s.contains(x) {
                let i = choose|i: int| 0 <= i < s.len() && s[i] == x;
                if i < s.len() - 1 {
                    assert(s.drop_last()[i] == x);
                    assert(s.drop_last().contains(x));
                    assert(d.contains(x));
                    if !d.contains(l) {
                        let k = choose|k: int| 0 <= k < d.len() && d[k] == x;
                        assert(d.push(l)[k] == x);
                    }
                } else {
                    if !d.contains(l) {
                        assert(d.push(l)[d.len() as int] == x);
                    }
                }
            }
            if dedup(s).contains(x) {
                let k = choose|k: int| 0 <= k < dedup(s).len() && dedup(s)[k] == x;
                if k < d.len() {
                    assert(d[k] == x);
                    assert(s.drop_last().contains(x));
                    let i = choose|i: int| 0 <= i < s.drop_last().len() && s.drop_last()[i] == x;
                    assert(s[i] == x);
                } else {
                    assert(x == l);
                    assert(s[s.len() - 1] == x);
                }
            }
        }
    }
}

/// The names of the cases of a variant that carry a value (`has_value`) or that do not.
pub open spec fn variant_case_names_where(cases: Seq<NameOptionTypePair>, has_value: bool) -> Seq<Seq<char>>
    decreases cases.len(),
{
    if cases.len() == 0 {
        seq![]
    } else {
        variant_case_names_where(cases.drop_last(), has_value) + if (cases.last().typ is Some)
            == has_value {
            seq![cases.last().name@]
        } else {
            seq![]
        }
    }
}

/// The names of the cases in `cases` that carry a value (`has_value`) or that do not.
pub open spec fn case_names_where<T>(cases: Seq<(String, Option<T>)>, has_value: bool) -> Seq<Seq<char>>
    decreases cases.len(),
{
    if cases.len() == 0 {
        seq![]
    } else {
        case_names_where(cases.drop_last(), has_value) + if (cases.last().1 is Some) == has_value {
            seq![cases.last().0@]
        } else {
            seq![]
        }
    }
}

/// The constructors of a type that a `match` on it has to cover: those that
/// take no argument, and those that take one.
#[derive(Debug)]
pub struct ConstructorDetail {
    pub no_arg_constructors: Vec<String>,
    pub with_arg_constructors: Vec<String>,
}

impl ConstructorDetail {
    /// The constructors of a WIT variant: its cases without and with a value, in order.
    pub fn from_variant(variant: TypeVariant) -> (d: ConstructorDetail)
        ensures
            string_views(d.no_arg_constructors@) == variant_case_names_where(variant.cases@, false),
            string_views(d.with_arg_constructors@) == variant_case_names_where(variant.cases@, true),
    {
        let cases = variant.cases;
        let mut no_arg: Vec<String> = Vec::new();
        let mut with_arg: Vec<String> = Vec::new();
        let mut i: usize = 0;
        while i < cases.len()
            invariant
                i <= cases@.len(),
                string_views(no_arg@) == variant_case_names_where(cases@.take(i as int), false),
                string_views(with_arg@) == variant_case_names_where(cases@.take(i as int), true),
            decreases cases@.len() - i,
        {
            assert(cases@.take(i + 1).drop_last() == cases@.take(i as int));
            if cases[i].typ.is_none() {
                no_arg.push(cases[i].name.clone());
            } else {
                with_arg.push(cases[i].name.clone());
            }
            assert(string_views(no_arg@) == variant_case_names_where(cases@.take(i + 1), false));
            assert(string_views(with_arg@) == variant_case_names_where(cases@.take(i + 1), true));
            i = i + 1;
        }
        assert(cases@.take(cases@.len() as int) == cases@);
        ConstructorDetail { no_arg_constructors: no_arg, with_arg_constructors: with_arg }
    }

    /// The constructors of an option: `none` without argument, `some` with one.
    pub fn option() -> (d: ConstructorDetail)
        ensures
            string_views(d.no_arg_constructors@) == seq!["none"@],
            string_views(d.with_arg_constructors@) == seq!["some"@],
    {
        let mut no_arg: Vec<String> = Vec::new();
        no_arg.push(String::from_str("none"));
        let mut with_arg: Vec<String> = Vec::new();
        with_arg.push(String::from_str("some"));
        assert(string_views(no_arg@) =~= seq!["none"@]);
        assert(string_views(with_arg@) =~= seq!["some"@]);
        ConstructorDetail { no_arg_constructors: no_arg, with_arg_constructors: with_arg }
    }

    /// The constructors of a result: `ok` and `err`, both with an argument.
    pub fn result() -> (d: ConstructorDetail)
        ensures
            d.no_arg_constructors@.len() == 0,
            string_views(d.with_arg_constructors@) == seq!["ok"@, "err"@],
    {
        let mut with_arg: Vec<String> = Vec::new();
        with_arg.push(String::from_str("ok"));
        with_arg.push(String::from_str("err"));
        assert(string_views(with_arg@) =~= seq!["ok"@, "err"@]);
        ConstructorDetail { no_arg_constructors: Vec::new(), with_arg_constructors: with_arg }
    }

    /// The constructors of variant cases given as names with optional payload
    /// types: the cases without and with a payload, in order.
    pub fn from_inferred_variant_cases<T>(cases: &[(String, Option<T>)]) -> (d: ConstructorDetail)
        ensures
            string_views(d.no_arg_constructors@) == case_names_where(cases@, false),
            string_views(d.with_arg_constructors@) == case_names_where(cases@, true),
    {
        let mut no_arg: Vec<String> = Vec::new();
        let mut with_arg: Vec<String> = Vec::new();
        let mut i: usize = 0;
        while i < cases.len()
            invariant
                i <= cases@.len(),
                string_views(no_arg@) == case_names_where(cases@.take(i as int), false),
                string_views(with_arg@) == case_names_where(cases@.take(i as int), true),
            decreases cases@.len() - i,
        {
            assert(cases@.take(i + 1).drop_last() == cases@.take(i as int));
            if cases[i].1.is_none() {
                no_arg.push(cases[i].0.clone());
            } else {
                with_arg.push(cases[i].0.clone());
            }
            assert(string_views(no_arg@) == case_names_where(cases@.take(i + 1), false));
            assert(string_views(with_arg@) == case_names_where(cases@.take(i + 1), true));
            i = i + 1;
        }
        assert(cases@.take(cases@.len() as int) == cases@);
        ConstructorDetail { no_arg_constructors: no_arg, with_arg_constructors: with_arg }
    }

    /// The constructors of an enum: all of its cases, none with an argument.
    pub fn from_enum_cases(cases: &[String]) -> (d: ConstructorDetail)
        ensures
            string_views(d.no_arg_constructors@) == string_views(cases@),
            d.with_arg_constructors@.len() == 0,
    {
        let mut no_arg: Vec<String> = Vec::new();
        let mut i: usize = 0;
        while i < cases.len()
            invariant
                i <= cases@.len(),
                no_arg@.len() == i,
                forall|j: int| 0 <= j < i ==> #[trigger] no_arg@[j]@ == cases@[j]@,
            decreases cases@.len() - i,
        {
            no_arg.push(cases[i].clone());
            i = i + 1;
        }
        assert(string_views(no_arg@) =~= string_views(cases@));
        ConstructorDetail { no_arg_constructors: no_arg, with_arg_constructors: Vec::new() }
    }
}

/// `keys` extended by the names of `names` it does not hold yet, in order of first occurrence.
pub open spec fn add_keys(keys: Seq<Seq<char>>, names: Seq<Seq<char>>) -> Seq<Seq<char>>
    decreases names.len(),
{
    if names.len() == 0 {
        keys
    } else {
        let a = add_keys(keys, names.drop_last());
        if a.contains(names.last()) {
            a
        } else {
            a.push(names.last())
        }
    }
}

proof fn lemma_add_keys_to_empty(names: Seq<Seq<char>>)
    ensures
        add_keys(seq![], names) == dedup(names),
    decreases names.len(),
{
    if names.len() > 0 {
        lemma_add_keys_to_empty(names.drop_last());
    }
}

proof fn lemma_add_keys(keys: Seq<Seq<char>>, names: Seq<Seq<char>>)
    requires
        distinct(keys),
    ensures
        distinct(add_keys(keys, names)),
        add_keys(keys, names).len() >= keys.len(),
        forall|j: int| 0 <= j < keys.len() ==> #[trigger] add_keys(keys, names)[j] == keys[j],
        forall|x: Seq<char>| add_keys(keys, names).contains(x) <==> keys.contains(x) || names.contains(x),
    decreases names.len(),
{
    if names.len() > 0 {
        let a = add_keys(keys, names.drop_last());
        lemma_add_keys(keys, names.drop_last());
        let l = names.last();
        assert(names =~= names.drop_last().push(l));
        assert forall|x: Seq<char>| add_keys(keys, names).contains(x) <==> keys.contains(x) || names.contains(x) by {
            if names.contains(x) {
                let i = choose|i: int| 0 <= i < names.len() && names[i] == x;
                if i < names.len() - 1 {
                    assert(names.drop_last()[i] == x);
                    assert(names.drop_last().contains(x));
                }
            }
            if names.drop_last().contains(x) {
                let i = choose|i: int| 0 <= i < names.drop_last().len() && names.drop_last()[i] == x;
                assert(names[i] == x);
            }
            if a.contains(x) && !a.contains(l) {
                let k = choose|k: int| 0 <= k < a.len() && a[k] == x;
                assert(a.push(l)[k] == x);
            }
            if x == l && !a.contains(l) {
                assert(a.push(l)[a.len() as int] == x);
            }
            if add_keys(keys, names).contains(x) && !a.contains(l) {
                let k = choose|k: int| 0 <= k < a.len() + 1 && a.push(l)[k] == x;
                if k < a.len() {
                    assert(a[k] == x);
                } else {
                    assert(names[names.len() - 1] == x);
                }
            }
        }
    }
}

/// The names held by a status list.
pub open spec fn status_keys(st: Seq<(String, bool)>) -> Seq<Seq<char>> {
    st.map_values(|p: (String, bool)| p.0@)
}

/// The flags held by a status list.
pub open spec fn status_flags(st: Seq<(String, bool)>) -> Seq<bool> {
    st.map_values(|p: (String, bool)| p.1)
}

/// The keys whose flag is unset, in order.
pub open spec fn false_keys(keys: Seq<Seq<char>>, flags: Seq<bool>) -> Seq<Seq<char>>
    decreases keys.len(),
{
    if keys.len() == 0 {
        seq![]
    } else {
        false_keys(keys.drop_last(), flags.drop_last()) + if !flags.last() {
            seq![keys.last()]
        } else {
            seq![]
        }
    }
}

/// Sets the flag of `name` in a status list of distinct names, adding the
/// name at the end when it is not there yet.
fn status_insert(status: &mut Vec<(String, bool)>, name: String, flag: bool)
    requires
        distinct(status_keys(old(status)@)),
    ensures
        distinct(status_keys(final(status)@)),
        status_keys(old(status)@).contains(name@) ==> {
            &&& status_keys(final(status)@) == status_keys(old(status)@)
            &&& status_flags(final(status)@).len() == status_flags(old(status)@).len()
            &&& forall|j: int| 0 <= j < status_flags(old(status)@).len() ==>
                #[trigger] status_flags(final(status)@)[j] == if status_keys(old(status)@)[j] == name@ {
                    flag
                } else {
                    status_flags(old(status)@)[j]
                }
        },
        !status_keys(old(status)@).contains(name@) ==> {
            &&& status_keys(final(status)@) == status_keys(old(status)@).push(name@)
            &&& status_flags(final(status)@) == status_flags(old(status)@).push(flag)
        },
{
    let ghost keys = status_keys(status@);
    let mut i: usize = 0;
    while i < status.len()
        invariant
            i <= status@.len(),
            keys == status_keys(status@),
            distinct(keys),
            status@ == old(status)@,
            forall|j: int| 0 <= j < i ==> keys[j] != name@,
        decreases status@.len() - i,
    {
        if status[i].0 == name {
            let ghost before = status@;
            let ghost nm = name@;
            assert(keys[i as int] == nm);
            status.set(i, (name, flag));
            assert(status@[i as int].0@ == nm);
            assert forall|j: int| 0 <= j < status@.len() && j != i implies status@[j] == before[j] by {}
            assert(status_keys(status@) =~= keys);
            assert forall|j: int| 0 <= j < status_flags(before).len() implies
                #[trigger] status_flags(status@)[j] == if keys[j] == nm { flag } else { status_flags(before)[j] }
            by {
                if j != i && keys[j] == nm {
                    assert(keys[i as int] == nm);
                }
            }
            return;
        }
        i = i + 1;
    }
    let ghost name_view = name@;
    status.push((name, flag));
    assert(!keys.contains(name_view));
    assert(status_keys(status@) =~= keys.push(name_view));
    assert(status_flags(status@) =~= status_flags(old(status)@).push(flag));
}

/// Whether some flag of the status list is set.
fn status_any(status: &Vec<(String, bool)>) -> (r: bool)
    ensures
        r == exists|j: int| 0 <= j < status@.len() && #[trigger] status_flags(status@)[j],
{
    let mut i: usize = 0;
    while i < status.len()
        invariant
            i <= status@.len(),
            forall|j: int| 0 <= j < i ==> !#[trigger] status_flags(status@)[j],
        decreases status@.len() - i,
    {
        if status[i].1 {
            assert(status_flags(status@)[i as int]);
            return true;
        }
        i = i + 1;
    }
    false
}

/// Whether every flag of the status list is set.
fn status_all(status: &Vec<(String, bool)>) -> (r: bool)
    ensures
        r == forall|j: int| 0 <= j < status@.len() ==> #[trigger] status_flags(status@)[j],
{
    let mut i: usize = 0;
    while i < status.len()
        invariant
            i <= status@.len(),
            forall|j: int| 0 <= j < i ==> #[trigger] status_flags(status@)[j],
        decreases status@.len() - i,
    {
        if !status[i].1 {
            assert(!status_flags(status@)[i as int]);
            return false;
        }
        i = i + 1;
    }
    true
}

/// Sets the flag of every name in `names` to false, adding the names that are missing.
fn status_initialise(status: &mut Vec<(String, bool)>, names: Vec<String>)
    requires
        distinct(status_keys(old(status)@)),
    ensures
        distinct(status_keys(final(status)@)),
        status_keys(final(status)@) == add_keys(status_keys(old(status)@), string_views(names@)),
        status_flags(final(status)@).len() == status_keys(final(status)@).len(),
        forall|j: int| 0 <= j < status_keys(final(status)@).len() ==>
            #[trigger] status_flags(final(status)@)[j] == if j < old(status)@.len() {
                !string_views(names@).contains(status_keys(old(status)@)[j]) && status_flags(old(status)@)[j]
            } else {
                false
            },
{
    let ghost k0 = status_keys(status@);
    let ghost f0 = status_flags(status@);
    let ghost nv = string_views(names@);
    let mut names = names;
    let n = names.len();
    let mut i: usize = 0;
    while i < n
        invariant
            n == names@.len(),
            nv == string_views(names@),
            distinct(k0),
            f0.len() == k0.len(),
            i <= n,
            distinct(status_keys(status@)),
            status_keys(status@) == add_keys(k0, nv.take(i as int)),
            status_flags(status@).len() == status_keys(status@).len(),
            forall|j: int| 0 <= j < status_keys(status@).len() ==>
                #[trigger] status_flags(status@)[j] == if j < k0.len() {
                    !nv.take(i as int).contains(k0[j]) && f0[j]
                } else {
                    false
                },
        decreases n - i,
    {
        proof {
            lemma_add_keys(k0, nv.take(i as int));
            assert(nv.take(i + 1).drop_last() == nv.take(i as int));
            assert(nv.take(i + 1).last() == nv[i as int]);
            assert forall|x: Seq<char>| nv.take(i + 1).contains(x) <==> nv.take(i as int).contains(x) || x == nv[i as int] by {
                if nv.take(i + 1).contains(x) {
                    let t1 = nv.take(i + 1);
                    let k = choose|k: int| 0 <= k < t1.len() && t1[k] == x;
                    if k < i {
                        assert(nv.take(i as int)[k] == x);
                    }
                }
                if nv.take(i as int).contains(x) {
                    let t0 = nv.take(i as int);
                    let k = choose|k: int| 0 <= k < t0.len() && t0[k] == x;
                    assert(nv.take(i + 1)[k] == x);
                }
                if x == nv[i as int] {
                    assert(nv.take(i + 1)[i as int] == x);
                }
            }
        }
        let ghost before = status@;
        let name = names[i].clone();
        status_insert(status, name, false);
        i = i + 1;
    }
    assert(nv.take(n as int) == nv);
}

/// Keeps track of which of the constructors that take an argument are matched.
pub struct ConstructorsWithArgTracker {
    status: Vec<(String, bool)>,
}

/// Keeps track of which of the constructors without argument are matched.
pub struct NoArgConstructorsTracker {
    status: Vec<(String, bool)>,
}

/// The names whose flag is unset, in order.
fn get_false_entries(map: &Vec<(String, bool)>) -> (r: Vec<String>)
    ensures
        string_views(r@) == false_keys(status_keys(map@), status_flags(map@)),
{
    let mut r: Vec<String> = Vec::new();
    let mut i: usize = 0;
    while i < map.len()
        invariant
            i <= map@.len(),
            string_views(r@) == false_keys(status_keys(map@.take(i as int)), status_flags(map@.take(i as int))),
        decreases map@.len() - i,
    {
        assert(status_keys(map@.take(i + 1)).drop_last() =~= status_keys(map@.take(i as int)));
        assert(status_flags(map@.take(i + 1)).drop_last() =~= status_flags(map@.take(i as int)));
        if !map[i].1 {
            r.push(map[i].0.clone());
        }
        assert(string_views(r@) =~= false_keys(status_keys(map@.take(i + 1)), status_flags(map@.take(i + 1))));
        i = i + 1;
    }
    assert(map@.take(map@.len() as int) == map@);
    r
}

impl ConstructorsWithArgTracker {
    /// The constructor names tracked, in order.
    pub closed spec fn keys(&self) -> Seq<Seq<char>> {
        status_keys(self.status@)
    }

    /// Whether each tracked constructor has been matched.
    pub closed spec fn flags(&self) -> Seq<bool> {
        status_flags(self.status@)
    }

    /// Each constructor is tracked once.
    pub closed spec fn wf(&self) -> bool {
        distinct(self.keys()) && self.flags().len() == self.keys().len()
    }

    pub fn new() -> (t: Self)
        ensures
            t.wf(),
            t.keys() == Seq::<Seq<char>>::empty(),
    {
        let t = ConstructorsWithArgTracker { status: Vec::new() };
        assert(t.keys() =~= Seq::<Seq<char>>::empty());
        t
    }

    /// Starts tracking `constructors` as not matched yet.
    pub fn initialise(&mut self, constructors: Vec<String>)
        requires
            old(self).wf(),
        ensures
            final(self).wf(),
            final(self).keys() == add_keys(old(self).keys(), string_views(constructors@)),
            forall|j: int| 0 <= j < final(self).keys().len() ==>
                #[trigger] final(self).flags()[j] == if j < old(self).keys().len() {
                    !string_views(constructors@).contains(old(self).keys()[j]) && old(self).flags()[j]
                } else {
                    false
                },
    {
        status_initialise(&mut self.status, constructors);
    }

    /// Records that `constructor` is matched.
    pub fn register(&mut self, constructor: &String)
        requires
            old(self).wf(),
        ensures
            final(self).wf(),
            old(self).keys().contains(constructor@) ==> {
                &&& final(self).keys() == old(self).keys()
                &&& forall|j: int| 0 <= j < old(self).keys().len() ==>
                    #[trigger] final(self).flags()[j] == (old(self).keys()[j] == constructor@ || old(self).flags()[j])
            },
            !old(self).keys().contains(constructor@) ==> {
                &&& final(self).keys() == old(self).keys().push(constructor@)
                &&& final(self).flags() == old(self).flags().push(true)
            },
    {
        status_insert(&mut self.status, constructor.clone(), true);
    }

    /// Whether some tracked constructor is matched.
    pub fn registered_any(&self) -> (r: bool)
        requires
            self.wf(),
        ensures
            r == exists|j: int| 0 <= j < self.keys().len() && #[trigger] self.flags()[j],
    {
        status_any(&self.status)
    }

    /// Whether every tracked constructor is matched.
    pub fn registered_all(&self) -> (r: bool)
        requires
            self.wf(),
        ensures
            r == forall|j: int| 0 <= j < self.keys().len() ==> #[trigger] self.flags()[j],
    {
        status_all(&self.status)
    }

    /// The tracked constructors that are not matched, in order.
    pub fn unregistered_constructors(&self) -> (r: Vec<String>)
        ensures
            string_views(r@) == false_keys(self.keys(), self.flags()),
    {
        get_false_entries(&self.status)
    }
}

impl NoArgConstructorsTracker {
    /// The constructor names tracked, in order.
    pub closed spec fn keys(&self) -> Seq<Seq<char>> {
        status_keys(self.status@)
    }

    /// Whether each tracked constructor has been matched.
    pub closed spec fn flags(&self) -> Seq<bool> {
        status_flags(self.status@)
    }

    /// Each constructor is tracked once.
    pub closed spec fn wf(&self) -> bool {
        distinct(self.keys()) && self.flags().len() == self.keys().len()
    }

    pub fn new() -> (t: Self)
        ensures
            t.wf(),
            t.keys() == Seq::<Seq<char>>::empty(),
    {
        let t = NoArgConstructorsTracker { status: Vec::new() };
        assert(t.keys() =~= Seq::<Seq<char>>::empty());
        t
    }

    /// Starts tracking `constructors` as not matched yet.
    pub fn initialise(&mut self, constructors: Vec<String>)
        requires
            old(self).wf(),
        ensures
            final(self).wf(),
            final(self).keys() == add_keys(old(self).keys(), string_views(constructors@)),
            forall|j: int| 0 <= j < final(self).keys().len() ==>
                #[trigger] final(self).flags()[j] == if j < old(self).keys().len() {
                    !string_views(constructors@).contains(old(self).keys()[j]) && old(self).flags()[j]
                } else {
                    false
                },
    {
        status_initialise(&mut self.status, constructors);
    }

    /// Records that `constructor` is matched.
    pub fn register(&mut self, constructor: &String)
        requires
            old(self).wf(),
        ensures
            final(self).wf(),
            old(self).keys().contains(constructor@) ==> {
                &&& final(self).keys() == old(self).keys()
                &&& forall|j: int| 0 <= j < old(self).keys().len() ==>
                    #[trigger] final(self).flags()[j] == (old(self).keys()[j] == constructor@ || old(self).flags()[j])
            },
            !old(self).keys().contains(constructor@) ==> {
                &&& final(self).keys() == old(self).keys().push(constructor@)
                &&& final(self).flags() == old(self).flags().push(true)
            },
    {
        status_insert(&mut self.status, constructor.clone(), true);
    }

    /// Whether some tracked constructor is matched.
    pub fn registered_any(&self) -> (r: bool)
        requires
            self.wf(),
        ensures
            r == exists|j: int| 0 <= j < self.keys().len() && #[trigger] self.flags()[j],
    {
        status_any(&self.status)
    }

    /// Whether every tracked constructor is matched.
    pub fn registered_all(&self) -> (r: bool)
        requires
            self.wf(),
        ensures
            r == forall|j: int| 0 <= j < self.keys().len() ==> #[trigger] self.flags()[j],
    {
        status_all(&self.status)
    }

    /// The tracked constructors that are not matched, in order.
    pub fn unregistered_constructors(&self) -> (r: Vec<String>)
        ensures
            string_views(r@) == false_keys(self.keys(), self.flags()),
    {
        get_false_entries(&self.status)
    }
}

/// The names, in order, of the constructors named by the patterns of `ps`
/// that are among `with_arg` (the constructors that take an argument).
pub open spec fn with_arg_names(ps: Seq<PView>, with_arg: Seq<Seq<char>>) -> Seq<Seq<char>>
    decreases ps.len(),
{
    if ps.len() == 0 {
        seq![]
    } else {
        with_arg_names(ps.drop_last(), with_arg) + match constructor_of(ps.last()) {
            Some(c) => if with_arg.contains(c.0) {
                seq![c.0]
            } else {
                seq![]
            },
            None => seq![],
        }
    }
}

/// The names, in order, of the constructors named by the patterns of `ps`
/// that are among `no_arg` and not among `with_arg`.
pub open spec fn no_arg_names(ps: Seq<PView>, with_arg: Seq<Seq<char>>, no_arg: Seq<Seq<char>>) -> Seq<Seq<char>>
    decreases ps.len(),
{
    if ps.len() == 0 {
        seq![]
    } else {
        no_arg_names(ps.drop_last(), with_arg, no_arg) + match constructor_of(ps.last()) {
            Some(c) => if !with_arg.contains(c.0) && no_arg.contains(c.0) {
                seq![c.0]
            } else {
                seq![]
            },
            None => seq![],
        }
    }
}

/// The argument patterns, in order, of the patterns of `ps` that name the
/// constructor `k` (which takes an argument when it is among `with_arg`).
pub open spec fn args_for(ps: Seq<PView>, with_arg: Seq<Seq<char>>, k: Seq<char>) -> Seq<PView>
    decreases ps.len(),
{
    if ps.len() == 0 {
        seq![]
    } else {
        args_for(ps.drop_last(), with_arg, k) + match constructor_of(ps.last()) {
            Some(c) => if c.0 == k && with_arg.contains(k) {
                c.1
            } else {
                seq![]
            },
            None => seq![],
        }
    }
}

/// The keys that are not among `matched`, in order.
pub open spec fn unmatched(keys: Seq<Seq<char>>, matched: Seq<Seq<char>>) -> Seq<Seq<char>>
    decreases keys.len(),
{
    if keys.len() == 0 {
        seq![]
    } else {
        unmatched(keys.drop_last(), matched) + if matched.contains(keys.last()) {
            seq![]
        } else {
            seq![keys.last()]
        }
    }
}

/// Some pattern other than the last one catches everything, so the one after it is dead.
pub open spec fn has_early_catch_all(ps: Seq<PView>) -> bool {
    exists|i: int| 0 <= i < ps.len() - 1 && (#[trigger] catch_all_of(ps[i])) is Some
}

/// The first pattern that catches everything.
pub open spec fn first_catch_all(ps: Seq<PView>) -> int {
    choose|i: int|
        0 <= i < ps.len() && (#[trigger] catch_all_of(ps[i])) is Some && forall|j: int|
            0 <= j < i ==> (#[trigger] catch_all_of(ps[j])) is None
}

/// The last pattern catches everything.
pub open spec fn ends_with_catch_all(ps: Seq<PView>) -> bool {
    ps.len() > 0 && catch_all_of(ps.last()) is Some
}

/// The catch-all appended to the argument patterns `args` of a constructor:
/// the last pattern's, when there is one and `args` holds no plain wildcard or identifier.
pub open spec fn catch_all_extension(ps: Seq<PView>, args: Seq<PView>) -> Seq<PView> {
    if ends_with_catch_all(ps) && !(exists|j: int| 0 <= j < args.len() && is_direct_catch_all(#[trigger] args[j])) {
        seq![catch_all_of(ps.last()).unwrap()]
    } else {
        seq![]
    }
}

/// The outcome of checking match arms against one set of constructors.
pub enum CheckOutcome {
    /// An arm follows one that catches everything.
    DeadCode { cause: PView, dead_pattern: PView },
    /// These constructors are not matched, and no arm catches them.
    Missing(Seq<Seq<char>>),
    /// The arms pass; for each matched constructor that takes an argument,
    /// the patterns its argument has to be checked against.
    Covered(Seq<(Seq<char>, Seq<PView>)>),
}

/// The result of checking the arm patterns `ps` against the constructors
/// `with_arg` (taking an argument) and `no_arg` (taking none).
pub open spec fn spec_check_exhaustive(ps: Seq<PView>, with_arg: Seq<Seq<char>>, no_arg: Seq<Seq<char>>) -> CheckOutcome {
    if has_early_catch_all(ps) {
        let i = first_catch_all(ps);
        CheckOutcome::DeadCode { cause: catch_all_of(ps[i]).unwrap(), dead_pattern: ps[i + 1] }
    } else {
        let rw = with_arg_names(ps, with_arg);
        let rn = no_arg_names(ps, with_arg, no_arg);
        let all = (forall|k: Seq<char>| with_arg.contains(k) ==> rw.contains(k))
            && (forall|k: Seq<char>| no_arg.contains(k) ==> rn.contains(k));
        if (rw.len() > 0 || rn.len() > 0) && !all && !ends_with_catch_all(ps) {
            CheckOutcome::Missing(unmatched(dedup(with_arg), rw) + unmatched(dedup(no_arg), rn))
        } else {
            CheckOutcome::Covered(
                dedup(rw).map_values(
                    |k: Seq<char>|
                        (k, args_for(ps, with_arg, k) + catch_all_extension(ps, args_for(ps, with_arg, k))),
                ),
            )
        }
    }
}

proof fn lemma_contains_append_one(s: Seq<Seq<char>>, x: Seq<char>, y: Seq<char>)
    ensures
        (s + seq![x]).contains(y) <==> s.contains(y) || x == y,
{
    let t = s + seq![x];
    if t.contains(y) {
        let k = choose|k: int| 0 <= k < t.len() && t[k] == y;
        if k < s.len() {
            assert(s[k] == y);
        }
    }
    if s.contains(y) {
        let k = choose|k: int| 0 <= k < s.len() && s[k] == y;
        assert(t[k] == y);
    }
    if x == y {
        assert(t[s.len() as int] == y);
    }
}

proof fn lemma_contains_append_none(s: Seq<Seq<char>>, y: Seq<char>)
    ensures
        (s + Seq::<Seq<char>>::empty()).contains(y) <==> s.contains(y),
{
    assert(s + Seq::<Seq<char>>::empty() =~= s);
}

/// A constructor that no pattern names has no argument patterns.
proof fn lemma_args_for_unnamed(ps: Seq<PView>, with_arg: Seq<Seq<char>>, k: Seq<char>)
    requires
        !with_arg_names(ps, with_arg).contains(k),
    ensures
        args_for(ps, with_arg, k) == Seq::<PView>::empty(),
    decreases ps.len(),
{
    if ps.len() > 0 {
        let w = with_arg_names(ps.drop_last(), with_arg);
        match constructor_of(ps.last()) {
            Some(c) => {
                if with_arg.contains(c.0) {
                    lemma_contains_append_one(w, c.0, k);
                } else {
                    lemma_contains_append_none(w, k);
                }
            },
            None => {
                lemma_contains_append_none(w, k);
            },
        }
        lemma_args_for_unnamed(ps.drop_last(), with_arg, k);
        assert(args_for(ps, with_arg, k) =~= Seq::<PView>::empty());
    }
}

/// The flags of a tracker that records matched constructors give the unmatched ones.
proof fn lemma_false_keys_unmatched(keys: Seq<Seq<char>>, flags: Seq<bool>, matched: Seq<Seq<char>>)
    requires
        flags.len() == keys.len(),
        forall|j: int| 0 <= j < keys.len() ==> #[trigger] flags[j] == matched.contains(keys[j]),
    ensures
        false_keys(keys, flags) == unmatched(keys, matched),
    decreases keys.len(),
{
    if keys.len() > 0 {
        let k2 = keys.drop_last();
        let f2 = flags.drop_last();
        assert forall|j: int| 0 <= j < k2.len() implies #[trigger] f2[j] == matched.contains(k2[j]) by {
            assert(flags[j] == matched.contains(keys[j]));
        }
        lemma_false_keys_unmatched(k2, f2, matched);
        assert(flags[keys.len() - 1] == matched.contains(keys[keys.len() - 1]));
    }
}

/// The names collected by `with_arg_names` are among `with_arg`.
proof fn lemma_with_arg_names_within(ps: Seq<PView>, with_arg: Seq<Seq<char>>, k: Seq<char>)
    ensures
        with_arg_names(ps, with_arg).contains(k) ==> with_arg.contains(k),
    decreases ps.len(),
{
    if ps.len() > 0 {
        let w = with_arg_names(ps.drop_last(), with_arg);
        lemma_with_arg_names_within(ps.drop_last(), with_arg, k);
        match constructor_of(ps.last()) {
            Some(c) => if with_arg.contains(c.0) {
                lemma_contains_append_one(w, c.0, k);
            } else {
                lemma_contains_append_none(w, k);
            },
            None => lemma_contains_append_none(w, k),
        }
    }
}

/// The names collected by `no_arg_names` are among `no_arg`.
proof fn lemma_no_arg_names_within(ps: Seq<PView>, with_arg: Seq<Seq<char>>, no_arg: Seq<Seq<char>>, k: Seq<char>)
    ensures
        no_arg_names(ps, with_arg, no_arg).contains(k) ==> no_arg.contains(k),
    decreases ps.len(),
{
    if ps.len() > 0 {
        let w = no_arg_names(ps.drop_last(), with_arg, no_arg);
        lemma_no_arg_names_within(ps.drop_last(), with_arg, no_arg, k);
        match constructor_of(ps.last()) {
            Some(c) => if !with_arg.contains(c.0) && no_arg.contains(c.0) {
                lemma_contains_append_one(w, c.0, k);
            } else {
                lemma_contains_append_none(w, k);
            },
            None => lemma_contains_append_none(w, k),
        }
    }
}

/// The patterns collected for each constructor that takes an argument, in
/// the order in which the constructors are first matched.
pub struct ConstructorPatterns<'a>(pub Vec<(String, Vec<PatternView<'a>>)>);

/// The view of the patterns collected per constructor.
pub open spec fn entries_view<'a>(m: Seq<(String, Vec<PatternView<'a>>)>) -> Seq<(Seq<char>, Seq<PView>)> {
    m.map_values(|e: (String, Vec<PatternView<'a>>)| (e.0@, pviews(e.1@)))
}

impl<'a> ConstructorPatterns<'a> {
    pub fn inner(&self) -> (r: &Vec<(String, Vec<PatternView<'a>>)>)
        ensures
            r == &self.0,
    {
        &self.0
    }

    pub fn is_empty(&self) -> (r: bool)
        ensures
            r == (self.0@.len() == 0),
    {
        self.0.len() == 0
    }
}

/// Why a `match` is rejected.
#[derive(Debug)]
pub enum ExhaustivePatternMatchError<'a> {
    /// Some constructors are matched by no arm, and no arm catches everything.
    MissingConstructors { missing_constructors: Vec<String> },
    /// `dead_pattern` follows `cause`, which catches everything.
    DeadCode { cause: PatternView<'a>, dead_pattern: PatternView<'a> },
}

/// The outcome that a check result stands for.
pub open spec fn outcome_of<'a>(r: Result<ConstructorPatterns<'a>, ExhaustivePatternMatchError<'a>>) -> CheckOutcome {
    match r {
        Ok(m) => CheckOutcome::Covered(entries_view(m.0@)),
        Err(ExhaustivePatternMatchError::MissingConstructors { missing_constructors }) => CheckOutcome::Missing(
            string_views(missing_constructors@),
        ),
        Err(ExhaustivePatternMatchError::DeadCode { cause, dead_pattern }) => CheckOutcome::DeadCode {
            cause: cause@,
            dead_pattern: dead_pattern@,
        },
    }
}

/// Copies a list of pattern references.
fn copy_views<'a>(v: &Vec<PatternView<'a>>) -> (r: Vec<PatternView<'a>>)
    ensures
        r@ == v@,
{
    let mut r: Vec<PatternView<'a>> = Vec::new();
    let mut i: usize = 0;
    while i < v.len()
        invariant
            i <= v@.len(),
            r@ == v@.take(i as int),
        decreases v@.len() - i,
    {
        r.push(v[i]);
        assert(v@.take(i + 1) == v@.take(i as int).push(v@[i as int]));
        i = i + 1;
    }
    assert(v@.take(v@.len() as int) == v@);
    r
}

/// The names of a list of collected entries.
pub open spec fn entry_keys<'a>(m: Seq<(String, Vec<PatternView<'a>>)>) -> Seq<Seq<char>> {
    m.map_values(|e: (String, Vec<PatternView<'a>>)| e.0@)
}

/// Appends `views` to the patterns collected for `name`, adding an entry for
/// `name` at the end when it has none yet.
fn entries_extend<'a>(map: &mut Vec<(String, Vec<PatternView<'a>>)>, name: &String, views: Vec<PatternView<'a>>)
    requires
        distinct(entry_keys(old(map)@)),
    ensures
        distinct(entry_keys(final(map)@)),
        entry_keys(old(map)@).contains(name@) ==> {
            &&& entry_keys(final(map)@) == entry_keys(old(map)@)
            &&& forall|j: int| 0 <= j < old(map)@.len() ==>
                #[trigger] pviews(final(map)@[j].1@) == if entry_keys(old(map)@)[j] == name@ {
                    pviews(old(map)@[j].1@) + pviews(views@)
                } else {
                    pviews(old(map)@[j].1@)
                }
        },
        !entry_keys(old(map)@).contains(name@) ==> {
            &&& entry_keys(final(map)@) == entry_keys(old(map)@).push(name@)
            &&& forall|j: int| 0 <= j < old(map)@.len() ==>
                #[trigger] pviews(final(map)@[j].1@) == pviews(old(map)@[j].1@)
            &&& pviews(final(map)@[old(map)@.len() as int].1@) == pviews(views@)
        },
{
    let ghost keys = entry_keys(map@);
    let mut i: usize = 0;
    while i < map.len()
        invariant
            i <= map@.len(),
            keys == entry_keys(map@),
            distinct(keys),
            map@ == old(map)@,
            forall|j: int| 0 <= j < i ==> keys[j] != name@,
        decreases map@.len() - i,
    {
        if map[i].0 == *name {
            let ghost before = map@;
            let mut vals = copy_views(&map[i].1);
            let mut extra = views;
            vals.append(&mut extra);
            let key = map[i].0.clone();
            map.set(i, (key, vals));
            assert forall|j: int| 0 <= j < map@.len() && j != i implies map@[j] == before[j] by {}
            assert(entry_keys(map@) =~= keys);
            assert(pviews(map@[i as int].1@) =~= pviews(before[i as int].1@) + pviews(views@));
            assert forall|j: int| 0 <= j < before.len() implies
                #[trigger] pviews(map@[j].1@) == if keys[j] == name@ {
                    pviews(before[j].1@) + pviews(views@)
                } else {
                    pviews(before[j].1@)
                } by {
                if j != i && keys[j] == name@ {
                    assert(keys[i as int] == name@);
                }
            }
            return;
        }
        i = i + 1;
    }
    map.push((name.clone(), views));
    assert(!keys.contains(name@));
    assert(entry_keys(map@) =~= keys.push(name@));
}

/// Whether some of the views is itself a wildcard or an identifier.
fn any_direct_catch_all(views: &Vec<PatternView>) -> (r: bool)
    ensures
        r == exists|j: int| 0 <= j < views@.len() && is_direct_catch_all(#[trigger] pviews(views@)[j]),
{
    let mut i: usize = 0;
    while i < views.len()
        invariant
            i <= views@.len(),
            forall|j: int| 0 <= j < i ==> !is_direct_catch_all(#[trigger] pviews(views@)[j]),
        decreases views@.len() - i,
    {
        if is_direct_catch_all_view(views[i]) {
            assert(is_direct_catch_all(pviews(views@)[i as int]));
            return true;
        }
        i = i + 1;
    }
    false
}

/// Adds the catch-all `c` to the patterns of every entry that holds no plain
/// wildcard or identifier.
fn extend_with_catch_all<'a>(map: &mut Vec<(String, Vec<PatternView<'a>>)>, c: PatternView<'a>)
    ensures
        entry_keys(final(map)@) == entry_keys(old(map)@),
        final(map)@.len() == old(map)@.len(),
        forall|j: int| 0 <= j < old(map)@.len() ==>
            #[trigger] pviews(final(map)@[j].1@) == pviews(old(map)@[j].1@) + if exists|k: int|
                0 <= k < pviews(old(map)@[j].1@).len() && is_direct_catch_all(#[trigger] pviews(old(map)@[j].1@)[k]) {
                Seq::<PView>::empty()
            } else {
                seq![c@]
            },
{
    let mut i: usize = 0;
    while i < map.len()
        invariant
            i <= map@.len(),
            map@.len() == old(map)@.len(),
            entry_keys(map@) == entry_keys(old(map)@),
            forall|j: int| i <= j < map@.len() ==> #[trigger] map@[j] == old(map)@[j],
            forall|j: int| 0 <= j < i ==>
                #[trigger] pviews(map@[j].1@) == pviews(old(map)@[j].1@) + if exists|k: int|
                    0 <= k < pviews(old(map)@[j].1@).len() && is_direct_catch_all(#[trigger] pviews(old(map)@[j].1@)[k]) {
                    Seq::<PView>::empty()
                } else {
                    seq![c@]
                },
        decreases map@.len() - i,
    {
        let ghost before = map@;
        if !any_direct_catch_all(&map[i].1) {
            let mut vals = copy_views(&map[i].1);
            vals.push(c);
            let key = map[i].0.clone();
            map.set(i, (key, vals));
            assert(pviews(map@[i as int].1@) =~= pviews(before[i as int].1@) + seq![c@]);
        } else {
            assert(pviews(map@[i as int].1@) =~= pviews(before[i as int].1@) + Seq::<PView>::empty());
        }
        assert forall|j: int| 0 <= j < map@.len() && j != i implies map@[j] == before[j] by {}
        assert(entry_keys(map@) =~= entry_keys(before));
        i = i + 1;
    }
}

/// The state built while going through the arm patterns `prefix`: the
/// trackers hold which constructors are matched, and `m` the argument patterns
/// collected per constructor taking an argument.
spec fn collected(
    prefix: Seq<PView>,
    wa: Seq<Seq<char>>,
    na: Seq<Seq<char>>,
    tw: ConstructorsWithArgTracker,
    tn: NoArgConstructorsTracker,
    m: Seq<(String, Vec<PatternView>)>,
) -> bool {
    &&& tw.wf()
    &&& tw.keys() == dedup(wa)
    &&& forall|j: int| 0 <= j < tw.keys().len() ==>
        #[trigger] tw.flags()[j] == with_arg_names(prefix, wa).contains(tw.keys()[j])
    &&& tn.wf()
    &&& tn.keys() == dedup(na)
    &&& forall|j: int| 0 <= j < tn.keys().len() ==>
        #[trigger] tn.flags()[j] == no_arg_names(prefix, wa, na).contains(tn.keys()[j])
    &&& distinct(entry_keys(m))
    &&& entry_keys(m) == dedup(with_arg_names(prefix, wa))
    &&& forall|j: int| 0 <= j < m.len() ==>
        #[trigger] pviews(m[j].1@) == args_for(prefix, wa, entry_keys(m)[j])
}

/// A pattern that names no constructor leaves the collected state as it is.
proof fn lemma_collected_unnamed<'a>(
    prefix: Seq<PView>,
    v: PView,
    wa: Seq<Seq<char>>,
    na: Seq<Seq<char>>,
    tw: ConstructorsWithArgTracker,
    tn: NoArgConstructorsTracker,
    m: Seq<(String, Vec<PatternView<'a>>)>,
)
    requires
        collected(prefix, wa, na, tw, tn, m),
        constructor_of(v) is None || ({
            let c = constructor_of(v).unwrap();
            !wa.contains(c.0) && !na.contains(c.0)
        }),
    ensures
        collected(prefix.push(v), wa, na, tw, tn, m),
{
    let post = prefix.push(v);
    assert(post.drop_last() =~= prefix);
    assert(with_arg_names(post, wa) =~= with_arg_names(prefix, wa));
    assert(no_arg_names(post, wa, na) =~= no_arg_names(prefix, wa, na));
    assert forall|j: int| 0 <= j < m.len() implies #[trigger] pviews(m[j].1@) == args_for(
        post,
        wa,
        entry_keys(m)[j],
    ) by {
        assert(args_for(post, wa, entry_keys(m)[j]) =~= args_for(prefix, wa, entry_keys(m)[j]));
    }
}

/// Takes one more arm pattern into the collected state (or into `detected`
/// when it catches everything).
fn process_pattern_view<'a>(
    pv: PatternView<'a>,
    detail: &ConstructorDetail,
    Ghost(prefix): Ghost<Seq<PView>>,
    constructors_with_arg: &mut ConstructorsWithArgTracker,
    constructors_with_no_arg: &mut NoArgConstructorsTracker,
    constructor_map_result: &mut Vec<(String, Vec<PatternView<'a>>)>,
    detected: &mut Vec<PatternView<'a>>,
)
    requires
        collected(
            prefix,
            string_views(detail.with_arg_constructors@),
            string_views(detail.no_arg_constructors@),
            *old(constructors_with_arg),
            *old(constructors_with_no_arg),
            old(constructor_map_result)@,
        ),
        old(detected)@.len() == 0,
    ensures
        collected(
            prefix.push(pv@),
            string_views(detail.with_arg_constructors@),
            string_views(detail.no_arg_constructors@),
            *final(constructors_with_arg),
            *final(constructors_with_no_arg),
            final(constructor_map_result)@,
        ),
        final(detected)@.len() <= 1,
        final(detected)@.len() == 1 <==> catch_all_of(pv@) is Some,
        final(detected)@.len() == 1 ==> Some(final(detected)@[0]@) == catch_all_of(pv@),
{
    let ghost wa = string_views(detail.with_arg_constructors@);
    let ghost na = string_views(detail.no_arg_constructors@);
    let ghost post = prefix.push(pv@);
    let ghost w0 = with_arg_names(prefix, wa);
    let ghost n0 = no_arg_names(prefix, wa, na);
    let ghost m0 = constructor_map_result@;
    proof {
        assert(post.drop_last() =~= prefix);
        lemma_dedup(wa);
        lemma_dedup(na);
    }
    match classify(pv) {
        Classified::Constructor(name, args) => {
            if contains_string(&detail.with_arg_constructors, name) {
                let ghost av = pviews(args@);
                let ghost had = entry_keys(m0).contains(name@);
                entries_extend(constructor_map_result, name, args);
                proof {
                    assert(constructors_with_arg.keys().contains(name@));
                }
                constructors_with_arg.register(name);
                proof {
                    assert(with_arg_names(post, wa) == w0 + seq![name@]);
                    assert(no_arg_names(post, wa, na) =~= n0);
                    assert forall|j: int| 0 <= j < constructors_with_arg.keys().len() implies
                        #[trigger] constructors_with_arg.flags()[j] == with_arg_names(post, wa).contains(
                            constructors_with_arg.keys()[j],
                        ) by {
                        lemma_contains_append_one(w0, name@, constructors_with_arg.keys()[j]);
                    }
                    lemma_dedup(w0);
                    assert((w0 + seq![name@]).drop_last() =~= w0);
                    assert forall|k: Seq<char>| #[trigger] args_for(post, wa, k) == args_for(prefix, wa, k) + if k == name@ {
                        av
                    } else {
                        Seq::<PView>::empty()
                    } by {}
                    if had {
                        assert(entry_keys(constructor_map_result@) == entry_keys(m0));
                        assert forall|j: int| 0 <= j < constructor_map_result@.len() implies
                            #[trigger] pviews(constructor_map_result@[j].1@) == args_for(
                                post,
                                wa,
                                entry_keys(constructor_map_result@)[j],
                            ) by {
                            let k = entry_keys(m0)[j];
                            assert(pviews(m0[j].1@) == args_for(prefix, wa, k));
                            if k != name@ {
                                assert(args_for(prefix, wa, k) + Seq::<PView>::empty() =~= args_for(prefix, wa, k));
                            }
                        }
                    } else {
                        assert(entry_keys(constructor_map_result@) == entry_keys(m0).push(name@));
                        assert forall|j: int| 0 <= j < constructor_map_result@.len() implies
                            #[trigger] pviews(constructor_map_result@[j].1@) == args_for(
                                post,
                                wa,
                                entry_keys(constructor_map_result@)[j],
                            ) by {
                            if j < m0.len() {
                                let k = entry_keys(m0)[j];
                                assert(entry_keys(constructor_map_result@)[j] == k);
                                assert(pviews(m0[j].1@) == args_for(prefix, wa, k));
                                assert(k != name@);
                                assert(args_for(prefix, wa, k) + Seq::<PView>::empty() =~= args_for(prefix, wa, k));
                            } else {
                                assert(entry_keys(constructor_map_result@)[j] == name@);
                                assert(!w0.contains(name@));
                                lemma_args_for_unnamed(prefix, wa, name@);
                                assert(Seq::<PView>::empty() + av =~= av);
                            }
                        }
                    }
                }
            } else if contains_string(&detail.no_arg_constructors, name) {
                proof {
                    assert(constructors_with_no_arg.keys().contains(name@));
                }
                constructors_with_no_arg.register(name);
                proof {
                    assert(with_arg_names(post, wa) =~= w0);
                    assert(no_arg_names(post, wa, na) == n0 + seq![name@]);
                    assert forall|j: int| 0 <= j < constructors_with_no_arg.keys().len() implies
                        #[trigger] constructors_with_no_arg.flags()[j] == no_arg_names(post, wa, na).contains(
                            constructors_with_no_arg.keys()[j],
                        ) by {
                        lemma_contains_append_one(n0, name@, constructors_with_no_arg.keys()[j]);
                    }
                    assert forall|j: int| 0 <= j < constructor_map_result@.len() implies
                        #[trigger] pviews(constructor_map_result@[j].1@) == args_for(
                            post,
                            wa,
                            entry_keys(constructor_map_result@)[j],
                        ) by {
                        assert(args_for(post, wa, entry_keys(constructor_map_result@)[j]) =~= args_for(
                            prefix,
                            wa,
                            entry_keys(constructor_map_result@)[j],
                        ));
                    }
                }
            } else {
                proof {
                    lemma_collected_unnamed(prefix, pv@, wa, na, *constructors_with_arg, *constructors_with_no_arg, m0);
                }
            }
        },
        Classified::CatchAll(v) => {
            detected.push(v);
            proof {
                lemma_collected_unnamed(prefix, pv@, wa, na, *constructors_with_arg, *constructors_with_no_arg, m0);
            }
        },
        Classified::Ignored => {
            proof {
                lemma_collected_unnamed(prefix, pv@, wa, na, *constructors_with_arg, *constructors_with_no_arg, m0);
            }
        },
    }
}

/// Checks the arm patterns `patterns` against one set of constructors: an arm
/// after a catch-all is dead code; when some constructors are matched, the
/// others are missing unless the last arm catches everything; otherwise the
/// argument patterns of each matched constructor that takes an argument are
/// collected (with the final catch-all added where they have none of their own).
fn check_exhaustive<'a>(patterns: &Vec<PatternView<'a>>, detail: &ConstructorDetail) -> (r: Result<
    ConstructorPatterns<'a>,
    ExhaustivePatternMatchError<'a>,
>)
    ensures
        outcome_of(r) == spec_check_exhaustive(
            pviews(patterns@),
            string_views(detail.with_arg_constructors@),
            string_views(detail.no_arg_constructors@),
        ),
{
    let ghost ps = pviews(patterns@);
    let ghost wa = string_views(detail.with_arg_constructors@);
    let ghost na = string_views(detail.no_arg_constructors@);
    let mut constructors_with_arg = ConstructorsWithArgTracker::new();
    let mut constructors_with_no_arg = NoArgConstructorsTracker::new();
    let mut detected: Vec<PatternView<'a>> = Vec::new();
    let mut constructor_map_result: Vec<(String, Vec<PatternView<'a>>)> = Vec::new();
    constructors_with_arg.initialise(clone_strings(&detail.with_arg_constructors));
    constructors_with_no_arg.initialise(clone_strings(&detail.no_arg_constructors));
    proof {
        lemma_add_keys_to_empty(wa);
        lemma_add_keys_to_empty(na);
        assert(ps.take(0) =~= Seq::<PView>::empty());
        assert(entry_keys(constructor_map_result@) =~= Seq::<Seq<char>>::empty());
    }
    let n = patterns.len();
    let mut i: usize = 0;
    while i < n
        invariant
            n == patterns@.len(),
            ps == pviews(patterns@),
            wa == string_views(detail.with_arg_constructors@),
            na == string_views(detail.no_arg_constructors@),
            i <= n,
            collected(
                ps.take(i as int),
                wa,
                na,
                constructors_with_arg,
                constructors_with_no_arg,
                constructor_map_result@,
            ),
            forall|j: int| 0 <= j < i - 1 ==> (#[trigger] catch_all_of(ps[j])) is None,
            detected@.len() <= 1,
            detected@.len() == 1 <==> (i > 0 && catch_all_of(ps[i - 1]) is Some),
            detected@.len() == 1 ==> Some(detected@[0]@) == catch_all_of(ps[i - 1]),
        decreases n - i,
    {
        if detected.len() > 0 {
            proof {
                let k = first_catch_all(ps);
                assert(catch_all_of(ps[i - 1]) is Some);
                assert(has_early_catch_all(ps));
                assert(0 <= k < ps.len() && catch_all_of(ps[k]) is Some && forall|j: int|
                    0 <= j < k ==> (#[trigger] catch_all_of(ps[j])) is None);
                if k < i - 1 {
                    assert(catch_all_of(ps[k]) is None);
                }
                if k > i - 1 {
                    assert(catch_all_of(ps[i - 1]) is None);
                }
            }
            return Err(ExhaustivePatternMatchError::DeadCode { cause: detected[0], dead_pattern: patterns[i] });
        }
        proof {
            assert(ps.take(i + 1) =~= ps.take(i as int).push(patterns@[i as int]@));
        }
        process_pattern_view(
            patterns[i],
            detail,
            Ghost(ps.take(i as int)),
            &mut constructors_with_arg,
            &mut constructors_with_no_arg,
            &mut constructor_map_result,
            &mut detected,
        );
        i = i + 1;
    }
    proof {
        assert(ps.take(n as int) =~= ps);
        assert(!has_early_catch_all(ps));
        assert(ends_with_catch_all(ps) <==> detected@.len() == 1);
    }
    let ghost w = with_arg_names(ps, wa);
    let ghost nn = no_arg_names(ps, wa, na);
    let any_with = constructors_with_arg.registered_any();
    let any_no = constructors_with_no_arg.registered_any();
    proof {
        lemma_dedup(wa);
        lemma_dedup(na);
        let kw = constructors_with_arg.keys();
        let kn = constructors_with_no_arg.keys();
        if w.len() > 0 {
            lemma_with_arg_names_within(ps, wa, w[0]);
            assert(w.contains(w[0]));
            assert(kw.contains(w[0]));
            let j = choose|j: int| 0 <= j < kw.len() && kw[j] == w[0];
            assert(constructors_with_arg.flags()[j]);
        }
        if any_with {
            let j = choose|j: int| 0 <= j < kw.len() && #[trigger] constructors_with_arg.flags()[j];
            assert(w.contains(kw[j]));
        }
        if nn.len() > 0 {
            lemma_no_arg_names_within(ps, wa, na, nn[0]);
            assert(nn.contains(nn[0]));
            assert(kn.contains(nn[0]));
            let j = choose|j: int| 0 <= j < kn.len() && kn[j] == nn[0];
            assert(constructors_with_no_arg.flags()[j]);
        }
        if any_no {
            let j = choose|j: int| 0 <= j < kn.len() && #[trigger] constructors_with_no_arg.flags()[j];
            assert(nn.contains(kn[j]));
        }
    }
    if any_with || any_no {
        let all_with_arg_covered = constructors_with_arg.registered_all();
        let all_no_arg_covered = constructors_with_no_arg.registered_all();
        proof {
            let kw = constructors_with_arg.keys();
            let kn = constructors_with_no_arg.keys();
            if all_with_arg_covered {
                assert forall|k: Seq<char>| wa.contains(k) implies w.contains(k) by {
                    assert(kw.contains(k));
                    let j = choose|j: int| 0 <= j < kw.len() && kw[j] == k;
                    assert(constructors_with_arg.flags()[j]);
                }
            } else {
                let j = choose|j: int| 0 <= j < kw.len() && !#[trigger] constructors_with_arg.flags()[j];
                assert(kw.contains(kw[j]));
                assert(wa.contains(kw[j]));
                assert(!w.contains(kw[j]));
            }
            if all_no_arg_covered {
                assert forall|k: Seq<char>| na.contains(k) implies nn.contains(k) by {
                    assert(kn.contains(k));
                    let j = choose|j: int| 0 <= j < kn.len() && kn[j] == k;
                    assert(constructors_with_no_arg.flags()[j]);
                }
            } else {
                let j = choose|j: int| 0 <= j < kn.len() && !#[trigger] constructors_with_no_arg.flags()[j];
                assert(kn.contains(kn[j]));
                assert(na.contains(kn[j]));
                assert(!nn.contains(kn[j]));
            }
        }
        if (!all_with_arg_covered || !all_no_arg_covered) && detected.len() == 0 {
            let mut missing_constructors = constructors_with_arg.unregistered_constructors();
            let mut missing_no_arg_constructors = constructors_with_no_arg.unregistered_constructors();
            let ghost m1 = missing_constructors@;
            let ghost m2 = missing_no_arg_constructors@;
            missing_constructors.append(&mut missing_no_arg_constructors);
            proof {
                lemma_false_keys_unmatched(constructors_with_arg.keys(), constructors_with_arg.flags(), w);
                lemma_false_keys_unmatched(constructors_with_no_arg.keys(), constructors_with_no_arg.flags(), nn);
                assert(string_views(missing_constructors@) =~= string_views(m1) + string_views(m2));
            }
            return Err(ExhaustivePatternMatchError::MissingConstructors { missing_constructors });
        }
    }
    let ghost m = constructor_map_result@;
    if constructor_map_result.len() > 0 && detected.len() > 0 {
        extend_with_catch_all(&mut constructor_map_result, detected[0]);
    }
    proof {
        let spec_entries = dedup(w).map_values(
            |k: Seq<char>| (k, args_for(ps, wa, k) + catch_all_extension(ps, args_for(ps, wa, k))),
        );
        assert forall|j: int| 0 <= j < spec_entries.len() implies #[trigger] entries_view(constructor_map_result@)[j] == spec_entries[j] by {
            let k = entry_keys(m)[j];
            assert(entry_keys(constructor_map_result@)[j] == k);
            assert(pviews(m[j].1@) == args_for(ps, wa, k));
            if m.len() > 0 && detected@.len() > 0 {
                assert(pviews(constructor_map_result@[j].1@) =~= args_for(ps, wa, k) + catch_all_extension(ps, args_for(ps, wa, k)));
            } else {
                assert(pviews(constructor_map_result@[j].1@) =~= args_for(ps, wa, k) + catch_all_extension(ps, args_for(ps, wa, k)));
            }
        }
        assert(entries_view(constructor_map_result@) =~= spec_entries);
    }
    Ok(ConstructorPatterns(constructor_map_result))
}

/// Constructors nest at most `d` deep in every view of `ps`.
pub open spec fn seq_bounded(ps: Seq<PView>, d: nat) -> bool {
    forall|i: int| 0 <= i < ps.len() ==> view_bounded(#[trigger] ps[i], d)
}

/// The depth to which constructors nest in the views of `ps` (the least bound).
pub open spec fn nesting(ps: Seq<PView>) -> nat {
    choose|d: nat| seq_bounded(ps, d) && forall|e: nat| e < d ==> !seq_bounded(ps, e)
}

proof fn lemma_seq_bounded_exists(ps: Seq<PView>) -> (d: nat)
    ensures
        seq_bounded(ps, d),
    decreases ps.len(),
{
    if ps.len() == 0 {
        0
    } else {
        let d1 = lemma_seq_bounded_exists(ps.drop_last());
        let d2 = match ps.last() {
            PView::Node(p) => lemma_pattern_bounded(p),
            PView::Arg(l) => lemma_literal_bounded(l),
        };
        let d = if d1 < d2 { d2 } else { d1 };
        assert forall|i: int| 0 <= i < ps.len() implies view_bounded(#[trigger] ps[i], d) by {
            if i < ps.len() - 1 {
                assert(ps.drop_last()[i] == ps[i]);
                crate::type_checker::pattern::lemma_view_bounded_mono(ps[i], d1, d);
            } else {
                crate::type_checker::pattern::lemma_view_bounded_mono(ps[i], d2, d);
            }
        }
        d
    }
}

proof fn lemma_least_bound(ps: Seq<PView>, d: nat)
    requires
        seq_bounded(ps, d),
    ensures
        exists|m: nat| seq_bounded(ps, m) && forall|e: nat| e < m ==> !seq_bounded(ps, e),
    decreases d,
{
    if exists|e: nat| e < d && seq_bounded(ps, e) {
        let e = choose|e: nat| e < d && seq_bounded(ps, e);
        lemma_least_bound(ps, e);
    } else {
        assert(seq_bounded(ps, d) && forall|e: nat| e < d ==> !seq_bounded(ps, e));
    }
}

/// `nesting` is a bound, and the least one.
pub proof fn lemma_nesting(ps: Seq<PView>)
    ensures
        seq_bounded(ps, nesting(ps)),
        forall|e: nat| seq_bounded(ps, e) ==> nesting(ps) <= e,
{
    let d = lemma_seq_bounded_exists(ps);
    lemma_least_bound(ps, d);
}

/// The argument patterns collected for a constructor are nested one level less.
proof fn lemma_args_for_bounded(ps: Seq<PView>, wa: Seq<Seq<char>>, k: Seq<char>, d: nat)
    requires
        seq_bounded(ps, d),
    ensures
        seq_bounded(args_for(ps, wa, k), (d - 1) as nat),
        args_for(ps, wa, k).len() > 0 ==> d > 0,
    decreases ps.len(),
{
    if ps.len() > 0 {
        let pre = ps.drop_last();
        assert(seq_bounded(pre, d)) by {
            assert forall|i: int| 0 <= i < pre.len() implies view_bounded(#[trigger] pre[i], d) by {
                assert(pre[i] == ps[i]);
            }
        }
        lemma_args_for_bounded(pre, wa, k, d);
        let a = args_for(pre, wa, k);
        assert(view_bounded(ps[ps.len() - 1], d));
        match constructor_of(ps.last()) {
            Some(c) => {
                if c.0 == k && wa.contains(k) {
                    assert forall|i: int| 0 <= i < (a + c.1).len() implies view_bounded(#[trigger] (a + c.1)[i], (d - 1) as nat) by {
                        if i < a.len() {
                            assert((a + c.1)[i] == a[i]);
                        } else {
                            assert((a + c.1)[i] == c.1[i - a.len()]);
                        }
                    }
                } else {
                    assert(a + Seq::<PView>::empty() =~= a);
                }
            },
            None => {
                assert(a + Seq::<PView>::empty() =~= a);
            },
        }
    }
}

/// A constructor is named by the patterns only when they contain one.
proof fn lemma_with_arg_names_bounded(ps: Seq<PView>, wa: Seq<Seq<char>>, d: nat)
    requires
        seq_bounded(ps, d),
        with_arg_names(ps, wa).len() > 0,
    ensures
        d > 0,
    decreases ps.len(),
{
    let pre = ps.drop_last();
    assert(view_bounded(ps[ps.len() - 1], d));
    if with_arg_names(pre, wa).len() > 0 {
        assert(seq_bounded(pre, d)) by {
            assert forall|i: int| 0 <= i < pre.len() implies view_bounded(#[trigger] pre[i], d) by {
                assert(pre[i] == ps[i]);
            }
        }
        lemma_with_arg_names_bounded(pre, wa, d);
    }
}

/// The argument patterns that one check hands down are nested less deeply than the arms.
proof fn lemma_covered_bounded(ps: Seq<PView>, wa: Seq<Seq<char>>, na: Seq<Seq<char>>, d: nat)
    requires
        seq_bounded(ps, d),
        spec_check_exhaustive(ps, wa, na) is Covered,
    ensures
        ({
            let m = spec_check_exhaustive(ps, wa, na)->Covered_0;
            &&& m.len() > 0 ==> d > 0
            &&& forall|k: int| 0 <= k < m.len() ==> seq_bounded(#[trigger] m[k].1, (d - 1) as nat)
        }),
{
    let rw = with_arg_names(ps, wa);
    let m = spec_check_exhaustive(ps, wa, na)->Covered_0;
    lemma_dedup(rw);
    if m.len() > 0 {
        assert(dedup(rw).len() > 0);
        assert(rw.contains(dedup(rw)[0]));
        lemma_with_arg_names_bounded(ps, wa, d);
    }
    assert forall|k: int| 0 <= k < m.len() implies seq_bounded(#[trigger] m[k].1, (d - 1) as nat) by {
        let key = dedup(rw)[k];
        let a = args_for(ps, wa, key);
        lemma_args_for_bounded(ps, wa, key, d);
        let ext = catch_all_extension(ps, a);
        if ext.len() > 0 {
            lemma_catch_all_unnamed(ps.last());
            assert(view_bounded(ext[0], (d - 1) as nat));
        }
        assert forall|i: int| 0 <= i < (a + ext).len() implies view_bounded(#[trigger] (a + ext)[i], (d - 1) as nat) by {
            if i < a.len() {
                assert((a + ext)[i] == a[i]);
            } else {
                assert((a + ext)[i] == ext[i - a.len()]);
            }
        }
    }
}

/// The constructor details to try in turn: each is tried while the ones before
/// it matched nothing.
pub open spec fn spec_run_details(ps: Seq<PView>, ds: Seq<(Seq<Seq<char>>, Seq<Seq<char>>)>) -> CheckOutcome
    decreases ds.len(),
{
    if ds.len() == 0 {
        CheckOutcome::Covered(seq![])
    } else {
        let r = spec_run_details(ps, ds.drop_last());
        if r matches CheckOutcome::Covered(m) && m.len() == 0 {
            spec_check_exhaustive(ps, ds.last().0, ds.last().1)
        } else {
            r
        }
    }
}

pub proof fn lemma_run_details_bounded(ps: Seq<PView>, ds: Seq<(Seq<Seq<char>>, Seq<Seq<char>>)>, d: nat)
    requires
        seq_bounded(ps, d),
        spec_run_details(ps, ds) is Covered,
    ensures
        ({
            let m = spec_run_details(ps, ds)->Covered_0;
            &&& m.len() > 0 ==> d > 0
            &&& forall|k: int| 0 <= k < m.len() ==> seq_bounded(#[trigger] m[k].1, (d - 1) as nat)
        }),
    decreases ds.len(),
{
    if ds.len() > 0 {
        let r = spec_run_details(ps, ds.drop_last());
        if r matches CheckOutcome::Covered(m) && m.len() == 0 {
            lemma_covered_bounded(ps, ds.last().0, ds.last().1, d);
        } else {
            lemma_run_details_bounded(ps, ds.drop_last(), d);
        }
    }
}

/// What exhaustiveness checking needs to know of the type of the matched value.
pub enum ScrutineeType {
    /// The type is not known yet.
    Unknown,
    Option,
    Result,
    /// A variant: its cases, with the type of the value each carries, if any.
    Variant(Vec<(String, Option<WitType>)>),
    /// An enum: its cases.
    Enum(Vec<String>),
    /// Any other type.
    Other,
}

/// The views of a constructor detail: the constructors with and without argument.
pub open spec fn detail_view(d: ConstructorDetail) -> (Seq<Seq<char>>, Seq<Seq<char>>) {
    (string_views(d.with_arg_constructors@), string_views(d.no_arg_constructors@))
}

/// The views of a list of constructor details.
pub open spec fn detail_views(ds: Seq<ConstructorDetail>) -> Seq<(Seq<Seq<char>>, Seq<Seq<char>>)> {
    ds.map_values(|d: ConstructorDetail| detail_view(d))
}

/// The constructors of a scrutinee of the given type, when the type has any:
/// an option, a result, a variant or an enum.
pub open spec fn specific_details(scrutinee: Option<ScrutineeType>) -> Option<(Seq<Seq<char>>, Seq<Seq<char>>)> {
    match scrutinee {
        Some(ScrutineeType::Option) => Some((seq!["some"@], seq!["none"@])),
        Some(ScrutineeType::Result) => Some((seq!["ok"@, "err"@], Seq::<Seq<char>>::empty())),
        Some(ScrutineeType::Variant(cases)) => Some((case_names_where(cases@, true), case_names_where(cases@, false))),
        Some(ScrutineeType::Enum(cases)) => Some((Seq::<Seq<char>>::empty(), string_views(cases@))),
        _ => None,
    }
}

/// The constructors to check the arms against, for a scrutinee of the given
/// type: those of the type when it has any, otherwise the fallback list.
pub open spec fn spec_details(
    scrutinee: Option<ScrutineeType>,
    fallback: Seq<(Seq<Seq<char>>, Seq<Seq<char>>)>,
) -> Seq<(Seq<Seq<char>>, Seq<Seq<char>>)> {
    match specific_details(scrutinee) {
        Some(d) => seq![d],
        None => fallback,
    }
}

/// Why a `match` fails the check.
pub enum MatchFailure {
    DeadCode { cause: PView, dead_pattern: PView },
    Missing(Seq<Seq<char>>),
}

/// The missing constructors of an argument, each written inside the
/// constructor `field` that holds it: `field(missing)`.
pub open spec fn nest_missing(field: Seq<char>, missing: Seq<Seq<char>>) -> Seq<Seq<char>> {
    missing.map_values(|m: Seq<char>| field + "("@ + m + ")"@)
}

/// The number of constructors whose argument patterns a check hands down.
pub open spec fn handed_down(ps: Seq<PView>, scrutinee: Option<ScrutineeType>, fallback: Seq<(Seq<Seq<char>>, Seq<Seq<char>>)>) -> int {
    match spec_run_details(ps, spec_details(scrutinee, fallback)) {
        CheckOutcome::Covered(m) => m.len() as int,
        _ => 0,
    }
}

/// The result of checking the arms `ps` of a `match` on a scrutinee of the
/// given type, where the argument patterns handed down for the constructors
/// before the `k`-th are known to pass.
pub open spec fn spec_check_match(
    ps: Seq<PView>,
    scrutinee: Option<ScrutineeType>,
    fallback: Seq<(Seq<Seq<char>>, Seq<Seq<char>>)>,
    k: int,
) -> Result<(), MatchFailure>
    decreases nesting(ps), handed_down(ps, scrutinee, fallback) - k,
{
    match spec_run_details(ps, spec_details(scrutinee, fallback)) {
        CheckOutcome::DeadCode { cause, dead_pattern } => Err(MatchFailure::DeadCode { cause, dead_pattern }),
        CheckOutcome::Missing(missing) => Err(MatchFailure::Missing(missing)),
        CheckOutcome::Covered(m) => if k < 0 || k >= m.len() {
            Ok(())
        } else {
            proof {
                lemma_nesting(ps);
                lemma_run_details_bounded(ps, spec_details(scrutinee, fallback), nesting(ps));
                lemma_nesting(m[k].1);
            }
            match spec_check_match(m[k].1, None, fallback, 0) {
                Err(MatchFailure::Missing(missing)) => Err(MatchFailure::Missing(nest_missing(m[k].0, missing))),
                Err(e) => Err(e),
                Ok(()) => spec_check_match(ps, scrutinee, fallback, k + 1),
            }
        },
    }
}

/// The failure a check result stands for.
pub open spec fn failure_of<'a>(r: Result<(), ExhaustivePatternMatchError<'a>>) -> Result<(), MatchFailure> {
    match r {
        Ok(()) => Ok(()),
        Err(ExhaustivePatternMatchError::MissingConstructors { missing_constructors }) => Err(
            MatchFailure::Missing(string_views(missing_constructors@)),
        ),
        Err(ExhaustivePatternMatchError::DeadCode { cause, dead_pattern }) => Err(
            MatchFailure::DeadCode { cause: cause@, dead_pattern: dead_pattern@ },
        ),
    }
}

/// The scrutinee type behind an optional reference.
pub open spec fn opt_scrutinee(s: Option<&ScrutineeType>) -> Option<ScrutineeType> {
    match s {
        Some(t) => Some(*t),
        None => None,
    }
}

/// The constructors of a scrutinee of the given type, when the type has any
/// (an option, a result, a variant or an enum); `None` when the fallback list
/// of every known constructor is to be used instead.
fn constructor_details_for_scrutinee(scrutinee: Option<&ScrutineeType>) -> (r: Option<ConstructorDetail>)
    ensures
        match r {
            Some(d) => specific_details(opt_scrutinee(scrutinee)) == Some(detail_view(d)),
            None => specific_details(opt_scrutinee(scrutinee)) is None,
        },
{
    match scrutinee {
        None => None,
        Some(ty) => match ty {
            ScrutineeType::Option => Some(ConstructorDetail::option()),
            ScrutineeType::Result => {
                let d = ConstructorDetail::result();
                assert(string_views(d.no_arg_constructors@) =~= Seq::<Seq<char>>::empty());
                Some(d)
            },
            ScrutineeType::Variant(cases) => Some(ConstructorDetail::from_inferred_variant_cases(cases.as_slice())),
            ScrutineeType::Enum(cases) => {
                let d = ConstructorDetail::from_enum_cases(cases.as_slice());
                assert(string_views(d.with_arg_constructors@) =~= Seq::<Seq<char>>::empty());
                Some(d)
            },
            _ => None,
        },
    }
}

/// The view of the constructor detail of a WIT variant.
pub open spec fn variant_detail_view(v: TypeVariant) -> (Seq<Seq<char>>, Seq<Seq<char>>) {
    (variant_case_names_where(v.cases@, true), variant_case_names_where(v.cases@, false))
}

/// The constructors every `match` may be checked against when the type of
/// its scrutinee gives none: those of options, of each of the given variants,
/// then those of options again and of results.
fn fallback_full(variants: Vec<TypeVariant>) -> (r: Vec<ConstructorDetail>)
    ensures
        detail_views(r@) == seq![(seq!["some"@], seq!["none"@])] + variants@.map_values(
            |v: TypeVariant| variant_detail_view(v),
        ) + seq![(seq!["some"@], seq!["none"@]), (seq!["ok"@, "err"@], Seq::<Seq<char>>::empty())],
{
    let ghost vs = variants@;
    let mut constructor_details: Vec<ConstructorDetail> = Vec::new();
    constructor_details.push(ConstructorDetail::option());
    let mut rest = variants;
    let mut taken: Vec<ConstructorDetail> = Vec::new();
    while rest.len() > 0
        invariant
            rest@ == vs.take(rest@.len() as int),
            taken@.len() + rest@.len() == vs.len(),
            forall|j: int| 0 <= j < taken@.len() ==>
                detail_view(#[trigger] taken@[j]) == variant_detail_view(vs[vs.len() - 1 - j]),
        decreases rest@.len(),
    {
        let v = rest.pop().unwrap();
        taken.push(ConstructorDetail::from_variant(v));
    }
    while taken.len() > 0
        invariant
            constructor_details@.len() + taken@.len() == vs.len() + 1,
            constructor_details@.len() >= 1,
            detail_view(constructor_details@[0]) == (seq!["some"@], seq!["none"@]),
            forall|j: int| 0 <= j < taken@.len() ==>
                detail_view(#[trigger] taken@[j]) == variant_detail_view(vs[vs.len() - 1 - j]),
            forall|j: int| 1 <= j < constructor_details@.len() ==>
                detail_view(#[trigger] constructor_details@[j]) == variant_detail_view(vs[j - 1]),
        decreases taken@.len(),
    {
        let ghost last = taken@.len() - 1;
        assert(detail_view(taken@[last]) == variant_detail_view(vs[vs.len() - 1 - last]));
        let d = taken.pop().unwrap();
        constructor_details.push(d);
    }
    constructor_details.push(ConstructorDetail::option());
    constructor_details.push(ConstructorDetail::result());
    let ghost expected = seq![(seq!["some"@], seq!["none"@])] + vs.map_values(
        |v: TypeVariant| variant_detail_view(v),
    ) + seq![(seq!["some"@], seq!["none"@]), (seq!["ok"@, "err"@], Seq::<Seq<char>>::empty())];
    assert forall|j: int| 0 <= j < expected.len() implies #[trigger] detail_views(constructor_details@)[j] == expected[j] by {
        if 1 <= j <= vs.len() {
            assert(detail_view(constructor_details@[j]) == variant_detail_view(vs[j - 1]));
        }
    }
    assert(detail_views(constructor_details@) =~= seq![(seq!["some"@], seq!["none"@])] + vs.map_values(
        |v: TypeVariant| variant_detail_view(v),
    ) + seq![(seq!["some"@], seq!["none"@]), (seq!["ok"@, "err"@], Seq::<Seq<char>>::empty())]);
    constructor_details
}

/// Precomputed list used when exhaustive checking must consider every WIT
/// variant: those of options, results, and the given variants of the
/// component. Built once per type check and shared across all `match`
/// expressions and recursive inner checks.
pub fn build_fallback_constructor_details(variants: Vec<TypeVariant>) -> (r: Vec<ConstructorDetail>)
    ensures
        detail_views(r@) == seq![(seq!["some"@], seq!["none"@])] + variants@.map_values(
            |v: TypeVariant| variant_detail_view(v),
        ) + seq![(seq!["some"@], seq!["none"@]), (seq!["ok"@, "err"@], Seq::<Seq<char>>::empty())],
{
    fallback_full(variants)
}

/// The missing constructors of an argument, each written inside the constructor `field` that holds it.
fn nest_names(field: &String, missing: &Vec<String>) -> (r: Vec<String>)
    ensures
        string_views(r@) == nest_missing(field@, string_views(missing@)),
{
    let mut r: Vec<String> = Vec::new();
    let mut i: usize = 0;
    while i < missing.len()
        invariant
            i <= missing@.len(),
            r@.len() == i,
            forall|j: int| 0 <= j < i ==> #[trigger] r@[j]@ == field@ + "("@ + missing@[j]@ + ")"@,
        decreases missing@.len() - i,
    {
        let mut s = field.clone();
        s.append("(");
        s.append(missing[i].as_str());
        s.append(")");
        r.push(s);
        i = i + 1;
    }
    assert(string_views(r@) =~= nest_missing(field@, string_views(missing@)));
    r
}


/// One step of `spec_check_match`: the argument patterns of the `k`-th matched constructor.
proof fn lemma_check_match_step(
    ps: Seq<PView>,
    sc: Option<ScrutineeType>,
    fb: Seq<(Seq<Seq<char>>, Seq<Seq<char>>)>,
    m: Seq<(Seq<char>, Seq<PView>)>,
    k: int,
)
    requires
        spec_run_details(ps, spec_details(sc, fb)) == CheckOutcome::Covered(m),
    ensures
        0 <= k < m.len() ==> spec_check_match(ps, sc, fb, k) == match spec_check_match(m[k].1, None, fb, 0) {
            Err(MatchFailure::Missing(missing)) => Err(MatchFailure::Missing(nest_missing(m[k].0, missing))),
            Err(e) => Err(e),
            Ok(()) => spec_check_match(ps, sc, fb, k + 1),
        },
        k == m.len() ==> spec_check_match(ps, sc, fb, k) == Ok::<(), MatchFailure>(()),
{
}

/// The arms fail when the check against the constructors fails.
proof fn lemma_check_match_fails(
    ps: Seq<PView>,
    sc: Option<ScrutineeType>,
    fb: Seq<(Seq<Seq<char>>, Seq<Seq<char>>)>,
)
    ensures
        spec_run_details(ps, spec_details(sc, fb)) matches CheckOutcome::DeadCode { cause, dead_pattern }
            ==> spec_check_match(ps, sc, fb, 0) == Err::<(), MatchFailure>(MatchFailure::DeadCode { cause, dead_pattern }),
        spec_run_details(ps, spec_details(sc, fb)) matches CheckOutcome::Missing(missing)
            ==> spec_check_match(ps, sc, fb, 0) == Err::<(), MatchFailure>(MatchFailure::Missing(missing)),
{
}

/// Checking against a single set of constructors.
proof fn lemma_run_single(ps: Seq<PView>, d: (Seq<Seq<char>>, Seq<Seq<char>>))
    ensures
        spec_run_details(ps, seq![d]) == spec_check_exhaustive(ps, d.0, d.1),
{
    let e = Seq::<(Seq<Seq<char>>, Seq<Seq<char>>)>::empty();
    assert(spec_run_details(ps, e) == CheckOutcome::Covered(Seq::<(Seq<char>, Seq<PView>)>::empty()));
    assert(seq![d].drop_last() =~= e);
    assert(seq![d].last() == d);
}

/// Checks the arm patterns `arms` of a `match` whose scrutinee has the given
/// type (`None` for the argument patterns handed down by an outer check): the
/// constructors of the type, or else the fallback constructors one after the
/// other, are checked against the arms; then the argument patterns collected
/// for each matched constructor are checked in turn, their missing
/// constructors being reported inside the constructor that holds them.
#[verifier::rlimit(50)]
pub fn check_exhaustive_pattern_match<'a>(
    scrutinee_type: Option<&ScrutineeType>,
    arms: &Vec<PatternView<'a>>,
    fallback_cached: &Vec<ConstructorDetail>,
) -> (r: Result<(), ExhaustivePatternMatchError<'a>>)
    ensures
        failure_of(r) == spec_check_match(
            pviews(arms@),
            opt_scrutinee(scrutinee_type),
            detail_views(fallback_cached@),
            0,
        ),
    decreases nesting(pviews(arms@)),
{
    let ghost ps = pviews(arms@);
    let ghost sc = opt_scrutinee(scrutinee_type);
    let ghost fb = detail_views(fallback_cached@);
    let ghost ds = spec_details(sc, fb);
    let specific = constructor_details_for_scrutinee(scrutinee_type);
    let mut exhaustive_check_result: Result<ConstructorPatterns<'a>, ExhaustivePatternMatchError<'a>> = Ok(
        ConstructorPatterns(Vec::new()),
    );
    match specific {
        Some(detail) => {
            exhaustive_check_result = check_exhaustive(arms, &detail);
            proof {
                assert(ds == seq![detail_view(detail)]);
                lemma_run_single(ps, detail_view(detail));
            }
        },
        None => {
            proof {
                assert(ds == fb);
                assert(fb.take(0) =~= Seq::<(Seq<Seq<char>>, Seq<Seq<char>>)>::empty());
                assert(entries_view(Seq::<(String, Vec<PatternView<'a>>)>::empty()) =~= Seq::<(Seq<char>, Seq<PView>)>::empty());
            }
            let mut i: usize = 0;
            while i < fallback_cached.len()
                invariant
                    i <= fallback_cached@.len(),
                    ps == pviews(arms@),
                    fb == detail_views(fallback_cached@),
                    outcome_of(exhaustive_check_result) == spec_run_details(ps, fb.take(i as int)),
                decreases fallback_cached@.len() - i,
            {
                proof {
                    assert(fb.take(i + 1).drop_last() =~= fb.take(i as int));
                    assert(fb.take(i + 1).last() == detail_view(fallback_cached@[i as int]));
                }
                let run_next = match &exhaustive_check_result {
                    Ok(result) => result.is_empty(),
                    Err(_) => false,
                };
                if run_next {
                    exhaustive_check_result = check_exhaustive(arms, &fallback_cached[i]);
                }
                i = i + 1;
            }
            proof {
                assert(fb.take(fallback_cached@.len() as int) =~= fb);
            }
        },
    }
    assert(outcome_of(exhaustive_check_result) == spec_run_details(ps, ds));
    proof {
        lemma_check_match_fails(ps, sc, fb);
    }
    let inner_constructors = match exhaustive_check_result {
        Ok(m) => m,
        Err(e) => {
            return Err(e);
        },
    };
    let ghost m = entries_view(inner_constructors.0@);
    proof {
        lemma_nesting(ps);
        lemma_run_details_bounded(ps, ds, nesting(ps));
    }
    let mut j: usize = 0;
    while j < inner_constructors.0.len()
        invariant
            j <= inner_constructors.0@.len(),
            ps == pviews(arms@),
            sc == opt_scrutinee(scrutinee_type),
            m == entries_view(inner_constructors.0@),
            spec_run_details(ps, ds) == CheckOutcome::Covered(m),
            ds == spec_details(sc, fb),
            fb == detail_views(fallback_cached@),
            m.len() > 0 ==> nesting(ps) > 0,
            forall|k: int| 0 <= k < m.len() ==> seq_bounded(#[trigger] m[k].1, (nesting(ps) - 1) as nat),
            spec_check_match(ps, sc, fb, 0) == spec_check_match(ps, sc, fb, j as int),
        decreases inner_constructors.0@.len() - j,
    {
        let entry = &inner_constructors.0[j];
        proof {
            assert(m[j as int] == (entry.0@, pviews(entry.1@)));
            assert(seq_bounded(pviews(entry.1@), (nesting(ps) - 1) as nat));
            lemma_nesting(pviews(entry.1@));
            lemma_check_match_step(ps, sc, fb, m, j as int);
            lemma_check_match_step(ps, sc, fb, m, j + 1);
        }
        match check_exhaustive_pattern_match(None, &entry.1, fallback_cached) {
            Ok(()) => {},
            Err(ExhaustivePatternMatchError::MissingConstructors { missing_constructors }) => {
                assert(spec_check_match(m[j as int].1, None, fb, 0) == Err::<(), MatchFailure>(
                    MatchFailure::Missing(string_views(missing_constructors@)),
                ));
                let nested = nest_names(&entry.0, &missing_constructors);
                return Err(ExhaustivePatternMatchError::MissingConstructors { missing_constructors: nested });
            },
            Err(other) => {
                return Err(other);
            },
        }
        j = j + 1;
    }
    proof {
        lemma_check_match_step(ps, sc, fb, m, j as int);
    }
    Ok(())
}

/// Checks the arms of a `match` whose scrutinee has type `scrutinee_type`,
/// against the fallback constructors `fallback_cached` when the type has none
/// of its own.
pub fn check_exhaustive_pattern_match_with_arms<'a>(
    scrutinee_type: &ScrutineeType,
    arm_patterns: &'a Vec<ArmPattern>,
    fallback_cached: &Vec<ConstructorDetail>,
) -> (r: Result<(), ExhaustivePatternMatchError<'a>>)
    ensures
        failure_of(r) == spec_check_match(
            arm_patterns@.map_values(|p: ArmPattern| PView::Node(p)),
            Some(*scrutinee_type),
            detail_views(fallback_cached@),
            0,
        ),
{
    let mut arms: Vec<PatternView<'a>> = Vec::new();
    let mut i: usize = 0;
    while i < arm_patterns.len()
        invariant
            i <= arm_patterns@.len(),
            arms@.len() == i,
            forall|j: int| 0 <= j < i ==> (#[trigger] arms@[j])@ == PView::Node(arm_patterns@[j]),
        decreases arm_patterns@.len() - i,
    {
        arms.push(PatternView::Node(&arm_patterns[i]));
        i = i + 1;
    }
    assert(pviews(arms@) =~= arm_patterns@.map_values(|p: ArmPattern| PView::Node(p)));
    check_exhaustive_pattern_match(Some(scrutinee_type), &arms, fallback_cached)
}

} // verus!
