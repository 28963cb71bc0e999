//! Properties that hold across the operations on `AnalysedType` and `WitFunction`.

use super::{AnalysedResourceMode, WitFunction, AnalysedType};
use crate::text::opt_string_view;
use vstd::prelude::*;

verus! {

/// Setting the name of a type makes `name()` report exactly that name when the
/// kind has a name slot (and nothing otherwise), and leaves the owner, the kind
/// and the presence of handles unchanged.
pub proof fn lemma_with_optional_name_sets_only_name(t: AnalysedType, name: Option<String>)
    ensures
        t.spec_with_optional_name(name).spec_name() == (if t.has_name_slot() { name } else { None }),
        t.spec_with_optional_name(name).spec_owner() == t.spec_owner(),
        t.spec_with_optional_name(name).has_name_slot() == t.has_name_slot(),
        t.spec_with_optional_name(name).spec_kind_label() == t.spec_kind_label(),
        t.spec_with_optional_name(name).spec_contains_handle() == t.spec_contains_handle(),
{
    let r = t.spec_with_optional_name(name);
    match t {
        AnalysedType::Variant(x) => assert(r->Variant_0.cases == x.cases),
        AnalysedType::Record(x) => assert(r->Record_0.fields == x.fields),
        AnalysedType::Tuple(x) => assert(r->Tuple_0.items == x.items),
        _ => {},
    }
}

/// Setting the owner of a type makes `owner()` report exactly that owner when
/// the kind has an owner slot (and nothing otherwise), and leaves the name, the
/// kind and the presence of handles unchanged.
pub proof fn lemma_with_optional_owner_sets_only_owner(t: AnalysedType, owner: Option<String>)
    ensures
        t.spec_with_optional_owner(owner).spec_owner() == (if t.has_name_slot() { owner } else { None }),
        t.spec_with_optional_owner(owner).spec_name() == t.spec_name(),
        t.spec_with_optional_owner(owner).has_name_slot() == t.has_name_slot(),
        t.spec_with_optional_owner(owner).spec_kind_label() == t.spec_kind_label(),
        t.spec_with_optional_owner(owner).spec_contains_handle() == t.spec_contains_handle(),
{
    let r = t.spec_with_optional_owner(owner);
    match t {
        AnalysedType::Variant(x) => assert(r->Variant_0.cases == x.cases),
        AnalysedType::Record(x) => assert(r->Record_0.fields == x.fields),
        AnalysedType::Tuple(x) => assert(r->Tuple_0.items == x.items),
        _ => {},
    }
}

/// Of two successive renamings only the last one is visible.
pub proof fn lemma_with_optional_name_last_wins(t: AnalysedType, a: Option<String>, b: Option<String>)
    ensures
        t.spec_with_optional_name(a).spec_with_optional_name(b) == t.spec_with_optional_name(b),
{
}

/// Of two successive changes of owner only the last one is visible.
pub proof fn lemma_with_optional_owner_last_wins(t: AnalysedType, a: Option<String>, b: Option<String>)
    ensures
        t.spec_with_optional_owner(a).spec_with_optional_owner(b) == t.spec_with_optional_owner(b),
{
}

/// Putting back the name a type already has gives the same type; likewise for the owner.
pub proof fn lemma_with_own_name_and_owner_is_identity(t: AnalysedType)
    ensures
        t.spec_with_optional_name(t.spec_name()) == t,
        t.spec_with_optional_owner(t.spec_owner()) == t,
{
}

/// Changing the name and changing the owner commute.
pub proof fn lemma_name_and_owner_commute(t: AnalysedType, name: Option<String>, owner: Option<String>)
    ensures
        t.spec_with_optional_name(name).spec_with_optional_owner(owner)
            == t.spec_with_optional_owner(owner).spec_with_optional_name(name),
{
}

/// A function is at most one of: a resource constructor, a resource method, a
/// static resource function (their name prefixes exclude each other).
pub proof fn lemma_function_roles_exclusive(f: WitFunction)
    ensures
        !(f.spec_is_constructor() && f.spec_is_method()),
        !(f.spec_is_constructor() && f.spec_is_static_method()),
        !(f.spec_is_method() && f.spec_is_static_method()),
{
    reveal_strlit("[constructor]");
    reveal_strlit("[method]");
    reveal_strlit("[static]");
    if f.spec_is_constructor() {
        assert(f.name@[1] == 'c') by {
            assert(f.name@.subrange(0, 13)[1] == f.name@[1]);
        }
    }
    if f.spec_is_method() {
        assert(f.name@[1] == 'm') by {
            assert(f.name@.subrange(0, 8)[1] == f.name@[1]);
        }
    }
    if f.spec_is_static_method() {
        assert(f.name@[1] == 's') by {
            assert(f.name@.subrange(0, 8)[1] == f.name@[1]);
        }
    }
}

/// Equivalent types (such as a type and its clone) cannot be told apart by
/// their name, owner, kind or whether they contain a handle.
pub proof fn lemma_equiv_observations(a: AnalysedType, b: AnalysedType)
    requires
        a.equiv(b),
    ensures
        opt_string_view(a.spec_name()) == opt_string_view(b.spec_name()),
        opt_string_view(a.spec_owner()) == opt_string_view(b.spec_owner()),
        a.spec_kind_label() == b.spec_kind_label(),
        a.has_name_slot() == b.has_name_slot(),
        a.spec_contains_handle() == b.spec_contains_handle(),
    decreases a,
{
    match a {
        AnalysedType::Variant(x) => {
            let y = b->Variant_0;
            assert forall|i: int| 0 <= i < x.cases@.len() implies (match #[trigger] x.cases@[i].typ {
                Some(c) => c.spec_contains_handle(),
                None => false,
            }) == (match y.cases@[i].typ {
                Some(c) => c.spec_contains_handle(),
                None => false,
            }) by {
                if let Some(c) = x.cases@[i].typ {
                    lemma_equiv_observations(c, y.cases@[i].typ->0);
                }
            }
            if a.spec_contains_handle() {
                let i = choose|i: int| 0 <= i < x.cases@.len() && match #[trigger] x.cases@[i].typ {
                    Some(c) => c.spec_contains_handle(),
                    None => false,
                };
                assert(match y.cases@[i].typ {
                    Some(c) => c.spec_contains_handle(),
                    None => false,
                });
            }
            if b.spec_contains_handle() {
                let i = choose|i: int| 0 <= i < y.cases@.len() && match #[trigger] y.cases@[i].typ {
                    Some(c) => c.spec_contains_handle(),
                    None => false,
                };
                assert(match x.cases@[i].typ {
                    Some(c) => c.spec_contains_handle(),
                    None => false,
                });
            }
        },
        AnalysedType::Result(x) => {
            let y = b->Result_0;
            if let Some(o) = x.ok {
                lemma_equiv_observations(*o, *(y.ok->0));
            }
            if let Some(e) = x.err {
                lemma_equiv_observations(*e, *(y.err->0));
            }
        },
        AnalysedType::Option(x) => {
            lemma_equiv_observations(*x.inner, *(b->Option_0.inner));
        },
        AnalysedType::List(x) => {
            lemma_equiv_observations(*x.inner, *(b->List_0.inner));
        },
        AnalysedType::Record(x) => {
            let y = b->Record_0;
            assert forall|i: int| 0 <= i < x.fields@.len() implies (#[trigger] x.fields@[i]).typ.spec_contains_handle()
                == y.fields@[i].typ.spec_contains_handle() by {
                lemma_equiv_observations(x.fields@[i].typ, y.fields@[i].typ);
            }
            if a.spec_contains_handle() {
                let i = choose|i: int| 0 <= i < x.fields@.len() && (#[trigger] x.fields@[i]).typ.spec_contains_handle();
                assert(y.fields@[i].typ.spec_contains_handle());
            }
            if b.spec_contains_handle() {
                let i = choose|i: int| 0 <= i < y.fields@.len() && (#[trigger] y.fields@[i]).typ.spec_contains_handle();
                assert(x.fields@[i].typ.spec_contains_handle());
            }
        },
        AnalysedType::Tuple(x) => {
            let y = b->Tuple_0;
            assert forall|i: int| 0 <= i < x.items@.len() implies (#[trigger] x.items@[i]).spec_contains_handle()
                == y.items@[i].spec_contains_handle() by {
                lemma_equiv_observations(x.items@[i], y.items@[i]);
            }
            if a.spec_contains_handle() {
                let i = choose|i: int| 0 <= i < x.items@.len() && (#[trigger] x.items@[i]).spec_contains_handle();
                assert(y.items@[i].spec_contains_handle());
            }
            if b.spec_contains_handle() {
                let i = choose|i: int| 0 <= i < y.items@.len() && (#[trigger] y.items@[i]).spec_contains_handle();
                assert(x.items@[i].spec_contains_handle());
            }
        },
        _ => {},
    }
}

/// Every type is equivalent to itself.
pub proof fn lemma_equiv_reflexive(a: AnalysedType)
    ensures
        a.equiv(a),
    decreases a,
{
    match a {
        AnalysedType::Variant(x) => {
            assert forall|i: int| 0 <= i < x.cases@.len() implies match (#[trigger] x.cases@[i]).typ {
                Some(c) => x.cases@[i].typ matches Some(d) && c.equiv(d),
                None => x.cases@[i].typ is None,
            } by {
                if let Some(c) = x.cases@[i].typ {
                    lemma_equiv_reflexive(c);
                }
            }
        },
        AnalysedType::Result(x) => {
            if let Some(o) = x.ok {
                lemma_equiv_reflexive(*o);
            }
            if let Some(e) = x.err {
                lemma_equiv_reflexive(*e);
            }
        },
        AnalysedType::Option(x) => lemma_equiv_reflexive(*x.inner),
        AnalysedType::List(x) => lemma_equiv_reflexive(*x.inner),
        AnalysedType::Record(x) => {
            assert forall|i: int| 0 <= i < x.fields@.len() implies (#[trigger] x.fields@[i]).typ.equiv(
                x.fields@[i].typ,
            ) by {
                lemma_equiv_reflexive(x.fields@[i].typ);
            }
        },
        AnalysedType::Tuple(x) => {
            assert forall|i: int| 0 <= i < x.items@.len() implies (#[trigger] x.items@[i]).equiv(x.items@[i]) by {
                lemma_equiv_reflexive(x.items@[i]);
            }
        },
        _ => {},
    }
}

/// Equivalence of types is symmetric.
pub proof fn lemma_equiv_symmetric(a: AnalysedType, b: AnalysedType)
    requires
        a.equiv(b),
    ensures
        b.equiv(a),
    decreases a,
{
    match a {
        AnalysedType::Variant(x) => {
            let y = b->Variant_0;
            assert forall|i: int| 0 <= i < y.cases@.len() implies (#[trigger] y.cases@[i]).name@ == x.cases@[i].name@
                && match y.cases@[i].typ {
                    Some(c) => x.cases@[i].typ matches Some(d) && c.equiv(d),
                    None => x.cases@[i].typ is None,
                } by {
                assert(x.cases@[i].name@ == y.cases@[i].name@);
                if let Some(c) = x.cases@[i].typ {
                    lemma_equiv_symmetric(c, y.cases@[i].typ->0);
                }
            }
        },
        AnalysedType::Result(x) => {
            let y = b->Result_0;
            if let Some(o) = x.ok {
                lemma_equiv_symmetric(*o, *(y.ok->0));
            }
            if let Some(e) = x.err {
                lemma_equiv_symmetric(*e, *(y.err->0));
            }
        },
        AnalysedType::Option(x) => lemma_equiv_symmetric(*x.inner, *(b->Option_0.inner)),
        AnalysedType::List(x) => lemma_equiv_symmetric(*x.inner, *(b->List_0.inner)),
        AnalysedType::Record(x) => {
            let y = b->Record_0;
            assert forall|i: int| 0 <= i < y.fields@.len() implies (#[trigger] y.fields@[i]).name@ == x.fields@[i].name@
                && y.fields@[i].typ.equiv(x.fields@[i].typ) by {
                assert(x.fields@[i].name@ == y.fields@[i].name@);
                lemma_equiv_symmetric(x.fields@[i].typ, y.fields@[i].typ);
            }
        },
        AnalysedType::Tuple(x) => {
            let y = b->Tuple_0;
            assert forall|i: int| 0 <= i < y.items@.len() implies (#[trigger] y.items@[i]).equiv(x.items@[i]) by {
                lemma_equiv_symmetric(x.items@[i], y.items@[i]);
            }
        },
        _ => {},
    }
}

/// Equivalence of types is transitive, so a copy of a copy is equivalent to its source.
pub proof fn lemma_equiv_transitive(a: AnalysedType, b: AnalysedType, c: AnalysedType)
    requires
        a.equiv(b),
        b.equiv(c),
    ensures
        a.equiv(c),
    decreases a,
{
    match a {
        AnalysedType::Variant(x) => {
            let y = b->Variant_0;
            let z = c->Variant_0;
            assert forall|i: int| 0 <= i < x.cases@.len() implies (#[trigger] x.cases@[i]).name@ == z.cases@[i].name@
                && match x.cases@[i].typ {
                    Some(p) => z.cases@[i].typ matches Some(r) && p.equiv(r),
                    None => z.cases@[i].typ is None,
                } by {
                assert(x.cases@[i].name@ == y.cases@[i].name@);
                assert(y.cases@[i].name@ == z.cases@[i].name@);
                if let Some(p) = x.cases@[i].typ {
                    lemma_equiv_transitive(p, y.cases@[i].typ->0, z.cases@[i].typ->0);
                }
            }
        },
        AnalysedType::Result(x) => {
            let y = b->Result_0;
            let z = c->Result_0;
            if let Some(o) = x.ok {
                lemma_equiv_transitive(*o, *(y.ok->0), *(z.ok->0));
            }
            if let Some(e) = x.err {
                lemma_equiv_transitive(*e, *(y.err->0), *(z.err->0));
            }
        },
        AnalysedType::Option(x) => lemma_equiv_transitive(*x.inner, *(b->Option_0.inner), *(c->Option_0.inner)),
        AnalysedType::List(x) => lemma_equiv_transitive(*x.inner, *(b->List_0.inner), *(c->List_0.inner)),
        AnalysedType::Record(x) => {
            let y = b->Record_0;
            let z = c->Record_0;
            assert forall|i: int| 0 <= i < x.fields@.len() implies (#[trigger] x.fields@[i]).name@ == z.fields@[i].name@
                && x.fields@[i].typ.equiv(z.fields@[i].typ) by {
                assert(x.fields@[i].name@ == y.fields@[i].name@);
                assert(y.fields@[i].name@ == z.fields@[i].name@);
                lemma_equiv_transitive(x.fields@[i].typ, y.fields@[i].typ, z.fields@[i].typ);
            }
        },
        AnalysedType::Tuple(x) => {
            let y = b->Tuple_0;
            let z = c->Tuple_0;
            assert forall|i: int| 0 <= i < x.items@.len() implies (#[trigger] x.items@[i]).equiv(z.items@[i]) by {
                assert(y.items@[i].equiv(z.items@[i]));
                lemma_equiv_transitive(x.items@[i], y.items@[i], z.items@[i]);
            }
        },
        _ => {},
    }
}

/// `c` is one of the types that `t` is directly built from: a case payload,
/// the present `ok` or `err` type, the inner type, a field type or an item.
pub open spec fn is_component(t: AnalysedType, c: AnalysedType) -> bool {
    match t {
        AnalysedType::Variant(x) => exists|i: int| 0 <= i < x.cases@.len() && x.cases@[i].typ == Some(c),
        AnalysedType::Result(x) => (x.ok matches Some(o) && *o == c) || (x.err matches Some(e) && *e == c),
        AnalysedType::Option(x) => *x.inner == c,
        AnalysedType::List(x) => *x.inner == c,
        AnalysedType::Record(x) => exists|i: int| 0 <= i < x.fields@.len() && x.fields@[i].typ == c,
        AnalysedType::Tuple(x) => exists|i: int| 0 <= i < x.items@.len() && x.items@[i] == c,
        _ => false,
    }
}

/// A type contains a handle exactly when it is a handle, or one of the types
/// it is directly built from contains one.
pub proof fn lemma_contains_handle_iff_component(t: AnalysedType)
    ensures
        t.spec_contains_handle() <==> (t is Handle || exists|c: AnalysedType|
            #[trigger] is_component(t, c) && c.spec_contains_handle()),
{
    match t {
        AnalysedType::Variant(x) => {
            if t.spec_contains_handle() {
                let i = choose|i: int| 0 <= i < x.cases@.len() && match #[trigger] x.cases@[i].typ {
                    Some(c) => c.spec_contains_handle(),
                    None => false,
                };
                let c = x.cases@[i].typ->0;
                assert(is_component(t, c));
            }
            if exists|c: AnalysedType| #[trigger] is_component(t, c) && c.spec_contains_handle() {
                let c = choose|c: AnalysedType| #[trigger] is_component(t, c) && c.spec_contains_handle();
                let i = choose|i: int| 0 <= i < x.cases@.len() && x.cases@[i].typ == Some(c);
                assert(match x.cases@[i].typ {
                    Some(d) => d.spec_contains_handle(),
                    None => false,
                });
            }
        },
        AnalysedType::Result(x) => {
            if let Some(o) = x.ok {
                assert(is_component(t, *o));
            }
            if let Some(e) = x.err {
                assert(is_component(t, *e));
            }
        },
        AnalysedType::Option(x) => {
            assert(is_component(t, *x.inner));
        },
        AnalysedType::List(x) => {
            assert(is_component(t, *x.inner));
        },
        AnalysedType::Record(x) => {
            if t.spec_contains_handle() {
                let i = choose|i: int| 0 <= i < x.fields@.len() && (#[trigger] x.fields@[i]).typ.spec_contains_handle();
                assert(is_component(t, x.fields@[i].typ));
            }
            if exists|c: AnalysedType| #[trigger] is_component(t, c) && c.spec_contains_handle() {
                let c = choose|c: AnalysedType| #[trigger] is_component(t, c) && c.spec_contains_handle();
                let i = choose|i: int| 0 <= i < x.fields@.len() && x.fields@[i].typ == c;
                assert(x.fields@[i].typ.spec_contains_handle());
            }
        },
        AnalysedType::Tuple(x) => {
            if t.spec_contains_handle() {
                let i = choose|i: int| 0 <= i < x.items@.len() && (#[trigger] x.items@[i]).spec_contains_handle();
                assert(is_component(t, x.items@[i]));
            }
            if exists|c: AnalysedType| #[trigger] is_component(t, c) && c.spec_contains_handle() {
                let c = choose|c: AnalysedType| #[trigger] is_component(t, c) && c.spec_contains_handle();
                let i = choose|i: int| 0 <= i < x.items@.len() && x.items@[i] == c;
                assert(x.items@[i].spec_contains_handle());
            }
        },
        _ => {},
    }
}

/// A function is a resource method exactly when its name starts with
/// `[method]` and its first parameter is a borrowed handle; in particular a
/// function whose first parameter is an owned handle is never a method.
pub proof fn lemma_method_means_borrowed_self(f: WitFunction)
    ensures
        f.spec_is_method() <==> (crate::text::seq_starts_with(f.name@, "[method]"@) && f.parameters@.len() > 0
            && (f.parameters@[0].typ matches AnalysedType::Handle(h) && h.mode == AnalysedResourceMode::Borrowed)),
        f.parameters@.len() > 0 && (f.parameters@[0].typ matches AnalysedType::Handle(h) && h.mode
            == AnalysedResourceMode::Owned) ==> !f.spec_is_method(),
{
}

/// A function is a resource constructor exactly when its name starts with
/// `[constructor]` and it returns an owned handle; one returning a borrowed
/// handle, or nothing, is never a constructor.
pub proof fn lemma_constructor_means_owned_result(f: WitFunction)
    ensures
        f.spec_is_constructor() <==> (crate::text::seq_starts_with(f.name@, "[constructor]"@)
            && (f.result matches Some(r) && (r.typ matches AnalysedType::Handle(h) && h.mode
            == AnalysedResourceMode::Owned))),
        f.result is None ==> !f.spec_is_constructor(),
{
}

} // verus!
