use rib_core::wit_type::{
    self, AnalysedResourceId, AnalysedResourceMode, TypeHandle, WitFunction, WitFunctionParameter,
    WitFunctionResult, WitType,
};

fn owned_handle() -> WitType {
    wit_type::handle(AnalysedResourceId(7), AnalysedResourceMode::Owned)
}

fn borrowed_handle() -> WitType {
    wit_type::handle(AnalysedResourceId(7), AnalysedResourceMode::Borrowed)
}

fn function(name: &str, params: Vec<WitType>, result: Option<WitType>) -> WitFunction {
    WitFunction {
        name: name.to_string(),
        parameters: params
            .into_iter()
            .enumerate()
            .map(|(i, typ)| WitFunctionParameter { name: format!("p{i}"), typ })
            .collect(),
        result: result.map(|typ| WitFunctionResult { typ }),
    }
}

#[test]
fn named_sets_name_of_list() {
    let t = wit_type::list(wit_type::u8()).named("bytes");
    assert_eq!(t.name(), Some("bytes"));
}

#[test]
fn builders_leave_name_and_owner_empty() {
    let all = vec![
        wit_type::list(wit_type::u8()),
        wit_type::option(wit_type::str()),
        wit_type::flags(&["a", "b"]),
        wit_type::enum_type(&["x"]),
        wit_type::tuple(vec![wit_type::bool()]),
        wit_type::result(wit_type::u32(), wit_type::str()),
        wit_type::result_ok(wit_type::u32()),
        wit_type::result_err(wit_type::str()),
        wit_type::unit_result(),
        wit_type::record(vec![wit_type::field("f", wit_type::s64())]),
        wit_type::variant(vec![wit_type::unit_case("c")]),
        owned_handle(),
    ];
    for t in all {
        assert_eq!(t.name(), None);
        assert_eq!(t.owner(), None);
    }
}

#[test]
fn builders_build_the_expected_shapes() {
    match wit_type::result_ok(wit_type::u32()) {
        WitType::Result(r) => {
            assert_eq!(r.ok.map(|b| *b), Some(wit_type::u32()));
            assert!(r.err.is_none());
        }
        other => panic!("unexpected {:?}", other),
    }
    match wit_type::result_err(wit_type::str()) {
        WitType::Result(r) => {
            assert!(r.ok.is_none());
            assert_eq!(r.err.map(|b| *b), Some(wit_type::str()));
        }
        other => panic!("unexpected {:?}", other),
    }
    match wit_type::flags(&["read", "write"]) {
        WitType::Flags(f) => assert_eq!(f.names, vec!["read".to_string(), "write".to_string()]),
        other => panic!("unexpected {:?}", other),
    }
    match wit_type::enum_type(&["red", "green"]) {
        WitType::Enum(e) => assert_eq!(e.cases, vec!["red".to_string(), "green".to_string()]),
        other => panic!("unexpected {:?}", other),
    }
    let c = wit_type::case("some-case", wit_type::u8());
    assert_eq!(c.name, "some-case");
    assert_eq!(c.typ, Some(wit_type::u8()));
    let u = wit_type::unit_case("none-case");
    assert_eq!(u.typ, None);
    let o = wit_type::opt_case("maybe", None);
    assert_eq!(o.name, "maybe");
    assert_eq!(o.typ, None);
    let f = wit_type::field("x", wit_type::f64_type());
    assert_eq!(f.name, "x");
    assert_eq!(f.typ, WitType::F64(rib_core::wit_type::TypeF64));
    assert_eq!(wit_type::f32_type(), WitType::F32(rib_core::wit_type::TypeF32));
    assert_eq!(wit_type::chr(), WitType::Chr(rib_core::wit_type::TypeChr));
}

#[test]
fn primitives_carry_no_name_or_owner() {
    let t = wit_type::u32().named("n").owned("o");
    assert_eq!(t, wit_type::u32());
    assert_eq!(t.name(), None);
    assert_eq!(t.owner(), None);
}

#[test]
fn with_optional_name_sets_only_the_name() {
    let t = wit_type::record(vec![wit_type::field("a", wit_type::u8())]).owned("pkg");
    let named = t.clone().with_optional_name(Some("point".to_string()));
    assert_eq!(named.name(), Some("point"));
    assert_eq!(named.owner(), Some("pkg"));
    let cleared = named.with_optional_name(None);
    assert_eq!(cleared, t);
}

#[test]
fn last_name_and_owner_win() {
    let t = wit_type::option(wit_type::u8()).named("first").named("second");
    assert_eq!(t.name(), Some("second"));
    let t = t.owned("a").owned("b");
    assert_eq!(t.owner(), Some("b"));
}

#[test]
fn name_and_owner_commute() {
    let base = wit_type::variant(vec![wit_type::unit_case("x")]);
    let a = base.clone().named("v").owned("o");
    let b = base.owned("o").named("v");
    assert_eq!(a, b);
}

#[test]
fn handle_takes_name_and_owner() {
    let t = owned_handle().named("file").owned("fs");
    match &t {
        WitType::Handle(TypeHandle { name, owner, resource_id, mode }) => {
            assert_eq!(name.as_deref(), Some("file"));
            assert_eq!(owner.as_deref(), Some("fs"));
            assert_eq!(*resource_id, AnalysedResourceId(7));
            assert_eq!(*mode, AnalysedResourceMode::Owned);
        }
        other => panic!("unexpected {:?}", other),
    }
}

#[test]
fn kind_label_names_the_kind() {
    assert_eq!(wit_type::u32().kind_label(), "U32");
    assert_eq!(wit_type::str().kind_label(), "Str");
    assert_eq!(wit_type::list(wit_type::u8()).kind_label(), "List");
    assert_eq!(wit_type::unit_result().kind_label(), "Result");
    assert_eq!(owned_handle().kind_label(), "Handle");
    assert_eq!(wit_type::enum_type(&[]).kind_label(), "Enum");
}

#[test]
fn contains_handle_looks_into_every_component() {
    assert!(!wit_type::u32().contains_handle());
    assert!(owned_handle().contains_handle());
    assert!(wit_type::list(owned_handle()).contains_handle());
    assert!(wit_type::option(wit_type::list(borrowed_handle())).contains_handle());
    assert!(wit_type::result_err(owned_handle()).contains_handle());
    assert!(!wit_type::result(wit_type::u8(), wit_type::str()).contains_handle());
    assert!(wit_type::record(vec![
        wit_type::field("a", wit_type::u8()),
        wit_type::field("h", owned_handle()),
    ])
    .contains_handle());
    assert!(wit_type::variant(vec![wit_type::unit_case("x"), wit_type::case("y", owned_handle())])
        .contains_handle());
    assert!(!wit_type::variant(vec![wit_type::unit_case("x")]).contains_handle());
    assert!(wit_type::tuple(vec![wit_type::bool(), owned_handle()]).contains_handle());
    assert!(!wit_type::flags(&["a"]).contains_handle());
}

#[test]
fn constructor_needs_prefix_and_owned_handle_result() {
    assert!(function("[constructor]file", vec![], Some(owned_handle())).is_constructor());
    assert!(!function("[constructor]file", vec![], Some(borrowed_handle())).is_constructor());
    assert!(!function("[constructor]file", vec![], None).is_constructor());
    assert!(!function("file", vec![], Some(owned_handle())).is_constructor());
    assert!(!function("x[constructor]file", vec![], Some(owned_handle())).is_constructor());
}

#[test]
fn method_needs_prefix_and_borrowed_self() {
    assert!(function("[method]file.read", vec![borrowed_handle(), wit_type::u32()], None).is_method());
    assert!(!function("[method]file.read", vec![owned_handle()], None).is_method());
    assert!(!function("[method]file.read", vec![], None).is_method());
    assert!(!function("[static]file.open", vec![borrowed_handle()], None).is_method());
}

#[test]
fn static_method_needs_only_prefix() {
    assert!(function("[static]file.open", vec![], None).is_static_method());
    assert!(!function("open", vec![], None).is_static_method());
    assert!(!function("[static", vec![], None).is_static_method());
}

#[test]
fn function_roles_exclude_each_other() {
    let fs = vec![
        function("[constructor]r", vec![], Some(owned_handle())),
        function("[method]r.m", vec![borrowed_handle()], None),
        function("[static]r.s", vec![], None),
    ];
    for f in fs {
        let n = [f.is_constructor(), f.is_method(), f.is_static_method()]
            .iter()
            .filter(|b| **b)
            .count();
        assert_eq!(n, 1);
    }
}

#[test]
fn clone_and_deep_clone_are_equal() {
    let t = wit_type::record(vec![
        wit_type::field("a", wit_type::list(wit_type::option(wit_type::str()))),
        wit_type::field("b", wit_type::variant(vec![wit_type::case("c", owned_handle())])),
    ])
    .named("rec")
    .owned("pkg");
    assert_eq!(t.clone(), t);
    assert_eq!(t.deep_clone(), t);
    let f = function("[method]r.m", vec![borrowed_handle()], Some(wit_type::u8()));
    assert_eq!(f.clone(), f);
}
