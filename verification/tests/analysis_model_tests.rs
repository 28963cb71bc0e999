use rib_core::analysis::{
    analysed_type, AnalysedResourceId, AnalysedResourceMode, AnalysedType, WitFunction,
    WitFunctionParameter, WitFunctionResult,
};

#[test]
fn analysed_named_and_owned() {
    let t = analysed_type::record(vec![analysed_type::field("x", analysed_type::s32())])
        .named("point")
        .owned("geometry");
    assert_eq!(t.name(), Some("point"));
    assert_eq!(t.owner(), Some("geometry"));
    let t = t.with_optional_name(None).with_optional_owner(None);
    assert_eq!(t, analysed_type::record(vec![analysed_type::field("x", analysed_type::s32())]));
}

#[test]
fn analysed_primitives_ignore_names() {
    assert_eq!(analysed_type::bool().named("b"), analysed_type::bool());
    assert_eq!(analysed_type::f64_type().owned("o").owner(), None);
    assert_eq!(analysed_type::chr().kind_label(), "Chr");
    assert_eq!(analysed_type::f32_type().kind_label(), "F32");
}

#[test]
fn analysed_contains_handle() {
    let h = analysed_type::handle(AnalysedResourceId(1), AnalysedResourceMode::Borrowed);
    assert!(analysed_type::option(h).contains_handle());
    assert!(!analysed_type::enum_type(&["a", "b"]).contains_handle());
}

#[test]
fn analysed_function_roles() {
    let f = WitFunction {
        name: "[constructor]counter".to_string(),
        parameters: vec![WitFunctionParameter { name: "start".to_string(), typ: analysed_type::u64() }],
        result: Some(WitFunctionResult {
            typ: analysed_type::handle(AnalysedResourceId(3), AnalysedResourceMode::Owned),
        }),
    };
    assert!(f.is_constructor());
    assert!(!f.is_method());
    assert!(!f.is_static_method());
    let t: AnalysedType = analysed_type::unit_result();
    assert_eq!(t.kind_label(), "Result");
}
