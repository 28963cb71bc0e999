use rib_core::type_checker::{
    build_fallback_constructor_details, check_exhaustive_pattern_match_with_arms, ArmPattern,
    ConstructorDetail, ExhaustivePatternMatchError, PatternLiteral, PatternView, ScrutineeType,
};
use rib_core::wit_type::{self, TypeVariant, WitType};

fn wild() -> ArmPattern {
    ArmPattern::WildCard
}

fn ident(name: &str) -> ArmPattern {
    ArmPattern::Literal(PatternLiteral::Identifier(name.to_string()))
}

fn ctor(name: &str, args: Vec<ArmPattern>) -> ArmPattern {
    ArmPattern::Constructor(name.to_string(), args)
}

fn missing_of(r: Result<(), ExhaustivePatternMatchError>) -> Vec<String> {
    match r {
        Err(ExhaustivePatternMatchError::MissingConstructors { missing_constructors }) => {
            missing_constructors
        }
        other => panic!("expected missing constructors, got {:?}", other),
    }
}

fn shape_variant() -> TypeVariant {
    match wit_type::variant(vec![
        wit_type::case("circle", wit_type::u32()),
        wit_type::unit_case("empty"),
        wit_type::case("square", wit_type::u32()),
    ]) {
        WitType::Variant(v) => v,
        _ => unreachable!(),
    }
}

#[test]
fn constructor_detail_of_option_and_result() {
    let o = ConstructorDetail::option();
    assert_eq!(o.no_arg_constructors, vec!["none".to_string()]);
    assert_eq!(o.with_arg_constructors, vec!["some".to_string()]);
    let r = ConstructorDetail::result();
    assert!(r.no_arg_constructors.is_empty());
    assert_eq!(r.with_arg_constructors, vec!["ok".to_string(), "err".to_string()]);
}

#[test]
fn constructor_detail_of_variant_splits_cases_in_order() {
    let d = ConstructorDetail::from_variant(shape_variant());
    assert_eq!(d.no_arg_constructors, vec!["empty".to_string()]);
    assert_eq!(d.with_arg_constructors, vec!["circle".to_string(), "square".to_string()]);
}

#[test]
fn constructor_detail_of_cases_and_enum() {
    let cases: Vec<(String, Option<u8>)> =
        vec![("a".to_string(), None), ("b".to_string(), Some(1)), ("c".to_string(), None)];
    let d = ConstructorDetail::from_inferred_variant_cases(&cases);
    assert_eq!(d.no_arg_constructors, vec!["a".to_string(), "c".to_string()]);
    assert_eq!(d.with_arg_constructors, vec!["b".to_string()]);
    let e = ConstructorDetail::from_enum_cases(&["x".to_string(), "y".to_string()]);
    assert_eq!(e.no_arg_constructors, vec!["x".to_string(), "y".to_string()]);
    assert!(e.with_arg_constructors.is_empty());
}

#[test]
fn fallback_holds_option_variants_option_result() {
    let fb = build_fallback_constructor_details(vec![shape_variant()]);
    assert_eq!(fb.len(), 4);
    assert_eq!(fb[0].with_arg_constructors, vec!["some".to_string()]);
    assert_eq!(fb[1].no_arg_constructors, vec!["empty".to_string()]);
    assert_eq!(fb[2].no_arg_constructors, vec!["none".to_string()]);
    assert_eq!(fb[3].with_arg_constructors, vec!["ok".to_string(), "err".to_string()]);
}

#[test]
fn enum_scrutinee_reports_missing_case() {
    let scrutinee = ScrutineeType::Enum(vec!["red".into(), "green".into(), "blue".into()]);
    let arms = vec![ctor("red", vec![]), ctor("green", vec![])];
    let fb = build_fallback_constructor_details(vec![]);
    let r = check_exhaustive_pattern_match_with_arms(&scrutinee, &arms, &fb);
    assert_eq!(missing_of(r), vec!["blue".to_string()]);
}

#[test]
fn enum_scrutinee_all_cases_pass() {
    let scrutinee = ScrutineeType::Enum(vec!["red".into(), "green".into()]);
    let arms = vec![ctor("green", vec![]), ctor("red", vec![])];
    let fb = build_fallback_constructor_details(vec![]);
    assert!(check_exhaustive_pattern_match_with_arms(&scrutinee, &arms, &fb).is_ok());
}

#[test]
fn variant_scrutinee_reports_missing_cases_with_argument_first() {
    let scrutinee = ScrutineeType::Variant(vec![
        ("circle".into(), Some(wit_type::u32())),
        ("empty".into(), None),
        ("square".into(), Some(wit_type::u32())),
    ]);
    let arms = vec![ctor("empty", vec![])];
    let fb = build_fallback_constructor_details(vec![]);
    let r = check_exhaustive_pattern_match_with_arms(&scrutinee, &arms, &fb);
    assert_eq!(missing_of(r), vec!["circle".to_string(), "square".to_string()]);
}

#[test]
fn unknown_scrutinee_tries_fallback_variants() {
    let fb = build_fallback_constructor_details(vec![shape_variant()]);
    let arms = vec![ctor("circle", vec![ident("r")]), ctor("empty", vec![])];
    let r = check_exhaustive_pattern_match_with_arms(&ScrutineeType::Unknown, &arms, &fb);
    assert_eq!(missing_of(r), vec!["square".to_string()]);
    let arms = vec![ctor("circle", vec![ident("r")]), ctor("empty", vec![]), ctor("square", vec![wild()])];
    assert!(check_exhaustive_pattern_match_with_arms(&ScrutineeType::Other, &arms, &fb).is_ok());
}

#[test]
fn arms_naming_no_known_constructor_pass() {
    let fb = build_fallback_constructor_details(vec![]);
    let arms = vec![ctor("nothing-known", vec![ident("x")])];
    assert!(check_exhaustive_pattern_match_with_arms(&ScrutineeType::Unknown, &arms, &fb).is_ok());
}

#[test]
fn literal_call_counts_as_constructor() {
    let fb = build_fallback_constructor_details(vec![]);
    let inner = PatternLiteral::Call(
        "some".to_string(),
        vec![PatternLiteral::Identifier("a".to_string())],
    );
    let arms = vec![ctor("some", vec![ArmPattern::Literal(inner)]), ctor("none", vec![])];
    let r = check_exhaustive_pattern_match_with_arms(&ScrutineeType::Option, &arms, &fb);
    assert_eq!(missing_of(r), vec!["some(none)".to_string()]);
}

#[test]
fn as_binding_is_looked_through() {
    let fb = build_fallback_constructor_details(vec![]);
    let arms = vec![
        ArmPattern::As("x".to_string(), Box::new(ctor("some", vec![wild()]))),
        ArmPattern::As("y".to_string(), Box::new(wild())),
    ];
    assert!(check_exhaustive_pattern_match_with_arms(&ScrutineeType::Option, &arms, &fb).is_ok());
    let arms = vec![ArmPattern::As("x".to_string(), Box::new(ctor("some", vec![wild()])))];
    let r = check_exhaustive_pattern_match_with_arms(&ScrutineeType::Option, &arms, &fb);
    assert_eq!(missing_of(r), vec!["none".to_string()]);
}

#[test]
fn three_levels_deep_missing_is_reported_in_full() {
    let fb = build_fallback_constructor_details(vec![]);
    let arms = vec![
        ctor("some", vec![ctor("some", vec![ctor("some", vec![ident("a")])])]),
        ctor("some", vec![ctor("none", vec![])]),
        ctor("none", vec![]),
    ];
    let r = check_exhaustive_pattern_match_with_arms(&ScrutineeType::Option, &arms, &fb);
    assert_eq!(missing_of(r), vec!["some(some(none))".to_string()]);
}

#[test]
fn two_catch_alls_under_one_constructor_are_dead_code() {
    let fb = build_fallback_constructor_details(vec![]);
    let arms = vec![
        ctor("some", vec![ident("a")]),
        ctor("some", vec![ident("b")]),
        ctor("none", vec![]),
    ];
    match check_exhaustive_pattern_match_with_arms(&ScrutineeType::Option, &arms, &fb) {
        Err(ExhaustivePatternMatchError::DeadCode { cause, dead_pattern }) => {
            assert!(matches!(cause,
                PatternView::Node(ArmPattern::Literal(PatternLiteral::Identifier(n))) if n == "a"));
            assert!(matches!(dead_pattern,
                PatternView::Node(ArmPattern::Literal(PatternLiteral::Identifier(n))) if n == "b"));
        }
        other => panic!("expected dead code, got {:?}", other),
    }
}

#[test]
fn tuple_and_list_patterns_are_ignored() {
    let fb = build_fallback_constructor_details(vec![]);
    let arms = vec![ArmPattern::TupleConstructor(vec![wild()]), ArmPattern::ListConstructor(vec![])];
    assert!(check_exhaustive_pattern_match_with_arms(&ScrutineeType::Other, &arms, &fb).is_ok());
    let arms = vec![ArmPattern::RecordConstructor(vec![("a".to_string(), wild())]), ctor("none", vec![])];
    let r = check_exhaustive_pattern_match_with_arms(&ScrutineeType::Option, &arms, &fb);
    assert_eq!(missing_of(r), vec!["some".to_string()]);
}

#[test]
fn empty_arm_list_passes() {
    let fb = build_fallback_constructor_details(vec![]);
    let arms: Vec<ArmPattern> = vec![];
    assert!(check_exhaustive_pattern_match_with_arms(&ScrutineeType::Option, &arms, &fb).is_ok());
}

use rib_core::type_checker::exhaustive_pattern_match::{
    ConstructorsWithArgTracker, NoArgConstructorsTracker,
};

#[test]
fn with_arg_tracker_records_matches() {
    let mut t = ConstructorsWithArgTracker::new();
    t.initialise(vec!["ok".to_string(), "err".to_string()]);
    assert!(!t.registered_any());
    assert!(!t.registered_all());
    assert_eq!(t.unregistered_constructors(), vec!["ok".to_string(), "err".to_string()]);
    t.register(&"err".to_string());
    assert!(t.registered_any());
    assert!(!t.registered_all());
    assert_eq!(t.unregistered_constructors(), vec!["ok".to_string()]);
    t.register(&"ok".to_string());
    assert!(t.registered_all());
    assert!(t.unregistered_constructors().is_empty());
    t.initialise(vec!["ok".to_string()]);
    assert_eq!(t.unregistered_constructors(), vec!["ok".to_string()]);
}

#[test]
fn no_arg_tracker_records_matches() {
    let mut t = NoArgConstructorsTracker::new();
    assert!(t.registered_all());
    assert!(!t.registered_any());
    t.initialise(vec!["none".to_string()]);
    assert!(!t.registered_all());
    t.register(&"none".to_string());
    assert!(t.registered_all());
    assert!(t.registered_any());
    t.register(&"other".to_string());
    assert!(t.registered_all());
    assert!(t.unregistered_constructors().is_empty());
}

#[test]
fn every_unnamed_case_is_reported_in_type_order() {
    let scrutinee = ScrutineeType::Enum(vec!["red".into(), "green".into(), "blue".into()]);
    let arms = vec![ctor("green", vec![]), ctor("green", vec![])];
    let fb = build_fallback_constructor_details(vec![]);
    let r = check_exhaustive_pattern_match_with_arms(&scrutinee, &arms, &fb);
    assert_eq!(missing_of(r), vec!["red".to_string(), "blue".to_string()]);
}

#[test]
fn complete_flat_variant_match_passes_in_any_order() {
    let scrutinee = ScrutineeType::Variant(vec![
        ("circle".into(), Some(wit_type::u32())),
        ("empty".into(), None),
        ("square".into(), Some(wit_type::u32())),
    ]);
    let arms = vec![
        ctor("square", vec![ident("s")]),
        ctor("empty", vec![]),
        ctor("circle", vec![ArmPattern::TupleConstructor(vec![])]),
    ];
    let fb = build_fallback_constructor_details(vec![shape_variant()]);
    assert!(check_exhaustive_pattern_match_with_arms(&scrutinee, &arms, &fb).is_ok());
}
