use rib_core::type_checker::{
    build_fallback_constructor_details, check_exhaustive_pattern_match_with_arms, ArmPattern,
    ConstructorDetail, ExhaustivePatternMatchError, PatternLiteral, PatternView, ScrutineeType,
};

// Arm patterns written as the parser gives them.

fn wild() -> ArmPattern {
    ArmPattern::WildCard
}

fn ident(name: &str) -> ArmPattern {
    ArmPattern::Literal(PatternLiteral::Identifier(name.to_string()))
}

fn ctor(name: &str, args: Vec<ArmPattern>) -> ArmPattern {
    ArmPattern::Constructor(name.to_string(), args)
}

fn some(arg: ArmPattern) -> ArmPattern {
    ctor("some", vec![arg])
}

fn none() -> ArmPattern {
    ctor("none", vec![])
}

fn ok(arg: ArmPattern) -> ArmPattern {
    ctor("ok", vec![arg])
}

fn err(arg: ArmPattern) -> ArmPattern {
    ctor("err", vec![arg])
}

/// The fallback of a program without component dependencies.
fn fallback() -> Vec<ConstructorDetail> {
    build_fallback_constructor_details(vec![])
}

fn check<'a>(
    scrutinee: &ScrutineeType,
    arms: &'a Vec<ArmPattern>,
    fallback: &Vec<ConstructorDetail>,
) -> Result<(), ExhaustivePatternMatchError<'a>> {
    check_exhaustive_pattern_match_with_arms(scrutinee, arms, fallback)
}

fn assert_missing(r: Result<(), ExhaustivePatternMatchError>, expected: &[&str]) {
    match r {
        Err(ExhaustivePatternMatchError::MissingConstructors { missing_constructors }) => {
            let expected: Vec<String> = expected.iter().map(|s| s.to_string()).collect();
            assert_eq!(missing_constructors, expected);
        }
        other => panic!("expected missing constructors, got {:?}", other),
    }
}

fn is_wild(v: &PatternView) -> bool {
    matches!(v, PatternView::Node(ArmPattern::WildCard))
}

fn is_ident(v: &PatternView, name: &str) -> bool {
    match v {
        PatternView::Node(ArmPattern::Literal(PatternLiteral::Identifier(n))) => n == name,
        PatternView::ArgLiteral(PatternLiteral::Identifier(n)) => n == name,
        _ => false,
    }
}

fn is_ctor(v: &PatternView, name: &str) -> bool {
    match v {
        PatternView::Node(ArmPattern::Constructor(n, _)) => n == name,
        _ => false,
    }
}

#[test]
fn test_option_pattern_match1() {
    let arms = vec![some(ident("a")), none()];
    assert!(check(&ScrutineeType::Option, &arms, &fallback()).is_ok());
}

#[test]
fn test_option_pattern_match2() {
    let arms = vec![none(), some(ident("a"))];
    assert!(check(&ScrutineeType::Option, &arms, &fallback()).is_ok());
}

#[test]
fn test_option_pattern_match_wild_card1() {
    let arms = vec![some(wild()), none()];
    assert!(check(&ScrutineeType::Option, &arms, &fallback()).is_ok());
}

#[test]
fn test_option_pattern_match_wild_card2() {
    let arms = vec![none(), some(wild())];
    assert!(check(&ScrutineeType::Option, &arms, &fallback()).is_ok());
}

#[test]
fn test_option_pattern_match_wild_card3() {
    let arms = vec![some(ident("a")), wild()];
    assert!(check(&ScrutineeType::Option, &arms, &fallback()).is_ok());
}

#[test]
fn test_option_pattern_match_wild_card4() {
    let arms = vec![none(), wild()];
    assert!(check(&ScrutineeType::Option, &arms, &fallback()).is_ok());
}

#[test]
fn test_option_pattern_match_wild_card5() {
    let arms = vec![some(wild()), wild()];
    assert!(check(&ScrutineeType::Option, &arms, &fallback()).is_ok());
}

#[test]
fn test_option_pattern_match_wild_card_invalid1() {
    let arms = vec![wild(), some(wild())];
    match check(&ScrutineeType::Option, &arms, &fallback()) {
        Err(ExhaustivePatternMatchError::DeadCode { cause, dead_pattern }) => {
            assert!(is_wild(&cause));
            assert!(is_ctor(&dead_pattern, "some"));
        }
        other => panic!("expected dead code, got {:?}", other),
    }
}

#[test]
fn test_option_pattern_match_wild_card_invalid2() {
    let arms = vec![wild(), none()];
    match check(&ScrutineeType::Option, &arms, &fallback()) {
        Err(ExhaustivePatternMatchError::DeadCode { cause, dead_pattern }) => {
            assert!(is_wild(&cause));
            assert!(is_ctor(&dead_pattern, "none"));
        }
        other => panic!("expected dead code, got {:?}", other),
    }
}

#[test]
fn test_option_pattern_match_identifier_invalid1() {
    let arms = vec![ident("something"), some(wild())];
    match check(&ScrutineeType::Option, &arms, &fallback()) {
        Err(ExhaustivePatternMatchError::DeadCode { cause, dead_pattern }) => {
            assert!(is_ident(&cause, "something"));
            assert!(is_ctor(&dead_pattern, "some"));
        }
        other => panic!("expected dead code, got {:?}", other),
    }
}

#[test]
fn test_option_pattern_match_identifier_invalid2() {
    let arms = vec![ident("something"), none()];
    match check(&ScrutineeType::Option, &arms, &fallback()) {
        Err(ExhaustivePatternMatchError::DeadCode { cause, dead_pattern }) => {
            assert!(is_ident(&cause, "something"));
            assert!(is_ctor(&dead_pattern, "none"));
        }
        other => panic!("expected dead code, got {:?}", other),
    }
}

#[test]
fn test_option_none_absent() {
    let arms = vec![some(ident("a"))];
    assert_missing(check(&ScrutineeType::Option, &arms, &fallback()), &["none"]);
}

#[test]
fn test_option_some_absent() {
    let arms = vec![none()];
    assert_missing(check(&ScrutineeType::Option, &arms, &fallback()), &["some"]);
}

#[test]
fn test_option_nested_invalid1() {
    let arms = vec![some(some(ident("a"))), none()];
    assert_missing(check(&ScrutineeType::Option, &arms, &fallback()), &["some(none)"]);
}

#[test]
fn test_result_pattern_match1() {
    let arms = vec![ok(ident("a")), err(ident("msg"))];
    assert!(check(&ScrutineeType::Result, &arms, &fallback()).is_ok());
}

#[test]
fn test_result_pattern_match2() {
    let arms = vec![err(ident("a")), ok(ident("a"))];
    assert!(check(&ScrutineeType::Result, &arms, &fallback()).is_ok());
}

#[test]
fn test_result_pattern_match_wild_card1() {
    let arms = vec![err(wild()), ok(ident("msg"))];
    assert!(check(&ScrutineeType::Result, &arms, &fallback()).is_ok());
}

#[test]
fn test_result_pattern_match_wild_card2() {
    let arms = vec![err(ident("msg")), ok(wild())];
    assert!(check(&ScrutineeType::Result, &arms, &fallback()).is_ok());
}

#[test]
fn test_result_pattern_match_wild_card3() {
    let arms = vec![ok(ident("a")), wild()];
    assert!(check(&ScrutineeType::Result, &arms, &fallback()).is_ok());
}

#[test]
fn test_result_pattern_match_wild_card4() {
    let arms = vec![err(ident("msg")), wild()];
    assert!(check(&ScrutineeType::Result, &arms, &fallback()).is_ok());
}

#[test]
fn test_result_pattern_match_wild_card5() {
    let arms = vec![ok(wild()), wild()];
    assert!(check(&ScrutineeType::Result, &arms, &fallback()).is_ok());
}

#[test]
fn test_result_pattern_match_wild_card_invalid1() {
    let arms = vec![wild(), ok(wild())];
    match check(&ScrutineeType::Result, &arms, &fallback()) {
        Err(ExhaustivePatternMatchError::DeadCode { cause, dead_pattern }) => {
            assert!(is_wild(&cause));
            assert!(is_ctor(&dead_pattern, "ok"));
        }
        other => panic!("expected dead code, got {:?}", other),
    }
}

#[test]
fn test_result_pattern_match_wild_card_invalid2() {
    let arms = vec![wild(), err(ident("msg"))];
    match check(&ScrutineeType::Result, &arms, &fallback()) {
        Err(ExhaustivePatternMatchError::DeadCode { cause, dead_pattern }) => {
            assert!(is_wild(&cause));
            assert!(is_ctor(&dead_pattern, "err"));
        }
        other => panic!("expected dead code, got {:?}", other),
    }
}

#[test]
fn test_result_pattern_match_identifier_invalid1() {
    let arms = vec![ident("something"), ok(wild())];
    match check(&ScrutineeType::Result, &arms, &fallback()) {
        Err(ExhaustivePatternMatchError::DeadCode { cause, dead_pattern }) => {
            assert!(is_ident(&cause, "something"));
            assert!(is_ctor(&dead_pattern, "ok"));
        }
        other => panic!("expected dead code, got {:?}", other),
    }
}

#[test]
fn test_result_pattern_match_identifier_invalid2() {
    let arms = vec![ident("something"), err(ident("msg"))];
    match check(&ScrutineeType::Result, &arms, &fallback()) {
        Err(ExhaustivePatternMatchError::DeadCode { cause, dead_pattern }) => {
            assert!(is_ident(&cause, "something"));
            assert!(is_ctor(&dead_pattern, "err"));
        }
        other => panic!("expected dead code, got {:?}", other),
    }
}

#[test]
fn test_result_err_absent() {
    let arms = vec![ok(ident("a"))];
    assert_missing(check(&ScrutineeType::Result, &arms, &fallback()), &["err"]);
}

#[test]
fn test_result_ok_absent() {
    let arms = vec![err(ident("str"))];
    assert_missing(check(&ScrutineeType::Result, &arms, &fallback()), &["ok"]);
}

#[test]
fn test_result_nested_invalid1() {
    let arms = vec![ok(err(ident("a"))), err(wild())];
    assert_missing(check(&ScrutineeType::Result, &arms, &fallback()), &["ok(ok)"]);
}

#[test]
fn test_result_nested_invalid2() {
    let arms = vec![ok(ok(ident("a"))), err(wild())];
    assert_missing(check(&ScrutineeType::Result, &arms, &fallback()), &["ok(err)"]);
}

#[test]
fn test_result_wild_card_with_nested1() {
    let arms = vec![ok(ok(ident("a"))), wild()];
    assert!(check(&ScrutineeType::Result, &arms, &fallback()).is_ok());
}

#[test]
fn test_result_wild_card_with_nested2() {
    let arms = vec![err(err(ident("a"))), wild()];
    assert!(check(&ScrutineeType::Result, &arms, &fallback()).is_ok());
}

#[test]
fn test_option_wild_card_with_nested1() {
    let arms = vec![some(some(ident("a"))), wild()];
    assert!(check(&ScrutineeType::Option, &arms, &fallback()).is_ok());
}
