use rib_core::wasm_wave_text::{enum_case_index, flags_bitmap, selected_flags, variant_case_index};
use rib_core::wit_type::{self, WitType};

fn variant_of(t: WitType) -> rib_core::wit_type::TypeVariant {
    match t {
        WitType::Variant(v) => v,
        _ => unreachable!(),
    }
}

fn enum_of(t: WitType) -> rib_core::wit_type::TypeEnum {
    match t {
        WitType::Enum(e) => e,
        _ => unreachable!(),
    }
}

fn flags_of(t: WitType) -> rib_core::wit_type::TypeFlags {
    match t {
        WitType::Flags(f) => f,
        _ => unreachable!(),
    }
}

#[test]
fn variant_case_index_finds_first_case_by_name() {
    let v = variant_of(wit_type::variant(vec![
        wit_type::unit_case("a"),
        wit_type::case("b", wit_type::u8()),
        wit_type::unit_case("b"),
    ]));
    assert_eq!(variant_case_index(&v, "a"), Some(0));
    assert_eq!(variant_case_index(&v, "b"), Some(1));
    assert_eq!(variant_case_index(&v, "c"), None);
    assert_eq!(variant_case_index(&v, ""), None);
}

#[test]
fn enum_case_index_finds_case_by_name() {
    let e = enum_of(wit_type::enum_type(&["red", "green", "blue"]));
    assert_eq!(enum_case_index(&e, "blue"), Some(2));
    assert_eq!(enum_case_index(&e, "Blue"), None);
    let empty = enum_of(wit_type::enum_type(&[]));
    assert_eq!(enum_case_index(&empty, "red"), None);
}

#[test]
fn flags_bitmap_marks_named_flags() {
    let f = flags_of(wit_type::flags(&["read", "write", "exec"]));
    let names = vec!["exec".to_string(), "read".to_string(), "unknown".to_string()];
    assert_eq!(flags_bitmap(&f, &names), vec![true, false, true]);
    assert_eq!(flags_bitmap(&f, &vec![]), vec![false, false, false]);
}

#[test]
fn selected_flags_inverts_bitmap() {
    let f = flags_of(wit_type::flags(&["read", "write", "exec"]));
    assert_eq!(
        selected_flags(&vec![true, false, true], &f),
        vec!["read".to_string(), "exec".to_string()]
    );
    assert_eq!(selected_flags(&vec![false, true], &f), vec!["write".to_string()]);
    assert_eq!(selected_flags(&vec![true, true, true, true], &f).len(), 3);
    let names = vec!["write".to_string()];
    assert_eq!(selected_flags(&flags_bitmap(&f, &names), &f), names);
}

use rib_core::value::Value;
use rib_core::wasm_wave_text::check_printable;
use rib_core::value_and_type::ValueAndType;
use rib_core::wasm_wave_text::{
    make_enum, make_flags, make_list, make_option, make_record, make_result, make_tuple,
    make_variant, unwrap_enum, unwrap_flags, unwrap_list, unwrap_option, unwrap_record,
    unwrap_result, unwrap_tuple, unwrap_variant, unwrappable, wave_kind, WaveKind, WaveValueError,
};

fn vt(value: Value, typ: WitType) -> ValueAndType {
    ValueAndType::new(value, typ)
}

#[test]
fn wave_kind_of_each_type() {
    assert_eq!(wave_kind(&wit_type::u8()), WaveKind::U8);
    assert_eq!(wave_kind(&wit_type::chr()), WaveKind::Char);
    assert_eq!(wave_kind(&wit_type::str()), WaveKind::String);
    assert_eq!(wave_kind(&wit_type::unit_result()), WaveKind::Result);
    assert_eq!(
        wave_kind(&wit_type::handle(
            rib_core::wit_type::AnalysedResourceId(1),
            rib_core::wit_type::AnalysedResourceMode::Owned
        )),
        WaveKind::Unsupported
    );
}

#[test]
fn make_list_and_tuple_keep_values_in_order() {
    let ty = wit_type::list(wit_type::u8());
    let l = make_list(&ty, vec![vt(Value::U8(1), wit_type::u8()), vt(Value::U8(2), wit_type::u8())]);
    assert_eq!(l.value, Value::List(vec![Value::U8(1), Value::U8(2)]));
    assert_eq!(l.typ, ty);
    let back = unwrap_list(&l);
    assert_eq!(back, vec![vt(Value::U8(1), wit_type::u8()), vt(Value::U8(2), wit_type::u8())]);

    let tty = wit_type::tuple(vec![wit_type::u8(), wit_type::str()]);
    let t = make_tuple(
        &tty,
        vec![vt(Value::U8(3), wit_type::u8()), vt(Value::String("x".into()), wit_type::str())],
    );
    assert_eq!(t.value, Value::Tuple(vec![Value::U8(3), Value::String("x".into())]));
    assert_eq!(unwrap_tuple(&t)[1], vt(Value::String("x".into()), wit_type::str()));
}

#[test]
fn make_record_ignores_names_and_unwrap_names_fields() {
    let ty = wit_type::record(vec![
        wit_type::field("a", wit_type::u32()),
        wit_type::field("b", wit_type::bool()),
    ]);
    let r = make_record(
        &ty,
        vec![
            ("a".to_string(), vt(Value::U32(9), wit_type::u32())),
            ("b".to_string(), vt(Value::Bool(true), wit_type::bool())),
        ],
    );
    assert_eq!(r.value, Value::Record(vec![Value::U32(9), Value::Bool(true)]));
    let fields = unwrap_record(&r);
    assert_eq!(fields.len(), 2);
    assert_eq!(fields[0], ("a".to_string(), vt(Value::U32(9), wit_type::u32())));
    assert_eq!(fields[1], ("b".to_string(), vt(Value::Bool(true), wit_type::bool())));
}

#[test]
fn make_variant_finds_case_or_fails() {
    let ty = wit_type::variant(vec![wit_type::unit_case("none"), wit_type::case("num", wit_type::s32())]);
    let v = make_variant(&ty, "num", Some(vt(Value::S32(-4), wit_type::s32()))).unwrap();
    assert_eq!(
        v.value,
        Value::Variant { case_idx: 1, case_value: Some(Box::new(Value::S32(-4))) }
    );
    assert_eq!(unwrap_variant(&v), ("num".to_string(), Some(vt(Value::S32(-4), wit_type::s32()))));
    let n = make_variant(&ty, "none", None).unwrap();
    assert_eq!(unwrap_variant(&n), ("none".to_string(), None));
    match make_variant(&ty, "other", None) {
        Err(WaveValueError::UnknownCase(c)) => assert_eq!(c, "other"),
        other => panic!("unexpected {:?}", other),
    }
    match make_variant(&wit_type::u8(), "num", None) {
        Err(WaveValueError::WrongTypeKind { expected, found }) => {
            assert_eq!(expected, WaveKind::Variant);
            assert_eq!(found, WaveKind::U8);
        }
        other => panic!("unexpected {:?}", other),
    }
}

#[test]
fn make_enum_finds_case_or_fails() {
    let ty = wit_type::enum_type(&["low", "high"]);
    let e = make_enum(&ty, "high").unwrap();
    assert_eq!(e.value, Value::Enum(1));
    assert_eq!(unwrap_enum(&e), "high");
    assert!(matches!(make_enum(&ty, "mid"), Err(WaveValueError::UnknownCase(c)) if c == "mid"));
    assert!(matches!(
        make_enum(&wit_type::str(), "high"),
        Err(WaveValueError::WrongTypeKind { expected: WaveKind::Enum, found: WaveKind::String })
    ));
}

#[test]
fn make_option_and_result() {
    let ty = wit_type::option(wit_type::u16());
    let s = make_option(&ty, Some(vt(Value::U16(5), wit_type::u16())));
    assert_eq!(s.value, Value::Option(Some(Box::new(Value::U16(5)))));
    assert_eq!(unwrap_option(&s), Some(vt(Value::U16(5), wit_type::u16())));
    assert_eq!(unwrap_option(&make_option(&ty, None)), None);

    let rty = wit_type::result(wit_type::u8(), wit_type::str());
    let ok = make_result(&rty, Ok(Some(vt(Value::U8(1), wit_type::u8()))));
    assert_eq!(ok.value, Value::Result(Ok(Some(Box::new(Value::U8(1))))));
    assert_eq!(unwrap_result(&ok), Ok(Some(vt(Value::U8(1), wit_type::u8()))));
    let err = make_result(&rty, Err(Some(vt(Value::String("bad".into()), wit_type::str()))));
    assert_eq!(unwrap_result(&err), Err(Some(vt(Value::String("bad".into()), wit_type::str()))));
    let unit = make_result(&wit_type::unit_result(), Err(None));
    assert_eq!(unwrap_result(&unit), Err(None));
}

#[test]
fn make_flags_then_unwrap_gives_set_flags_in_type_order() {
    let ty = wit_type::flags(&["a", "b", "c"]);
    let f = make_flags(&ty, &vec!["c".to_string(), "a".to_string(), "z".to_string()]).unwrap();
    assert_eq!(f.value, Value::Flags(vec![true, false, true]));
    assert_eq!(unwrap_flags(&f), vec!["a".to_string(), "c".to_string()]);
    assert!(matches!(
        make_flags(&wit_type::bool(), &vec![]),
        Err(WaveValueError::WrongTypeKind { expected: WaveKind::Flags, found: WaveKind::Bool })
    ));
}

#[test]
fn unwrappable_checks_value_against_type() {
    assert!(unwrappable(&vt(Value::Bool(true), wit_type::u8()), WaveKind::Bool));
    assert!(!unwrappable(&vt(Value::U8(1), wit_type::u8()), WaveKind::Bool));
    assert!(!unwrappable(&vt(Value::List(vec![]), wit_type::u8()), WaveKind::List));
    assert!(unwrappable(&vt(Value::List(vec![]), wit_type::list(wit_type::u8())), WaveKind::List));
    let ety = wit_type::enum_type(&["x"]);
    assert!(unwrappable(&vt(Value::Enum(0), ety.clone()), WaveKind::Enum));
    assert!(!unwrappable(&vt(Value::Enum(1), ety), WaveKind::Enum));
    let vty = wit_type::variant(vec![wit_type::unit_case("u")]);
    assert!(unwrappable(&vt(Value::Variant { case_idx: 0, case_value: None }, vty.clone()), WaveKind::Variant));
    assert!(!unwrappable(
        &vt(Value::Variant { case_idx: 0, case_value: Some(Box::new(Value::U8(1))) }, vty),
        WaveKind::Variant
    ));
    assert!(!unwrappable(
        &vt(Value::Result(Ok(Some(Box::new(Value::U8(1))))), wit_type::unit_result()),
        WaveKind::Result
    ));
    assert!(unwrappable(&vt(Value::Result(Ok(None)), wit_type::unit_result()), WaveKind::Result));
    assert!(!unwrappable(&vt(Value::Bool(true), wit_type::bool()), WaveKind::Unsupported));
}

#[test]
fn handles_cannot_be_printed() {
    let h = wit_type::handle(
        rib_core::wit_type::AnalysedResourceId(2),
        rib_core::wit_type::AnalysedResourceMode::Borrowed,
    );
    let v = vt(Value::List(vec![]), wit_type::list(h));
    assert_eq!(check_printable(&v), Err("Cannot print handle type".to_string()));
    assert_eq!(check_printable(&vt(Value::U8(1), wit_type::u8())), Ok(()));
}
