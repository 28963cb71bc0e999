use rib_core::value::Value;
use rib_core::value_and_type::{IntoValue, IntoValueAndType, ValueAndType};
use rib_core::wit_type::{self, WitType};

#[test]
fn integers_become_values_of_their_width() {
    assert_eq!(7u8.into_value(), Value::U8(7));
    assert_eq!(7u16.into_value(), Value::U16(7));
    assert_eq!(7u32.into_value(), Value::U32(7));
    assert_eq!(7u64.into_value(), Value::U64(7));
    assert_eq!((-7i8).into_value(), Value::S8(-7));
    assert_eq!((-7i16).into_value(), Value::S16(-7));
    assert_eq!((-7i32).into_value(), Value::S32(-7));
    assert_eq!((-7i64).into_value(), Value::S64(-7));
    assert_eq!(u8::get_type(), wit_type::u8());
    assert_eq!(i64::get_type(), wit_type::s64());
}

#[test]
fn text_and_bool_values() {
    assert_eq!(true.into_value(), Value::Bool(true));
    assert_eq!('x'.into_value(), Value::Char('x'));
    assert_eq!("hi".into_value(), Value::String("hi".to_string()));
    assert_eq!("hi".to_string().into_value(), Value::String("hi".to_string()));
    assert_eq!(<&str>::get_type(), wit_type::str());
    assert_eq!(String::get_type(), wit_type::str());
    assert_eq!(char::get_type(), wit_type::chr());
    assert_eq!(bool::get_type(), wit_type::bool());
}

#[test]
fn lists_keep_their_order() {
    let v = vec![1u32, 2, 3].into_value();
    assert_eq!(v, Value::List(vec![Value::U32(1), Value::U32(2), Value::U32(3)]));
    assert_eq!(Vec::<u32>::get_type(), wit_type::list(wit_type::u32()));
    assert_eq!(Vec::<u8>::new().into_value(), Value::List(vec![]));
}

#[test]
fn options_and_pairs() {
    assert_eq!(Some(5u8).into_value(), Value::Option(Some(Box::new(Value::U8(5)))));
    assert_eq!(None::<u8>.into_value(), Value::Option(None));
    assert_eq!(Option::<String>::get_type(), wit_type::option(wit_type::str()));
    assert_eq!(
        (1u8, "a").into_value(),
        Value::Tuple(vec![Value::U8(1), Value::String("a".to_string())])
    );
    assert_eq!(
        <(u8, bool)>::get_type(),
        wit_type::tuple(vec![wit_type::u8(), wit_type::bool()])
    );
}

#[test]
fn into_value_and_type_pairs_value_with_type() {
    let vt = vec![Some(1i32), None].into_value_and_type();
    assert_eq!(
        vt.value,
        Value::List(vec![Value::Option(Some(Box::new(Value::S32(1)))), Value::Option(None)])
    );
    assert_eq!(vt.typ, wit_type::list(wit_type::option(wit_type::s32())));
    let v: Value = vt.clone().into();
    assert_eq!(v, vt.value);
    let t: WitType = vt.clone().into();
    assert_eq!(t, vt.typ);
}

#[test]
fn value_and_type_new_keeps_parts() {
    let vt = ValueAndType::new(Value::Enum(2), wit_type::enum_type(&["a", "b", "c"]));
    assert_eq!(vt.value, Value::Enum(2));
    assert_eq!(vt.typ, wit_type::enum_type(&["a", "b", "c"]));
    assert_eq!(vt.clone(), vt);
}

#[test]
fn value_clones_are_equal() {
    let v = Value::Variant {
        case_idx: 1,
        case_value: Some(Box::new(Value::Result(Err(Some(Box::new(Value::F64(4.5f64.to_bits()))))))),
    };
    assert_eq!(v.clone(), v);
    assert_eq!(v.deep_clone(), v);
    let flags = Value::Flags(vec![true, false]);
    assert_eq!(flags.clone(), flags);
}

#[test]
fn floats_compare_as_floats() {
    let nan = Value::F32(f32::NAN.to_bits());
    assert_ne!(nan, Value::F32(f32::NAN.to_bits()));
    assert_eq!(Value::F32(0.0f32.to_bits()), Value::F32((-0.0f32).to_bits()));
    assert_eq!(Value::F64(0.0f64.to_bits()), Value::F64((-0.0f64).to_bits()));
    assert_ne!(Value::F64(f64::NAN.to_bits()), Value::F64(f64::NAN.to_bits()));
    assert_eq!(Value::F64(1.5f64.to_bits()), Value::F64(1.5f64.to_bits()));
    assert_ne!(Value::F32(1.5f32.to_bits()), Value::F32(2.5f32.to_bits()));
    assert_eq!(
        Value::List(vec![Value::F32((-0.0f32).to_bits())]),
        Value::List(vec![Value::F32(0.0f32.to_bits())])
    );
    assert_ne!(Value::List(vec![Value::U8(1)]), Value::List(vec![Value::U8(1), Value::U8(2)]));
    assert_ne!(Value::U8(1), Value::U16(1));
    assert_eq!(Value::String("a".into()), Value::String("a".into()));
    assert_ne!(Value::Flags(vec![true]), Value::Flags(vec![false]));
}
