//! A value together with the WIT type that gives it meaning.

use crate::value::Value;
use crate::wit_type::{self, WitType};
use vstd::prelude::*;

verus! {

#[derive(Debug, PartialEq)]
pub struct ValueAndType {
    pub value: Value,
    pub typ: WitType,
}

impl Clone for ValueAndType {
    fn clone(&self) -> (r: Self)
        ensures
            self.value.equiv(r.value),
            self.typ.equiv(r.typ),
    {
        ValueAndType { value: self.value.deep_clone(), typ: self.typ.deep_clone() }
    }
}

impl ValueAndType {
    pub fn new(value: Value, typ: WitType) -> (v: ValueAndType)
        ensures
            v.value == value,
            v.typ == typ,
    {
        ValueAndType { value, typ }
    }
}

impl From<ValueAndType> for Value {
    fn from(value_and_type: ValueAndType) -> (v: Value) {
        value_and_type.value
    }
}

impl vstd::std_specs::convert::FromSpecImpl<ValueAndType> for Value {
    open spec fn obeys_from_spec() -> bool {
        true
    }

    open spec fn from_spec(v: ValueAndType) -> Value {
        v.value
    }
}

impl From<ValueAndType> for WitType {
    fn from(value_and_type: ValueAndType) -> (t: WitType) {
        value_and_type.typ
    }
}

impl vstd::std_specs::convert::FromSpecImpl<ValueAndType> for WitType {
    open spec fn obeys_from_spec() -> bool {
        true
    }

    open spec fn from_spec(v: ValueAndType) -> WitType {
        v.typ
    }
}

/// Rust values that have a component-model representation and a WIT type.
pub trait IntoValue: Sized {
    /// `v` is the component-model value that represents `self`.
    spec fn is_value_of(self, v: Value) -> bool;

    /// `t` is the WIT type of the values of `Self`.
    spec fn is_wit_type(t: WitType) -> bool;

    fn into_value(self) -> (v: Value)
        ensures
            self.is_value_of(v),
    ;

    fn get_type() -> (t: WitType)
        ensures
            Self::is_wit_type(t),
    ;
}

/// Rust values that can be turned into a typed value.
pub trait IntoValueAndType: Sized {
    /// `v` is the typed value that represents `self`.
    spec fn is_value_and_type_of(self, v: ValueAndType) -> bool;

    fn into_value_and_type(self) -> (v: ValueAndType)
        ensures
            self.is_value_and_type_of(v),
    ;
}

impl<T: IntoValue> IntoValueAndType for T {
    open spec fn is_value_and_type_of(self, v: ValueAndType) -> bool {
        self.is_value_of(v.value) && T::is_wit_type(v.typ)
    }

    fn into_value_and_type(self) -> (v: ValueAndType) {
        ValueAndType::new(self.into_value(), T::get_type())
    }
}

impl IntoValue for u8 {
    open spec fn is_value_of(self, v: Value) -> bool {
        v == Value::U8(self)
    }

    open spec fn is_wit_type(t: WitType) -> bool {
        t == WitType::U8(wit_type::TypeU8)
    }

    fn into_value(self) -> (v: Value) {
        Value::U8(self)
    }

    fn get_type() -> (t: WitType) {
        wit_type::u8()
    }
}

impl IntoValue for u16 {
    open spec fn is_value_of(self, v: Value) -> bool {
        v == Value::U16(self)
    }

    open spec fn is_wit_type(t: WitType) -> bool {
        t == WitType::U16(wit_type::TypeU16)
    }

    fn into_value(self) -> (v: Value) {
        Value::U16(self)
    }

    fn get_type() -> (t: WitType) {
        wit_type::u16()
    }
}

impl IntoValue for u32 {
    open spec fn is_value_of(self, v: Value) -> bool {
        v == Value::U32(self)
    }

    open spec fn is_wit_type(t: WitType) -> bool {
        t == WitType::U32(wit_type::TypeU32)
    }

    fn into_value(self) -> (v: Value) {
        Value::U32(self)
    }

    fn get_type() -> (t: WitType) {
        wit_type::u32()
    }
}

impl IntoValue for u64 {
    open spec fn is_value_of(self, v: Value) -> bool {
        v == Value::U64(self)
    }

    open spec fn is_wit_type(t: WitType) -> bool {
        t == WitType::U64(wit_type::TypeU64)
    }

    fn into_value(self) -> (v: Value) {
        Value::U64(self)
    }

    fn get_type() -> (t: WitType) {
        wit_type::u64()
    }
}

impl IntoValue for i8 {
    open spec fn is_value_of(self, v: Value) -> bool {
        v == Value::S8(self)
    }

    open spec fn is_wit_type(t: WitType) -> bool {
        t == WitType::S8(wit_type::TypeS8)
    }

    fn into_value(self) -> (v: Value) {
        Value::S8(self)
    }

    fn get_type() -> (t: WitType) {
        wit_type::s8()
    }
}

impl IntoValue for i16 {
    open spec fn is_value_of(self, v: Value) -> bool {
        v == Value::S16(self)
    }

    open spec fn is_wit_type(t: WitType) -> bool {
        t == WitType::S16(wit_type::TypeS16)
    }

    fn into_value(self) -> (v: Value) {
        Value::S16(self)
    }

    fn get_type() -> (t: WitType) {
        wit_type::s16()
    }
}

impl IntoValue for i32 {
    open spec fn is_value_of(self, v: Value) -> bool {
        v == Value::S32(self)
    }

    open spec fn is_wit_type(t: WitType) -> bool {
        t == WitType::S32(wit_type::TypeS32)
    }

    fn into_value(self) -> (v: Value) {
        Value::S32(self)
    }

    fn get_type() -> (t: WitType) {
        wit_type::s32()
    }
}

impl IntoValue for i64 {
    open spec fn is_value_of(self, v: Value) -> bool {
        v == Value::S64(self)
    }

    open spec fn is_wit_type(t: WitType) -> bool {
        t == WitType::S64(wit_type::TypeS64)
    }

    fn into_value(self) -> (v: Value) {
        Value::S64(self)
    }

    fn get_type() -> (t: WitType) {
        wit_type::s64()
    }
}

impl IntoValue for bool {
    open spec fn is_value_of(self, v: Value) -> bool {
        v == Value::Bool(self)
    }

    open spec fn is_wit_type(t: WitType) -> bool {
        t == WitType::Bool(wit_type::TypeBool)
    }

    fn into_value(self) -> (v: Value) {
        Value::Bool(self)
    }

    fn get_type() -> (t: WitType) {
        wit_type::bool()
    }
}

impl IntoValue for char {
    open spec fn is_value_of(self, v: Value) -> bool {
        v == Value::Char(self)
    }

    open spec fn is_wit_type(t: WitType) -> bool {
        t == WitType::Chr(wit_type::TypeChr)
    }

    fn into_value(self) -> (v: Value) {
        Value::Char(self)
    }

    fn get_type() -> (t: WitType) {
        wit_type::chr()
    }
}

impl IntoValue for String {
    open spec fn is_value_of(self, v: Value) -> bool {
        v == Value::String(self)
    }

    open spec fn is_wit_type(t: WitType) -> bool {
        t == WitType::Str(wit_type::TypeStr)
    }

    fn into_value(self) -> (v: Value) {
        Value::String(self)
    }

    fn get_type() -> (t: WitType) {
        wit_type::str()
    }
}

impl<'a> IntoValue for &'a str {
    open spec fn is_value_of(self, v: Value) -> bool {
        v matches Value::String(s) && s@ == self@
    }

    open spec fn is_wit_type(t: WitType) -> bool {
        t == WitType::Str(wit_type::TypeStr)
    }

    fn into_value(self) -> (v: Value) {
        Value::String(crate::text::to_owned_string(self))
    }

    fn get_type() -> (t: WitType) {
        wit_type::str()
    }
}

impl<T: IntoValue> IntoValue for Vec<T> {
    open spec fn is_value_of(self, v: Value) -> bool {
        v matches Value::List(items) && items@.len() == self@.len()
            && forall|i: int| 0 <= i < self@.len() ==> #[trigger] self@[i].is_value_of(items@[i])
    }

    open spec fn is_wit_type(t: WitType) -> bool {
        t matches WitType::List(l) && l.name is None && l.owner is None && T::is_wit_type(*l.inner)
    }

    fn into_value(self) -> (v: Value) {
        let ghost input = self@;
        let mut rest = self;
        let mut reversed: Vec<Value> = Vec::new();
        while rest.len() > 0
            invariant
                rest@.len() + reversed@.len() == input.len(),
                rest@ == input.subrange(0, rest@.len() as int),
                forall|j: int| 0 <= j < reversed@.len() ==>
                    #[trigger] input[input.len() - 1 - j].is_value_of(reversed@[j]),
            decreases rest@.len(),
        {
            let x = rest.pop().unwrap();
            let v = x.into_value();
            reversed.push(v);
        }
        let mut items: Vec<Value> = Vec::new();
        while reversed.len() > 0
            invariant
                reversed@.len() + items@.len() == input.len(),
                forall|j: int| 0 <= j < reversed@.len() ==>
                    #[trigger] input[input.len() - 1 - j].is_value_of(reversed@[j]),
                forall|j: int| 0 <= j < items@.len() ==> #[trigger] input[j].is_value_of(items@[j]),
            decreases reversed@.len(),
        {
            let ghost last = reversed@.len() - 1;
            assert(input[input.len() - 1 - last].is_value_of(reversed@[last]));
            let v = reversed.pop().unwrap();
            items.push(v);
            assert(input.len() - 1 - last == items@.len() - 1);
        }
        Value::List(items)
    }

    fn get_type() -> (t: WitType) {
        wit_type::list(T::get_type())
    }
}

impl<T: IntoValue> IntoValue for Option<T> {
    open spec fn is_value_of(self, v: Value) -> bool {
        match self {
            None => v == Value::Option(None),
            Some(x) => v matches Value::Option(Some(b)) && x.is_value_of(*b),
        }
    }

    open spec fn is_wit_type(t: WitType) -> bool {
        t matches WitType::Option(o) && o.name is None && o.owner is None && T::is_wit_type(*o.inner)
    }

    fn into_value(self) -> (v: Value) {
        match self {
            None => Value::Option(None),
            Some(x) => Value::Option(Some(Box::new(x.into_value()))),
        }
    }

    fn get_type() -> (t: WitType) {
        wit_type::option(T::get_type())
    }
}

impl<A: IntoValue, B: IntoValue> IntoValue for (A, B) {
    open spec fn is_value_of(self, v: Value) -> bool {
        v matches Value::Tuple(items) && items@.len() == 2 && self.0.is_value_of(items@[0])
            && self.1.is_value_of(items@[1])
    }

    open spec fn is_wit_type(t: WitType) -> bool {
        t matches WitType::Tuple(tt) && tt.name is None && tt.owner is None && tt.items@.len() == 2
            && A::is_wit_type(tt.items@[0]) && B::is_wit_type(tt.items@[1])
    }

    fn into_value(self) -> (v: Value) {
        let (a, b) = self;
        let mut items: Vec<Value> = Vec::new();
        items.push(a.into_value());
        items.push(b.into_value());
        Value::Tuple(items)
    }

    fn get_type() -> (t: WitType) {
        let mut items: Vec<WitType> = Vec::new();
        items.push(A::get_type());
        items.push(B::get_type());
        wit_type::tuple(items)
    }
}

} // verus!
