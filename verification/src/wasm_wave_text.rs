//! The decisions behind reading and writing typed values in Wasm Wave text:
//! finding the case of a variant or enum by name, and turning flag names into
//! the bitmap a value stores and back.

use crate::text::{contains_string, string_views, to_owned_string};
use crate::value::Value;
use crate::value_and_type::ValueAndType;
use crate::wit_type::laws::lemma_equiv_transitive;
use crate::wit_type::{TypeEnum, TypeFlags, TypeVariant, WitType};
use vstd::prelude::*;

verus! {

/// `r` is the position of the first name in `names` equal to `target`, or `None` when there is none.
pub open spec fn is_first_position(names: Seq<Seq<char>>, target: Seq<char>, r: Option<u32>) -> bool {
    match r {
        Some(i) => i < names.len() && names[i as int] == target
            && forall|j: int| 0 <= j < i ==> names[j] != target,
        None => forall|j: int| 0 <= j < names.len() ==> names[j] != target,
    }
}

/// The names of the cases of a variant type.
pub open spec fn variant_case_names(t: TypeVariant) -> Seq<Seq<char>> {
    t.cases@.map_values(|c: crate::wit_type::NameOptionTypePair| c.name@)
}

/// The index of the case of a variant type named `case`, if it has one.
pub fn variant_case_index(typ: &TypeVariant, case: &str) -> (r: Option<u32>)
    requires
        typ.cases@.len() <= u32::MAX,
    ensures
        is_first_position(variant_case_names(*typ), case@, r),
{
    let target = to_owned_string(case);
    let mut i: usize = 0;
    while i < typ.cases.len()
        invariant
            i <= typ.cases@.len(),
            typ.cases@.len() <= u32::MAX,
            target@ == case@,
            forall|j: int| 0 <= j < i ==> variant_case_names(*typ)[j] != case@,
        decreases typ.cases@.len() - i,
    {
        if typ.cases[i].name == target {
            return Some(i as u32);
        }
        i = i + 1;
    }
    None
}

/// The index of the case of an enum type named `case`, if it has one.
pub fn enum_case_index(typ: &TypeEnum, case: &str) -> (r: Option<u32>)
    requires
        typ.cases@.len() <= u32::MAX,
    ensures
        is_first_position(string_views(typ.cases@), case@, r),
{
    let target = to_owned_string(case);
    let mut i: usize = 0;
    while i < typ.cases.len()
        invariant
            i <= typ.cases@.len(),
            typ.cases@.len() <= u32::MAX,
            target@ == case@,
            forall|j: int| 0 <= j < i ==> string_views(typ.cases@)[j] != case@,
        decreases typ.cases@.len() - i,
    {
        if typ.cases[i] == target {
            return Some(i as u32);
        }
        i = i + 1;
    }
    None
}

/// The bitmap of a flags value: one entry per flag of the type, in the type's
/// order, set exactly when the flag's name is among `names`.
pub fn flags_bitmap(typ: &TypeFlags, names: &Vec<String>) -> (bits: Vec<bool>)
    ensures
        bits@.len() == typ.names@.len(),
        forall|i: int| 0 <= i < typ.names@.len() ==>
            #[trigger] bits@[i] == string_views(names@).contains(typ.names@[i]@),
{
    let mut bits: Vec<bool> = Vec::new();
    let mut i: usize = 0;
    while i < typ.names.len()
        invariant
            i <= typ.names@.len(),
            bits@.len() == i,
            forall|j: int| 0 <= j < i ==>
                #[trigger] bits@[j] == string_views(names@).contains(typ.names@[j]@),
        decreases typ.names@.len() - i,
    {
        bits.push(contains_string(names, &typ.names[i]));
        i = i + 1;
    }
    bits
}

/// The names whose bit is set, in order, pairing `bits` with `names` up to the
/// shorter of the two.
pub open spec fn selected_names(bits: Seq<bool>, names: Seq<Seq<char>>) -> Seq<Seq<char>>
    decreases bits.len(),
{
    if bits.len() == 0 || names.len() == 0 {
        seq![]
    } else {
        let n = if bits.len() < names.len() { bits.len() } else { names.len() };
        selected_names(bits.take(n - 1), names.take(n - 1)) + if bits[n - 1] {
            seq![names[n - 1]]
        } else {
            seq![]
        }
    }
}

/// The names of the flags set in a flags value's bitmap.
pub fn selected_flags(bits: &Vec<bool>, typ: &TypeFlags) -> (names: Vec<String>)
    ensures
        string_views(names@) == selected_names(bits@, string_views(typ.names@)),
{
    let n: usize = if bits.len() < typ.names.len() { bits.len() } else { typ.names.len() };
    let ghost all = string_views(typ.names@);
    let mut names: Vec<String> = Vec::new();
    let mut i: usize = 0;
    while i < n
        invariant
            i <= n,
            n <= bits@.len(),
            n <= typ.names@.len(),
            n == bits@.len() || n == typ.names@.len(),
            all == string_views(typ.names@),
            string_views(names@) == selected_names(bits@.take(i as int), all.take(i as int)),
        decreases n - i,
    {
        let ghost before = names@;
        assert(bits@.take(i + 1).take(i as int) == bits@.take(i as int));
        assert(all.take(i + 1).take(i as int) == all.take(i as int));
        if bits[i] {
            names.push(typ.names[i].clone());
            assert(string_views(names@) == string_views(before) + seq![all[i as int]]);
        } else {
            assert(string_views(names@) == string_views(before));
        }
        i = i + 1;
    }
    proof {
        if n == bits@.len() {
            assert(bits@.take(n as int) == bits@);
            if n < all.len() {
                // the remaining names have no bits to pair with
                assert(selected_names(bits@, all) == selected_names(bits@.take(n as int), all.take(n as int)))
                    by { lemma_selected_names_truncate(bits@, all); }
            } else {
                assert(all.take(n as int) == all);
            }
        } else {
            assert(all.take(n as int) == all);
            assert(selected_names(bits@, all) == selected_names(bits@.take(n as int), all.take(n as int)))
                by { lemma_selected_names_truncate(bits@, all); }
        }
    }
    names
}

/// Only the paired prefix of the two sequences matters.
proof fn lemma_selected_names_truncate(bits: Seq<bool>, names: Seq<Seq<char>>)
    ensures
        ({
            let n = if bits.len() < names.len() { bits.len() } else { names.len() };
            selected_names(bits, names) == selected_names(bits.take(n as int), names.take(n as int))
        }),
{
    let n = if bits.len() < names.len() { bits.len() } else { names.len() };
    if n > 0 {
        assert(bits.take(n as int).take(n - 1) == bits.take(n - 1));
        assert(names.take(n as int).take(n - 1) == names.take(n - 1));
    }
}

/// The kinds of types that Wasm Wave text distinguishes.
#[derive(Debug, Clone, Copy, PartialEq, Eq, Structural)]
pub enum WaveKind {
    Bool,
    S8,
    S16,
    S32,
    S64,
    U8,
    U16,
    U32,
    U64,
    F32,
    F64,
    Char,
    String,
    List,
    Record,
    Tuple,
    Variant,
    Enum,
    Option,
    Result,
    Flags,
    /// Resource handles have no text form.
    Unsupported,
}

/// The Wave kind of a WIT type.
pub open spec fn spec_wave_kind(t: WitType) -> WaveKind {
    match t {
        WitType::Bool(_) => WaveKind::Bool,
        WitType::S8(_) => WaveKind::S8,
        WitType::U8(_) => WaveKind::U8,
        WitType::S16(_) => WaveKind::S16,
        WitType::U16(_) => WaveKind::U16,
        WitType::S32(_) => WaveKind::S32,
        WitType::U32(_) => WaveKind::U32,
        WitType::S64(_) => WaveKind::S64,
        WitType::U64(_) => WaveKind::U64,
        WitType::F32(_) => WaveKind::F32,
        WitType::F64(_) => WaveKind::F64,
        WitType::Chr(_) => WaveKind::Char,
        WitType::Str(_) => WaveKind::String,
        WitType::List(_) => WaveKind::List,
        WitType::Tuple(_) => WaveKind::Tuple,
        WitType::Record(_) => WaveKind::Record,
        WitType::Flags(_) => WaveKind::Flags,
        WitType::Enum(_) => WaveKind::Enum,
        WitType::Option(_) => WaveKind::Option,
        WitType::Result(_) => WaveKind::Result,
        WitType::Variant(_) => WaveKind::Variant,
        WitType::Handle(_) => WaveKind::Unsupported,
    }
}

/// The Wave kind of a WIT type.
pub fn wave_kind(t: &WitType) -> (k: WaveKind)
    ensures
        k == spec_wave_kind(*t),
{
    match t {
        WitType::Bool(_) => WaveKind::Bool,
        WitType::S8(_) => WaveKind::S8,
        WitType::U8(_) => WaveKind::U8,
        WitType::S16(_) => WaveKind::S16,
        WitType::U16(_) => WaveKind::U16,
        WitType::S32(_) => WaveKind::S32,
        WitType::U32(_) => WaveKind::U32,
        WitType::S64(_) => WaveKind::S64,
        WitType::U64(_) => WaveKind::U64,
        WitType::F32(_) => WaveKind::F32,
        WitType::F64(_) => WaveKind::F64,
        WitType::Chr(_) => WaveKind::Char,
        WitType::Str(_) => WaveKind::String,
        WitType::List(_) => WaveKind::List,
        WitType::Tuple(_) => WaveKind::Tuple,
        WitType::Record(_) => WaveKind::Record,
        WitType::Flags(_) => WaveKind::Flags,
        WitType::Enum(_) => WaveKind::Enum,
        WitType::Option(_) => WaveKind::Option,
        WitType::Result(_) => WaveKind::Result,
        WitType::Variant(_) => WaveKind::Variant,
        WitType::Handle(_) => WaveKind::Unsupported,
    }
}

/// Why a typed value cannot be built from its Wave parts.
#[derive(Debug)]
pub enum WaveValueError {
    /// The type has no case of this name.
    UnknownCase(String),
    /// A value of kind `expected` was asked of a type of kind `found`.
    WrongTypeKind { expected: WaveKind, found: WaveKind },
}

/// The values held by a sequence of typed values, in order.
pub open spec fn values_of(vals: Seq<ValueAndType>) -> Seq<Value> {
    vals.map_values(|v: ValueAndType| v.value)
}

/// Moves the values out of a list of typed values.
fn take_values(vals: Vec<ValueAndType>) -> (r: Vec<Value>)
    ensures
        r@ == values_of(vals@),
{
    let ghost input = vals@;
    let mut rest = vals;
    let mut reversed: Vec<Value> = Vec::new();
    while rest.len() > 0
        invariant
            rest@.len() + reversed@.len() == input.len(),
            rest@ == input.take(rest@.len() as int),
            forall|j: int| 0 <= j < reversed@.len() ==>
                #[trigger] reversed@[j] == input[input.len() - 1 - j].value,
        decreases rest@.len(),
    {
        let x = rest.pop().unwrap();
        reversed.push(x.value);
    }
    let mut items: Vec<Value> = Vec::new();
    while reversed.len() > 0
        invariant
            reversed@.len() + items@.len() == input.len(),
            forall|j: int| 0 <= j < reversed@.len() ==>
                #[trigger] reversed@[j] == input[input.len() - 1 - j].value,
            forall|j: int| 0 <= j < items@.len() ==> #[trigger] items@[j] == input[j].value,
        decreases reversed@.len(),
    {
        let ghost last = reversed@.len() - 1;
        assert(reversed@[last] == input[input.len() - 1 - last].value);
        let v = reversed.pop().unwrap();
        items.push(v);
    }
    assert(items@ =~= values_of(input));
    items
}

/// A list value of type `ty` holding the values of `vals`, in order.
pub fn make_list(ty: &WitType, vals: Vec<ValueAndType>) -> (r: ValueAndType)
    ensures
        r.value matches Value::List(items) && items@ == values_of(vals@),
        ty.equiv(r.typ),
{
    let items = take_values(vals);
    ValueAndType { value: Value::List(items), typ: ty.clone() }
}

/// The values held by the typed values of record fields, in order.
pub open spec fn field_values_of(fields: Seq<(String, ValueAndType)>) -> Seq<Value> {
    fields.map_values(|f: (String, ValueAndType)| f.1.value)
}

/// Moves the values out of the typed values of record fields.
fn take_field_values(fields: Vec<(String, ValueAndType)>) -> (r: Vec<Value>)
    ensures
        r@ == field_values_of(fields@),
{
    let ghost input = fields@;
    let mut rest = fields;
    let mut reversed: Vec<Value> = Vec::new();
    while rest.len() > 0
        invariant
            rest@.len() + reversed@.len() == input.len(),
            rest@ == input.take(rest@.len() as int),
            forall|j: int| 0 <= j < reversed@.len() ==>
                #[trigger] reversed@[j] == input[input.len() - 1 - j].1.value,
        decreases rest@.len(),
    {
        let x = rest.pop().unwrap();
        reversed.push(x.1.value);
    }
    let mut items: Vec<Value> = Vec::new();
    while reversed.len() > 0
        invariant
            reversed@.len() + items@.len() == input.len(),
            forall|j: int| 0 <= j < reversed@.len() ==>
                #[trigger] reversed@[j] == input[input.len() - 1 - j].1.value,
            forall|j: int| 0 <= j < items@.len() ==> #[trigger] items@[j] == input[j].1.value,
        decreases reversed@.len(),
    {
        let ghost last = reversed@.len() - 1;
        assert(reversed@[last] == input[input.len() - 1 - last].1.value);
        let v = reversed.pop().unwrap();
        items.push(v);
    }
    assert(items@ =~= field_values_of(input));
    items
}

/// A record value of type `ty` holding the values of `fields`, in order (the
/// field names are not looked at).
pub fn make_record(ty: &WitType, fields: Vec<(String, ValueAndType)>) -> (r: ValueAndType)
    ensures
        r.value matches Value::Record(items) && items@ == field_values_of(fields@),
        ty.equiv(r.typ),
{
    let items = take_field_values(fields);
    ValueAndType { value: Value::Record(items), typ: ty.clone() }
}

/// A tuple value of type `ty` holding the values of `vals`, in order.
pub fn make_tuple(ty: &WitType, vals: Vec<ValueAndType>) -> (r: ValueAndType)
    ensures
        r.value matches Value::Tuple(items) && items@ == values_of(vals@),
        ty.equiv(r.typ),
{
    let items = take_values(vals);
    ValueAndType { value: Value::Tuple(items), typ: ty.clone() }
}

/// The boxed value of an optional typed value.
pub open spec fn boxed_value_of(val: Option<ValueAndType>) -> Option<Box<Value>> {
    match val {
        Some(v) => Some(Box::new(v.value)),
        None => None,
    }
}

fn box_value_of(val: Option<ValueAndType>) -> (r: Option<Box<Value>>)
    ensures
        r == boxed_value_of(val),
{
    match val {
        Some(v) => Some(Box::new(v.value)),
        None => None,
    }
}

/// The value of case `case` of the variant type `ty`, carrying the value of
/// `val` if any.
pub fn make_variant(ty: &WitType, case: &str, val: Option<ValueAndType>) -> (r: Result<ValueAndType, WaveValueError>)
    requires
        ty matches WitType::Variant(t) ==> t.cases@.len() <= u32::MAX,
    ensures
        match *ty {
            WitType::Variant(t) => match r {
                Ok(v) => ty.equiv(v.typ) && (v.value matches Value::Variant { case_idx, case_value }
                    && is_first_position(variant_case_names(t), case@, Some(case_idx))
                    && case_value == boxed_value_of(val)),
                Err(e) => is_first_position(variant_case_names(t), case@, None)
                    && (e matches WaveValueError::UnknownCase(name) && name@ == case@),
            },
            _ => r matches Err(WaveValueError::WrongTypeKind { expected, found })
                && expected == WaveKind::Variant && found == spec_wave_kind(*ty),
        },
{
    match ty {
        WitType::Variant(t) => match variant_case_index(t, case) {
            Some(case_idx) => Ok(
                ValueAndType {
                    value: Value::Variant { case_idx, case_value: box_value_of(val) },
                    typ: ty.clone(),
                },
            ),
            None => Err(WaveValueError::UnknownCase(to_owned_string(case))),
        },
        _ => Err(WaveValueError::WrongTypeKind { expected: WaveKind::Variant, found: wave_kind(ty) }),
    }
}

/// The value of case `case` of the enum type `ty`.
pub fn make_enum(ty: &WitType, case: &str) -> (r: Result<ValueAndType, WaveValueError>)
    requires
        ty matches WitType::Enum(t) ==> t.cases@.len() <= u32::MAX,
    ensures
        match *ty {
            WitType::Enum(t) => match r {
                Ok(v) => ty.equiv(v.typ) && (v.value matches Value::Enum(case_idx)
                    && is_first_position(string_views(t.cases@), case@, Some(case_idx))),
                Err(e) => is_first_position(string_views(t.cases@), case@, None)
                    && (e matches WaveValueError::UnknownCase(name) && name@ == case@),
            },
            _ => r matches Err(WaveValueError::WrongTypeKind { expected, found })
                && expected == WaveKind::Enum && found == spec_wave_kind(*ty),
        },
{
    match ty {
        WitType::Enum(t) => match enum_case_index(t, case) {
            Some(case_idx) => Ok(ValueAndType { value: Value::Enum(case_idx), typ: ty.clone() }),
            None => Err(WaveValueError::UnknownCase(to_owned_string(case))),
        },
        _ => Err(WaveValueError::WrongTypeKind { expected: WaveKind::Enum, found: wave_kind(ty) }),
    }
}

/// An option value of type `ty`: `none`, or `some` of the value of `val`.
pub fn make_option(ty: &WitType, val: Option<ValueAndType>) -> (r: ValueAndType)
    ensures
        r.value == Value::Option(boxed_value_of(val)),
        ty.equiv(r.typ),
{
    ValueAndType { value: Value::Option(box_value_of(val)), typ: ty.clone() }
}

/// A result value of type `ty`, `ok` or `err` as `val` is, each with the value of its payload if any.
pub fn make_result(ty: &WitType, val: Result<Option<ValueAndType>, Option<ValueAndType>>) -> (r: ValueAndType)
    ensures
        r.value == Value::Result(
            match val {
                Ok(o) => Ok(boxed_value_of(o)),
                Err(e) => Err(boxed_value_of(e)),
            },
        ),
        ty.equiv(r.typ),
{
    let inner = match val {
        Ok(o) => Ok(box_value_of(o)),
        Err(e) => Err(box_value_of(e)),
    };
    ValueAndType { value: Value::Result(inner), typ: ty.clone() }
}

/// The flags value of type `ty` in which exactly the flags named in `names` are set.
pub fn make_flags(ty: &WitType, names: &Vec<String>) -> (r: Result<ValueAndType, WaveValueError>)
    ensures
        match *ty {
            WitType::Flags(t) => r matches Ok(v) && v.value matches Value::Flags(bits)
                && bits@.len() == t.names@.len()
                && (forall|i: int| 0 <= i < t.names@.len() ==>
                    #[trigger] bits@[i] == string_views(names@).contains(t.names@[i]@))
                && ty.equiv(v.typ),
            _ => r matches Err(WaveValueError::WrongTypeKind { expected, found })
                && expected == WaveKind::Flags && found == spec_wave_kind(*ty),
        },
{
    match ty {
        WitType::Flags(t) => {
            let bits = flags_bitmap(t, names);
            Ok(ValueAndType { value: Value::Flags(bits), typ: ty.clone() })
        },
        _ => Err(WaveValueError::WrongTypeKind { expected: WaveKind::Flags, found: wave_kind(ty) }),
    }
}

/// A value of kind `k` can be read out of `v`: its value has that shape and,
/// for the kinds that hold other values, its type agrees with it (a variant
/// or enum case that the type has, a payload type for each payload).
pub open spec fn spec_unwrappable(v: ValueAndType, k: WaveKind) -> bool {
    match k {
        WaveKind::Bool => v.value is Bool,
        WaveKind::S8 => v.value is S8,
        WaveKind::S16 => v.value is S16,
        WaveKind::S32 => v.value is S32,
        WaveKind::S64 => v.value is S64,
        WaveKind::U8 => v.value is U8,
        WaveKind::U16 => v.value is U16,
        WaveKind::U32 => v.value is U32,
        WaveKind::U64 => v.value is U64,
        WaveKind::F32 => v.value is F32,
        WaveKind::F64 => v.value is F64,
        WaveKind::Char => v.value is Char,
        WaveKind::String => v.value is String,
        WaveKind::List => v.value is List && v.typ is List,
        WaveKind::Record => v.value is Record && v.typ is Record,
        WaveKind::Tuple => v.value is Tuple && v.typ is Tuple,
        WaveKind::Variant => match (v.value, v.typ) {
            (Value::Variant { case_idx, case_value }, WitType::Variant(t)) => case_idx < t.cases@.len()
                && (case_value is Some ==> t.cases@[case_idx as int].typ is Some),
            _ => false,
        },
        WaveKind::Enum => match (v.value, v.typ) {
            (Value::Enum(case_idx), WitType::Enum(t)) => case_idx < t.cases@.len(),
            _ => false,
        },
        WaveKind::Option => v.value is Option && v.typ is Option,
        WaveKind::Result => match (v.value, v.typ) {
            (Value::Result(r), WitType::Result(t)) => match r {
                Ok(Some(_)) => t.ok is Some,
                Err(Some(_)) => t.err is Some,
                _ => true,
            },
            _ => false,
        },
        WaveKind::Flags => v.value is Flags && v.typ is Flags,
        WaveKind::Unsupported => false,
    }
}

/// Whether a value of kind `k` can be read out of `v`.
pub fn unwrappable(v: &ValueAndType, k: WaveKind) -> (r: bool)
    ensures
        r == spec_unwrappable(*v, k),
{
    match k {
        WaveKind::Bool => matches!(v.value, Value::Bool(_)),
        WaveKind::S8 => matches!(v.value, Value::S8(_)),
        WaveKind::S16 => matches!(v.value, Value::S16(_)),
        WaveKind::S32 => matches!(v.value, Value::S32(_)),
        WaveKind::S64 => matches!(v.value, Value::S64(_)),
        WaveKind::U8 => matches!(v.value, Value::U8(_)),
        WaveKind::U16 => matches!(v.value, Value::U16(_)),
        WaveKind::U32 => matches!(v.value, Value::U32(_)),
        WaveKind::U64 => matches!(v.value, Value::U64(_)),
        WaveKind::F32 => matches!(v.value, Value::F32(_)),
        WaveKind::F64 => matches!(v.value, Value::F64(_)),
        WaveKind::Char => matches!(v.value, Value::Char(_)),
        WaveKind::String => matches!(v.value, Value::String(_)),
        WaveKind::List => matches!(v.value, Value::List(_)) && matches!(v.typ, WitType::List(_)),
        WaveKind::Record => matches!(v.value, Value::Record(_)) && matches!(v.typ, WitType::Record(_)),
        WaveKind::Tuple => matches!(v.value, Value::Tuple(_)) && matches!(v.typ, WitType::Tuple(_)),
        WaveKind::Variant => match (&v.value, &v.typ) {
            (Value::Variant { case_idx, case_value }, WitType::Variant(t)) => {
                let i = *case_idx as usize;
                i < t.cases.len() && (case_value.is_none() || t.cases[i].typ.is_some())
            },
            _ => false,
        },
        WaveKind::Enum => match (&v.value, &v.typ) {
            (Value::Enum(case_idx), WitType::Enum(t)) => (*case_idx as usize) < t.cases.len(),
            _ => false,
        },
        WaveKind::Option => matches!(v.value, Value::Option(_)) && matches!(v.typ, WitType::Option(_)),
        WaveKind::Result => match (&v.value, &v.typ) {
            (Value::Result(r), WitType::Result(t)) => match r {
                Ok(Some(_)) => t.ok.is_some(),
                Err(Some(_)) => t.err.is_some(),
                _ => true,
            },
            _ => false,
        },
        WaveKind::Flags => matches!(v.value, Value::Flags(_)) && matches!(v.typ, WitType::Flags(_)),
        WaveKind::Unsupported => false,
    }
}

/// The items of a list value, each typed with the list's element type.
pub fn unwrap_list(v: &ValueAndType) -> (r: Vec<ValueAndType>)
    requires
        spec_unwrappable(*v, WaveKind::List),
    ensures
        v.value matches Value::List(items) && v.typ matches WitType::List(l) && r@.len() == items@.len()
            && forall|i: int| 0 <= i < items@.len() ==> (#[trigger] items@[i]).equiv(r@[i].value)
                && (*l.inner).equiv(r@[i].typ),
{
    match (&v.value, &v.typ) {
        (Value::List(items), WitType::List(l)) => {
            let mut r: Vec<ValueAndType> = Vec::new();
            let mut i: usize = 0;
            while i < items.len()
                invariant
                    i <= items@.len(),
                    r@.len() == i,
                    forall|j: int| 0 <= j < i ==> (#[trigger] items@[j]).equiv(r@[j].value)
                        && (*l.inner).equiv(r@[j].typ),
                decreases items@.len() - i,
            {
                r.push(ValueAndType { value: items[i].clone(), typ: (*l.inner).clone() });
                i = i + 1;
            }
            r
        },
        _ => {
            proof {
                assert(false);
            }
            Vec::new()
        },
    }
}

/// The smaller of two lengths.
pub open spec fn min_len(a: nat, b: nat) -> nat {
    if a < b {
        a
    } else {
        b
    }
}

/// The fields of a record value, each named and typed by the record type's
/// field at the same position (up to the shorter of the two).
pub fn unwrap_record(v: &ValueAndType) -> (r: Vec<(String, ValueAndType)>)
    requires
        spec_unwrappable(*v, WaveKind::Record),
    ensures
        v.value matches Value::Record(items) && v.typ matches WitType::Record(t)
            && r@.len() == min_len(items@.len(), t.fields@.len())
            && forall|i: int| 0 <= i < r@.len() ==> (#[trigger] r@[i]).0@ == t.fields@[i].name@
                && items@[i].equiv(r@[i].1.value) && t.fields@[i].typ.equiv(r@[i].1.typ),
{
    match (&v.value, &v.typ) {
        (Value::Record(items), WitType::Record(t)) => {
            let n: usize = if items.len() < t.fields.len() { items.len() } else { t.fields.len() };
            let mut r: Vec<(String, ValueAndType)> = Vec::new();
            let mut i: usize = 0;
            while i < n
                invariant
                    n == min_len(items@.len(), t.fields@.len()),
                    i <= n,
                    r@.len() == i,
                    forall|j: int| 0 <= j < i ==> (#[trigger] r@[j]).0@ == t.fields@[j].name@
                        && items@[j].equiv(r@[j].1.value) && t.fields@[j].typ.equiv(r@[j].1.typ),
                decreases n - i,
            {
                let field = &t.fields[i];
                r.push((field.name.clone(), ValueAndType { value: items[i].clone(), typ: field.typ.clone() }));
                i = i + 1;
            }
            r
        },
        _ => {
            proof {
                assert(false);
            }
            Vec::new()
        },
    }
}

/// The items of a tuple value, each typed by the tuple type's item at the
/// same position (up to the shorter of the two).
pub fn unwrap_tuple(v: &ValueAndType) -> (r: Vec<ValueAndType>)
    requires
        spec_unwrappable(*v, WaveKind::Tuple),
    ensures
        v.value matches Value::Tuple(items) && v.typ matches WitType::Tuple(t)
            && r@.len() == min_len(items@.len(), t.items@.len())
            && forall|i: int| 0 <= i < r@.len() ==> items@[i].equiv((#[trigger] r@[i]).value)
                && t.items@[i].equiv(r@[i].typ),
{
    match (&v.value, &v.typ) {
        (Value::Tuple(items), WitType::Tuple(t)) => {
            let n: usize = if items.len() < t.items.len() { items.len() } else { t.items.len() };
            let mut r: Vec<ValueAndType> = Vec::new();
            let mut i: usize = 0;
            while i < n
                invariant
                    n == min_len(items@.len(), t.items@.len()),
                    i <= n,
                    r@.len() == i,
                    forall|j: int| 0 <= j < i ==> items@[j].equiv((#[trigger] r@[j]).value)
                        && t.items@[j].equiv(r@[j].typ),
                decreases n - i,
            {
                r.push(ValueAndType { value: items[i].clone(), typ: t.items[i].clone() });
                i = i + 1;
            }
            r
        },
        _ => {
            proof {
                assert(false);
            }
            Vec::new()
        },
    }
}

/// The case of a variant value: the name of its case, and its payload typed
/// by the case's type.
pub fn unwrap_variant(v: &ValueAndType) -> (r: (String, Option<ValueAndType>))
    requires
        spec_unwrappable(*v, WaveKind::Variant),
    ensures
        v.value matches Value::Variant { case_idx, case_value } && v.typ matches WitType::Variant(t)
            && r.0@ == t.cases@[case_idx as int].name@
            && match case_value {
                Some(b) => r.1 matches Some(x) && (*b).equiv(x.value)
                    && (t.cases@[case_idx as int].typ matches Some(ct) && ct.equiv(x.typ)),
                None => r.1 is None,
            },
{
    match (&v.value, &v.typ) {
        (Value::Variant { case_idx, case_value }, WitType::Variant(t)) => {
            let case = &t.cases[*case_idx as usize];
            let payload = match case_value {
                Some(b) => match &case.typ {
                    Some(ct) => Some(ValueAndType { value: (**b).clone(), typ: ct.clone() }),
                    None => {
                        proof {
                            assert(false);
                        }
                        None
                    },
                },
                None => None,
            };
            (case.name.clone(), payload)
        },
        _ => {
            proof {
                assert(false);
            }
            (String::new(), None)
        },
    }
}

/// The name of the case of an enum value.
pub fn unwrap_enum(v: &ValueAndType) -> (r: String)
    requires
        spec_unwrappable(*v, WaveKind::Enum),
    ensures
        v.value matches Value::Enum(case_idx) && v.typ matches WitType::Enum(t)
            && r@ == t.cases@[case_idx as int]@,
{
    match (&v.value, &v.typ) {
        (Value::Enum(case_idx), WitType::Enum(t)) => t.cases[*case_idx as usize].clone(),
        _ => {
            proof {
                assert(false);
            }
            String::new()
        },
    }
}

/// The payload of an option value, typed with the option's inner type.
pub fn unwrap_option(v: &ValueAndType) -> (r: Option<ValueAndType>)
    requires
        spec_unwrappable(*v, WaveKind::Option),
    ensures
        v.value matches Value::Option(o) && v.typ matches WitType::Option(t) && match o {
            Some(b) => r matches Some(x) && (*b).equiv(x.value) && (*t.inner).equiv(x.typ),
            None => r is None,
        },
{
    match (&v.value, &v.typ) {
        (Value::Option(Some(b)), WitType::Option(t)) => Some(
            ValueAndType { value: (**b).clone(), typ: (*t.inner).clone() },
        ),
        (Value::Option(None), WitType::Option(_)) => None,
        _ => {
            proof {
                assert(false);
            }
            None
        },
    }
}

/// A payload of a result value typed with the given payload type, when both are present.
pub open spec fn typed_payload(b: Option<Box<Value>>, t: Option<Box<WitType>>, x: Option<ValueAndType>) -> bool {
    match b {
        Some(val) => x matches Some(y) && (*val).equiv(y.value) && (t matches Some(ty) && (*ty).equiv(y.typ)),
        None => x is None,
    }
}

/// The outcome of a result value, with its payload typed by the result
/// type's `ok` or `err` type.
pub fn unwrap_result(v: &ValueAndType) -> (r: Result<Option<ValueAndType>, Option<ValueAndType>>)
    requires
        spec_unwrappable(*v, WaveKind::Result),
    ensures
        v.value matches Value::Result(res) && v.typ matches WitType::Result(t) && match res {
            Ok(b) => r matches Ok(x) && typed_payload(b, t.ok, x),
            Err(b) => r matches Err(x) && typed_payload(b, t.err, x),
        },
{
    match (&v.value, &v.typ) {
        (Value::Result(res), WitType::Result(t)) => match res {
            Ok(Some(b)) => match &t.ok {
                Some(ty) => Ok(Some(ValueAndType { value: (**b).clone(), typ: (**ty).clone() })),
                None => {
                    proof {
                        assert(false);
                    }
                    Ok(None)
                },
            },
            Ok(None) => Ok(None),
            Err(Some(b)) => match &t.err {
                Some(ty) => Err(Some(ValueAndType { value: (**b).clone(), typ: (**ty).clone() })),
                None => {
                    proof {
                        assert(false);
                    }
                    Err(None)
                },
            },
            Err(None) => Err(None),
        },
        _ => {
            proof {
                assert(false);
            }
            Ok(None)
        },
    }
}

/// The names of the flags set in a flags value.
pub fn unwrap_flags(v: &ValueAndType) -> (r: Vec<String>)
    requires
        spec_unwrappable(*v, WaveKind::Flags),
    ensures
        v.value matches Value::Flags(bits) && v.typ matches WitType::Flags(t)
            && string_views(r@) == selected_names(bits@, string_views(t.names@)),
{
    match (&v.value, &v.typ) {
        (Value::Flags(bits), WitType::Flags(t)) => selected_flags(bits, t),
        _ => {
            proof {
                assert(false);
            }
            Vec::new()
        },
    }
}

/// Reading back the flags of a flags value built from a list of names gives
/// the type's flags that are among those names, in the type's order.
pub proof fn lemma_flags_round_trip(bits: Seq<bool>, type_names: Seq<Seq<char>>, names: Seq<Seq<char>>)
    requires
        bits.len() == type_names.len(),
        forall|i: int| 0 <= i < type_names.len() ==> #[trigger] bits[i] == names.contains(type_names[i]),
    ensures
        selected_names(bits, type_names) == type_names.filter(|n: Seq<char>| names.contains(n)),
    decreases bits.len(),
{
    reveal(Seq::filter);
    if bits.len() > 0 {
        let n = bits.len() - 1;
        let b2 = bits.take(n as int);
        let t2 = type_names.take(n as int);
        assert forall|i: int| 0 <= i < t2.len() implies #[trigger] b2[i] == names.contains(t2[i]) by {
            assert(bits[i] == names.contains(type_names[i]));
        }
        lemma_flags_round_trip(b2, t2, names);
        let pred = |n: Seq<char>| names.contains(n);
        let sub = t2.filter(pred);
        assert(type_names.drop_last() == t2);
        assert(type_names.filter(pred) == if pred(type_names.last()) { sub.push(type_names.last()) } else { sub });
        assert(bits[n as int] == names.contains(type_names[n as int]));
        if bits[n as int] {
            assert(sub.push(type_names.last()) =~= sub + seq![type_names[n as int]]);
        } else {
            assert(sub + Seq::<Seq<char>>::empty() =~= sub);
        }
    }
}

/// Reading back the case of a variant value built from a case name gives
/// that name: the name that the value's own type gives its case index.
pub proof fn lemma_variant_round_trip(ty: WitType, case: Seq<char>, v: ValueAndType)
    requires
        ty.equiv(v.typ),
        ty matches WitType::Variant(t) && (v.value matches Value::Variant { case_idx, .. }
            && is_first_position(variant_case_names(t), case, Some(case_idx))),
    ensures
        v.typ matches WitType::Variant(t2) && (v.value matches Value::Variant { case_idx, .. }
            && case_idx < t2.cases@.len() && t2.cases@[case_idx as int].name@ == case),
{
    let t = ty->Variant_0;
    let t2 = v.typ->Variant_0;
    let i = v.value->case_idx;
    assert(variant_case_names(t)[i as int] == t.cases@[i as int].name@);
    assert(t.cases@[i as int].name@ == t2.cases@[i as int].name@);
}

/// Reading back the case of an enum value built from a case name gives that
/// name: the name that the value's own type gives its case index.
pub proof fn lemma_enum_round_trip(ty: WitType, case: Seq<char>, v: ValueAndType)
    requires
        ty.equiv(v.typ),
        ty matches WitType::Enum(t) && (v.value matches Value::Enum(case_idx)
            && is_first_position(string_views(t.cases@), case, Some(case_idx))),
    ensures
        v.typ matches WitType::Enum(t2) && (v.value matches Value::Enum(case_idx)
            && case_idx < t2.cases@.len() && t2.cases@[case_idx as int]@ == case),
{
    let t = ty->Enum_0;
    let t2 = v.typ->Enum_0;
    let i = v.value->Enum_0;
    assert(string_views(t.cases@)[i as int] == t.cases@[i as int]@);
    assert(string_views(t2.cases@)[i as int] == t2.cases@[i as int]@);
}

/// A list value built from typed values can be read back exactly when its
/// type is a list type, and reading it back gives values equivalent to those
/// it was built from, typed with the list type's element type.
pub proof fn lemma_list_round_trip(ty: WitType, vals: Seq<ValueAndType>, made: ValueAndType, read: Seq<ValueAndType>)
    requires
        made.value matches Value::List(items) && items@ == values_of(vals),
        ty.equiv(made.typ),
        spec_unwrappable(made, WaveKind::List) ==> (made.value matches Value::List(items)
            && made.typ matches WitType::List(l) && read.len() == items@.len()
            && forall|i: int| 0 <= i < items@.len() ==> (#[trigger] items@[i]).equiv(read[i].value)
                && (*l.inner).equiv(read[i].typ)),
    ensures
        spec_unwrappable(made, WaveKind::List) <==> ty is List,
        ty matches WitType::List(lt) ==> (read.len() == vals.len() && forall|i: int| 0 <= i < vals.len() ==>
            (#[trigger] vals[i]).value.equiv(read[i].value) && (*lt.inner).equiv(read[i].typ)),
{
    if let WitType::List(lt) = ty {
        let items = made.value->List_0;
        let l = made.typ->List_0;
        assert forall|i: int| 0 <= i < vals.len() implies (#[trigger] vals[i]).value.equiv(read[i].value)
            && (*lt.inner).equiv(read[i].typ) by {
            assert(items@[i] == vals[i].value);
            assert(items@[i].equiv(read[i].value));
            lemma_equiv_transitive(*lt.inner, *l.inner, read[i].typ);
        }
    }
}

/// An option value built from an optional typed value can be read back
/// exactly when its type is an option type, and reading it back gives the
/// same presence and an equivalent value, typed with the option's inner type.
pub proof fn lemma_option_round_trip(ty: WitType, val: Option<ValueAndType>, made: ValueAndType, read: Option<ValueAndType>)
    requires
        made.value == Value::Option(boxed_value_of(val)),
        ty.equiv(made.typ),
        spec_unwrappable(made, WaveKind::Option) ==> (made.value matches Value::Option(o)
            && made.typ matches WitType::Option(t) && match o {
                Some(b) => read matches Some(x) && (*b).equiv(x.value) && (*t.inner).equiv(x.typ),
                None => read is None,
            }),
    ensures
        spec_unwrappable(made, WaveKind::Option) <==> ty is Option,
        ty matches WitType::Option(ot) ==> (match val {
            Some(v) => read matches Some(x) && v.value.equiv(x.value) && (*ot.inner).equiv(x.typ),
            None => read is None,
        }),
{
    if let WitType::Option(ot) = ty {
        let t = made.typ->Option_0;
        if let Some(v) = val {
            let x = read->0;
            lemma_equiv_transitive(*ot.inner, *t.inner, x.typ);
        }
    }
}

/// Whether a typed value can be written as Wave text: a value whose type
/// holds a resource handle anywhere has no text form.
pub fn check_printable(value: &ValueAndType) -> (r: Result<(), String>)
    ensures
        r is Ok <==> !value.typ.spec_contains_handle(),
        r matches Err(msg) ==> msg@ == "Cannot print handle type"@,
{
    if value.typ.contains_handle() {
        Err(String::from_str("Cannot print handle type"))
    } else {
        Ok(())
    }
}

/// At the top level, `v` is a value of type `t`: the primitive of the same
/// kind, or a compound value whose shape the type describes (a case or enum
/// index the type has, a payload only where the type gives it a type).
pub open spec fn typed_as(v: Value, t: WitType) -> bool {
    match (v, t) {
        (Value::Bool(_), WitType::Bool(_)) => true,
        (Value::S8(_), WitType::S8(_)) => true,
        (Value::S16(_), WitType::S16(_)) => true,
        (Value::S32(_), WitType::S32(_)) => true,
        (Value::S64(_), WitType::S64(_)) => true,
        (Value::U8(_), WitType::U8(_)) => true,
        (Value::U16(_), WitType::U16(_)) => true,
        (Value::U32(_), WitType::U32(_)) => true,
        (Value::U64(_), WitType::U64(_)) => true,
        (Value::F32(_), WitType::F32(_)) => true,
        (Value::F64(_), WitType::F64(_)) => true,
        (Value::Char(_), WitType::Chr(_)) => true,
        (Value::String(_), WitType::Str(_)) => true,
        (Value::List(_), WitType::List(_)) => true,
        (Value::Record(_), WitType::Record(_)) => true,
        (Value::Tuple(_), WitType::Tuple(_)) => true,
        (Value::Variant { case_idx, case_value }, WitType::Variant(x)) => case_idx < x.cases@.len()
            && (case_value is Some ==> x.cases@[case_idx as int].typ is Some),
        (Value::Enum(case_idx), WitType::Enum(x)) => case_idx < x.cases@.len(),
        (Value::Option(_), WitType::Option(_)) => true,
        (Value::Result(r), WitType::Result(x)) => (r matches Ok(Some(_)) ==> x.ok is Some)
            && (r matches Err(Some(_)) ==> x.err is Some),
        (Value::Flags(_), WitType::Flags(_)) => true,
        _ => false,
    }
}

/// The Wave kind of a value's type is the kind under which the value can be
/// read back: a value of type `t` can be read out at the kind of `t`, and at
/// no kind at all when `t` is a resource handle.
pub proof fn lemma_value_reads_at_its_type_kind(v: ValueAndType)
    ensures
        typed_as(v.value, v.typ) ==> spec_unwrappable(v, spec_wave_kind(v.typ)),
        v.typ is Handle ==> !spec_unwrappable(v, spec_wave_kind(v.typ)),
{
}

} // verus!
