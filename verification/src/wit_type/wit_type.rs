//! Helper constructors for building `WitType` values in tests and metadata.

use super::{
    AnalysedResourceId, AnalysedResourceMode, NameOptionTypePair, NameTypePair, TypeBool, TypeChr,
    TypeEnum, TypeF32, TypeF64, TypeFlags, TypeHandle, TypeList, TypeOption, TypeRecord,
    TypeResult, TypeS16, TypeS32, TypeS64, TypeS8, TypeStr, TypeTuple, TypeU16, TypeU32, TypeU64,
    TypeU8, TypeVariant, WitType,
};
use crate::text::to_owned_string;
use vstd::prelude::*;

verus! {

pub fn field(name: &str, typ: WitType) -> (f: NameTypePair)
    ensures
        f.name@ == name@,
        f.typ == typ,
{
    NameTypePair { name: to_owned_string(name), typ }
}

pub fn case(name: &str, typ: WitType) -> (c: NameOptionTypePair)
    ensures
        c.name@ == name@,
        c.typ == Some(typ),
{
    NameOptionTypePair { name: to_owned_string(name), typ: Some(typ) }
}

pub fn opt_case(name: &str, typ: Option<WitType>) -> (c: NameOptionTypePair)
    ensures
        c.name@ == name@,
        c.typ == typ,
{
    NameOptionTypePair { name: to_owned_string(name), typ }
}

pub fn unit_case(name: &str) -> (c: NameOptionTypePair)
    ensures
        c.name@ == name@,
        c.typ is None,
{
    NameOptionTypePair { name: to_owned_string(name), typ: None }
}

pub fn bool() -> (t: WitType)
    ensures
        t == WitType::Bool(TypeBool),
{
    WitType::Bool(TypeBool)
}

pub fn s8() -> (t: WitType)
    ensures
        t == WitType::S8(TypeS8),
{
    WitType::S8(TypeS8)
}

pub fn s16() -> (t: WitType)
    ensures
        t == WitType::S16(TypeS16),
{
    WitType::S16(TypeS16)
}

pub fn s32() -> (t: WitType)
    ensures
        t == WitType::S32(TypeS32),
{
    WitType::S32(TypeS32)
}

pub fn s64() -> (t: WitType)
    ensures
        t == WitType::S64(TypeS64),
{
    WitType::S64(TypeS64)
}

pub fn u8() -> (t: WitType)
    ensures
        t == WitType::U8(TypeU8),
{
    WitType::U8(TypeU8)
}

pub fn u16() -> (t: WitType)
    ensures
        t == WitType::U16(TypeU16),
{
    WitType::U16(TypeU16)
}

pub fn u32() -> (t: WitType)
    ensures
        t == WitType::U32(TypeU32),
{
    WitType::U32(TypeU32)
}

pub fn u64() -> (t: WitType)
    ensures
        t == WitType::U64(TypeU64),
{
    WitType::U64(TypeU64)
}

pub fn f32_type() -> (t: WitType)
    ensures
        t == WitType::F32(TypeF32),
{
    WitType::F32(TypeF32)
}

pub fn f64_type() -> (t: WitType)
    ensures
        t == WitType::F64(TypeF64),
{
    WitType::F64(TypeF64)
}

pub fn chr() -> (t: WitType)
    ensures
        t == WitType::Chr(TypeChr),
{
    WitType::Chr(TypeChr)
}

pub fn str() -> (t: WitType)
    ensures
        t == WitType::Str(TypeStr),
{
    WitType::Str(TypeStr)
}

pub fn list(inner: WitType) -> (t: WitType)
    ensures
        t == WitType::List(TypeList { name: None, owner: None, inner: Box::new(inner) }),
{
    WitType::List(TypeList { name: None, owner: None, inner: Box::new(inner) })
}

pub fn option(inner: WitType) -> (t: WitType)
    ensures
        t == WitType::Option(TypeOption { name: None, owner: None, inner: Box::new(inner) }),
{
    WitType::Option(TypeOption { name: None, owner: None, inner: Box::new(inner) })
}

/// Copies each string slice into an owned string, in order.
fn owned_names(names: &[&str]) -> (v: Vec<String>)
    ensures
        v@.len() == names@.len(),
        forall|i: int| 0 <= i < names@.len() ==> #[trigger] v@[i]@ == names@[i]@,
{
    let mut v: Vec<String> = Vec::new();
    let mut i: usize = 0;
    while i < names.len()
        invariant
            i <= names@.len(),
            v@.len() == i,
            forall|j: int| 0 <= j < i ==> #[trigger] v@[j]@ == names@[j]@,
        decreases names@.len() - i,
    {
        v.push(to_owned_string(names[i]));
        i = i + 1;
    }
    v
}

pub fn flags(names: &[&str]) -> (t: WitType)
    ensures
        t matches WitType::Flags(f) && f.name is None && f.owner is None
            && f.names@.len() == names@.len()
            && forall|i: int| 0 <= i < names@.len() ==> #[trigger] f.names@[i]@ == names@[i]@,
{
    WitType::Flags(TypeFlags { name: None, owner: None, names: owned_names(names) })
}

pub fn enum_type(cases: &[&str]) -> (t: WitType)
    ensures
        t matches WitType::Enum(e) && e.name is None && e.owner is None
            && e.cases@.len() == cases@.len()
            && forall|i: int| 0 <= i < cases@.len() ==> #[trigger] e.cases@[i]@ == cases@[i]@,
{
    WitType::Enum(TypeEnum { name: None, owner: None, cases: owned_names(cases) })
}

pub fn tuple(items: Vec<WitType>) -> (t: WitType)
    ensures
        t == WitType::Tuple(TypeTuple { name: None, owner: None, items }),
{
    WitType::Tuple(TypeTuple { name: None, owner: None, items })
}

pub fn result(ok: WitType, err: WitType) -> (t: WitType)
    ensures
        t == WitType::Result(
            TypeResult { name: None, owner: None, ok: Some(Box::new(ok)), err: Some(Box::new(err)) },
        ),
{
    WitType::Result(
        TypeResult { name: None, owner: None, ok: Some(Box::new(ok)), err: Some(Box::new(err)) },
    )
}

pub fn result_ok(ok: WitType) -> (t: WitType)
    ensures
        t == WitType::Result(
            TypeResult { name: None, owner: None, ok: Some(Box::new(ok)), err: None },
        ),
{
    WitType::Result(TypeResult { name: None, owner: None, ok: Some(Box::new(ok)), err: None })
}

pub fn result_err(err: WitType) -> (t: WitType)
    ensures
        t == WitType::Result(
            TypeResult { name: None, owner: None, ok: None, err: Some(Box::new(err)) },
        ),
{
    WitType::Result(TypeResult { name: None, owner: None, ok: None, err: Some(Box::new(err)) })
}

pub fn unit_result() -> (t: WitType)
    ensures
        t == WitType::Result(TypeResult { name: None, owner: None, ok: None, err: None }),
{
    WitType::Result(TypeResult { name: None, owner: None, ok: None, err: None })
}

pub fn record(fields: Vec<NameTypePair>) -> (t: WitType)
    ensures
        t == WitType::Record(TypeRecord { name: None, owner: None, fields }),
{
    WitType::Record(TypeRecord { name: None, owner: None, fields })
}

pub fn variant(cases: Vec<NameOptionTypePair>) -> (t: WitType)
    ensures
        t == WitType::Variant(TypeVariant { name: None, owner: None, cases }),
{
    WitType::Variant(TypeVariant { name: None, owner: None, cases })
}

pub fn handle(resource_id: AnalysedResourceId, mode: AnalysedResourceMode) -> (t: WitType)
    ensures
        t == WitType::Handle(TypeHandle { name: None, owner: None, resource_id, mode }),
{
    WitType::Handle(TypeHandle { name: None, owner: None, resource_id, mode })
}

} // verus!
