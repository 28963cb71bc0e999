//! Helper constructors for building `AnalysedType` values.

use super::{
    AnalysedResourceId, AnalysedResourceMode, NameOptionTypePair, NameTypePair, TypeBool, TypeChr,
    TypeEnum, TypeF32, TypeF64, TypeFlags, TypeHandle, TypeList, TypeOption, TypeRecord,
    TypeResult, TypeS16, TypeS32, TypeS64, TypeS8, TypeStr, TypeTuple, TypeU16, TypeU32, TypeU64,
    TypeU8, TypeVariant, AnalysedType,
};
use crate::text::to_owned_string;
use vstd::prelude::*;

verus! {

pub fn field(name: &str, typ: AnalysedType) -> (f: NameTypePair)
    ensures
        f.name@ == name@,
        f.typ == typ,
{
    NameTypePair { name: to_owned_string(name), typ }
}

pub fn case(name: &str, typ: AnalysedType) -> (c: NameOptionTypePair)
    ensures
        c.name@ == name@,
        c.typ == Some(typ),
{
    NameOptionTypePair { name: to_owned_string(name), typ: Some(typ) }
}

pub fn opt_case(name: &str, typ: Option<AnalysedType>) -> (c: NameOptionTypePair)
    ensures
        c.name@ == name@,
        c.typ == typ,
{
    NameOptionTypePair { name: to_owned_string(name), typ }
}

pub fn unit_case(name: &str) -> (c: NameOptionTypePair)
    ensures
        c.name@ == name@,
        c.typ is None,
{
    NameOptionTypePair { name: to_owned_string(name), typ: None }
}

pub fn bool() -> (t: AnalysedType)
    ensures
        t == AnalysedType::Bool(TypeBool),
{
    AnalysedType::Bool(TypeBool)
}

pub fn s8() -> (t: AnalysedType)
    ensures
        t == AnalysedType::S8(TypeS8),
{
    AnalysedType::S8(TypeS8)
}

pub fn s16() -> (t: AnalysedType)
    ensures
        t == AnalysedType::S16(TypeS16),
{
    AnalysedType::S16(TypeS16)
}

pub fn s32() -> (t: AnalysedType)
    ensures
        t == AnalysedType::S32(TypeS32),
{
    AnalysedType::S32(TypeS32)
}

pub fn s64() -> (t: AnalysedType)
    ensures
        t == AnalysedType::S64(TypeS64),
{
    AnalysedType::S64(TypeS64)
}

pub fn u8() -> (t: AnalysedType)
    ensures
        t == AnalysedType::U8(TypeU8),
{
    AnalysedType::U8(TypeU8)
}

pub fn u16() -> (t: AnalysedType)
    ensures
        t == AnalysedType::U16(TypeU16),
{
    AnalysedType::U16(TypeU16)
}

pub fn u32() -> (t: AnalysedType)
    ensures
        t == AnalysedType::U32(TypeU32),
{
    AnalysedType::U32(TypeU32)
}

pub fn u64() -> (t: AnalysedType)
    ensures
        t == AnalysedType::U64(TypeU64),
{
    AnalysedType::U64(TypeU64)
}

pub fn f32_type() -> (t: AnalysedType)
    ensures
        t == AnalysedType::F32(TypeF32),
{
    AnalysedType::F32(TypeF32)
}

pub fn f64_type() -> (t: AnalysedType)
    ensures
        t == AnalysedType::F64(TypeF64),
{
    AnalysedType::F64(TypeF64)
}

pub fn chr() -> (t: AnalysedType)
    ensures
        t == AnalysedType::Chr(TypeChr),
{
    AnalysedType::Chr(TypeChr)
}

pub fn str() -> (t: AnalysedType)
    ensures
        t == AnalysedType::Str(TypeStr),
{
    AnalysedType::Str(TypeStr)
}

pub fn list(inner: AnalysedType) -> (t: AnalysedType)
    ensures
        t == AnalysedType::List(TypeList { name: None, owner: None, inner: Box::new(inner) }),
{
    AnalysedType::List(TypeList { name: None, owner: None, inner: Box::new(inner) })
}

pub fn option(inner: AnalysedType) -> (t: AnalysedType)
    ensures
        t == AnalysedType::Option(TypeOption { name: None, owner: None, inner: Box::new(inner) }),
{
    AnalysedType::Option(TypeOption { name: None, owner: None, inner: Box::new(inner) })
}

/// Copies each string slice into an owned string, in order.
fn owned_names(names: &[&str]) -> (v: Vec<String>)
    ensures
        v@.len() == names@.len(),
        forall|i: int| 0 <= i < names@.len() ==> #[trigger] v@[i]@ == names@[i]@,
{
    let mut v: Vec<String> = Vec::new();
    let mut i: usize = 0;
    while i < names.len()
        invariant
            i <= names@.len(),
            v@.len() == i,
            forall|j: int| 0 <= j < i ==> #[trigger] v@[j]@ == names@[j]@,
        decreases names@.len() - i,
    {
        v.push(to_owned_string(names[i]));
        i = i + 1;
    }
    v
}

pub fn flags(names: &[&str]) -> (t: AnalysedType)
    ensures
        t matches AnalysedType::Flags(f) && f.name is None && f.owner is None
            && f.names@.len() == names@.len()
            && forall|i: int| 0 <= i < names@.len() ==> #[trigger] f.names@[i]@ == names@[i]@,
{
    AnalysedType::Flags(TypeFlags { name: None, owner: None, names: owned_names(names) })
}

pub fn enum_type(cases: &[&str]) -> (t: AnalysedType)
    ensures
        t matches AnalysedType::Enum(e) && e.name is None && e.owner is None
            && e.cases@.len() == cases@.len()
            && forall|i: int| 0 <= i < cases@.len() ==> #[trigger] e.cases@[i]@ == cases@[i]@,
{
    AnalysedType::Enum(TypeEnum { name: None, owner: None, cases: owned_names(cases) })
}

pub fn tuple(items: Vec<AnalysedType>) -> (t: AnalysedType)
    ensures
        t == AnalysedType::Tuple(TypeTuple { name: None, owner: None, items }),
{
    AnalysedType::Tuple(TypeTuple { name: None, owner: None, items })
}

pub fn result(ok: AnalysedType, err: AnalysedType) -> (t: AnalysedType)
    ensures
        t == AnalysedType::Result(
            TypeResult { name: None, owner: None, ok: Some(Box::new(ok)), err: Some(Box::new(err)) },
        ),
{
    AnalysedType::Result(
        TypeResult { name: None, owner: None, ok: Some(Box::new(ok)), err: Some(Box::new(err)) },
    )
}

pub fn result_ok(ok: AnalysedType) -> (t: AnalysedType)
    ensures
        t == AnalysedType::Result(
            TypeResult { name: None, owner: None, ok: Some(Box::new(ok)), err: None },
        ),
{
    AnalysedType::Result(TypeResult { name: None, owner: None, ok: Some(Box::new(ok)), err: None })
}

pub fn result_err(err: AnalysedType) -> (t: AnalysedType)
    ensures
        t == AnalysedType::Result(
            TypeResult { name: None, owner: None, ok: None, err: Some(Box::new(err)) },
        ),
{
    AnalysedType::Result(TypeResult { name: None, owner: None, ok: None, err: Some(Box::new(err)) })
}

pub fn unit_result() -> (t: AnalysedType)
    ensures
        t == AnalysedType::Result(TypeResult { name: None, owner: None, ok: None, err: None }),
{
    AnalysedType::Result(TypeResult { name: None, owner: None, ok: None, err: None })
}

pub fn record(fields: Vec<NameTypePair>) -> (t: AnalysedType)
    ensures
        t == AnalysedType::Record(TypeRecord { name: None, owner: None, fields }),
{
    AnalysedType::Record(TypeRecord { name: None, owner: None, fields })
}

pub fn variant(cases: Vec<NameOptionTypePair>) -> (t: AnalysedType)
    ensures
        t == AnalysedType::Variant(TypeVariant { name: None, owner: None, cases }),
{
    AnalysedType::Variant(TypeVariant { name: None, owner: None, cases })
}

pub fn handle(resource_id: AnalysedResourceId, mode: AnalysedResourceMode) -> (t: AnalysedType)
    ensures
        t == AnalysedType::Handle(TypeHandle { name: None, owner: None, resource_id, mode }),
{
    AnalysedType::Handle(TypeHandle { name: None, owner: None, resource_id, mode })
}

} // verus!
