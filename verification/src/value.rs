//! Component-model values, as Rib reads and produces them.

use vstd::prelude::*;
use vstd::std_specs::cmp::PartialEqSpecImpl;

verus! {

/// A value of the component model, untyped: its interpretation comes from a
/// `WitType` (see `ValueAndType`).
///
/// Floating-point numbers are held as their IEEE 754 bit patterns
/// (`f32::to_bits` / `f64::to_bits`); `==` compares them as floats (see
/// `Value::same_as`).
#[derive(Debug)]
pub enum Value {
    Bool(bool),
    U8(u8),
    U16(u16),
    U32(u32),
    U64(u64),
    S8(i8),
    S16(i16),
    S32(i32),
    S64(i64),
    F32(u32),
    F64(u64),
    Char(char),
    String(String),
    List(Vec<Value>),
    Tuple(Vec<Value>),
    Record(Vec<Value>),
    Variant { case_idx: u32, case_value: Option<Box<Value>> },
    Enum(u32),
    Flags(Vec<bool>),
    Option(Option<Box<Value>>),
    Result(Result<Option<Box<Value>>, Option<Box<Value>>>),
}

/// An optional boxed value that is absent in both, or present and equivalent in both.
pub open spec fn opt_value_equiv(a: Option<Box<Value>>, b: Option<Box<Value>>) -> bool {
    match a {
        Some(x) => b matches Some(y) && (*x).equiv(*y),
        None => b is None,
    }
}

impl Value {
    /// `self` and `other` are the same value, strings being compared by their characters.
    pub open spec fn equiv(self, other: Value) -> bool
        decreases self,
    {
        match self {
            Value::Bool(a) => other == Value::Bool(a),
            Value::U8(a) => other == Value::U8(a),
            Value::U16(a) => other == Value::U16(a),
            Value::U32(a) => other == Value::U32(a),
            Value::U64(a) => other == Value::U64(a),
            Value::S8(a) => other == Value::S8(a),
            Value::S16(a) => other == Value::S16(a),
            Value::S32(a) => other == Value::S32(a),
            Value::S64(a) => other == Value::S64(a),
            Value::F32(a) => other == Value::F32(a),
            Value::F64(a) => other == Value::F64(a),
            Value::Char(a) => other == Value::Char(a),
            Value::String(a) => other matches Value::String(b) && a@ == b@,
            Value::List(a) => other matches Value::List(b) && a@.len() == b@.len()
                && forall|i: int| 0 <= i < a@.len() ==> (#[trigger] a@[i]).equiv(b@[i]),
            Value::Tuple(a) => other matches Value::Tuple(b) && a@.len() == b@.len()
                && forall|i: int| 0 <= i < a@.len() ==> (#[trigger] a@[i]).equiv(b@[i]),
            Value::Record(a) => other matches Value::Record(b) && a@.len() == b@.len()
                && forall|i: int| 0 <= i < a@.len() ==> (#[trigger] a@[i]).equiv(b@[i]),
            Value::Variant { case_idx, case_value } => other matches Value::Variant { case_idx: i2, case_value: v2 }
                && case_idx == i2 && match case_value {
                    Some(x) => v2 matches Some(y) && (*x).equiv(*y),
                    None => v2 is None,
                },
            Value::Enum(a) => other == Value::Enum(a),
            Value::Flags(a) => other matches Value::Flags(b) && a@ == b@,
            Value::Option(a) => other matches Value::Option(b) && match a {
                Some(x) => b matches Some(y) && (*x).equiv(*y),
                None => b is None,
            },
            Value::Result(a) => other matches Value::Result(b) && match a {
                Ok(Some(x)) => b matches Ok(Some(y)) && (*x).equiv(*y),
                Ok(None) => b matches Ok(None),
                Err(Some(x)) => b matches Err(Some(y)) && (*x).equiv(*y),
                Err(None) => b matches Err(None),
            },
        }
    }

    /// An equivalent copy of this value.
    #[verifier::loop_isolation(false)]
    pub fn deep_clone(&self) -> (r: Value)
        ensures
            self.equiv(r),
        decreases self,
    {
        match self {
            Value::Bool(a) => Value::Bool(*a),
            Value::U8(a) => Value::U8(*a),
            Value::U16(a) => Value::U16(*a),
            Value::U32(a) => Value::U32(*a),
            Value::U64(a) => Value::U64(*a),
            Value::S8(a) => Value::S8(*a),
            Value::S16(a) => Value::S16(*a),
            Value::S32(a) => Value::S32(*a),
            Value::S64(a) => Value::S64(*a),
            Value::F32(a) => Value::F32(*a),
            Value::F64(a) => Value::F64(*a),
            Value::Char(a) => Value::Char(*a),
            Value::String(a) => Value::String(a.clone()),
            Value::List(a) => {
                let mut items: Vec<Value> = Vec::new();
                let mut i: usize = 0;
                while i < a.len()
                    invariant
                        i <= a@.len(),
                        items@.len() == i,
                        forall|j: int| 0 <= j < i ==> (#[trigger] a@[j]).equiv(items@[j]),
                    decreases a@.len() - i,
                {
                    items.push(a[i].deep_clone());
                    i = i + 1;
                }
                Value::List(items)
            },
            Value::Tuple(a) => {
                let mut items: Vec<Value> = Vec::new();
                let mut i: usize = 0;
                while i < a.len()
                    invariant
                        i <= a@.len(),
                        items@.len() == i,
                        forall|j: int| 0 <= j < i ==> (#[trigger] a@[j]).equiv(items@[j]),
                    decreases a@.len() - i,
                {
                    items.push(a[i].deep_clone());
                    i = i + 1;
                }
                Value::Tuple(items)
            },
            Value::Record(a) => {
                let mut items: Vec<Value> = Vec::new();
                let mut i: usize = 0;
                while i < a.len()
                    invariant
                        i <= a@.len(),
                        items@.len() == i,
                        forall|j: int| 0 <= j < i ==> (#[trigger] a@[j]).equiv(items@[j]),
                    decreases a@.len() - i,
                {
                    items.push(a[i].deep_clone());
                    i = i + 1;
                }
                Value::Record(items)
            },
            Value::Variant { case_idx, case_value } => {
                let v = match case_value {
                    Some(x) => Some(Box::new(x.deep_clone())),
                    None => None,
                };
                Value::Variant { case_idx: *case_idx, case_value: v }
            },
            Value::Enum(a) => Value::Enum(*a),
            Value::Flags(a) => {
                let mut bits: Vec<bool> = Vec::new();
                let mut i: usize = 0;
                while i < a.len()
                    invariant
                        i <= a@.len(),
                        bits@ == a@.take(i as int),
                    decreases a@.len() - i,
                {
                    bits.push(a[i]);
                    assert(a@.take(i + 1) == a@.take(i as int).push(a@[i as int]));
                    i = i + 1;
                }
                assert(a@.take(a@.len() as int) == a@);
                Value::Flags(bits)
            },
            Value::Option(a) => match a {
                Some(x) => Value::Option(Some(Box::new(x.deep_clone()))),
                None => Value::Option(None),
            },
            Value::Result(a) => match a {
                Ok(Some(x)) => Value::Result(Ok(Some(Box::new(x.deep_clone())))),
                Ok(None) => Value::Result(Ok(None)),
                Err(Some(x)) => Value::Result(Err(Some(Box::new(x.deep_clone())))),
                Err(None) => Value::Result(Err(None)),
            },
        }
    }
}

/// The bit pattern of a single-precision float is a NaN.
pub open spec fn f32_bits_nan(a: u32) -> bool {
    (a & 0x7f80_0000u32) == 0x7f80_0000u32 && (a & 0x007f_ffffu32) != 0
}

/// Two single-precision floats, given by their bit patterns, are equal as
/// floats: neither is a NaN, and they have the same bits or are both zero
/// (of either sign).
pub open spec fn f32_bits_eq(a: u32, b: u32) -> bool {
    !f32_bits_nan(a) && !f32_bits_nan(b) && (a == b || ((a & 0x7fff_ffffu32) == 0 && (b
        & 0x7fff_ffffu32) == 0))
}

/// The bit pattern of a double-precision float is a NaN.
pub open spec fn f64_bits_nan(a: u64) -> bool {
    (a & 0x7ff0_0000_0000_0000u64) == 0x7ff0_0000_0000_0000u64 && (a & 0x000f_ffff_ffff_ffffu64) != 0
}

/// Two double-precision floats, given by their bit patterns, are equal as
/// floats: neither is a NaN, and they have the same bits or are both zero
/// (of either sign).
pub open spec fn f64_bits_eq(a: u64, b: u64) -> bool {
    !f64_bits_nan(a) && !f64_bits_nan(b) && (a == b || ((a & 0x7fff_ffff_ffff_ffffu64) == 0 && (b
        & 0x7fff_ffff_ffff_ffffu64) == 0))
}

fn f32_eq(a: u32, b: u32) -> (r: bool)
    ensures
        r == f32_bits_eq(a, b),
{
    let a_nan = (a & 0x7f80_0000u32) == 0x7f80_0000u32 && (a & 0x007f_ffffu32) != 0;
    let b_nan = (b & 0x7f80_0000u32) == 0x7f80_0000u32 && (b & 0x007f_ffffu32) != 0;
    !a_nan && !b_nan && (a == b || ((a & 0x7fff_ffffu32) == 0 && (b & 0x7fff_ffffu32) == 0))
}

fn f64_eq(a: u64, b: u64) -> (r: bool)
    ensures
        r == f64_bits_eq(a, b),
{
    let a_nan = (a & 0x7ff0_0000_0000_0000u64) == 0x7ff0_0000_0000_0000u64 && (a & 0x000f_ffff_ffff_ffffu64) != 0;
    let b_nan = (b & 0x7ff0_0000_0000_0000u64) == 0x7ff0_0000_0000_0000u64 && (b & 0x000f_ffff_ffff_ffffu64) != 0;
    !a_nan && !b_nan && (a == b || ((a & 0x7fff_ffff_ffff_ffffu64) == 0 && (b & 0x7fff_ffff_ffff_ffffu64) == 0))
}

/// Two optional boxed values that are both absent, or both present and equal.
pub open spec fn opt_same(a: Option<Box<Value>>, b: Option<Box<Value>>) -> bool {
    match a {
        Some(x) => b matches Some(y) && (*x).same_as(*y),
        None => b is None,
    }
}

impl Value {
    /// `self == other`: the same kind with equal contents, where strings are
    /// compared by their characters and floats as floats (a NaN equals
    /// nothing, and the two zeros are equal).
    pub open spec fn same_as(self, other: Value) -> bool
        decreases self,
    {
        match self {
            Value::Bool(a) => other == Value::Bool(a),
            Value::U8(a) => other == Value::U8(a),
            Value::U16(a) => other == Value::U16(a),
            Value::U32(a) => other == Value::U32(a),
            Value::U64(a) => other == Value::U64(a),
            Value::S8(a) => other == Value::S8(a),
            Value::S16(a) => other == Value::S16(a),
            Value::S32(a) => other == Value::S32(a),
            Value::S64(a) => other == Value::S64(a),
            Value::F32(a) => other matches Value::F32(b) && f32_bits_eq(a, b),
            Value::F64(a) => other matches Value::F64(b) && f64_bits_eq(a, b),
            Value::Char(a) => other == Value::Char(a),
            Value::String(a) => other matches Value::String(b) && a@ == b@,
            Value::List(a) => other matches Value::List(b) && a@.len() == b@.len()
                && forall|i: int| 0 <= i < a@.len() ==> (#[trigger] a@[i]).same_as(b@[i]),
            Value::Tuple(a) => other matches Value::Tuple(b) && a@.len() == b@.len()
                && forall|i: int| 0 <= i < a@.len() ==> (#[trigger] a@[i]).same_as(b@[i]),
            Value::Record(a) => other matches Value::Record(b) && a@.len() == b@.len()
                && forall|i: int| 0 <= i < a@.len() ==> (#[trigger] a@[i]).same_as(b@[i]),
            Value::Variant { case_idx, case_value } => other matches Value::Variant { case_idx: i2, case_value: v2 }
                && case_idx == i2 && match case_value {
                    Some(x) => v2 matches Some(y) && (*x).same_as(*y),
                    None => v2 is None,
                },
            Value::Enum(a) => other == Value::Enum(a),
            Value::Flags(a) => other matches Value::Flags(b) && a@ == b@,
            Value::Option(a) => other matches Value::Option(b) && match a {
                Some(x) => b matches Some(y) && (*x).same_as(*y),
                None => b is None,
            },
            Value::Result(a) => other matches Value::Result(b) && match a {
                Ok(Some(x)) => b matches Ok(Some(y)) && (*x).same_as(*y),
                Ok(None) => b matches Ok(None),
                Err(Some(x)) => b matches Err(Some(y)) && (*x).same_as(*y),
                Err(None) => b matches Err(None),
            },
        }
    }

    /// Whether `self == other` (see `same_as`).
    #[verifier::loop_isolation(false)]
    pub fn value_eq(&self, other: &Value) -> (r: bool)
        ensures
            r == self.same_as(*other),
        decreases self,
    {
        match self {
            Value::Bool(a) => match other {
                Value::Bool(b) => *a == *b,
                _ => false,
            },
            Value::U8(a) => match other {
                Value::U8(b) => *a == *b,
                _ => false,
            },
            Value::U16(a) => match other {
                Value::U16(b) => *a == *b,
                _ => false,
            },
            Value::U32(a) => match other {
                Value::U32(b) => *a == *b,
                _ => false,
            },
            Value::U64(a) => match other {
                Value::U64(b) => *a == *b,
                _ => false,
            },
            Value::S8(a) => match other {
                Value::S8(b) => *a == *b,
                _ => false,
            },
            Value::S16(a) => match other {
                Value::S16(b) => *a == *b,
                _ => false,
            },
            Value::S32(a) => match other {
                Value::S32(b) => *a == *b,
                _ => false,
            },
            Value::S64(a) => match other {
                Value::S64(b) => *a == *b,
                _ => false,
            },
            Value::F32(a) => match other {
                Value::F32(b) => f32_eq(*a, *b),
                _ => false,
            },
            Value::F64(a) => match other {
                Value::F64(b) => f64_eq(*a, *b),
                _ => false,
            },
            Value::Char(a) => match other {
                Value::Char(b) => *a == *b,
                _ => false,
            },
            Value::String(a) => match other {
                Value::String(b) => *a == *b,
                _ => false,
            },
            Value::List(a) => match other {
                Value::List(b) => {
                    if a.len() != b.len() {
                        return false;
                    }
                    let mut i: usize = 0;
                    while i < a.len()
                        invariant
                            i <= a@.len(),
                            a@.len() == b@.len(),
                            forall|j: int| 0 <= j < i ==> (#[trigger] a@[j]).same_as(b@[j]),
                        decreases a@.len() - i,
                    {
                        if !a[i].value_eq(&b[i]) {
                            return false;
                        }
                        i = i + 1;
                    }
                    true
                },
                _ => false,
            },
            Value::Tuple(a) => match other {
                Value::Tuple(b) => {
                    if a.len() != b.len() {
                        return false;
                    }
                    let mut i: usize = 0;
                    while i < a.len()
                        invariant
                            i <= a@.len(),
                            a@.len() == b@.len(),
                            forall|j: int| 0 <= j < i ==> (#[trigger] a@[j]).same_as(b@[j]),
                        decreases a@.len() - i,
                    {
                        if !a[i].value_eq(&b[i]) {
                            return false;
                        }
                        i = i + 1;
                    }
                    true
                },
                _ => false,
            },
            Value::Record(a) => match other {
                Value::Record(b) => {
                    if a.len() != b.len() {
                        return false;
                    }
                    let mut i: usize = 0;
                    while i < a.len()
                        invariant
                            i <= a@.len(),
                            a@.len() == b@.len(),
                            forall|j: int| 0 <= j < i ==> (#[trigger] a@[j]).same_as(b@[j]),
                        decreases a@.len() - i,
                    {
                        if !a[i].value_eq(&b[i]) {
                            return false;
                        }
                        i = i + 1;
                    }
                    true
                },
                _ => false,
            },
            Value::Variant { case_idx: i1, case_value: v1 } => match other {
                Value::Variant { case_idx: i2, case_value: v2 } => {
                    *i1 == *i2 && match (v1, v2) {
                        (Some(x), Some(y)) => x.value_eq(y),
                        (None, None) => true,
                        _ => false,
                    }
                },
                _ => false,
            },
            Value::Enum(a) => match other {
                Value::Enum(b) => *a == *b,
                _ => false,
            },
            Value::Flags(a) => match other {
                Value::Flags(b) => {
                    if a.len() != b.len() {
                        return false;
                    }
                    let mut i: usize = 0;
                    while i < a.len()
                        invariant
                            i <= a@.len(),
                            a@.len() == b@.len(),
                            forall|j: int| 0 <= j < i ==> a@[j] == b@[j],
                        decreases a@.len() - i,
                    {
                        if a[i] != b[i] {
                            return false;
                        }
                        i = i + 1;
                    }
                    assert(a@ =~= b@);
                    true
                },
                _ => false,
            },
            Value::Option(a) => match other {
                Value::Option(b) => match (a, b) {
                    (Some(x), Some(y)) => x.value_eq(y),
                    (None, None) => true,
                    _ => false,
                },
                _ => false,
            },
            Value::Result(a) => match other {
                Value::Result(b) => match (a, b) {
                    (Ok(Some(x)), Ok(Some(y))) => x.value_eq(y),
                    (Ok(None), Ok(None)) => true,
                    (Err(Some(x)), Err(Some(y))) => x.value_eq(y),
                    (Err(None), Err(None)) => true,
                    _ => false,
                },
                _ => false,
            },
        }
    }
}

impl PartialEq for Value {
    fn eq(&self, other: &Value) -> (r: bool) {
        self.value_eq(other)
    }
}

impl PartialEqSpecImpl for Value {
    open spec fn obeys_eq_spec() -> bool {
        true
    }

    open spec fn eq_spec(&self, other: &Value) -> bool {
        self.same_as(*other)
    }
}

impl Clone for Value {
    fn clone(&self) -> (r: Self)
        ensures
            self.equiv(r),
    {
        self.deep_clone()
    }
}

/// Every value is equivalent to itself.
pub proof fn lemma_value_equiv_reflexive(a: Value)
    ensures
        a.equiv(a),
    decreases a,
{
    match a {
        Value::List(x) => {
            assert forall|i: int| 0 <= i < x@.len() implies (#[trigger] x@[i]).equiv(x@[i]) by {
                lemma_value_equiv_reflexive(x@[i]);
            }
        },
        Value::Tuple(x) => {
            assert forall|i: int| 0 <= i < x@.len() implies (#[trigger] x@[i]).equiv(x@[i]) by {
                lemma_value_equiv_reflexive(x@[i]);
            }
        },
        Value::Record(x) => {
            assert forall|i: int| 0 <= i < x@.len() implies (#[trigger] x@[i]).equiv(x@[i]) by {
                lemma_value_equiv_reflexive(x@[i]);
            }
        },
        Value::Variant { case_value, .. } => {
            if let Some(v) = case_value {
                lemma_value_equiv_reflexive(*v);
            }
        },
        Value::Option(o) => {
            if let Some(v) = o {
                lemma_value_equiv_reflexive(*v);
            }
        },
        Value::Result(r) => match r {
            Ok(Some(v)) => lemma_value_equiv_reflexive(*v),
            Err(Some(v)) => lemma_value_equiv_reflexive(*v),
            _ => {},
        },
        _ => {},
    }
}

/// Equivalence of values is symmetric.
pub proof fn lemma_value_equiv_symmetric(a: Value, b: Value)
    requires
        a.equiv(b),
    ensures
        b.equiv(a),
    decreases a,
{
    match a {
        Value::List(x) => {
            let y = b->List_0;
            assert forall|i: int| 0 <= i < y@.len() implies (#[trigger] y@[i]).equiv(x@[i]) by {
                lemma_value_equiv_symmetric(x@[i], y@[i]);
            }
        },
        Value::Tuple(x) => {
            let y = b->Tuple_0;
            assert forall|i: int| 0 <= i < y@.len() implies (#[trigger] y@[i]).equiv(x@[i]) by {
                lemma_value_equiv_symmetric(x@[i], y@[i]);
            }
        },
        Value::Record(x) => {
            let y = b->Record_0;
            assert forall|i: int| 0 <= i < y@.len() implies (#[trigger] y@[i]).equiv(x@[i]) by {
                lemma_value_equiv_symmetric(x@[i], y@[i]);
            }
        },
        Value::Variant { case_value, .. } => {
            if let Some(v) = case_value {
                lemma_value_equiv_symmetric(*v, *(b->case_value->0));
            }
        },
        Value::Option(o) => {
            if let Some(v) = o {
                lemma_value_equiv_symmetric(*v, *(b->Option_0->0));
            }
        },
        Value::Result(r) => match r {
            Ok(Some(v)) => lemma_value_equiv_symmetric(*v, *(b->Result_0->Ok_0->0)),
            Err(Some(v)) => lemma_value_equiv_symmetric(*v, *(b->Result_0->Err_0->0)),
            _ => {},
        },
        _ => {},
    }
}

/// Equivalence of values is transitive, so a copy of a copy is equivalent to its source.
pub proof fn lemma_value_equiv_transitive(a: Value, b: Value, c: Value)
    requires
        a.equiv(b),
        b.equiv(c),
    ensures
        a.equiv(c),
    decreases a,
{
    match a {
        Value::List(x) => {
            let y = b->List_0;
            let z = c->List_0;
            assert forall|i: int| 0 <= i < x@.len() implies (#[trigger] x@[i]).equiv(z@[i]) by {
                assert(y@[i].equiv(z@[i]));
                lemma_value_equiv_transitive(x@[i], y@[i], z@[i]);
            }
        },
        Value::Tuple(x) => {
            let y = b->Tuple_0;
            let z = c->Tuple_0;
            assert forall|i: int| 0 <= i < x@.len() implies (#[trigger] x@[i]).equiv(z@[i]) by {
                assert(y@[i].equiv(z@[i]));
                lemma_value_equiv_transitive(x@[i], y@[i], z@[i]);
            }
        },
        Value::Record(x) => {
            let y = b->Record_0;
            let z = c->Record_0;
            assert forall|i: int| 0 <= i < x@.len() implies (#[trigger] x@[i]).equiv(z@[i]) by {
                assert(y@[i].equiv(z@[i]));
                lemma_value_equiv_transitive(x@[i], y@[i], z@[i]);
            }
        },
        Value::Variant { case_value, .. } => {
            if let Some(v) = case_value {
                lemma_value_equiv_transitive(*v, *(b->case_value->0), *(c->case_value->0));
            }
        },
        Value::Option(o) => {
            if let Some(v) = o {
                lemma_value_equiv_transitive(*v, *(b->Option_0->0), *(c->Option_0->0));
            }
        },
        Value::Result(r) => match r {
            Ok(Some(v)) => lemma_value_equiv_transitive(
                *v,
                *(b->Result_0->Ok_0->0),
                *(c->Result_0->Ok_0->0),
            ),
            Err(Some(v)) => lemma_value_equiv_transitive(
                *v,
                *(b->Result_0->Err_0->0),
                *(c->Result_0->Err_0->0),
            ),
            _ => {},
        },
        _ => {},
    }
}

/// The value holds no floating-point number, at any depth.
pub open spec fn float_free(v: Value) -> bool
    decreases v,
{
    match v {
        Value::F32(_) => false,
        Value::F64(_) => false,
        Value::List(a) => forall|i: int| 0 <= i < a@.len() ==> float_free(#[trigger] a@[i]),
        Value::Tuple(a) => forall|i: int| 0 <= i < a@.len() ==> float_free(#[trigger] a@[i]),
        Value::Record(a) => forall|i: int| 0 <= i < a@.len() ==> float_free(#[trigger] a@[i]),
        Value::Variant { case_value, .. } => match case_value {
            Some(x) => float_free(*x),
            None => true,
        },
        Value::Option(o) => match o {
            Some(x) => float_free(*x),
            None => true,
        },
        Value::Result(r) => match r {
            Ok(Some(x)) => float_free(*x),
            Err(Some(x)) => float_free(*x),
            _ => true,
        },
        _ => true,
    }
}

/// Without floating-point numbers, `==` on values is exactly equivalence:
/// the same kind, the same case, and equal contents at every depth
/// (strings compared by their characters).
pub proof fn lemma_same_as_is_equiv_without_floats(a: Value, b: Value)
    requires
        float_free(a),
    ensures
        a.same_as(b) <==> a.equiv(b),
    decreases a,
{
    match a {
        Value::List(x) => {
            if let Value::List(y) = b {
                assert forall|i: int| 0 <= i < x@.len() && i < y@.len() implies (#[trigger] x@[i]).same_as(y@[i])
                    == x@[i].equiv(y@[i]) by {
                    lemma_same_as_is_equiv_without_floats(x@[i], y@[i]);
                }
            }
        },
        Value::Tuple(x) => {
            if let Value::Tuple(y) = b {
                assert forall|i: int| 0 <= i < x@.len() && i < y@.len() implies (#[trigger] x@[i]).same_as(y@[i])
                    == x@[i].equiv(y@[i]) by {
                    lemma_same_as_is_equiv_without_floats(x@[i], y@[i]);
                }
            }
        },
        Value::Record(x) => {
            if let Value::Record(y) = b {
                assert forall|i: int| 0 <= i < x@.len() && i < y@.len() implies (#[trigger] x@[i]).same_as(y@[i])
                    == x@[i].equiv(y@[i]) by {
                    lemma_same_as_is_equiv_without_floats(x@[i], y@[i]);
                }
            }
        },
        Value::Variant { case_value, .. } => {
            if let (Some(x), Value::Variant { case_value: Some(y), .. }) = (case_value, b) {
                lemma_same_as_is_equiv_without_floats(*x, *y);
            }
        },
        Value::Option(o) => {
            if let (Some(x), Value::Option(Some(y))) = (o, b) {
                lemma_same_as_is_equiv_without_floats(*x, *y);
            }
        },
        Value::Result(r) => match (r, b) {
            (Ok(Some(x)), Value::Result(Ok(Some(y)))) => lemma_same_as_is_equiv_without_floats(*x, *y),
            (Err(Some(x)), Value::Result(Err(Some(y)))) => lemma_same_as_is_equiv_without_floats(*x, *y),
            _ => {},
        },
        _ => {},
    }
}

} // verus!
