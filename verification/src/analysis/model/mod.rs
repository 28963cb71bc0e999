//! The types and exports of a Wasm component, as found by analysing its WIT metadata.

pub mod laws;
pub mod analysed_type;

use crate::text::{
    as_deref, opt_str_view, opt_string_view, seq_starts_with, str_starts_with, string_views,
    to_owned_string,
};
use vstd::prelude::*;

verus! {

#[derive(Debug, PartialEq, Hash, Eq)]
pub enum WitExport {
    Function(WitFunction),
    Interface(WitInterface),
}

#[derive(Debug, PartialEq, Hash, Eq)]
pub struct WitFunction {
    pub name: String,
    pub parameters: Vec<WitFunctionParameter>,
    pub result: Option<WitFunctionResult>,
}

#[derive(Debug, PartialEq, Hash, Eq)]
pub struct WitInterface {
    pub name: String,
    pub functions: Vec<WitFunction>,
}

#[derive(Debug, PartialEq, Hash, Eq)]
pub struct TypeResult {
    pub name: Option<String>,
    pub owner: Option<String>,
    pub ok: Option<Box<AnalysedType>>,
    pub err: Option<Box<AnalysedType>>,
}

#[derive(Debug, PartialEq, Hash, Eq)]
pub struct NameTypePair {
    pub name: String,
    pub typ: AnalysedType,
}

#[derive(Debug, PartialEq, Hash, Eq)]
pub struct NameOptionTypePair {
    pub name: String,
    pub typ: Option<AnalysedType>,
}

#[derive(Debug, PartialEq, Hash, Eq)]
pub struct TypeVariant {
    pub name: Option<String>,
    pub owner: Option<String>,
    pub cases: Vec<NameOptionTypePair>,
}

#[derive(Debug, PartialEq, Hash, Eq)]
pub struct TypeOption {
    pub name: Option<String>,
    pub owner: Option<String>,
    pub inner: Box<AnalysedType>,
}

#[derive(Debug, Clone, PartialEq, Hash, Eq)]
pub struct TypeEnum {
    pub name: Option<String>,
    pub owner: Option<String>,
    pub cases: Vec<String>,
}

#[derive(Debug, Clone, PartialEq, Hash, Eq)]
pub struct TypeFlags {
    pub name: Option<String>,
    pub owner: Option<String>,
    pub names: Vec<String>,
}

#[derive(Debug, PartialEq, Hash, Eq)]
pub struct TypeRecord {
    pub name: Option<String>,
    pub owner: Option<String>,
    pub fields: Vec<NameTypePair>,
}

#[derive(Debug, PartialEq, Hash, Eq)]
pub struct TypeTuple {
    pub name: Option<String>,
    pub owner: Option<String>,
    pub items: Vec<AnalysedType>,
}

#[derive(Debug, PartialEq, Hash, Eq)]
pub struct TypeList {
    pub name: Option<String>,
    pub owner: Option<String>,
    pub inner: Box<AnalysedType>,
}

#[derive(Debug, Clone, PartialEq, Hash, Eq)]
pub struct TypeStr;

#[derive(Debug, Clone, PartialEq, Hash, Eq)]
pub struct TypeChr;

#[derive(Debug, Clone, PartialEq, Hash, Eq)]
pub struct TypeF64;

#[derive(Debug, Clone, PartialEq, Hash, Eq)]
pub struct TypeF32;

#[derive(Debug, Clone, PartialEq, Hash, Eq)]
pub struct TypeU64;

#[derive(Debug, Clone, PartialEq, Hash, Eq)]
pub struct TypeS64;

#[derive(Debug, Clone, PartialEq, Hash, Eq)]
pub struct TypeU32;

#[derive(Debug, Clone, PartialEq, Hash, Eq)]
pub struct TypeS32;

#[derive(Debug, Clone, PartialEq, Hash, Eq)]
pub struct TypeU16;

#[derive(Debug, Clone, PartialEq, Hash, Eq)]
pub struct TypeS16;

#[derive(Debug, Clone, PartialEq, Hash, Eq)]
pub struct TypeU8;

#[derive(Debug, Clone, PartialEq, Hash, Eq)]
pub struct TypeS8;

#[derive(Debug, Clone, PartialEq, Hash, Eq)]
pub struct TypeBool;

#[derive(Debug, Clone, PartialEq, Hash, Eq)]
pub struct TypeHandle {
    pub name: Option<String>,
    pub owner: Option<String>,
    pub resource_id: AnalysedResourceId,
    pub mode: AnalysedResourceMode,
}

#[derive(Debug, PartialEq, Hash, Eq)]
pub enum AnalysedType {
    Variant(TypeVariant),
    Result(TypeResult),
    Option(TypeOption),
    Enum(TypeEnum),
    Flags(TypeFlags),
    Record(TypeRecord),
    Tuple(TypeTuple),
    List(TypeList),
    Str(TypeStr),
    Chr(TypeChr),
    F64(TypeF64),
    F32(TypeF32),
    U64(TypeU64),
    S64(TypeS64),
    U32(TypeU32),
    S32(TypeS32),
    U16(TypeU16),
    S16(TypeS16),
    U8(TypeU8),
    S8(TypeS8),
    Bool(TypeBool),
    Handle(TypeHandle),
}

#[derive(Debug, Clone, PartialEq, Hash, Eq)]
pub enum AnalysedResourceMode {
    Owned,
    Borrowed,
}

#[derive(Debug, Copy, Clone, PartialEq, Hash, Eq)]
pub struct AnalysedResourceId(pub u64);

#[derive(Debug, PartialEq, Hash, Eq)]
pub struct WitFunctionParameter {
    pub name: String,
    pub typ: AnalysedType,
}

#[derive(Debug, PartialEq, Hash, Eq)]
pub struct WitFunctionResult {
    pub typ: AnalysedType,
}

/// `t` is a handle of the given ownership mode.
pub open spec fn is_handle_with_mode(t: AnalysedType, mode: AnalysedResourceMode) -> bool {
    t matches AnalysedType::Handle(h) && h.mode == mode
}

impl WitFunction {
    /// A resource constructor: named `[constructor]...` and returning an owned handle.
    pub open spec fn spec_is_constructor(self) -> bool {
        &&& seq_starts_with(self.name@, "[constructor]"@)
        &&& self.result matches Some(r)
        &&& is_handle_with_mode(r.typ, AnalysedResourceMode::Owned)
    }

    /// A resource method: named `[method]...` whose first parameter is a borrowed handle.
    pub open spec fn spec_is_method(self) -> bool {
        &&& seq_starts_with(self.name@, "[method]"@)
        &&& self.parameters.len() > 0
        &&& is_handle_with_mode(self.parameters@[0].typ, AnalysedResourceMode::Borrowed)
    }

    /// A static resource function: named `[static]...`.
    pub open spec fn spec_is_static_method(self) -> bool {
        seq_starts_with(self.name@, "[static]"@)
    }

    pub fn is_constructor(&self) -> (b: bool)
        ensures
            b == self.spec_is_constructor(),
    {
        str_starts_with(self.name.as_str(), "[constructor]") && match &self.result {
            Some(r) => matches!(&r.typ, AnalysedType::Handle(TypeHandle { mode: AnalysedResourceMode::Owned, .. })),
            None => false,
        }
    }

    pub fn is_method(&self) -> (b: bool)
        ensures
            b == self.spec_is_method(),
    {
        str_starts_with(self.name.as_str(), "[method]") && self.parameters.len() > 0
            && matches!(&self.parameters[0].typ, AnalysedType::Handle(TypeHandle { mode: AnalysedResourceMode::Borrowed, .. }))
    }

    pub fn is_static_method(&self) -> (b: bool)
        ensures
            b == self.spec_is_static_method(),
    {
        str_starts_with(self.name.as_str(), "[static]")
    }
}

impl AnalysedType {
    /// The name slot of the kinds that carry one; `None` for the others.
    pub open spec fn spec_name(self) -> Option<String> {
        match self {
            AnalysedType::Variant(t) => t.name,
            AnalysedType::Result(t) => t.name,
            AnalysedType::Option(t) => t.name,
            AnalysedType::Enum(t) => t.name,
            AnalysedType::Flags(t) => t.name,
            AnalysedType::Record(t) => t.name,
            AnalysedType::Tuple(t) => t.name,
            AnalysedType::List(t) => t.name,
            AnalysedType::Handle(t) => t.name,
            _ => None,
        }
    }

    /// The owner slot of the kinds that carry one; `None` for the others.
    pub open spec fn spec_owner(self) -> Option<String> {
        match self {
            AnalysedType::Variant(t) => t.owner,
            AnalysedType::Result(t) => t.owner,
            AnalysedType::Option(t) => t.owner,
            AnalysedType::Enum(t) => t.owner,
            AnalysedType::Flags(t) => t.owner,
            AnalysedType::Record(t) => t.owner,
            AnalysedType::Tuple(t) => t.owner,
            AnalysedType::List(t) => t.owner,
            AnalysedType::Handle(t) => t.owner,
            _ => None,
        }
    }

    /// The kinds that carry a name and an owner: every kind but the primitive ones.
    pub open spec fn has_name_slot(self) -> bool {
        self is Variant || self is Result || self is Option || self is Enum || self is Flags || self is Record || self is Tuple || self is List || self is Handle
    }

    /// This type with its name slot set to `name`; unchanged for primitive kinds.
    pub open spec fn spec_with_optional_name(self, name: Option<String>) -> AnalysedType {
        match self {
            AnalysedType::Variant(t) => AnalysedType::Variant(TypeVariant { name, ..t }),
            AnalysedType::Result(t) => AnalysedType::Result(TypeResult { name, ..t }),
            AnalysedType::Option(t) => AnalysedType::Option(TypeOption { name, ..t }),
            AnalysedType::Enum(t) => AnalysedType::Enum(TypeEnum { name, ..t }),
            AnalysedType::Flags(t) => AnalysedType::Flags(TypeFlags { name, ..t }),
            AnalysedType::Record(t) => AnalysedType::Record(TypeRecord { name, ..t }),
            AnalysedType::Tuple(t) => AnalysedType::Tuple(TypeTuple { name, ..t }),
            AnalysedType::List(t) => AnalysedType::List(TypeList { name, ..t }),
            AnalysedType::Handle(t) => AnalysedType::Handle(TypeHandle { name, ..t }),
            _ => self,
        }
    }

    /// This type with its owner slot set to `owner`; unchanged for primitive kinds.
    pub open spec fn spec_with_optional_owner(self, owner: Option<String>) -> AnalysedType {
        match self {
            AnalysedType::Variant(t) => AnalysedType::Variant(TypeVariant { owner, ..t }),
            AnalysedType::Result(t) => AnalysedType::Result(TypeResult { owner, ..t }),
            AnalysedType::Option(t) => AnalysedType::Option(TypeOption { owner, ..t }),
            AnalysedType::Enum(t) => AnalysedType::Enum(TypeEnum { owner, ..t }),
            AnalysedType::Flags(t) => AnalysedType::Flags(TypeFlags { owner, ..t }),
            AnalysedType::Record(t) => AnalysedType::Record(TypeRecord { owner, ..t }),
            AnalysedType::Tuple(t) => AnalysedType::Tuple(TypeTuple { owner, ..t }),
            AnalysedType::List(t) => AnalysedType::List(TypeList { owner, ..t }),
            AnalysedType::Handle(t) => AnalysedType::Handle(TypeHandle { owner, ..t }),
            _ => self,
        }
    }

    /// Whether a resource handle occurs anywhere in this type.
    pub open spec fn spec_contains_handle(self) -> bool
        decreases self,
    {
        match self {
            AnalysedType::Handle(_) => true,
            AnalysedType::Variant(t) => exists|i: int|
                0 <= i < t.cases@.len() && match #[trigger] t.cases@[i].typ {
                    Some(c) => c.spec_contains_handle(),
                    None => false,
                },
            AnalysedType::Result(t) => (match t.ok {
                Some(o) => (*o).spec_contains_handle(),
                None => false,
            }) || (match t.err {
                Some(e) => (*e).spec_contains_handle(),
                None => false,
            }),
            AnalysedType::Option(t) => (*t.inner).spec_contains_handle(),
            AnalysedType::Record(t) => exists|i: int|
                0 <= i < t.fields@.len() && (#[trigger] t.fields@[i]).typ.spec_contains_handle(),
            AnalysedType::Tuple(t) => exists|i: int|
                0 <= i < t.items@.len() && (#[trigger] t.items@[i]).spec_contains_handle(),
            AnalysedType::List(t) => (*t.inner).spec_contains_handle(),
            _ => false,
        }
    }

    /// The label under which the kind of this type is displayed.
    pub open spec fn spec_kind_label(self) -> Seq<char> {
        match self {
            AnalysedType::Variant(_) => "Variant"@,
            AnalysedType::Result(_) => "Result"@,
            AnalysedType::Option(_) => "Option"@,
            AnalysedType::Enum(_) => "Enum"@,
            AnalysedType::Flags(_) => "Flags"@,
            AnalysedType::Record(_) => "Record"@,
            AnalysedType::Tuple(_) => "Tuple"@,
            AnalysedType::List(_) => "List"@,
            AnalysedType::Str(_) => "Str"@,
            AnalysedType::Chr(_) => "Chr"@,
            AnalysedType::F64(_) => "F64"@,
            AnalysedType::F32(_) => "F32"@,
            AnalysedType::U64(_) => "U64"@,
            AnalysedType::S64(_) => "S64"@,
            AnalysedType::U32(_) => "U32"@,
            AnalysedType::S32(_) => "S32"@,
            AnalysedType::U16(_) => "U16"@,
            AnalysedType::S16(_) => "S16"@,
            AnalysedType::U8(_) => "U8"@,
            AnalysedType::S8(_) => "S8"@,
            AnalysedType::Bool(_) => "Bool"@,
            AnalysedType::Handle(_) => "Handle"@,
        }
    }

    pub fn name(&self) -> (r: Option<&str>)
        ensures
            opt_str_view(r) == opt_string_view(self.spec_name()),
    {
        match self {
            AnalysedType::Variant(t) => as_deref(&t.name),
            AnalysedType::Result(t) => as_deref(&t.name),
            AnalysedType::Option(t) => as_deref(&t.name),
            AnalysedType::Enum(t) => as_deref(&t.name),
            AnalysedType::Flags(t) => as_deref(&t.name),
            AnalysedType::Record(t) => as_deref(&t.name),
            AnalysedType::Tuple(t) => as_deref(&t.name),
            AnalysedType::List(t) => as_deref(&t.name),
            AnalysedType::Handle(t) => as_deref(&t.name),
            _ => None,
        }
    }

    pub fn with_optional_name(self, name: Option<String>) -> (r: Self)
        ensures
            r == self.spec_with_optional_name(name),
    {
        match self {
            AnalysedType::Variant(mut t) => {
                t.name = name;
                AnalysedType::Variant(t)
            }
            AnalysedType::Result(mut t) => {
                t.name = name;
                AnalysedType::Result(t)
            }
            AnalysedType::Option(mut t) => {
                t.name = name;
                AnalysedType::Option(t)
            }
            AnalysedType::Enum(mut t) => {
                t.name = name;
                AnalysedType::Enum(t)
            }
            AnalysedType::Flags(mut t) => {
                t.name = name;
                AnalysedType::Flags(t)
            }
            AnalysedType::Record(mut t) => {
                t.name = name;
                AnalysedType::Record(t)
            }
            AnalysedType::Tuple(mut t) => {
                t.name = name;
                AnalysedType::Tuple(t)
            }
            AnalysedType::List(mut t) => {
                t.name = name;
                AnalysedType::List(t)
            }
            AnalysedType::Handle(mut t) => {
                t.name = name;
                AnalysedType::Handle(t)
            }
            _ => self,
        }
    }

    /// Sets the name slot to a copy of `name` (primitive kinds are returned unchanged).
    pub fn named(self, name: &str) -> (r: Self)
        ensures
            exists|s: String| s@ == name@ && r == #[trigger] self.spec_with_optional_name(Some(s)),
    {
        let s = to_owned_string(name);
        self.with_optional_name(Some(s))
    }

    pub fn owner(&self) -> (r: Option<&str>)
        ensures
            opt_str_view(r) == opt_string_view(self.spec_owner()),
    {
        match self {
            AnalysedType::Variant(t) => as_deref(&t.owner),
            AnalysedType::Result(t) => as_deref(&t.owner),
            AnalysedType::Option(t) => as_deref(&t.owner),
            AnalysedType::Enum(t) => as_deref(&t.owner),
            AnalysedType::Flags(t) => as_deref(&t.owner),
            AnalysedType::Record(t) => as_deref(&t.owner),
            AnalysedType::Tuple(t) => as_deref(&t.owner),
            AnalysedType::List(t) => as_deref(&t.owner),
            AnalysedType::Handle(t) => as_deref(&t.owner),
            _ => None,
        }
    }

    pub fn with_optional_owner(self, owner: Option<String>) -> (r: Self)
        ensures
            r == self.spec_with_optional_owner(owner),
    {
        match self {
            AnalysedType::Variant(mut t) => {
                t.owner = owner;
                AnalysedType::Variant(t)
            }
            AnalysedType::Result(mut t) => {
                t.owner = owner;
                AnalysedType::Result(t)
            }
            AnalysedType::Option(mut t) => {
                t.owner = owner;
                AnalysedType::Option(t)
            }
            AnalysedType::Enum(mut t) => {
                t.owner = owner;
                AnalysedType::Enum(t)
            }
            AnalysedType::Flags(mut t) => {
                t.owner = owner;
                AnalysedType::Flags(t)
            }
            AnalysedType::Record(mut t) => {
                t.owner = owner;
                AnalysedType::Record(t)
            }
            AnalysedType::Tuple(mut t) => {
                t.owner = owner;
                AnalysedType::Tuple(t)
            }
            AnalysedType::List(mut t) => {
                t.owner = owner;
                AnalysedType::List(t)
            }
            AnalysedType::Handle(mut t) => {
                t.owner = owner;
                AnalysedType::Handle(t)
            }
            _ => self,
        }
    }

    /// Sets the owner slot to a copy of `owner` (primitive kinds are returned unchanged).
    pub fn owned(self, owner: &str) -> (r: Self)
        ensures
            exists|s: String| s@ == owner@ && r == #[trigger] self.spec_with_optional_owner(Some(s)),
    {
        let s = to_owned_string(owner);
        self.with_optional_owner(Some(s))
    }

    /// The label under which this type is displayed: the name of its kind.
    pub fn kind_label(&self) -> (r: &'static str)
        ensures
            r@ == self.spec_kind_label(),
    {
        match self {
            AnalysedType::Variant(_) => "Variant",
            AnalysedType::Result(_) => "Result",
            AnalysedType::Option(_) => "Option",
            AnalysedType::Enum(_) => "Enum",
            AnalysedType::Flags(_) => "Flags",
            AnalysedType::Record(_) => "Record",
            AnalysedType::Tuple(_) => "Tuple",
            AnalysedType::List(_) => "List",
            AnalysedType::Str(_) => "Str",
            AnalysedType::Chr(_) => "Chr",
            AnalysedType::F64(_) => "F64",
            AnalysedType::F32(_) => "F32",
            AnalysedType::U64(_) => "U64",
            AnalysedType::S64(_) => "S64",
            AnalysedType::U32(_) => "U32",
            AnalysedType::S32(_) => "S32",
            AnalysedType::U16(_) => "U16",
            AnalysedType::S16(_) => "S16",
            AnalysedType::U8(_) => "U8",
            AnalysedType::S8(_) => "S8",
            AnalysedType::Bool(_) => "Bool",
            AnalysedType::Handle(_) => "Handle",
        }
    }
}

impl AnalysedType {
    #[verifier::loop_isolation(false)]
    pub fn contains_handle(&self) -> (b: bool)
        ensures
            b == self.spec_contains_handle(),
        decreases self,
    {
        match self {
            AnalysedType::Handle(_) => true,
            AnalysedType::Variant(t) => {
                let mut i: usize = 0;
                while i < t.cases.len()
                    invariant
                        i <= t.cases@.len(),
                        forall|j: int| 0 <= j < i ==> match #[trigger] t.cases@[j].typ {
                            Some(c) => !c.spec_contains_handle(),
                            None => true,
                        },
                    decreases t.cases@.len() - i,
                {
                    match &t.cases[i].typ {
                        Some(c) => {
                            if c.contains_handle() {
                                return true;
                            }
                        },
                        None => {},
                    }
                    i = i + 1;
                }
                false
            },
            AnalysedType::Result(t) => {
                let ok_has = match &t.ok {
                    Some(o) => o.contains_handle(),
                    None => false,
                };
                ok_has || match &t.err {
                    Some(e) => e.contains_handle(),
                    None => false,
                }
            },
            AnalysedType::Option(t) => t.inner.contains_handle(),
            AnalysedType::Record(t) => {
                let mut i: usize = 0;
                while i < t.fields.len()
                    invariant
                        i <= t.fields@.len(),
                        forall|j: int| 0 <= j < i ==> !(#[trigger] t.fields@[j]).typ.spec_contains_handle(),
                    decreases t.fields@.len() - i,
                {
                    if t.fields[i].typ.contains_handle() {
                        return true;
                    }
                    i = i + 1;
                }
                false
            },
            AnalysedType::Tuple(t) => {
                let mut i: usize = 0;
                while i < t.items.len()
                    invariant
                        i <= t.items@.len(),
                        forall|j: int| 0 <= j < i ==> !(#[trigger] t.items@[j]).spec_contains_handle(),
                    decreases t.items@.len() - i,
                {
                    if t.items[i].contains_handle() {
                        return true;
                    }
                    i = i + 1;
                }
                false
            },
            AnalysedType::List(t) => t.inner.contains_handle(),
            _ => false,
        }
    }
}

/// Two optional strings with the same characters.
pub open spec fn same_opt_string(a: Option<String>, b: Option<String>) -> bool {
    opt_string_view(a) == opt_string_view(b)
}

/// Two optional types that are both absent, or both present and equivalent.
pub open spec fn opt_equiv(a: Option<AnalysedType>, b: Option<AnalysedType>) -> bool {
    match a {
        Some(x) => b matches Some(y) && x.equiv(y),
        None => b is None,
    }
}

impl AnalysedType {
    /// `self` and `other` describe the same type: the same kind, name, owner
    /// and component types, strings being compared by their characters.
    pub open spec fn equiv(self, other: AnalysedType) -> bool
        decreases self,
    {
        match self {
            AnalysedType::Variant(x) => other matches AnalysedType::Variant(y) && same_opt_string(x.name, y.name)
                && same_opt_string(x.owner, y.owner) && x.cases@.len() == y.cases@.len()
                && forall|i: int| 0 <= i < x.cases@.len() ==> (#[trigger] x.cases@[i]).name@ == y.cases@[i].name@
                    && match x.cases@[i].typ {
                        Some(c) => y.cases@[i].typ matches Some(d) && c.equiv(d),
                        None => y.cases@[i].typ is None,
                    },
            AnalysedType::Result(x) => other matches AnalysedType::Result(y) && same_opt_string(x.name, y.name)
                && same_opt_string(x.owner, y.owner) && match x.ok {
                    Some(o) => y.ok matches Some(p) && (*o).equiv(*p),
                    None => y.ok is None,
                } && match x.err {
                    Some(e) => y.err matches Some(f) && (*e).equiv(*f),
                    None => y.err is None,
                },
            AnalysedType::Option(x) => other matches AnalysedType::Option(y) && same_opt_string(x.name, y.name)
                && same_opt_string(x.owner, y.owner) && (*x.inner).equiv(*y.inner),
            AnalysedType::Enum(x) => other matches AnalysedType::Enum(y) && same_opt_string(x.name, y.name)
                && same_opt_string(x.owner, y.owner) && string_views(x.cases@) == string_views(y.cases@),
            AnalysedType::Flags(x) => other matches AnalysedType::Flags(y) && same_opt_string(x.name, y.name)
                && same_opt_string(x.owner, y.owner) && string_views(x.names@) == string_views(y.names@),
            AnalysedType::Record(x) => other matches AnalysedType::Record(y) && same_opt_string(x.name, y.name)
                && same_opt_string(x.owner, y.owner) && x.fields@.len() == y.fields@.len()
                && forall|i: int| 0 <= i < x.fields@.len() ==> (#[trigger] x.fields@[i]).name@ == y.fields@[i].name@
                    && x.fields@[i].typ.equiv(y.fields@[i].typ),
            AnalysedType::Tuple(x) => other matches AnalysedType::Tuple(y) && same_opt_string(x.name, y.name)
                && same_opt_string(x.owner, y.owner) && x.items@.len() == y.items@.len()
                && forall|i: int| 0 <= i < x.items@.len() ==> (#[trigger] x.items@[i]).equiv(y.items@[i]),
            AnalysedType::List(x) => other matches AnalysedType::List(y) && same_opt_string(x.name, y.name)
                && same_opt_string(x.owner, y.owner) && (*x.inner).equiv(*y.inner),
            AnalysedType::Handle(x) => other matches AnalysedType::Handle(y) && same_opt_string(x.name, y.name)
                && same_opt_string(x.owner, y.owner) && x.resource_id == y.resource_id && x.mode == y.mode,
            AnalysedType::Str(_) => other is Str,
            AnalysedType::Chr(_) => other is Chr,
            AnalysedType::F64(_) => other is F64,
            AnalysedType::F32(_) => other is F32,
            AnalysedType::U64(_) => other is U64,
            AnalysedType::S64(_) => other is S64,
            AnalysedType::U32(_) => other is U32,
            AnalysedType::S32(_) => other is S32,
            AnalysedType::U16(_) => other is U16,
            AnalysedType::S16(_) => other is S16,
            AnalysedType::U8(_) => other is U8,
            AnalysedType::S8(_) => other is S8,
            AnalysedType::Bool(_) => other is Bool,
        }
    }
}

/// Copies an optional string.
fn clone_opt_string(o: &Option<String>) -> (r: Option<String>)
    ensures
        r == *o,
{
    match o {
        Some(s) => Some(s.clone()),
        None => None,
    }
}

/// Copies a list of strings.
fn clone_string_vec(v: &Vec<String>) -> (r: Vec<String>)
    ensures
        string_views(r@) == string_views(v@),
{
    let r = crate::text::clone_strings(v);
    r
}

impl AnalysedType {
    /// An equivalent copy of this type.
    #[verifier::loop_isolation(false)]
    pub fn deep_clone(&self) -> (r: AnalysedType)
        ensures
            self.equiv(r),
        decreases self,
    {
        match self {
            AnalysedType::Variant(x) => AnalysedType::Variant(clone_variant(x)),
            AnalysedType::Result(x) => AnalysedType::Result(clone_result(x)),
            AnalysedType::Option(x) => AnalysedType::Option(
                TypeOption {
                    name: clone_opt_string(&x.name),
                    owner: clone_opt_string(&x.owner),
                    inner: Box::new(x.inner.deep_clone()),
                },
            ),
            AnalysedType::Enum(x) => AnalysedType::Enum(
                TypeEnum { name: clone_opt_string(&x.name), owner: clone_opt_string(&x.owner), cases: clone_string_vec(&x.cases) },
            ),
            AnalysedType::Flags(x) => AnalysedType::Flags(
                TypeFlags { name: clone_opt_string(&x.name), owner: clone_opt_string(&x.owner), names: clone_string_vec(&x.names) },
            ),
            AnalysedType::Record(x) => AnalysedType::Record(clone_record(x)),
            AnalysedType::Tuple(x) => AnalysedType::Tuple(clone_tuple(x)),
            AnalysedType::List(x) => AnalysedType::List(
                TypeList {
                    name: clone_opt_string(&x.name),
                    owner: clone_opt_string(&x.owner),
                    inner: Box::new(x.inner.deep_clone()),
                },
            ),
            AnalysedType::Handle(x) => AnalysedType::Handle(
                TypeHandle {
                    name: clone_opt_string(&x.name),
                    owner: clone_opt_string(&x.owner),
                    resource_id: x.resource_id,
                    mode: match x.mode {
                        AnalysedResourceMode::Owned => AnalysedResourceMode::Owned,
                        AnalysedResourceMode::Borrowed => AnalysedResourceMode::Borrowed,
                    },
                },
            ),
            AnalysedType::Str(_) => AnalysedType::Str(TypeStr),
            AnalysedType::Chr(_) => AnalysedType::Chr(TypeChr),
            AnalysedType::F64(_) => AnalysedType::F64(TypeF64),
            AnalysedType::F32(_) => AnalysedType::F32(TypeF32),
            AnalysedType::U64(_) => AnalysedType::U64(TypeU64),
            AnalysedType::S64(_) => AnalysedType::S64(TypeS64),
            AnalysedType::U32(_) => AnalysedType::U32(TypeU32),
            AnalysedType::S32(_) => AnalysedType::S32(TypeS32),
            AnalysedType::U16(_) => AnalysedType::U16(TypeU16),
            AnalysedType::S16(_) => AnalysedType::S16(TypeS16),
            AnalysedType::U8(_) => AnalysedType::U8(TypeU8),
            AnalysedType::S8(_) => AnalysedType::S8(TypeS8),
            AnalysedType::Bool(_) => AnalysedType::Bool(TypeBool),
        }
    }
}

/// An equivalent copy of a variant type.
#[verifier::loop_isolation(false)]
fn clone_variant(x: &TypeVariant) -> (r: TypeVariant)
    ensures
        AnalysedType::Variant(*x).equiv(AnalysedType::Variant(r)),
    decreases *x,
{
    let mut cases: Vec<NameOptionTypePair> = Vec::new();
    let mut i: usize = 0;
    while i < x.cases.len()
        invariant
            i <= x.cases@.len(),
            cases@.len() == i,
            forall|j: int| 0 <= j < i ==> (#[trigger] x.cases@[j]).name@ == cases@[j].name@
                && match x.cases@[j].typ {
                    Some(c) => cases@[j].typ matches Some(d) && c.equiv(d),
                    None => cases@[j].typ is None,
                },
        decreases x.cases@.len() - i,
    {
        let typ = match &x.cases[i].typ {
            Some(c) => Some(c.deep_clone()),
            None => None,
        };
        cases.push(NameOptionTypePair { name: x.cases[i].name.clone(), typ });
        i = i + 1;
    }
    TypeVariant { name: clone_opt_string(&x.name), owner: clone_opt_string(&x.owner), cases }
}

/// An equivalent copy of a result type.
fn clone_result(x: &TypeResult) -> (r: TypeResult)
    ensures
        AnalysedType::Result(*x).equiv(AnalysedType::Result(r)),
    decreases *x,
{
    let ok = match &x.ok {
        Some(o) => Some(Box::new(o.deep_clone())),
        None => None,
    };
    let err = match &x.err {
        Some(e) => Some(Box::new(e.deep_clone())),
        None => None,
    };
    TypeResult { name: clone_opt_string(&x.name), owner: clone_opt_string(&x.owner), ok, err }
}

/// An equivalent copy of a record type.
#[verifier::loop_isolation(false)]
fn clone_record(x: &TypeRecord) -> (r: TypeRecord)
    ensures
        AnalysedType::Record(*x).equiv(AnalysedType::Record(r)),
    decreases *x,
{
    let mut fields: Vec<NameTypePair> = Vec::new();
    let mut i: usize = 0;
    while i < x.fields.len()
        invariant
            i <= x.fields@.len(),
            fields@.len() == i,
            forall|j: int| 0 <= j < i ==> (#[trigger] x.fields@[j]).name@ == fields@[j].name@
                && x.fields@[j].typ.equiv(fields@[j].typ),
        decreases x.fields@.len() - i,
    {
        let typ = x.fields[i].typ.deep_clone();
        fields.push(NameTypePair { name: x.fields[i].name.clone(), typ });
        i = i + 1;
    }
    TypeRecord { name: clone_opt_string(&x.name), owner: clone_opt_string(&x.owner), fields }
}

/// An equivalent copy of a tuple type.
#[verifier::loop_isolation(false)]
fn clone_tuple(x: &TypeTuple) -> (r: TypeTuple)
    ensures
        AnalysedType::Tuple(*x).equiv(AnalysedType::Tuple(r)),
    decreases *x,
{
    let mut items: Vec<AnalysedType> = Vec::new();
    let mut i: usize = 0;
    while i < x.items.len()
        invariant
            i <= x.items@.len(),
            items@.len() == i,
            forall|j: int| 0 <= j < i ==> (#[trigger] x.items@[j]).equiv(items@[j]),
        decreases x.items@.len() - i,
    {
        items.push(x.items[i].deep_clone());
        i = i + 1;
    }
    TypeTuple { name: clone_opt_string(&x.name), owner: clone_opt_string(&x.owner), items }
}

impl Clone for AnalysedType {
    fn clone(&self) -> (r: Self)
        ensures
            self.equiv(r),
    {
        self.deep_clone()
    }
}

impl Clone for TypeVariant {
    fn clone(&self) -> (r: Self)
        ensures
            AnalysedType::Variant(*self).equiv(AnalysedType::Variant(r)),
    {
        clone_variant(self)
    }
}

impl Clone for TypeResult {
    fn clone(&self) -> (r: Self)
        ensures
            AnalysedType::Result(*self).equiv(AnalysedType::Result(r)),
    {
        clone_result(self)
    }
}

impl Clone for TypeRecord {
    fn clone(&self) -> (r: Self)
        ensures
            AnalysedType::Record(*self).equiv(AnalysedType::Record(r)),
    {
        clone_record(self)
    }
}

impl Clone for TypeTuple {
    fn clone(&self) -> (r: Self)
        ensures
            AnalysedType::Tuple(*self).equiv(AnalysedType::Tuple(r)),
    {
        clone_tuple(self)
    }
}

impl Clone for TypeOption {
    fn clone(&self) -> (r: Self)
        ensures
            AnalysedType::Option(*self).equiv(AnalysedType::Option(r)),
    {
        TypeOption {
            name: clone_opt_string(&self.name),
            owner: clone_opt_string(&self.owner),
            inner: Box::new(self.inner.deep_clone()),
        }
    }
}

impl Clone for TypeList {
    fn clone(&self) -> (r: Self)
        ensures
            AnalysedType::List(*self).equiv(AnalysedType::List(r)),
    {
        TypeList {
            name: clone_opt_string(&self.name),
            owner: clone_opt_string(&self.owner),
            inner: Box::new(self.inner.deep_clone()),
        }
    }
}

impl Clone for NameTypePair {
    fn clone(&self) -> (r: Self)
        ensures
            r.name@ == self.name@,
            self.typ.equiv(r.typ),
    {
        NameTypePair { name: self.name.clone(), typ: self.typ.deep_clone() }
    }
}

impl Clone for NameOptionTypePair {
    fn clone(&self) -> (r: Self)
        ensures
            r.name@ == self.name@,
            opt_equiv(self.typ, r.typ),
    {
        let typ = match &self.typ {
            Some(t) => Some(t.deep_clone()),
            None => None,
        };
        NameOptionTypePair { name: self.name.clone(), typ }
    }
}

impl Clone for WitFunctionParameter {
    fn clone(&self) -> (r: Self)
        ensures
            r.name@ == self.name@,
            self.typ.equiv(r.typ),
    {
        WitFunctionParameter { name: self.name.clone(), typ: self.typ.deep_clone() }
    }
}

impl Clone for WitFunctionResult {
    fn clone(&self) -> (r: Self)
        ensures
            self.typ.equiv(r.typ),
    {
        WitFunctionResult { typ: self.typ.deep_clone() }
    }
}

impl WitFunction {
    /// `self` and `other` have the same name, parameters and result.
    pub open spec fn equiv(self, other: WitFunction) -> bool {
        &&& self.name@ == other.name@
        &&& self.parameters@.len() == other.parameters@.len()
        &&& forall|i: int| 0 <= i < self.parameters@.len() ==> (#[trigger] self.parameters@[i]).name@
            == other.parameters@[i].name@ && self.parameters@[i].typ.equiv(other.parameters@[i].typ)
        &&& match self.result {
            Some(r) => other.result matches Some(s) && r.typ.equiv(s.typ),
            None => other.result is None,
        }
    }
}

impl Clone for WitFunction {
    fn clone(&self) -> (r: Self)
        ensures
            self.equiv(r),
    {
        let mut parameters: Vec<WitFunctionParameter> = Vec::new();
        let mut i: usize = 0;
        while i < self.parameters.len()
            invariant
                i <= self.parameters@.len(),
                parameters@.len() == i,
                forall|j: int| 0 <= j < i ==> (#[trigger] self.parameters@[j]).name@ == parameters@[j].name@
                    && self.parameters@[j].typ.equiv(parameters@[j].typ),
            decreases self.parameters@.len() - i,
        {
            parameters.push(self.parameters[i].clone());
            i = i + 1;
        }
        let result = match &self.result {
            Some(r) => Some(r.clone()),
            None => None,
        };
        WitFunction { name: self.name.clone(), parameters, result }
    }
}

impl Clone for WitInterface {
    fn clone(&self) -> (r: Self)
        ensures
            r.name@ == self.name@,
            r.functions@.len() == self.functions@.len(),
            forall|i: int| 0 <= i < self.functions@.len() ==> (#[trigger] self.functions@[i]).equiv(r.functions@[i]),
    {
        let mut functions: Vec<WitFunction> = Vec::new();
        let mut i: usize = 0;
        while i < self.functions.len()
            invariant
                i <= self.functions@.len(),
                functions@.len() == i,
                forall|j: int| 0 <= j < i ==> (#[trigger] self.functions@[j]).equiv(functions@[j]),
            decreases self.functions@.len() - i,
        {
            functions.push(self.functions[i].clone());
            i = i + 1;
        }
        WitInterface { name: self.name.clone(), functions }
    }
}

impl Clone for WitExport {
    fn clone(&self) -> (r: Self)
        ensures
            match *self {
                WitExport::Function(f) => r matches WitExport::Function(g) && f.equiv(g),
                WitExport::Interface(i) => r matches WitExport::Interface(j) && i.name@ == j.name@
                    && i.functions@.len() == j.functions@.len()
                    && forall|k: int| 0 <= k < i.functions@.len() ==> (#[trigger] i.functions@[k]).equiv(j.functions@[k]),
            },
    {
        match self {
            WitExport::Function(f) => WitExport::Function(f.clone()),
            WitExport::Interface(i) => WitExport::Interface(i.clone()),
        }
    }
}

} // verus!
