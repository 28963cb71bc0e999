//! Component metadata gathered from WIT: exported functions and their types.

pub mod model;

pub use self::model::{
    analysed_type, AnalysedResourceId, AnalysedResourceMode, AnalysedType, NameOptionTypePair,
    NameTypePair, TypeBool, TypeChr, TypeEnum, TypeF32, TypeF64, TypeFlags, TypeHandle, TypeList,
    TypeOption, TypeRecord, TypeResult, TypeS16, TypeS32, TypeS64, TypeS8, TypeStr, TypeTuple,
    TypeU16, TypeU32, TypeU64, TypeU8, TypeVariant, WitExport, WitFunction, WitFunctionParameter,
    WitFunctionResult, WitInterface,
};
