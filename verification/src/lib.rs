//! Core data model of the Rib language: WIT types and functions, the
//! compiler's instruction identifiers, typed values and their Wasm Wave
//! building blocks, and the exhaustiveness check for `match` expressions.

pub mod analysis;
pub mod compiler;
pub mod profile;
pub mod text;
pub mod type_checker;
pub mod type_inference;
pub mod value;
pub mod value_and_type;
pub mod wasm_wave_text;
pub mod wit;
pub mod wit_type;
