//! Pieces of the Rib compiler's intermediate representation.

pub mod ir;

pub use self::ir::{FunctionReferenceType, InstructionId};
