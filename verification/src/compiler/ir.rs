//! Instruction identifiers and function references of the compiled Rib IR.

use vstd::prelude::*;

verus! {

/// How a compiled call refers to the function it invokes.
#[derive(Debug, Clone, PartialEq)]
pub enum FunctionReferenceType {
    Function { function: String },
    RawResourceConstructor { resource: String },
    RawResourceDrop { resource: String },
    RawResourceMethod { resource: String, method: String },
    RawResourceStaticMethod { resource: String, method: String },
}

/// Every instruction can carry a unique identifier; the compiler assigns these
/// to label the start and end of byte-code blocks, and a jump drains the
/// stack until it finds the label with the same identifier.
#[derive(Debug, Clone, PartialEq, Hash, Eq)]
pub struct InstructionId {
    pub index: usize,
}

impl InstructionId {
    pub fn new(index: usize) -> (id: InstructionId)
        ensures
            id.index == index,
    {
        InstructionId { index }
    }

    pub fn init() -> (id: InstructionId)
        ensures
            id.index == 0,
    {
        InstructionId { index: 0 }
    }

    /// The identifier that follows this one.
    pub fn increment(&self) -> (id: InstructionId)
        requires
            self.index < usize::MAX,
        ensures
            id.index == self.index + 1,
    {
        InstructionId { index: self.index + 1 }
    }

    /// Advances this identifier and returns a copy of the advanced value.
    pub fn increment_mut(&mut self) -> (id: InstructionId)
        requires
            old(self).index < usize::MAX,
        ensures
            final(self).index == old(self).index + 1,
            id == *final(self),
    {
        self.index = self.index + 1;
        InstructionId { index: self.index }
    }
}

} // verus!
