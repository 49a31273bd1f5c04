//! Faults that the execution engine can raise. Every fault is fatal to the
//! machine: the step loop unwinds and the caller surfaces the error.

use vstd::prelude::*;

verus! {

/// The kind of a fatal engine fault.
#[derive(Debug, Clone, Copy, PartialEq, Eq, Structural)]
pub enum Fault {
    /// A fetched word does not correspond to a valid opcode.
    DecodeFault,
    /// A bank index or offset is out of range, or an abandonment targets
    /// bank 0, an already-abandoned bank, or an index outside the arena.
    MemoryFault,
    /// Division by zero.
    ArithmeticFault,
}

/// A fatal engine error, carrying the fault that caused it.
#[derive(Debug, Clone, Copy, PartialEq, Eq, Structural)]
pub struct Error {
    pub kind: Fault,
}

impl Error {
    /// A human-readable description of the fault.
    pub fn message(&self) -> &'static str {
        match self.kind {
            Fault::DecodeFault => "invalid opcode",
            Fault::MemoryFault => "memory access out of range",
            Fault::ArithmeticFault => "divide by 0",
        }
    }
}

/// Builds an [`Error`] of the given kind.
pub fn err(kind: Fault) -> (e: Error)
    ensures
        e.kind == kind,
{
    Error { kind }
}

} // verus!
