//! The instruction set: one variant per opcode, with the operand register
//! indices (or, for Orthography, the immediate value) decoded from the word.

use vstd::prelude::*;

verus! {

/// A decoded instruction.
#[derive(Debug, Clone, Copy, PartialEq, Eq, Structural)]
pub enum Operator {
    // Standard operators
    ConditionalMove { a: usize, b: usize, c: usize },
    ArrayIndex { a: usize, b: usize, c: usize },
    ArrayAmendment { a: usize, b: usize, c: usize },
    Addition { a: usize, b: usize, c: usize },
    Multiplication { a: usize, b: usize, c: usize },
    Division { a: usize, b: usize, c: usize },
    NotAnd { a: usize, b: usize, c: usize },
    // Other operators
    Halt,
    Allocation { b: usize, c: usize },
    Abandonment { c: usize },
    Output { c: usize },
    Input { c: usize },
    LoadProgram { b: usize, c: usize },
    // Special operators
    Orthography { a: usize, value: u32 },
}

/// Every register index named by the instruction is in range, and an
/// Orthography immediate fits in 25 bits. Decoding guarantees this.
pub open spec fn op_wf(op: Operator) -> bool {
    match op {
        Operator::ConditionalMove { a, b, c } => a < 8 && b < 8 && c < 8,
        Operator::ArrayIndex { a, b, c } => a < 8 && b < 8 && c < 8,
        Operator::ArrayAmendment { a, b, c } => a < 8 && b < 8 && c < 8,
        Operator::Addition { a, b, c } => a < 8 && b < 8 && c < 8,
        Operator::Multiplication { a, b, c } => a < 8 && b < 8 && c < 8,
        Operator::Division { a, b, c } => a < 8 && b < 8 && c < 8,
        Operator::NotAnd { a, b, c } => a < 8 && b < 8 && c < 8,
        Operator::Halt => true,
        Operator::Allocation { b, c } => b < 8 && c < 8,
        Operator::Abandonment { c } => c < 8,
        Operator::Output { c } => c < 8,
        Operator::Input { c } => c < 8,
        Operator::LoadProgram { b, c } => b < 8 && c < 8,
        Operator::Orthography { a, value } => a < 8 && value < 0x0200_0000,
    }
}

} // verus!
