//! The platter: a 32-bit word, the unit of memory, registers and
//! instruction encoding. Arithmetic wraps modulo 2^32.
//!
//! An instruction word carries its opcode in bits 28-31. Opcodes 0-6 name
//! three registers in the low nine bits (a in bits 6-8, b in bits 3-5,
//! c in bits 0-2); Orthography (opcode 13) instead names a register in
//! bits 25-27 and a 25-bit immediate in the low bits.

use crate::ops::Operator;
use vstd::prelude::*;

verus! {

/// The opcode: bits 28-31 of the word.
pub open spec fn opcode_of(w: u32) -> u32 {
    (w >> 28) & 0xF
}

/// Register operand a: bits 6-8.
pub open spec fn reg_a(w: u32) -> usize {
    ((w >> 6) & 7) as usize
}

/// Register operand b: bits 3-5.
pub open spec fn reg_b(w: u32) -> usize {
    ((w >> 3) & 7) as usize
}

/// Register operand c: bits 0-2.
pub open spec fn reg_c(w: u32) -> usize {
    (w & 7) as usize
}

/// The register operand of an Orthography instruction: bits 25-27.
pub open spec fn orth_reg(w: u32) -> usize {
    ((w >> 25) & 7) as usize
}

/// The immediate value of an Orthography instruction: the low 25 bits.
pub open spec fn orth_value(w: u32) -> u32 {
    w & 0x01FF_FFFF
}

/// What a word decodes to: an instruction for opcodes 0-13, nothing for
/// any other opcode value.
pub open spec fn spec_decode(w: u32) -> Option<Operator> {
    let op = opcode_of(w);
    let a = reg_a(w);
    let b = reg_b(w);
    let c = reg_c(w);
    if op == 0 {
        Some(Operator::ConditionalMove { a, b, c })
    } else if op == 1 {
        Some(Operator::ArrayIndex { a, b, c })
    } else if op == 2 {
        Some(Operator::ArrayAmendment { a, b, c })
    } else if op == 3 {
        Some(Operator::Addition { a, b, c })
    } else if op == 4 {
        Some(Operator::Multiplication { a, b, c })
    } else if op == 5 {
        Some(Operator::Division { a, b, c })
    } else if op == 6 {
        Some(Operator::NotAnd { a, b, c })
    } else if op == 7 {
        Some(Operator::Halt)
    } else if op == 8 {
        Some(Operator::Allocation { b, c })
    } else if op == 9 {
        Some(Operator::Abandonment { c })
    } else if op == 10 {
        Some(Operator::Output { c })
    } else if op == 11 {
        Some(Operator::Input { c })
    } else if op == 12 {
        Some(Operator::LoadProgram { b, c })
    } else if op == 13 {
        Some(Operator::Orthography { a: orth_reg(w), value: orth_value(w) })
    } else {
        None
    }
}

/// The Orthography word that names register `a` and carries `value`.
pub open spec fn spec_encode_orthography(a: u32, value: u32) -> u32 {
    (13u32 << 28) | (a << 25) | value
}

/// Decoding is the bit-field extraction of the opcode and operands:
/// the opcode is bits 28-31, and it alone decides the variant; operands
/// come from the positions the instruction format fixes.
pub proof fn lemma_decode_fields(w: u32)
    ensures
        opcode_of(w) == (w >> 28) & 0xF,
        reg_a(w) == (w >> 6) & 7,
        reg_b(w) == (w >> 3) & 7,
        reg_c(w) == w & 7,
        orth_reg(w) == (w >> 25) & 7,
        orth_value(w) == w & 0x01FF_FFFF,
        spec_decode(w) is None <==> opcode_of(w) > 13,
        opcode_of(w) == 0 ==> spec_decode(w) == Some(
            Operator::ConditionalMove { a: reg_a(w), b: reg_b(w), c: reg_c(w) },
        ),
        opcode_of(w) == 1 ==> spec_decode(w) == Some(
            Operator::ArrayIndex { a: reg_a(w), b: reg_b(w), c: reg_c(w) },
        ),
        opcode_of(w) == 2 ==> spec_decode(w) == Some(
            Operator::ArrayAmendment { a: reg_a(w), b: reg_b(w), c: reg_c(w) },
        ),
        opcode_of(w) == 3 ==> spec_decode(w) == Some(
            Operator::Addition { a: reg_a(w), b: reg_b(w), c: reg_c(w) },
        ),
        opcode_of(w) == 4 ==> spec_decode(w) == Some(
            Operator::Multiplication { a: reg_a(w), b: reg_b(w), c: reg_c(w) },
        ),
        opcode_of(w) == 5 ==> spec_decode(w) == Some(
            Operator::Division { a: reg_a(w), b: reg_b(w), c: reg_c(w) },
        ),
        opcode_of(w) == 6 ==> spec_decode(w) == Some(
            Operator::NotAnd { a: reg_a(w), b: reg_b(w), c: reg_c(w) },
        ),
        opcode_of(w) == 7 ==> spec_decode(w) == Some(Operator::Halt),
        opcode_of(w) == 8 ==> spec_decode(w) == Some(
            Operator::Allocation { b: reg_b(w), c: reg_c(w) },
        ),
        opcode_of(w) == 9 ==> spec_decode(w) == Some(Operator::Abandonment { c: reg_c(w) }),
        opcode_of(w) == 10 ==> spec_decode(w) == Some(Operator::Output { c: reg_c(w) }),
        opcode_of(w) == 11 ==> spec_decode(w) == Some(Operator::Input { c: reg_c(w) }),
        opcode_of(w) == 12 ==> spec_decode(w) == Some(
            Operator::LoadProgram { b: reg_b(w), c: reg_c(w) },
        ),
        opcode_of(w) == 13 ==> spec_decode(w) == Some(
            Operator::Orthography { a: orth_reg(w), value: orth_value(w) },
        ),
{
}

/// What decoding returns is well-formed: every register index extracted
/// from three bits is below 8, and the immediate fits in 25 bits.
pub proof fn lemma_decode_wf(w: u32)
    ensures
        spec_decode(w) matches Some(op) ==> crate::ops::op_wf(op),
{
    assert((w >> 6) & 7 < 8 && (w >> 3) & 7 < 8 && (w & 7) < 8 && (w >> 25) & 7 < 8
        && (w & 0x01FF_FFFF) < 0x0200_0000) by (bit_vector);
}

/// Encoding an Orthography instruction and decoding the word recovers
/// exactly the register index and the immediate value.
pub proof fn lemma_orthography_round_trip(a: u32, value: u32)
    requires
        a < 8,
        value < 0x0200_0000,
    ensures
        spec_decode(spec_encode_orthography(a, value)) == Some(
            Operator::Orthography { a: a as usize, value },
        ),
{
    let w = spec_encode_orthography(a, value);
    assert((((13u32 << 28) | (a << 25) | value) >> 28) & 0xF == 13 && (((13u32 << 28) | (a << 25)
        | value) >> 25) & 7 == a && ((13u32 << 28) | (a << 25) | value) & 0x01FF_FFFF == value)
        by (bit_vector)
        requires
            a < 8,
            value < 0x0200_0000,
    ;
}

/// A 32-bit word with wrapping arithmetic and bitwise operations.
#[derive(Debug, Clone, Copy, PartialEq, Eq, Structural)]
pub struct Platter(pub u32);

impl View for Platter {
    type V = u32;

    open spec fn view(&self) -> u32 {
        self.0
    }
}

impl Default for Platter {
    fn default() -> (r: Platter)
        ensures
            r@ == 0,
    {
        Platter(0)
    }
}

impl core::convert::From<u32> for Platter {
    fn from(val: u32) -> (r: Platter)
        ensures
            r@ == val,
    {
        Platter(val)
    }
}

impl vstd::std_specs::convert::FromSpecImpl<u32> for Platter {
    open spec fn obeys_from_spec() -> bool {
        true
    }

    open spec fn from_spec(val: u32) -> Platter {
        Platter(val)
    }
}

impl Platter {
    /// The product modulo 2^32.
    pub fn wrapping_mul(&self, other: Platter) -> (r: Platter)
        ensures
            r@ == (self@ * other@) % 0x1_0000_0000,
    {
        proof {
            assert(forall|x: u32, y: u32|
                #[trigger] x.wrapping_mul(y) == (x * y) % 0x1_0000_0000) by (bit_vector);
        }
        Platter(self.0.wrapping_mul(other.0))
    }

    /// The sum modulo 2^32.
    pub fn wrapping_add(&self, other: Platter) -> (r: Platter)
        ensures
            r@ == (self@ + other@) % 0x1_0000_0000,
    {
        proof {
            assert(forall|x: u32, y: u32|
                #[trigger] x.wrapping_add(y) == (x + y) % 0x1_0000_0000) by (bit_vector);
        }
        Platter(self.0.wrapping_add(other.0))
    }

    /// The word as a position (bank index, offset, or finger value).
    pub fn to_pos(&self) -> (r: usize)
        ensures
            r == self@,
    {
        self.0 as usize
    }

    /// The low 8 bits of the word.
    pub fn to_u8(&self) -> (r: u8)
        ensures
            r == self@ % 0x100,
    {
        proof {
            assert(forall|x: u32| #[trigger] (x as u8) == x % 0x100) by (bit_vector);
        }
        #[verifier::truncate] (self.0 as u8)
    }

    /// The raw 32-bit value.
    pub fn to_u32(&self) -> (r: u32)
        ensures
            r == self@,
    {
        self.0
    }

    /// Truncating division. Division by zero is a fault at the engine
    /// level, so the divisor is required to be nonzero here.
    pub fn div(&self, other: Platter) -> (r: Platter)
        requires
            other@ != 0,
        ensures
            r@ == self@ / other@,
    {
        Platter(self.0 / other.0)
    }

    /// Bitwise not-and: the complement of the conjunction.
    pub fn not_and(&self, other: Platter) -> (r: Platter)
        ensures
            r@ == !(self@ & other@),
    {
        Platter(!(self.0 & other.0))
    }

    /// Decodes the word into an instruction, or nothing if the opcode is
    /// not one of 0-13.
    pub fn to_operator(&self) -> (r: Option<Operator>)
        ensures
            r == spec_decode(self@),
            r matches Some(op) ==> crate::ops::op_wf(op),
    {
        proof {
            lemma_decode_wf(self@);
        }
        let val = self.0;
        let op_num = (val >> 28) & 15;
        let (a, b, c) = self.extract_standard_op_registers();

        match op_num {
            0 => Some(Operator::ConditionalMove { a, b, c }),
            1 => Some(Operator::ArrayIndex { a, b, c }),
            2 => Some(Operator::ArrayAmendment { a, b, c }),
            3 => Some(Operator::Addition { a, b, c }),
            4 => Some(Operator::Multiplication { a, b, c }),
            5 => Some(Operator::Division { a, b, c }),
            6 => Some(Operator::NotAnd { a, b, c }),
            7 => Some(Operator::Halt),
            8 => Some(Operator::Allocation { b, c }),
            9 => Some(Operator::Abandonment { c }),
            10 => Some(Operator::Output { c }),
            11 => Some(Operator::Input { c }),
            12 => Some(Operator::LoadProgram { b, c }),
            13 => {
                let a = (val >> 25) & 7;
                let value = val & 0x01FF_FFFF;
                Some(Operator::Orthography { a: a as usize, value })
            },
            _ => None,
        }
    }

    /// Extracts the three register operands of a standard instruction:
    /// a from bits 6-8, b from bits 3-5, c from bits 0-2.
    pub fn extract_standard_op_registers(&self) -> (r: (usize, usize, usize))
        ensures
            r.0 == reg_a(self@),
            r.1 == reg_b(self@),
            r.2 == reg_c(self@),
    {
        let val = self.0;
        let c = val & 7;
        let b = (val >> 3) & 7;
        let a = (val >> 6) & 7;
        (a as usize, b as usize, c as usize)
    }

    /// Builds the Orthography word that loads `value` into register `a`.
    pub fn encode_orthography(a: u32, value: u32) -> (r: Platter)
        requires
            a < 8,
            value < 0x0200_0000,
        ensures
            r@ == spec_encode_orthography(a, value),
            spec_decode(r@) == Some(Operator::Orthography { a: a as usize, value }),
    {
        proof {
            lemma_orthography_round_trip(a, value);
        }
        Platter((13u32 << 28) | (a << 25) | value)
    }
}

} // verus!
