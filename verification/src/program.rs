//! The execution engine: eight registers, the memory arena, and the
//! instruction pointer ("finger") into bank 0. One `step` fetches the
//! word at the finger, decodes it, advances the finger, and applies the
//! instruction; the result tells the caller what must happen next.
//!
//! The machine's semantics is stated once, as the spec function
//! [`spec_step`] on the mathematical [`State`]; `step` is proved to
//! follow it exactly.

use crate::arena::{Arena, ArenaView};
use crate::error::{err, Error, Fault};
use crate::ops::{op_wf, Operator};
use crate::platter::{spec_decode, Platter};
use vstd::prelude::*;

verus! {

/// The mathematical state of the machine.
pub struct State {
    pub regs: Seq<Platter>,
    pub arena: ArenaView,
    pub finger: int,
}

impl State {
    /// Eight registers and a well-formed arena.
    pub open spec fn wf(self) -> bool {
        self.regs.len() == 8 && self.arena.wf()
    }

    /// Bank 0: the running program.
    pub open spec fn bank0(self) -> Seq<Platter> {
        self.arena.banks[0]
    }

    /// The same state with the registers replaced.
    pub open spec fn with_regs(self, regs: Seq<Platter>) -> State {
        State { regs, ..self }
    }
}

/// What a successful step asks of the caller, at the specification level.
pub enum StepKind {
    Continue,
    Halted,
    Output { ascii: u8 },
    InputNeeded { register: usize },
}

/// The effect of one decoded instruction on a machine state whose finger
/// has already advanced past the instruction: the state after the
/// instruction, and either what the caller must do or the fault that
/// ends execution. Every fault leaves the state unchanged.
pub open spec fn spec_apply(s: State, op: Operator) -> (State, Result<StepKind, Fault>) {
    match op {
        Operator::ConditionalMove { a, b, c } => {
            if s.regs[c as int]@ != 0 {
                (s.with_regs(s.regs.update(a as int, s.regs[b as int])), Ok(StepKind::Continue))
            } else {
                (s, Ok(StepKind::Continue))
            }
        },
        Operator::ArrayIndex { a, b, c } => {
            let bank = s.regs[b as int]@ as int;
            let off = s.regs[c as int]@ as int;
            if s.arena.in_bounds(bank, off) {
                (
                    s.with_regs(s.regs.update(a as int, s.arena.banks[bank][off])),
                    Ok(StepKind::Continue),
                )
            } else {
                (s, Err(Fault::MemoryFault))
            }
        },
        Operator::ArrayAmendment { a, b, c } => {
            let bank = s.regs[a as int]@ as int;
            let off = s.regs[b as int]@ as int;
            if s.arena.in_bounds(bank, off) {
                (
                    State {
                        arena: ArenaView {
                            banks: s.arena.banks.update(
                                bank,
                                s.arena.banks[bank].update(off, s.regs[c as int]),
                            ),
                            free: s.arena.free,
                        },
                        ..s
                    },
                    Ok(StepKind::Continue),
                )
            } else {
                (s, Err(Fault::MemoryFault))
            }
        },
        Operator::Addition { a, b, c } => {
            (
                s.with_regs(
                    s.regs.update(
                        a as int,
                        Platter(((s.regs[b as int]@ + s.regs[c as int]@) % 0x1_0000_0000) as u32),
                    ),
                ),
                Ok(StepKind::Continue),
            )
        },
        Operator::Multiplication { a, b, c } => {
            (
                s.with_regs(
                    s.regs.update(
                        a as int,
                        Platter(((s.regs[b as int]@ * s.regs[c as int]@) % 0x1_0000_0000) as u32),
                    ),
                ),
                Ok(StepKind::Continue),
            )
        },
        Operator::Division { a, b, c } => {
            if s.regs[c as int]@ == 0 {
                (s, Err(Fault::ArithmeticFault))
            } else {
                (
                    s.with_regs(
                        s.regs.update(
                            a as int,
                            Platter((s.regs[b as int]@ / s.regs[c as int]@) as u32),
                        ),
                    ),
                    Ok(StepKind::Continue),
                )
            }
        },
        Operator::NotAnd { a, b, c } => {
            (
                s.with_regs(
                    s.regs.update(a as int, Platter(!(s.regs[b as int]@ & s.regs[c as int]@))),
                ),
                Ok(StepKind::Continue),
            )
        },
        Operator::Halt => (s, Ok(StepKind::Halted)),
        Operator::Allocation { b, c } => {
            let size = s.regs[c as int]@ as nat;
            let idx = s.arena.alloc_index();
            (
                State {
                    regs: s.regs.update(b as int, Platter((idx % 0x1_0000_0000) as u32)),
                    arena: s.arena.after_alloc(size),
                    finger: s.finger,
                },
                Ok(StepKind::Continue),
            )
        },
        Operator::Abandonment { c } => {
            let idx = s.regs[c as int]@ as int;
            if s.arena.may_abandon(idx) {
                (State { arena: s.arena.after_abandon(idx), ..s }, Ok(StepKind::Continue))
            } else {
                (s, Err(Fault::MemoryFault))
            }
        },
        Operator::Output { c } => {
            (s, Ok(StepKind::Output { ascii: (s.regs[c as int]@ % 0x100) as u8 }))
        },
        Operator::Input { c } => (s, Ok(StepKind::InputNeeded { register: c })),
        Operator::LoadProgram { b, c } => {
            let pos = s.regs[b as int]@ as int;
            if pos == 0 {
                (State { finger: s.regs[c as int]@ as int, ..s }, Ok(StepKind::Continue))
            } else if pos < s.arena.banks.len() {
                (
                    State {
                        regs: s.regs,
                        arena: ArenaView {
                            banks: s.arena.banks.update(0, s.arena.banks[pos]),
                            free: s.arena.free,
                        },
                        finger: s.regs[c as int]@ as int,
                    },
                    Ok(StepKind::Continue),
                )
            } else {
                (s, Err(Fault::MemoryFault))
            }
        },
        Operator::Orthography { a, value } => {
            (s.with_regs(s.regs.update(a as int, Platter(value))), Ok(StepKind::Continue))
        },
    }
}

/// One fetch-decode-execute step of the machine. A fault leaves the
/// registers and the arena unchanged; the finger has advanced past the
/// faulting instruction exactly when the fetch itself succeeded.
pub open spec fn spec_step(pre: State) -> (State, Result<StepKind, Fault>) {
    if !(0 <= pre.finger < pre.bank0().len()) {
        (pre, Err(Fault::MemoryFault))
    } else {
        let w = pre.bank0()[pre.finger];
        let adv = State { finger: pre.finger + 1, ..pre };
        match spec_decode(w@) {
            None => (adv, Err(Fault::DecodeFault)),
            Some(op) => spec_apply(adv, op),
        }
    }
}

/// Any fault leaves the registers, the banks and the free list exactly
/// as they were; at most the finger has moved past the instruction that
/// faulted.
pub proof fn lemma_fault_preserves_state(pre: State)
    requires
        spec_step(pre).1 is Err,
    ensures
        spec_step(pre).0.regs == pre.regs,
        spec_step(pre).0.arena == pre.arena,
{
}

/// Division by zero yields an arithmetic fault and mutates no register,
/// no bank, and no free index; only the finger has advanced past the
/// faulting instruction.
pub proof fn lemma_division_by_zero(pre: State)
    requires
        0 <= pre.finger < pre.bank0().len(),
        spec_decode(pre.bank0()[pre.finger]@) matches Some(Operator::Division { a, b, c })
            && pre.regs[c as int]@ == 0,
    ensures
        spec_step(pre).1 == Err::<StepKind, Fault>(Fault::ArithmeticFault),
        spec_step(pre).0.regs == pre.regs,
        spec_step(pre).0.arena == pre.arena,
        spec_step(pre).0.finger == pre.finger + 1,
{
}

/// A program load from bank 0 is a pure jump: every bank is untouched
/// and only the finger changes, to the value of register c. A load from
/// a bank k != 0 inside the arena replaces bank 0 with a copy of bank
/// k's current contents and moves the finger the same way.
pub proof fn lemma_load_program(pre: State)
    requires
        pre.wf(),
        0 <= pre.finger < pre.bank0().len(),
        spec_decode(pre.bank0()[pre.finger]@) is Some,
        spec_decode(pre.bank0()[pre.finger]@)->Some_0 is LoadProgram,
    ensures
        ({
            let op = spec_decode(pre.bank0()[pre.finger]@)->Some_0;
            let pos = pre.regs[op->LoadProgram_b as int]@ as int;
            let target = pre.regs[op->LoadProgram_c as int]@ as int;
            let post = spec_step(pre).0;
            &&& pos == 0 ==> post.arena == pre.arena && post.regs == pre.regs && post.finger
                == target && spec_step(pre).1 == Ok::<StepKind, Fault>(StepKind::Continue)
            &&& 0 < pos < pre.arena.banks.len() ==> post.arena.banks == pre.arena.banks.update(
                0,
                pre.arena.banks[pos],
            ) && post.arena.free == pre.arena.free && post.regs == pre.regs && post.finger
                == target && spec_step(pre).1 == Ok::<StepKind, Fault>(StepKind::Continue)
            &&& pos >= pre.arena.banks.len() ==> post.regs == pre.regs && post.arena == pre.arena
                && spec_step(pre).1 == Err::<StepKind, Fault>(Fault::MemoryFault)
        }),
{
    crate::platter::lemma_decode_wf(pre.bank0()[pre.finger]@);
}

/// What a successful step asks of the caller.
#[derive(Debug, Clone, Copy)]
pub enum StepResult {
    Halted,
    Output { ascii: u8 },
    InputNeeded { inputter: Inputter },
    Continue,
}

/// The capability handed back on an input-needed result. It wraps the
/// register the pending input must reach, can only be constructed by the
/// engine, and is consumed by `Program::provide_input`, so a caller
/// cannot write to an arbitrary register outside the protocol.
#[derive(Debug, Clone, Copy)]
pub struct Inputter {
    register: usize,
}

impl Inputter {
    /// The register the pending input targets.
    pub closed spec fn register_index(&self) -> usize {
        self.register
    }

    /// The engine only ever names one of the eight registers.
    #[verifier::type_invariant]
    spec fn type_wf(self) -> bool {
        self.register < 8
    }
}

/// Whether the executable outcome of a step and the specification-level
/// outcome agree.
pub open spec fn result_corresponds(
    r: Result<StepResult, Error>,
    s: Result<StepKind, Fault>,
) -> bool {
    match (r, s) {
        (Ok(StepResult::Continue), Ok(StepKind::Continue)) => true,
        (Ok(StepResult::Halted), Ok(StepKind::Halted)) => true,
        (Ok(StepResult::Output { ascii: x }), Ok(StepKind::Output { ascii: y })) => x == y,
        (
            Ok(StepResult::InputNeeded { inputter }),
            Ok(StepKind::InputNeeded { register }),
        ) => inputter.register_index() == register,
        (Err(e), Err(f)) => e.kind == f,
        _ => false,
    }
}

/// The word at index `i` when a byte stream is grouped into 4-byte
/// big-endian chunks.
pub open spec fn word_at(bytes: Seq<u8>, i: int) -> u32 {
    ((bytes[4 * i] as u32) << 24) | ((bytes[4 * i + 1] as u32) << 16) | ((bytes[4 * i + 2] as u32)
        << 8) | (bytes[4 * i + 3] as u32)
}

/// The program a byte stream denotes: its 4-byte big-endian words, with
/// any trailing partial chunk discarded.
pub open spec fn words_of(bytes: Seq<u8>) -> Seq<Platter> {
    Seq::new(bytes.len() / 4, |i: int| Platter(word_at(bytes, i)))
}

/// The execution engine.
pub struct Program {
    registers: Vec<Platter>,
    arena: Arena,
    finger: usize,
}

impl View for Program {
    type V = State;

    closed spec fn view(&self) -> State {
        State { regs: self.registers@, arena: self.arena@, finger: self.finger as int }
    }
}

impl Program {
    /// The engine's invariant.
    pub open spec fn wf(self) -> bool {
        self@.wf()
    }

    /// A fresh machine: eight zeroed registers, an arena holding one
    /// empty bank 0, and the finger at 0.
    pub fn new() -> (p: Program)
        ensures
            p.wf(),
            p@.regs == Seq::new(8, |i: int| Platter(0)),
            p@.arena.banks == seq![Seq::<Platter>::empty()],
            p@.arena.free == Seq::<usize>::empty(),
            p@.finger == 0,
    {
        let registers = vec![Platter(0); 8];
        proof {
            assert(registers@ =~= Seq::new(8, |i: int| Platter(0)));
        }
        Program { registers, arena: Arena::new(), finger: 0 }
    }

    /// The finger: the bank-0 offset of the next word to fetch.
    pub fn instruction_index(&self) -> (r: usize)
        ensures
            r == self@.finger,
    {
        self.finger
    }

    /// How many words bank 0 currently holds.
    pub fn instruction_count(&self) -> (r: usize)
        requires
            self.wf(),
        ensures
            r == self@.bank0().len(),
    {
        self.arena.bank_len(0)
    }

    /// The current value of register `index`.
    pub fn register(&self, index: usize) -> (r: Platter)
        requires
            self.wf(),
            index < 8,
        ensures
            r == self@.regs[index as int],
    {
        self.registers[index]
    }

    /// A read-only view of the memory arena.
    pub fn arena(&self) -> (a: &Arena)
        ensures
            a@ == self@.arena,
    {
        &self.arena
    }

    /// Loads a program image: the bytes are grouped into 4-byte
    /// big-endian words (a trailing partial chunk is discarded) and
    /// become the new contents of bank 0. Nothing else changes.
    pub fn load_program(&mut self, scrolls: &[u8])
        requires
            old(self).wf(),
        ensures
            final(self).wf(),
            final(self)@.arena.banks == old(self)@.arena.banks.update(0, words_of(scrolls@)),
            final(self)@.arena.free == old(self)@.arena.free,
            final(self)@.regs == old(self)@.regs,
            final(self)@.finger == old(self)@.finger,
    {
        let n = scrolls.len() / 4;
        let mut words: Vec<Platter> = Vec::new();
        let mut k: usize = 0;
        while k < n
            invariant
                scrolls@.len() <= usize::MAX,
                n == scrolls@.len() / 4,
                k <= n,
                words@ == words_of(scrolls@).take(k as int),
            decreases n - k,
        {
            assert(4 * k + 3 < scrolls@.len());
            let b0 = scrolls[4 * k];
            let b1 = scrolls[4 * k + 1];
            let b2 = scrolls[4 * k + 2];
            let b3 = scrolls[4 * k + 3];
            let val = ((b0 as u32) << 24) | ((b1 as u32) << 16) | ((b2 as u32) << 8) | (b3 as u32);
            words.push(Platter(val));
            k = k + 1;
            proof {
                assert(words@ =~= words_of(scrolls@).take(k as int));
            }
        }
        proof {
            assert(words@ =~= words_of(scrolls@));
        }
        self.arena.set_program(words);
    }

    /// Completes a pending input: the byte, widened to a word, reaches
    /// the register the inputter wraps; end-of-input stores the all-ones
    /// sentinel word instead.
    pub fn provide_input(&mut self, inputter: Inputter, ascii: Option<u8>)
        requires
            old(self).wf(),
        ensures
            final(self).wf(),
            final(self)@.regs == old(self)@.regs.update(
                inputter.register_index() as int,
                match ascii {
                    Some(b) => Platter(b as u32),
                    None => Platter(0xFFFF_FFFF),
                },
            ),
            final(self)@.arena == old(self)@.arena,
            final(self)@.finger == old(self)@.finger,
    {
        proof {
            use_type_invariant(&inputter);
        }
        let val: u32 = match ascii {
            Some(b) => b as u32,
            None => 0xFFFF_FFFF,
        };
        self.registers[inputter.register] = Platter(val);
    }

    /// One step of the machine: fetch the word at the finger from bank 0
    /// (a memory fault if the finger is out of range), decode it (a
    /// decode fault for an invalid opcode), advance the finger, and
    /// apply the instruction — exactly as [`spec_step`] states.
    pub fn step(&mut self) -> (r: Result<StepResult, Error>)
        requires
            old(self).wf(),
        ensures
            final(self).wf(),
            final(self)@ == spec_step(old(self)@).0,
            result_corresponds(r, spec_step(old(self)@).1),
    {
        let count = self.arena.bank_len(0);
        let finger = self.finger;
        let platter = match self.arena.read(0, finger) {
            Ok(p) => p,
            Err(e) => {
                return Err(e);
            },
        };
        self.finger = finger + 1;
        let op = match platter.to_operator() {
            Some(op) => op,
            None => {
                return Err(err(Fault::DecodeFault));
            },
        };
        self.apply_operator(op)
    }

    /// Applies one decoded instruction, the finger having already moved
    /// past it.
    fn apply_operator(&mut self, op: Operator) -> (r: Result<StepResult, Error>)
        requires
            old(self).wf(),
            op_wf(op),
        ensures
            final(self).wf(),
            final(self)@ == spec_apply(old(self)@, op).0,
            result_corresponds(r, spec_apply(old(self)@, op).1),
    {
        match op {
            Operator::ConditionalMove { a, b, c } => {
                if self.registers[c].to_u32() != 0 {
                    let v = self.registers[b];
                    self.registers[a] = v;
                }
                Ok(StepResult::Continue)
            },
            Operator::ArrayIndex { a, b, c } => {
                let bank = self.registers[b].to_pos();
                let off = self.registers[c].to_pos();
                match self.arena.read(bank, off) {
                    Ok(v) => {
                        self.registers[a] = v;
                        Ok(StepResult::Continue)
                    },
                    Err(e) => Err(e),
                }
            },
            Operator::ArrayAmendment { a, b, c } => {
                let bank = self.registers[a].to_pos();
                let off = self.registers[b].to_pos();
                let v = self.registers[c];
                match self.arena.write(bank, off, v) {
                    Ok(_) => Ok(StepResult::Continue),
                    Err(e) => Err(e),
                }
            },
            Operator::Addition { a, b, c } => {
                let v = self.registers[b].wrapping_add(self.registers[c]);
                self.registers[a] = v;
                Ok(StepResult::Continue)
            },
            Operator::Multiplication { a, b, c } => {
                let v = self.registers[b].wrapping_mul(self.registers[c]);
                self.registers[a] = v;
                Ok(StepResult::Continue)
            },
            Operator::Division { a, b, c } => {
                let divisor = self.registers[c];
                if divisor.to_u32() == 0 {
                    Err(err(Fault::ArithmeticFault))
                } else {
                    let v = self.registers[b].div(divisor);
                    self.registers[a] = v;
                    Ok(StepResult::Continue)
                }
            },
            Operator::NotAnd { a, b, c } => {
                let v = self.registers[b].not_and(self.registers[c]);
                self.registers[a] = v;
                Ok(StepResult::Continue)
            },
            Operator::Halt => Ok(StepResult::Halted),
            Operator::Allocation { b, c } => {
                let size = self.registers[c].to_pos();
                let pos = self.arena.allocate(size);
                proof {
                    assert(forall|x: usize| #[trigger] (x as u32) == ((x as u64) % 0x1_0000_0000)
                        as u32) by (bit_vector);
                }
                self.registers[b] = Platter(#[verifier::truncate] (pos as u32));
                Ok(StepResult::Continue)
            },
            Operator::Abandonment { c } => {
                let idx = self.registers[c].to_pos();
                match self.arena.abandon(idx) {
                    Ok(_) => Ok(StepResult::Continue),
                    Err(e) => Err(e),
                }
            },
            Operator::Output { c } => {
                Ok(StepResult::Output { ascii: self.registers[c].to_u8() })
            },
            Operator::Input { c } => {
                Ok(StepResult::InputNeeded { inputter: Inputter { register: c } })
            },
            Operator::LoadProgram { b, c } => {
                let pos = self.registers[b].to_pos();
                if pos != 0 {
                    match self.arena.duplicate_to_zero(pos) {
                        Ok(_) => {},
                        Err(e) => {
                            return Err(e);
                        },
                    }
                }
                self.finger = self.registers[c].to_pos();
                Ok(StepResult::Continue)
            },
            Operator::Orthography { a, value } => {
                self.registers[a] = Platter(value);
                Ok(StepResult::Continue)
            },
        }
    }
}

} // verus!
