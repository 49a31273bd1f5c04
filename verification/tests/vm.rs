use universal_machine::arena::Arena;
use universal_machine::error::{err, Fault};
use universal_machine::ops::Operator;
use universal_machine::platter::Platter;
use universal_machine::program::{Program, StepResult};

/// A standard instruction word: opcode in bits 28-31, a in 6-8, b in
/// 3-5, c in 0-2.
fn word(opcode: u32, a: u32, b: u32, c: u32) -> u32 {
    (opcode << 28) | (a << 6) | (b << 3) | c
}

/// Serializes words as the big-endian program file format.
fn bytes_of(words: &[u32]) -> Vec<u8> {
    let mut out = Vec::new();
    for w in words {
        out.push((w >> 24) as u8);
        out.push((w >> 16) as u8);
        out.push((w >> 8) as u8);
        out.push(*w as u8);
    }
    out
}

fn loaded(words: &[u32]) -> Program {
    let mut p = Program::new();
    p.load_program(&bytes_of(words));
    p
}

#[test]
fn decode_standard_operands() {
    let w = Platter(word(0, 1, 2, 3));
    assert!(matches!(
        w.to_operator(),
        Some(Operator::ConditionalMove { a: 1, b: 2, c: 3 })
    ));
    let (a, b, c) = w.extract_standard_op_registers();
    assert_eq!((a, b, c), (1, 2, 3));
}

#[test]
fn decode_each_opcode() {
    assert!(matches!(
        Platter(word(1, 7, 6, 5)).to_operator(),
        Some(Operator::ArrayIndex { a: 7, b: 6, c: 5 })
    ));
    assert!(matches!(
        Platter(word(2, 0, 1, 2)).to_operator(),
        Some(Operator::ArrayAmendment { a: 0, b: 1, c: 2 })
    ));
    assert!(matches!(
        Platter(word(3, 4, 5, 6)).to_operator(),
        Some(Operator::Addition { a: 4, b: 5, c: 6 })
    ));
    assert!(matches!(
        Platter(word(4, 4, 5, 6)).to_operator(),
        Some(Operator::Multiplication { a: 4, b: 5, c: 6 })
    ));
    assert!(matches!(
        Platter(word(5, 4, 5, 6)).to_operator(),
        Some(Operator::Division { a: 4, b: 5, c: 6 })
    ));
    assert!(matches!(
        Platter(word(6, 4, 5, 6)).to_operator(),
        Some(Operator::NotAnd { a: 4, b: 5, c: 6 })
    ));
    assert!(matches!(Platter(word(7, 0, 0, 0)).to_operator(), Some(Operator::Halt)));
    assert!(matches!(
        Platter(word(8, 0, 1, 2)).to_operator(),
        Some(Operator::Allocation { b: 1, c: 2 })
    ));
    assert!(matches!(
        Platter(word(9, 0, 0, 3)).to_operator(),
        Some(Operator::Abandonment { c: 3 })
    ));
    assert!(matches!(Platter(word(10, 0, 0, 4)).to_operator(), Some(Operator::Output { c: 4 })));
    assert!(matches!(Platter(word(11, 0, 0, 5)).to_operator(), Some(Operator::Input { c: 5 })));
    assert!(matches!(
        Platter(word(12, 0, 6, 7)).to_operator(),
        Some(Operator::LoadProgram { b: 6, c: 7 })
    ));
}

#[test]
fn decode_orthography_fields() {
    // Opcode 13, register bits 25-27, 25-bit immediate in the low bits.
    let w = (13u32 << 28) | (5u32 << 25) | 0x0123_4567;
    assert!(matches!(
        Platter(w).to_operator(),
        Some(Operator::Orthography { a: 5, value: 0x0123_4567 })
    ));
}

#[test]
fn decode_invalid_opcodes() {
    assert!(Platter(14u32 << 28).to_operator().is_none());
    assert!(Platter(15u32 << 28).to_operator().is_none());
    assert!(Platter(0xFFFF_FFFF).to_operator().is_none());
}

#[test]
fn orthography_round_trip() {
    for &(a, v) in &[(0u32, 0u32), (7, 0x01FF_FFFF), (2, 65), (5, 1)] {
        let w = Platter::encode_orthography(a, v);
        match w.to_operator() {
            Some(Operator::Orthography { a: got_a, value }) => {
                assert_eq!(got_a as u32, a);
                assert_eq!(value, v);
            }
            other => panic!("expected an Orthography instruction, got {:?}", other),
        }
    }
    assert_eq!(
        Platter::encode_orthography(2, 65).to_u32(),
        (13u32 << 28) | (2u32 << 25) | 65
    );
}

#[test]
fn wrapping_arithmetic() {
    assert_eq!(Platter(0xFFFF_FFFF).wrapping_add(Platter(1)).to_u32(), 0);
    assert_eq!(Platter(0xFFFF_FFFF).wrapping_mul(Platter(2)).to_u32(), 0xFFFF_FFFE);
    assert_eq!(Platter(3).wrapping_add(Platter(4)).to_u32(), 7);
    assert_eq!(Platter(6).wrapping_mul(Platter(7)).to_u32(), 42);
}

#[test]
fn platter_conversions() {
    assert_eq!(Platter(0x1FF).to_u8(), 0xFF);
    assert_eq!(Platter(65).to_u8(), 65);
    assert_eq!(Platter(1234).to_pos(), 1234);
    assert_eq!(Platter::from(9).to_u32(), 9);
    assert_eq!(Platter(7).div(Platter(2)).to_u32(), 3);
    assert_eq!(
        Platter(0b1100).not_and(Platter(0b1010)).to_u32(),
        !(0b1000u32)
    );
}

#[test]
fn division_by_zero_faults_and_mutates_no_register() {
    // reg1 := 5, then reg0 := reg1 / reg2 with reg2 == 0.
    let mut p = loaded(&[
        Platter::encode_orthography(1, 5).to_u32(),
        word(5, 0, 1, 2),
    ]);
    assert!(matches!(p.step(), Ok(StepResult::Continue)));
    let before: Vec<u32> = (0..8).map(|i| p.register(i).to_u32()).collect();
    let e = p.step().unwrap_err();
    assert_eq!(e.kind, Fault::ArithmeticFault);
    let after: Vec<u32> = (0..8).map(|i| p.register(i).to_u32()).collect();
    assert_eq!(before, after);
}

#[test]
fn division_truncates() {
    // reg1 := 7, reg2 := 2, reg0 := reg1 / reg2.
    let mut p = loaded(&[
        Platter::encode_orthography(1, 7).to_u32(),
        Platter::encode_orthography(2, 2).to_u32(),
        word(5, 0, 1, 2),
    ]);
    for _ in 0..3 {
        assert!(matches!(p.step(), Ok(StepResult::Continue)));
    }
    assert_eq!(p.register(0).to_u32(), 3);
}

#[test]
fn allocate_reuses_most_recently_freed_index() {
    let mut a = Arena::new();
    let i = a.allocate(5);
    assert_eq!(i, 1);
    assert_eq!(a.bank_len(i), 5);
    for off in 0..5 {
        assert_eq!(a.read(i, off).unwrap().to_u32(), 0);
    }
    a.abandon(i).unwrap();
    let j = a.allocate(3);
    assert_eq!(j, i);
    assert_eq!(a.bank_len(j), 3);
    for off in 0..3 {
        assert_eq!(a.read(j, off).unwrap().to_u32(), 0);
    }
}

#[test]
fn abandonment_is_lifo() {
    let mut a = Arena::new();
    let i1 = a.allocate(1);
    let i2 = a.allocate(1);
    assert_ne!(i1, i2);
    a.abandon(i1).unwrap();
    a.abandon(i2).unwrap();
    assert_eq!(a.allocate(1), i2);
    assert_eq!(a.allocate(1), i1);
}

#[test]
fn abandon_rejects_bank_zero_and_stale_indices() {
    let mut a = Arena::new();
    assert_eq!(a.abandon(0).unwrap_err().kind, Fault::MemoryFault);
    assert_eq!(a.abandon(7).unwrap_err().kind, Fault::MemoryFault);
    let i = a.allocate(2);
    a.abandon(i).unwrap();
    assert_eq!(a.abandon(i).unwrap_err().kind, Fault::MemoryFault);
}

#[test]
fn arena_read_write_bounds() {
    let mut a = Arena::new();
    let i = a.allocate(2);
    a.write(i, 1, Platter(42)).unwrap();
    assert_eq!(a.read(i, 1).unwrap().to_u32(), 42);
    assert_eq!(a.read(i, 2).unwrap_err().kind, Fault::MemoryFault);
    assert_eq!(a.write(i, 2, Platter(1)).unwrap_err().kind, Fault::MemoryFault);
    assert_eq!(a.read(9, 0).unwrap_err().kind, Fault::MemoryFault);
    a.abandon(i).unwrap();
    assert_eq!(a.read(i, 0).unwrap_err().kind, Fault::MemoryFault);
}

#[test]
fn load_program_discards_trailing_partial_chunk() {
    let mut p = Program::new();
    p.load_program(&[0, 0, 0, 7, 9, 9]);
    assert_eq!(p.instruction_count(), 1);
    assert_eq!(p.arena().read(0, 0).unwrap().to_u32(), 7);
}

#[test]
fn load_program_is_big_endian() {
    let mut p = Program::new();
    p.load_program(&[0x12, 0x34, 0x56, 0x78]);
    assert_eq!(p.arena().read(0, 0).unwrap().to_u32(), 0x1234_5678);
}

#[test]
fn load_program_instruction_from_bank_zero_is_a_jump() {
    // LoadProgram with reg6 == 0: bank 0 untouched, finger := reg7 == 0.
    let mut p = loaded(&[word(12, 0, 6, 7), word(7, 0, 0, 0)]);
    assert!(matches!(p.step(), Ok(StepResult::Continue)));
    assert_eq!(p.instruction_index(), 0);
    assert_eq!(p.instruction_count(), 2);
    assert_eq!(p.arena().read(0, 0).unwrap().to_u32(), word(12, 0, 6, 7));
}

#[test]
fn load_program_instruction_copies_bank() {
    // reg0 := 2 (size); allocate into reg1; reg3 := 65; bank[reg1][reg2] := reg3;
    // load program from bank reg1 with finger := reg2 == 0.
    let mut p = loaded(&[
        Platter::encode_orthography(0, 2).to_u32(),
        word(8, 0, 1, 0),
        Platter::encode_orthography(3, 65).to_u32(),
        word(2, 1, 2, 3),
        word(12, 0, 1, 2),
    ]);
    for _ in 0..5 {
        assert!(matches!(p.step(), Ok(StepResult::Continue)));
    }
    assert_eq!(p.instruction_count(), 2);
    assert_eq!(p.arena().read(0, 0).unwrap().to_u32(), 65);
    assert_eq!(p.arena().read(0, 1).unwrap().to_u32(), 0);
    assert_eq!(p.instruction_index(), 0);
}

#[test]
fn fetch_past_end_is_a_memory_fault() {
    let mut p = Program::new();
    assert_eq!(p.step().unwrap_err().kind, Fault::MemoryFault);
}

#[test]
fn invalid_opcode_is_a_decode_fault() {
    let mut p = loaded(&[14u32 << 28]);
    assert_eq!(p.step().unwrap_err().kind, Fault::DecodeFault);
}

#[test]
fn array_index_out_of_range_is_a_memory_fault() {
    // reg2 := 5; reg0 := bank[reg1][reg2] with bank 0 of length 2.
    let mut p = loaded(&[Platter::encode_orthography(2, 5).to_u32(), word(1, 0, 1, 2)]);
    assert!(matches!(p.step(), Ok(StepResult::Continue)));
    assert_eq!(p.step().unwrap_err().kind, Fault::MemoryFault);
}

#[test]
fn abandon_bank_zero_instruction_is_a_memory_fault() {
    let mut p = loaded(&[word(9, 0, 0, 0)]);
    assert_eq!(p.step().unwrap_err().kind, Fault::MemoryFault);
}

#[test]
fn conditional_move_moves_only_on_nonzero() {
    // reg1 := 9; reg0 := reg1 if reg2 != 0 (it is 0: no move);
    // reg2 := 1; reg0 := reg1 if reg2 != 0 (moves).
    let mut p = loaded(&[
        Platter::encode_orthography(1, 9).to_u32(),
        word(0, 0, 1, 2),
        Platter::encode_orthography(2, 1).to_u32(),
        word(0, 0, 1, 2),
    ]);
    assert!(matches!(p.step(), Ok(StepResult::Continue)));
    assert!(matches!(p.step(), Ok(StepResult::Continue)));
    assert_eq!(p.register(0).to_u32(), 0);
    assert!(matches!(p.step(), Ok(StepResult::Continue)));
    assert!(matches!(p.step(), Ok(StepResult::Continue)));
    assert_eq!(p.register(0).to_u32(), 9);
}

#[test]
fn not_and_instruction() {
    // reg1 := 0b1100; reg2 := 0b1010; reg0 := !(reg1 & reg2).
    let mut p = loaded(&[
        Platter::encode_orthography(1, 0b1100).to_u32(),
        Platter::encode_orthography(2, 0b1010).to_u32(),
        word(6, 0, 1, 2),
    ]);
    for _ in 0..3 {
        assert!(matches!(p.step(), Ok(StepResult::Continue)));
    }
    assert_eq!(p.register(0).to_u32(), !(0b1000u32));
}

#[test]
fn addition_wraps_in_the_machine() {
    // reg1 := 0x1FF_FFFF, then double it 8 times: the total passes 2^32
    // and must wrap.
    let mut p = loaded(&[
        Platter::encode_orthography(1, 0x01FF_FFFF).to_u32(),
        word(3, 1, 1, 1),
        word(3, 1, 1, 1),
        word(3, 1, 1, 1),
        word(3, 1, 1, 1),
        word(3, 1, 1, 1),
        word(3, 1, 1, 1),
        word(3, 1, 1, 1),
        word(3, 1, 1, 1),
    ]);
    for _ in 0..9 {
        assert!(matches!(p.step(), Ok(StepResult::Continue)));
    }
    assert_eq!(p.register(1).to_u32(), 0x01FF_FFFFu32.wrapping_mul(256));
}

#[test]
fn input_reaches_the_named_register() {
    let mut p = loaded(&[word(11, 0, 0, 3), word(11, 0, 0, 4), word(7, 0, 0, 0)]);
    match p.step() {
        Ok(StepResult::InputNeeded { inputter }) => p.provide_input(inputter, Some(97)),
        other => panic!("expected an input request, got {:?}", other),
    }
    assert_eq!(p.register(3).to_u32(), 97);
    match p.step() {
        Ok(StepResult::InputNeeded { inputter }) => p.provide_input(inputter, None),
        other => panic!("expected an input request, got {:?}", other),
    }
    assert_eq!(p.register(4).to_u32(), 0xFFFF_FFFF);
    assert!(matches!(p.step(), Ok(StepResult::Halted)));
}

#[test]
fn output_emits_low_byte() {
    let mut p = loaded(&[
        Platter::encode_orthography(2, 0x141).to_u32(),
        word(10, 0, 0, 2),
    ]);
    assert!(matches!(p.step(), Ok(StepResult::Continue)));
    match p.step() {
        Ok(StepResult::Output { ascii }) => assert_eq!(ascii, 0x41),
        other => panic!("expected output, got {:?}", other),
    }
}

#[test]
fn error_messages_name_the_fault() {
    assert_eq!(err(Fault::ArithmeticFault).kind, Fault::ArithmeticFault);
    assert_eq!(err(Fault::ArithmeticFault).message(), "divide by 0");
    assert_eq!(err(Fault::DecodeFault).message(), "invalid opcode");
    assert_eq!(err(Fault::MemoryFault).message(), "memory access out of range");
}
