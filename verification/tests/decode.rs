use chip8_core::instruction::{nibbles, xy_nibbles};
use chip8_core::{decode, AluOp, Chip8Error, Instruction};

#[test]
fn nibbles_are_split_most_significant_first() {
    assert_eq!(nibbles(0x0000), (0x0, 0x0, 0x0, 0x0));
    assert_eq!(nibbles(0x1234), (0x1, 0x2, 0x3, 0x4));
    assert_eq!(nibbles(0xFEDC), (0xF, 0xE, 0xD, 0xC));
    assert_eq!(nibbles(0xFFFF), (0xF, 0xF, 0xF, 0xF));
}

#[test]
fn register_indices_are_the_middle_nibbles() {
    assert_eq!(xy_nibbles((0x8, 0x3, 0xC, 0x4)), (0x3, 0xC));
    assert_eq!(xy_nibbles((0xD, 0xF, 0x0, 0x5)), (0xF, 0x0));
}

#[test]
fn decodes_the_fixed_words() {
    assert_eq!(decode(0x0000), Ok(Instruction::Nop));
    assert_eq!(decode(0x00E0), Ok(Instruction::ClearScreen));
    assert_eq!(decode(0x00EE), Ok(Instruction::Return));
}

#[test]
fn decodes_addresses() {
    assert_eq!(decode(0x1ABC), Ok(Instruction::Jump { addr: 0xABC }));
    assert_eq!(decode(0x2FFF), Ok(Instruction::Call { addr: 0xFFF }));
    assert_eq!(decode(0xA123), Ok(Instruction::LoadIndex { addr: 0x123 }));
    assert_eq!(decode(0xB000), Ok(Instruction::JumpOffset { addr: 0x000 }));
}

#[test]
fn decodes_register_and_byte() {
    assert_eq!(decode(0x3A42), Ok(Instruction::SkipIfEqual { x: 0xA, byte: 0x42 }));
    assert_eq!(decode(0x4B00), Ok(Instruction::SkipIfNotEqual { x: 0xB, byte: 0x00 }));
    assert_eq!(decode(0x60FF), Ok(Instruction::Load { x: 0x0, byte: 0xFF }));
    assert_eq!(decode(0x7F01), Ok(Instruction::AddByte { x: 0xF, byte: 0x01 }));
    assert_eq!(decode(0xC30F), Ok(Instruction::Random { x: 0x3, byte: 0x0F }));
}

#[test]
fn decodes_two_registers() {
    assert_eq!(decode(0x5120), Ok(Instruction::SkipIfRegistersEqual { x: 1, y: 2 }));
    assert_eq!(decode(0x9EF0), Ok(Instruction::SkipIfRegistersDiffer { x: 0xE, y: 0xF }));
    assert_eq!(decode(0xD125), Ok(Instruction::Draw { x: 1, y: 2, rows: 5 }));
    assert_eq!(decode(0xDFF0), Ok(Instruction::Draw { x: 0xF, y: 0xF, rows: 0 }));
}

#[test]
fn decodes_the_register_operations() {
    assert_eq!(decode(0x8AB0), Ok(Instruction::Alu { op: AluOp::Move, x: 0xA, y: 0xB }));
    assert_eq!(decode(0x8AB1), Ok(Instruction::Alu { op: AluOp::Or, x: 0xA, y: 0xB }));
    assert_eq!(decode(0x8AB2), Ok(Instruction::Alu { op: AluOp::And, x: 0xA, y: 0xB }));
    assert_eq!(decode(0x8AB3), Ok(Instruction::Alu { op: AluOp::Xor, x: 0xA, y: 0xB }));
    assert_eq!(decode(0x8AB4), Ok(Instruction::Alu { op: AluOp::Add, x: 0xA, y: 0xB }));
    assert_eq!(decode(0x8AB5), Ok(Instruction::Alu { op: AluOp::Sub, x: 0xA, y: 0xB }));
    assert_eq!(decode(0x8AB6), Ok(Instruction::Alu { op: AluOp::ShiftRight, x: 0xA, y: 0xB }));
    assert_eq!(decode(0x8AB7), Ok(Instruction::Alu { op: AluOp::SubReverse, x: 0xA, y: 0xB }));
    assert_eq!(decode(0x8AB8), Ok(Instruction::Alu { op: AluOp::ShiftLeft, x: 0xA, y: 0xB }));
}

#[test]
fn decodes_the_key_and_timer_family() {
    assert_eq!(decode(0xE19E), Ok(Instruction::SkipIfKeyPressed { x: 1 }));
    assert_eq!(decode(0xE2A1), Ok(Instruction::SkipIfKeyReleased { x: 2 }));
    assert_eq!(decode(0xF307), Ok(Instruction::ReadDelay { x: 3 }));
    assert_eq!(decode(0xF40A), Ok(Instruction::WaitKey { x: 4 }));
    assert_eq!(decode(0xF515), Ok(Instruction::SetDelay { x: 5 }));
    assert_eq!(decode(0xF618), Ok(Instruction::SetSound { x: 6 }));
    assert_eq!(decode(0xF71E), Ok(Instruction::AddIndex { x: 7 }));
    assert_eq!(decode(0xF829), Ok(Instruction::Glyph { x: 8 }));
    assert_eq!(decode(0xF933), Ok(Instruction::StoreDecimal { x: 9 }));
    assert_eq!(decode(0xFA55), Ok(Instruction::StoreRegisters { x: 0xA }));
    assert_eq!(decode(0xFB65), Ok(Instruction::LoadRegisters { x: 0xB }));
}

#[test]
fn unknown_words_are_reported_with_the_word() {
    for word in [
        0x0001u16, 0x00E1, 0x00EF, 0x0123, 0x0FFF, 0x5121, 0x512F, 0x8AB9, 0x8ABE, 0x8ABF, 0x9EF1,
        0xE19F, 0xE09E + 0x0001, 0xE2A0, 0xE000, 0xF000, 0xF308, 0xF356, 0xF366, 0xFFFF,
    ] {
        assert_eq!(decode(word), Err(Chip8Error::UnimplementedOpcode(word)));
    }
}

#[test]
fn every_word_decodes_to_a_valid_instruction_or_to_itself_as_an_error() {
    let mut known: u32 = 0;
    for word in 0..=0xFFFFu16 {
        match decode(word) {
            Ok(instr) => {
                assert!(instr.is_valid());
                known += 1;
            }
            Err(e) => assert_eq!(e, Chip8Error::UnimplementedOpcode(word)),
        }
    }
    let by_family: u32 = 3 + 10 * 4096 + 2 * 256 + 9 * 256 + 2 * 16 + 9 * 16;
    assert_eq!(known, by_family);
}

#[test]
fn operands_out_of_range_are_not_valid() {
    assert!(Instruction::Load { x: 15, byte: 0 }.is_valid());
    assert!(!Instruction::Load { x: 16, byte: 0 }.is_valid());
    assert!(!Instruction::Alu { op: AluOp::Add, x: 0, y: 16 }.is_valid());
    assert!(Instruction::Jump { addr: 0xFFF }.is_valid());
    assert!(!Instruction::Jump { addr: 0x1000 }.is_valid());
    assert!(Instruction::Draw { x: 0, y: 0, rows: 15 }.is_valid());
    assert!(!Instruction::Draw { x: 0, y: 0, rows: 16 }.is_valid());
}
