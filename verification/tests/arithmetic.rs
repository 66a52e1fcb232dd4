use chip8_core::{alu, bcd, AluOp};

#[test]
fn decimal_digits_recombine_for_every_byte() {
    for v in 0..=255u8 {
        let (h, t, o) = bcd(v);
        assert_eq!(h as u32 * 100 + t as u32 * 10 + o as u32, v as u32);
        assert!(h <= 2);
        assert!(t <= 9);
        assert!(o <= 9);
    }
}

#[test]
fn decimal_digits_of_chosen_bytes() {
    assert_eq!(bcd(0), (0, 0, 0));
    assert_eq!(bcd(7), (0, 0, 7));
    assert_eq!(bcd(42), (0, 4, 2));
    assert_eq!(bcd(100), (1, 0, 0));
    assert_eq!(bcd(199), (1, 9, 9));
    assert_eq!(bcd(255), (2, 5, 5));
}

#[test]
fn add_wraps_and_sets_carry_for_every_pair() {
    for a in 0..=255u8 {
        for b in 0..=255u8 {
            let sum: u32 = a as u32 + b as u32;
            let carry: u8 = if sum >= 256 { 1 } else { 0 };
            assert_eq!(alu(AluOp::Add, a, b), ((sum % 256) as u8, Some(carry)));
        }
    }
}

#[test]
fn subtract_wraps_and_clears_flag_on_borrow_for_every_pair() {
    for a in 0..=255u8 {
        for b in 0..=255u8 {
            let flag: u8 = if a < b { 0 } else { 1 };
            let diff: u8 = ((a as i32 - b as i32 + 256) % 256) as u8;
            assert_eq!(alu(AluOp::Sub, a, b), (diff, Some(flag)));
            assert_eq!(alu(AluOp::SubReverse, b, a), (diff, Some(flag)));
        }
    }
}

#[test]
fn arithmetic_on_chosen_values() {
    assert_eq!(alu(AluOp::Add, 200, 100), (44, Some(1)));
    assert_eq!(alu(AluOp::Add, 255, 1), (0, Some(1)));
    assert_eq!(alu(AluOp::Add, 255, 0), (255, Some(0)));
    assert_eq!(alu(AluOp::Sub, 5, 3), (2, Some(1)));
    assert_eq!(alu(AluOp::Sub, 3, 5), (254, Some(0)));
    assert_eq!(alu(AluOp::Sub, 7, 7), (0, Some(1)));
    assert_eq!(alu(AluOp::SubReverse, 5, 3), (254, Some(0)));
    assert_eq!(alu(AluOp::SubReverse, 3, 5), (2, Some(1)));
}

#[test]
fn shifts_capture_the_lost_bit_for_every_byte() {
    for k in 0..=255u8 {
        assert_eq!(alu(AluOp::ShiftRight, k, 0xAA), (k >> 1, Some(k & 1)));
        assert_eq!(
            alu(AluOp::ShiftLeft, k, 0xAA),
            (((k as u32) << 1) as u8, Some((k >> 7) & 1))
        );
        assert_eq!(alu(AluOp::ShiftLeft, k, 0).0 as u32, (k as u32 * 2) % 256);
    }
}

#[test]
fn shifts_of_chosen_values() {
    assert_eq!(alu(AluOp::ShiftRight, 0b0000_0101, 0), (0b0000_0010, Some(1)));
    assert_eq!(alu(AluOp::ShiftRight, 0b1000_0000, 0), (0b0100_0000, Some(0)));
    assert_eq!(alu(AluOp::ShiftLeft, 0b1000_0001, 0), (0b0000_0010, Some(1)));
    assert_eq!(alu(AluOp::ShiftLeft, 0b0100_0000, 0), (0b1000_0000, Some(0)));
}

#[test]
fn logic_operations_define_no_flag() {
    for a in [0x00u8, 0x0F, 0x5A, 0xF0, 0xFF] {
        for b in [0x00u8, 0x33, 0xA5, 0xFF] {
            assert_eq!(alu(AluOp::Move, a, b), (b, None));
            assert_eq!(alu(AluOp::Or, a, b), (a | b, None));
            assert_eq!(alu(AluOp::And, a, b), (a & b, None));
            assert_eq!(alu(AluOp::Xor, a, b), (a ^ b, None));
        }
    }
}
