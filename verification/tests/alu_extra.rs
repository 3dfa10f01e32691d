use r3emu::alu;
use r3emu::alu::{alu_word_limit, eval_condition, get_flag, patch_word, set_flag};

#[test]
fn patch_word_zeroes_words_with_empty_low_bits() {
    assert_eq!(patch_word(0), 0);
    assert_eq!(patch_word(0x4000_0000), 0);
    assert_eq!(patch_word(0x8000_0000), 0);
    assert_eq!(patch_word(0xC000_0000), 0);
    assert_eq!(patch_word(0xC000_0001), 0xC000_0001);
    assert_eq!(patch_word(5), 5);
}

#[test]
fn word_limit_keeps_low_sixteen_bits() {
    assert_eq!(alu_word_limit(0x1234_5678), 0x5678);
    assert_eq!(alu_word_limit(0xFFFF), 0xFFFF);
}

#[test]
fn set_then_get_flag() {
    let mut flags: u8 = 0b1010;
    set_flag(&mut flags, 0, true);
    assert!(get_flag(flags, 0));
    assert!(get_flag(flags, 1));
    set_flag(&mut flags, 1, false);
    assert!(!get_flag(flags, 1));
    assert!(get_flag(flags, 3));
    assert_eq!(flags, 0b1001);
}

#[test]
fn add_without_update_keeps_flags() {
    let mut flags: u8 = 0b0110;
    let r = alu::add(0xFFFF, 1, &mut flags, false);
    assert_eq!(r, 0);
    assert_eq!(flags, 0b0110);
}

#[test]
fn adc_adds_carry_in() {
    let mut flags: u8 = 0;
    assert_eq!(alu::adc(5, 6, &mut flags, 1, true), 12);
    assert!(!get_flag(flags, 2));
}

#[test]
fn sub_of_equal_values_sets_zero() {
    let mut flags: u8 = 0;
    assert_eq!(alu::sub(7, 7, &mut flags, true), 0);
    assert!(get_flag(flags, 0));
    assert!(!get_flag(flags, 2));
}

#[test]
fn sbb_subtracts_borrow() {
    let mut flags: u8 = 0;
    assert_eq!(alu::sbb(10, 3, &mut flags, true, true), 6);
    assert!(!get_flag(flags, 2));
    let mut flags2: u8 = 0;
    assert_eq!(alu::sbb(10, 3, &mut flags2, false, true), 7);
}

#[test]
fn multiplications() {
    assert_eq!(alu::mul(300, 300), (300 * 300) & 0xFFFF);
    assert_eq!(alu::mulh(300, 300), (300 * 300) >> 16);
    // -2 * 3 = -6 = 0xFFFFFFFA; upper half 0xFFFF
    assert_eq!(alu::muls(0xFFFE, 3), 0xFFFF);
    // 0x8000 * 0x8000 (signed) = 0x40000000; upper half 0x4000
    assert_eq!(alu::muls(0x8000, 0x8000), 0x4000);
    // 2 * sign-extended 0xFFFF (= 0xFFFFFFFF) wraps to 0xFFFFFFFE; upper half 0xFFFF
    assert_eq!(alu::mulx(2, 0xFFFF), 0xFFFF);
    assert_eq!(alu::mulx(0x100, 0x100), 1);
}

#[test]
fn shifts_use_low_four_bits_of_position() {
    let mut flags: u8 = 0;
    assert_eq!(alu::shl(1, 17, &mut flags, true), 2);
    assert_eq!(alu::shl(0x8000, 1, &mut flags, true), 0);
    assert!(get_flag(flags, 0));
    assert_eq!(alu::shr(0x1_8000, 15, &mut flags, true), 1);
    assert_eq!(alu::shl(0x4000, 1, &mut flags, true), 0x8000);
    assert!(get_flag(flags, 1));
}

#[test]
fn logic_ops_clear_carry() {
    let mut flags: u8 = 0b0100;
    assert_eq!(alu::and(0b1100, 0b1010, &mut flags, true), 0b1000);
    assert!(!get_flag(flags, 2));
    let mut flags: u8 = 0b0100;
    assert_eq!(alu::or(0b1100, 0b1010, &mut flags, true), 0b1110);
    assert!(!get_flag(flags, 2));
    let mut flags: u8 = 0b0100;
    assert_eq!(alu::xor(0b1100, 0b1100, &mut flags, true), 0);
    assert!(get_flag(flags, 0));
    assert!(!get_flag(flags, 2));
}

#[test]
fn conditions_and_their_negations() {
    let zero: u8 = 0b0001;
    let carry: u8 = 0b0100;
    assert!(eval_condition(0, 0));
    assert!(!eval_condition(0, 8));
    assert!(eval_condition(zero, 5));
    assert!(!eval_condition(zero, 13));
    assert!(eval_condition(carry, 1));
    assert!(eval_condition(carry, 7));
    assert!(!eval_condition(carry, 15));
    // less: sign != overflow
    assert!(eval_condition(0b0010, 2));
    assert!(!eval_condition(0b1010, 2));
    for flags in 0u8..16 {
        for index in 8usize..16 {
            assert_eq!(eval_condition(flags, index), !eval_condition(flags, index - 8));
        }
    }
}
