use r3emu::alu;
use r3emu::alu::get_flag;

#[test]
fn test_add_basic() {
    let mut flags: u8 = 0;
    let result = alu::add(1, 1, &mut flags, true);
    assert_eq!(result, 2);
    assert!(!get_flag(flags, 0)); // zf
    assert!(!get_flag(flags, 1)); // sf
    assert!(!get_flag(flags, 2)); // cf
    assert!(!get_flag(flags, 3)); // of
}

#[test]
fn test_add_overflow_to_zero() {
    let mut flags: u8 = 0;
    let result = alu::add(0xFFFF, 1, &mut flags, true);
    assert_eq!(result, 0);
    assert!(get_flag(flags, 0)); // zf
    assert!(!get_flag(flags, 1)); // sf
    assert!(get_flag(flags, 2)); // cf
    assert!(!get_flag(flags, 3)); // of
}

#[test]
fn test_add_signed_overflow() {
    let mut flags: u8 = 0;
    // -32768 + (-1) in 16-bit signed = overflow
    let result = alu::add((-32768i32) as u32, (-1i32) as u32, &mut flags, true);
    assert_eq!(result, 0b0111111111111111);
    assert!(!get_flag(flags, 0)); // zf
    assert!(!get_flag(flags, 1)); // sf
    assert!(get_flag(flags, 2)); // cf
    assert!(get_flag(flags, 3)); // of
}

#[test]
fn test_sub_basic() {
    let mut flags: u8 = 0;
    let result = alu::sub(3, 1, &mut flags, true);
    assert_eq!(result, 2);
    assert!(!get_flag(flags, 0)); // zf
    assert!(!get_flag(flags, 1)); // sf
    assert!(!get_flag(flags, 2)); // cf
    assert!(!get_flag(flags, 3)); // of
}

#[test]
fn test_add_twos_complement() {
    let mut flags: u8 = 0;
    // add(2, (~1)+1) = add(2, 0xFFFFFFFF)
    let result = alu::add(2, (!1u32).wrapping_add(1), &mut flags, true);
    assert_eq!(result, 1);
    assert!(!get_flag(flags, 0)); // zf
    assert!(!get_flag(flags, 1)); // sf
    assert!(get_flag(flags, 2)); // cf
    assert!(!get_flag(flags, 3)); // of
}

#[test]
fn test_add_twos_complement_negative() {
    let mut flags: u8 = 0;
    // add(2, (~4)+1) = add(2, 0xFFFFFFFC)
    let result = alu::add(2, (!4u32).wrapping_add(1), &mut flags, true);
    assert_eq!(result, 65534);
    assert!(!get_flag(flags, 0)); // zf
    assert!(get_flag(flags, 1)); // sf
    assert!(!get_flag(flags, 2)); // cf
    assert!(!get_flag(flags, 3)); // of
}

#[test]
fn test_add_wrap_around() {
    let mut flags: u8 = 0;
    let result = alu::add(1, 65535, &mut flags, true);
    assert_eq!(result, 0);
    assert!(get_flag(flags, 0)); // zf
    assert!(!get_flag(flags, 1)); // sf
    assert!(get_flag(flags, 2)); // cf
    assert!(!get_flag(flags, 3)); // of
}

#[test]
fn test_sub_borrow() {
    let mut flags: u8 = 0;
    let result = alu::sub(1, 4, &mut flags, true);
    assert_eq!(result, 0b1111111111111101);
    assert!(!get_flag(flags, 0)); // zf
    assert!(get_flag(flags, 1)); // sf
    assert!(get_flag(flags, 2)); // cf (borrow)
    assert!(!get_flag(flags, 3)); // of
}

#[test]
fn test_shl_basic() {
    let mut flags: u8 = 0;
    let result = alu::shl(1, 1, &mut flags, true);
    assert_eq!(result, 2);
    assert!(!get_flag(flags, 0)); // zf
    assert!(!get_flag(flags, 1)); // sf
}

#[test]
fn test_shl_larger() {
    let mut flags: u8 = 0;
    let result = alu::shl(0x5, 2, &mut flags, true);
    assert_eq!(result, 20);
    assert!(!get_flag(flags, 0)); // zf
    assert!(!get_flag(flags, 1)); // sf
}

#[test]
fn test_shr_basic() {
    let mut flags: u8 = 0;
    let result = alu::shr(6, 2, &mut flags, true);
    assert_eq!(result, 1);
    assert!(!get_flag(flags, 0)); // zf
    assert!(!get_flag(flags, 1)); // sf
}
