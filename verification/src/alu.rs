use vstd::prelude::*;

verus! {

// ---------------------------------------------------------------------------
// Mathematical model of the ALU
// ---------------------------------------------------------------------------

/// The value of a word after the bus/ALU "patch": words whose lower 30 bits
/// are all zero read as zero.
pub open spec fn patched(w: u32) -> u32 {
    if w % 0x4000_0000 == 0 { 0 } else { w }
}

/// The lower 16 bits of a word (the ALU word width).
pub open spec fn low16(w: u32) -> u32 {
    (w % 0x1_0000) as u32
}

/// An operand as the 16-bit ALU sees it: patched, then cut to 16 bits.
pub open spec fn operand16(w: u32) -> int {
    (patched(w) % 0x1_0000) as int
}

/// Whether a 16-bit value has its sign bit (bit 15) set.
pub open spec fn negative16(x: int) -> bool {
    x >= 0x8000
}

/// A 16-bit value read as two's complement.
pub open spec fn signed16(x: int) -> int {
    if x >= 0x8000 { x - 0x1_0000 } else { x }
}

/// Bit `index` of the flags byte.
pub open spec fn flag_bit(flags: u8, index: u8) -> bool {
    (flags >> index) & 1 != 0
}

/// The flags byte with bit `index` set to `state`, all other bits kept.
pub open spec fn with_flag(flags: u8, index: u8, state: bool) -> u8 {
    if state {
        flags | (1u8 << index)
    } else {
        flags & !(1u8 << index)
    }
}

/// The flags after a result: zero and sign bits from the 16-bit result.
pub open spec fn with_zero_sign(flags: u8, out: u32) -> u8 {
    with_flag(with_flag(flags, 0, out == 0), 1, negative16(low16(out) as int))
}

/// The unbounded sum computed by an addition with carry-in.
pub open spec fn add_sum(a: u32, b: u32, carry_in: u8) -> int {
    operand16(a) + operand16(b) + carry_in
}

/// The 16-bit result of an addition with carry-in.
pub open spec fn add_result(a: u32, b: u32, carry_in: u8) -> u32 {
    (add_sum(a, b, carry_in) % 0x1_0000) as u32
}

/// Whether an addition carries out of bit 15.
pub open spec fn add_carry(a: u32, b: u32, carry_in: u8) -> bool {
    add_sum(a, b, carry_in) > 0xFFFF
}

/// Whether an addition overflows as a signed 16-bit operation: both operands
/// have the same sign and the result has the other one.
pub open spec fn add_overflow(a: u32, b: u32, carry_in: u8) -> bool {
    let sa = negative16(operand16(a));
    let sb = negative16(operand16(b));
    let sr = negative16(add_result(a, b, carry_in) as int);
    sa == sb && sr != sa
}

/// The flags after an addition that updates them: zero, sign, carry, overflow.
pub open spec fn add_flags(flags: u8, a: u32, b: u32, carry_in: u8) -> u8 {
    let r = add_result(a, b, carry_in);
    with_flag(
        with_flag(
            with_flag(with_flag(flags, 0, r == 0), 1, negative16(r as int)),
            2,
            add_carry(a, b, carry_in),
        ),
        3,
        add_overflow(a, b, carry_in),
    )
}

/// The flags after a subtraction `a - b` done as `a + !b + carry_in`: as for
/// the addition, with the carry flag inverted (it then means "borrow").
pub open spec fn sub_flags(flags: u8, a: u32, b: u32, carry_in: u8) -> u8 {
    with_flag(add_flags(flags, a, !b, carry_in), 2, !add_carry(a, !b, carry_in))
}

/// The flags after a bitwise operation: carry cleared, zero and sign set.
pub open spec fn logic_flags(flags: u8, out: u32) -> u8 {
    with_zero_sign(with_flag(flags, 2, false), out)
}

/// The shift distance of a shift instruction: the low four bits.
pub open spec fn shift_amount(pos: u32) -> u32 {
    (patched(pos) % 16) as u32
}

pub open spec fn shl_result(target: u32, pos: u32) -> u32 {
    patched(low16(patched(target) << shift_amount(pos)))
}

pub open spec fn shr_result(target: u32, pos: u32) -> u32 {
    patched(low16(patched(target)) >> shift_amount(pos))
}

pub open spec fn mul_result(a: u32, b: u32) -> u32 {
    ((operand16(a) * operand16(b)) % 0x1_0000) as u32
}

pub open spec fn mulh_result(a: u32, b: u32) -> u32 {
    ((operand16(a) * operand16(b)) / 0x1_0000) as u32
}

/// Signed 16 x 16 multiplication; the upper half of the 32-bit product.
pub open spec fn muls_result(a: u32, b: u32) -> u32 {
    (((signed16(operand16(a)) * signed16(operand16(b))) % 0x1_0000_0000) / 0x1_0000) as u32
}

/// Unsigned `a` times sign-extended `b`, wrapping at 32 bits; the upper half.
pub open spec fn mulx_result(a: u32, b: u32) -> u32 {
    let bx = if negative16(operand16(b)) { operand16(b) + 0xFFFF_0000 } else { operand16(b) };
    (((operand16(a) * bx) % 0x1_0000_0000) / 0x1_0000) as u32
}

/// Whether jump condition `index` holds for the given flags. Conditions
/// 8..15 are the negations of conditions 0..7.
pub open spec fn condition_holds(flags: u8, index: int) -> bool {
    let cf = flag_bit(flags, 2);
    let zf = flag_bit(flags, 0);
    let sf = flag_bit(flags, 1);
    let of = flag_bit(flags, 3);
    let k = index % 8;
    let base = if k == 0 {
        true
    } else if k == 1 {
        cf || zf
    } else if k == 2 {
        sf != of
    } else if k == 3 {
        zf || (sf != of)
    } else if k == 4 {
        sf
    } else if k == 5 {
        zf
    } else if k == 6 {
        of
    } else {
        cf
    };
    if index < 8 { base } else { !base }
}

// ---------------------------------------------------------------------------
// Bit-level facts
// ---------------------------------------------------------------------------

proof fn lemma_low30_mask(w: u32)
    ensures
        (w & 0x3FFF_FFFF == 0) == (w % 0x4000_0000 == 0),
{
    assert((w & 0x3FFF_FFFF == 0) == (w % 0x4000_0000 == 0)) by (bit_vector);
}

proof fn lemma_low16_mask(w: u32)
    ensures
        w & 0xFFFF == w % 0x1_0000,
{
    assert(w & 0xFFFF == w % 0x1_0000) by (bit_vector);
}

proof fn lemma_sign_bit(x: u32)
    requires
        x < 0x1_0000,
    ensures
        ((x >> 15) != 0) == (x >= 0x8000),
        ((x >> 15) & 1) == (if x >= 0x8000 { 1u32 } else { 0u32 }),
{
    assert(x < 0x1_0000 ==> (((x >> 15) != 0) == (x >= 0x8000) && ((x >> 15) & 1) == (if x
        >= 0x8000 { 1u32 } else { 0u32 }))) by (bit_vector);
}

proof fn lemma_not_word(b: u32)
    ensures
        !b == 0xFFFF_FFFFu32 - b,
{
    assert(!b == 0xFFFF_FFFFu32 - b) by (bit_vector);
}

/// Setting a flag and then reading it gives back the state that was set;
/// every other flag keeps its value.
pub proof fn lemma_flag_set_get(flags: u8, index: u8, state: bool, other: u8)
    requires
        index < 8,
        other < 8,
    ensures
        flag_bit(with_flag(flags, index, state), index) == state,
        other != index ==> flag_bit(with_flag(flags, index, state), other) == flag_bit(
            flags,
            other,
        ),
{
    assert(index < 8 && other < 8 ==> (((flags | (1u8 << index)) >> index) & 1 != 0) && (((flags
        & !(1u8 << index)) >> index) & 1 == 0) && (other != index ==> (((flags | (1u8 << index))
        >> other) & 1 == (flags >> other) & 1) && (((flags & !(1u8 << index)) >> other) & 1 == (
    flags >> other) & 1))) by (bit_vector);
}

// ---------------------------------------------------------------------------
// Executable ALU
// ---------------------------------------------------------------------------

/// Patch special word values to zero.
/// Values 0x00000000, 0x40000000, 0x80000000, 0xC0000000 all map to 0.
/// These are exactly the values with lower 30 bits all zero.
pub fn patch_word(w: u32) -> (r: u32)
    ensures
        r == patched(w),
{
    proof {
        lemma_low30_mask(w);
    }
    if w & 0x3FFF_FFFF == 0 {
        0
    } else {
        w
    }
}

/// Mask a word to the lower 16 bits (ALU word width).
pub fn alu_word_limit(w: u32) -> (r: u32)
    ensures
        r == low16(w),
{
    proof {
        lemma_low16_mask(w);
    }
    w & 0xFFFF
}

/// Read a single flag bit.
/// Index: 0=Zf, 1=Sf, 2=Cf, 3=Of.
pub fn get_flag(flags: u8, index: u8) -> (r: bool)
    requires
        index < 8,
    ensures
        r == flag_bit(flags, index),
{
    (flags >> index) & 1 != 0
}

/// Set a single flag bit.
pub fn set_flag(flags: &mut u8, index: u8, state: bool)
    requires
        index < 8,
    ensures
        *final(flags) == with_flag(*old(flags), index, state),
{
    if state {
        *flags = *flags | (1u8 << index);
    } else {
        *flags = *flags & !(1u8 << index);
    }
}

fn add_common(a: u32, b: u32, flags: &mut u8, carry_in: u8, update: bool) -> (r: u32)
    ensures
        r == add_result(a, b, carry_in),
        *final(flags) == if update {
            add_flags(*old(flags), a, b, carry_in)
        } else {
            *old(flags)
        },
{
    let a = alu_word_limit(patch_word(a));
    let b = alu_word_limit(patch_word(b));
    let out = a + b + carry_in as u32;
    let out = patch_word(out);
    let r = alu_word_limit(out);
    proof {
        lemma_sign_bit(a);
        lemma_sign_bit(b);
        lemma_sign_bit(r);
    }
    if update {
        set_flag(flags, 0, r == 0);  // zero
        set_flag(flags, 1, (r >> 15) != 0);  // sign
        set_flag(flags, 2, out > 0xFFFF);  // carry
        let a_sign = (a >> 15) & 1;
        let b_sign = (b >> 15) & 1;
        let out_sign = (r >> 15) & 1;
        set_flag(flags, 3, a_sign == b_sign && out_sign != a_sign);  // overflow
    }
    r
}

/// 16-bit addition.
pub fn add(a: u32, b: u32, flags: &mut u8, update: bool) -> (r: u32)
    ensures
        r == add_result(a, b, 0),
        *final(flags) == if update {
            add_flags(*old(flags), a, b, 0)
        } else {
            *old(flags)
        },
{
    add_common(a, b, flags, 0, update)
}

/// 16-bit addition with carry-in.
pub fn adc(a: u32, b: u32, flags: &mut u8, carry_in: u8, update: bool) -> (r: u32)
    ensures
        r == add_result(a, b, carry_in),
        *final(flags) == if update {
            add_flags(*old(flags), a, b, carry_in)
        } else {
            *old(flags)
        },
{
    add_common(a, b, flags, carry_in, update)
}

/// 16-bit subtraction `a - b`; the carry flag means "borrow".
pub fn sub(a: u32, b: u32, flags: &mut u8, update: bool) -> (r: u32)
    ensures
        r == add_result(a, !b, 1),
        *final(flags) == if update {
            sub_flags(*old(flags), a, b, 1)
        } else {
            *old(flags)
        },
{
    let out = add_common(a, !b, flags, 1, update);
    if update {
        let carry = get_flag(*flags, 2);
        proof {
            lemma_flag_set_get(
                with_flag(
                    with_flag(with_flag(*old(flags), 0, add_result(a, !b, 1) == 0), 1, negative16(add_result(a, !b, 1) as int)),
                    2,
                    add_carry(a, !b, 1),
                ),
                3,
                add_overflow(a, !b, 1),
                2,
            );
            lemma_flag_set_get(
                with_flag(with_flag(*old(flags), 0, add_result(a, !b, 1) == 0), 1, negative16(add_result(a, !b, 1) as int)),
                2,
                add_carry(a, !b, 1),
                2,
            );
        }
        set_flag(flags, 2, !carry);
    }
    out
}

/// 16-bit subtraction with borrow-in: `a - b - carry_in`.
pub fn sbb(a: u32, b: u32, flags: &mut u8, carry_in: bool, update: bool) -> (r: u32)
    ensures
        r == add_result(a, !b, if carry_in { 0 } else { 1 }),
        *final(flags) == if update {
            sub_flags(*old(flags), a, b, if carry_in { 0 } else { 1 })
        } else {
            *old(flags)
        },
{
    let cin: u8 = if carry_in { 0 } else { 1 };
    let out = add_common(a, !b, flags, cin, update);
    if update {
        let carry = get_flag(*flags, 2);
        proof {
            lemma_flag_set_get(
                with_flag(
                    with_flag(with_flag(*old(flags), 0, add_result(a, !b, cin) == 0), 1, negative16(add_result(a, !b, cin) as int)),
                    2,
                    add_carry(a, !b, cin),
                ),
                3,
                add_overflow(a, !b, cin),
                2,
            );
            lemma_flag_set_get(
                with_flag(with_flag(*old(flags), 0, add_result(a, !b, cin) == 0), 1, negative16(add_result(a, !b, cin) as int)),
                2,
                add_carry(a, !b, cin),
                2,
            );
        }
        set_flag(flags, 2, !carry);
    }
    out
}

/// Unsigned 16 x 16 multiplication; the lower half of the product.
pub fn mul(a: u32, b: u32) -> (r: u32)
    ensures
        r == mul_result(a, b),
{
    let a = alu_word_limit(patch_word(a));
    let b = alu_word_limit(patch_word(b));
    assert(a * b < 0x1_0000_0000) by (nonlinear_arith)
        requires
            a < 0x1_0000,
            b < 0x1_0000,
    ;
    (a * b) % 0x1_0000
}

/// Unsigned 16 x 16 multiplication; the upper half of the product.
pub fn mulh(a: u32, b: u32) -> (r: u32)
    ensures
        r == mulh_result(a, b),
{
    let a = alu_word_limit(patch_word(a));
    let b = alu_word_limit(patch_word(b));
    assert(a * b < 0x1_0000_0000) by (nonlinear_arith)
        requires
            a < 0x1_0000,
            b < 0x1_0000,
    ;
    (a * b) / 0x1_0000
}

/// Signed 16 x 16 multiplication; the upper half of the 32-bit product.
pub fn muls(a: u32, b: u32) -> (r: u32)
    ensures
        r == muls_result(a, b),
{
    let a = alu_word_limit(patch_word(a));
    let b = alu_word_limit(patch_word(b));
    let sa: i64 = if a >= 0x8000 { a as i64 - 0x1_0000 } else { a as i64 };
    let sb: i64 = if b >= 0x8000 { b as i64 - 0x1_0000 } else { b as i64 };
    assert(-0x4000_0000 <= sa * sb <= 0x4000_0000) by (nonlinear_arith)
        requires
            -0x8000 <= sa < 0x8000,
            -0x8000 <= sb < 0x8000,
    ;
    let p: i64 = sa * sb;
    let u: u64 = if p < 0 { (p + 0x1_0000_0000) as u64 } else { p as u64 };
    assert(u == p % 0x1_0000_0000);
    (u / 0x1_0000) as u32
}

/// Unsigned `a` times sign-extended `b`, wrapping at 32 bits; the upper half.
pub fn mulx(a: u32, b: u32) -> (r: u32)
    ensures
        r == mulx_result(a, b),
{
    let a = alu_word_limit(patch_word(a));
    let b = alu_word_limit(patch_word(b));
    let bx: u64 = if b >= 0x8000 { b as u64 + 0xFFFF_0000 } else { b as u64 };
    assert(a * bx < 0x1_0000_0000_0000) by (nonlinear_arith)
        requires
            a < 0x1_0000,
            bx < 0x1_0000_0000,
    ;
    let p: u64 = a as u64 * bx;
    ((p % 0x1_0000_0000) / 0x1_0000) as u32
}

/// Shift left. Result is masked to 16 bits per the ALU word width.
pub fn shl(target: u32, pos: u32, flags: &mut u8, update: bool) -> (r: u32)
    ensures
        r == shl_result(target, pos),
        *final(flags) == if update {
            with_zero_sign(*old(flags), r)
        } else {
            *old(flags)
        },
{
    let target = patch_word(target);
    let pos = patch_word(pos) % 16;
    let out = alu_word_limit(target << pos);
    let out = patch_word(out);
    if update {
        let w = alu_word_limit(out);
        proof {
            lemma_sign_bit(w);
        }
        set_flag(flags, 0, out == 0);
        set_flag(flags, 1, (w >> 15) != 0);
    }
    out
}

/// Shift right. Target is masked to 16 bits before shifting per ALU word width.
pub fn shr(target: u32, pos: u32, flags: &mut u8, update: bool) -> (r: u32)
    ensures
        r == shr_result(target, pos),
        *final(flags) == if update {
            with_zero_sign(*old(flags), r)
        } else {
            *old(flags)
        },
{
    let target = alu_word_limit(patch_word(target));
    let pos = patch_word(pos) % 16;
    let out = target >> pos;
    let out = patch_word(out);
    if update {
        let w = alu_word_limit(out);
        proof {
            lemma_sign_bit(w);
        }
        set_flag(flags, 0, out == 0);
        set_flag(flags, 1, (w >> 15) != 0);
    }
    out
}

/// Bitwise and of the patched operands.
pub fn and(a: u32, b: u32, flags: &mut u8, update: bool) -> (r: u32)
    ensures
        r == patched(patched(a) & patched(b)),
        *final(flags) == if update {
            logic_flags(*old(flags), r)
        } else {
            *old(flags)
        },
{
    let a = patch_word(a);
    let b = patch_word(b);
    let out = patch_word(a & b);
    if update {
        let w = alu_word_limit(out);
        proof {
            lemma_sign_bit(w);
        }
        set_flag(flags, 2, false);  // carry cleared
        set_flag(flags, 0, out == 0);
        set_flag(flags, 1, (w >> 15) != 0);
    }
    out
}

/// Bitwise or of the patched operands.
pub fn or(a: u32, b: u32, flags: &mut u8, update: bool) -> (r: u32)
    ensures
        r == patched(patched(a) | patched(b)),
        *final(flags) == if update {
            logic_flags(*old(flags), r)
        } else {
            *old(flags)
        },
{
    let a = patch_word(a);
    let b = patch_word(b);
    let out = patch_word(a | b);
    if update {
        let w = alu_word_limit(out);
        proof {
            lemma_sign_bit(w);
        }
        set_flag(flags, 2, false);
        set_flag(flags, 0, out == 0);
        set_flag(flags, 1, (w >> 15) != 0);
    }
    out
}

/// Bitwise exclusive or of the patched operands.
pub fn xor(a: u32, b: u32, flags: &mut u8, update: bool) -> (r: u32)
    ensures
        r == patched(patched(a) ^ patched(b)),
        *final(flags) == if update {
            logic_flags(*old(flags), r)
        } else {
            *old(flags)
        },
{
    let a = patch_word(a);
    let b = patch_word(b);
    let out = patch_word(a ^ b);
    if update {
        let w = alu_word_limit(out);
        proof {
            lemma_sign_bit(w);
        }
        set_flag(flags, 2, false);
        set_flag(flags, 0, out == 0);
        set_flag(flags, 1, (w >> 15) != 0);
    }
    out
}

/// Evaluate a single jump condition directly from flags.
pub fn eval_condition(flags: u8, index: usize) -> (r: bool)
    ensures
        r == condition_holds(flags, index as int),
{
    let cf = get_flag(flags, 2);
    let zf = get_flag(flags, 0);
    let sf = get_flag(flags, 1);
    let of = get_flag(flags, 3);

    let base = match index % 8 {
        0 => true,  // always
        1 => cf || zf,  // below/equal
        2 => sf != of,  // less
        3 => zf || (sf != of),  // less/equal
        4 => sf,  // sign
        5 => zf,  // zero
        6 => of,  // overflow
        _ => cf,  // carry
    };
    if index < 8 {
        base
    } else {
        !base
    }
}

// ---------------------------------------------------------------------------
// Laws
// ---------------------------------------------------------------------------

/// On 16-bit operands, addition is addition modulo 2^16, and the carry flag
/// is set exactly when the true sum does not fit in 16 bits.
pub proof fn lemma_add_is_wrapping_sum(a: u32, b: u32, flags: u8)
    requires
        a < 0x1_0000,
        b < 0x1_0000,
    ensures
        add_result(a, b, 0) == (a + b) % 0x1_0000,
        flag_bit(add_flags(flags, a, b, 0), 2) == (a + b > 0xFFFF),
        flag_bit(add_flags(flags, a, b, 0), 0) == ((a + b) % 0x1_0000 == 0),
{
    let r = add_result(a, b, 0);
    let f0 = with_flag(flags, 0, r == 0);
    let f1 = with_flag(f0, 1, negative16(r as int));
    let f2 = with_flag(f1, 2, add_carry(a, b, 0));
    lemma_flag_set_get(f2, 3, add_overflow(a, b, 0), 2);
    lemma_flag_set_get(f1, 2, add_carry(a, b, 0), 2);
    lemma_flag_set_get(f2, 3, add_overflow(a, b, 0), 0);
    lemma_flag_set_get(f1, 2, add_carry(a, b, 0), 0);
    lemma_flag_set_get(f0, 1, negative16(r as int), 0);
    lemma_flag_set_get(flags, 0, r == 0, 0);
}

/// On 16-bit operands, subtraction is subtraction modulo 2^16; the carry
/// flag then means "borrow" (set exactly when `a < b`) and the zero flag is
/// set exactly when `a == b`.
pub proof fn lemma_sub_is_wrapping_difference(a: u32, b: u32, flags: u8)
    requires
        a < 0x1_0000,
        b < 0x1_0000,
    ensures
        add_result(a, !b, 1) == (a - b) % 0x1_0000,
        flag_bit(sub_flags(flags, a, b, 1), 2) == (a < b),
        flag_bit(sub_flags(flags, a, b, 1), 0) == (a == b),
{
    lemma_not_word(b);
    assert(operand16(!b) == 0xFFFF - b);
    let r = add_result(a, !b, 1);
    let f0 = with_flag(flags, 0, r == 0);
    let f1 = with_flag(f0, 1, negative16(r as int));
    let f2 = with_flag(f1, 2, add_carry(a, !b, 1));
    let f3 = with_flag(f2, 3, add_overflow(a, !b, 1));
    lemma_flag_set_get(f3, 2, !add_carry(a, !b, 1), 2);
    lemma_flag_set_get(f3, 2, !add_carry(a, !b, 1), 0);
    lemma_flag_set_get(f2, 3, add_overflow(a, !b, 1), 0);
    lemma_flag_set_get(f1, 2, add_carry(a, !b, 1), 0);
    lemma_flag_set_get(f0, 1, negative16(r as int), 0);
    lemma_flag_set_get(flags, 0, r == 0, 0);
}

/// Reading back the four flags written by an arithmetic operation.
proof fn lemma_four_flags(flags: u8, z: bool, s: bool, c: bool, o: bool)
    ensures
        flag_bit(with_flag(with_flag(with_flag(with_flag(flags, 0, z), 1, s), 2, c), 3, o), 0)
            == z,
        flag_bit(with_flag(with_flag(with_flag(with_flag(flags, 0, z), 1, s), 2, c), 3, o), 1)
            == s,
        flag_bit(with_flag(with_flag(with_flag(with_flag(flags, 0, z), 1, s), 2, c), 3, o), 2)
            == c,
        flag_bit(with_flag(with_flag(with_flag(with_flag(flags, 0, z), 1, s), 2, c), 3, o), 3)
            == o,
{
    let f0 = with_flag(flags, 0, z);
    let f1 = with_flag(f0, 1, s);
    let f2 = with_flag(f1, 2, c);
    let f3 = with_flag(f2, 3, o);
    lemma_flag_set_get(flags, 0, z, 0);
    lemma_flag_set_get(f0, 1, s, 0);
    lemma_flag_set_get(f0, 1, s, 1);
    lemma_flag_set_get(f1, 2, c, 0);
    lemma_flag_set_get(f1, 2, c, 1);
    lemma_flag_set_get(f1, 2, c, 2);
    lemma_flag_set_get(f2, 3, o, 0);
    lemma_flag_set_get(f2, 3, o, 1);
    lemma_flag_set_get(f2, 3, o, 2);
    lemma_flag_set_get(f2, 3, o, 3);
}

/// Addition with a carry-in of 0 or 1 on 16-bit operands: the result is the
/// sum modulo 2^16; zero and sign describe the result; carry is set exactly
/// when the unsigned sum exceeds 16 bits; overflow is set exactly when the
/// sum of the operands read as signed 16-bit numbers leaves -32768..32767.
pub proof fn lemma_addition_flags(a: u32, b: u32, carry_in: u8, flags: u8)
    requires
        a < 0x1_0000,
        b < 0x1_0000,
        carry_in <= 1,
    ensures
        add_result(a, b, carry_in) == (a + b + carry_in) % 0x1_0000,
        flag_bit(add_flags(flags, a, b, carry_in), 0) == ((a + b + carry_in) % 0x1_0000 == 0),
        flag_bit(add_flags(flags, a, b, carry_in), 1) == ((a + b + carry_in) % 0x1_0000 >= 0x8000),
        flag_bit(add_flags(flags, a, b, carry_in), 2) == (a + b + carry_in >= 0x1_0000),
        flag_bit(add_flags(flags, a, b, carry_in), 3) == !(-0x8000 <= signed16(a as int)
            + signed16(b as int) + carry_in <= 0x7FFF),
{
    let r = add_result(a, b, carry_in);
    lemma_four_flags(
        flags,
        r == 0,
        negative16(r as int),
        add_carry(a, b, carry_in),
        add_overflow(a, b, carry_in),
    );
}

/// Subtraction `a - b`, for any words: the result is the 16-bit operand of
/// `a` minus the low 16 bits of `b`, modulo 2^16; the carry flag is the
/// borrow (set exactly when the first is smaller); zero is set exactly when
/// they are equal; sign describes the result; overflow is set exactly when
/// the difference of the two read as signed 16-bit numbers leaves
/// -32768..32767.
pub proof fn lemma_subtraction(a: u32, b: u32, flags: u8)
    ensures
        add_result(a, !b, 1) == (operand16(a) - b % 0x1_0000) % 0x1_0000,
        flag_bit(sub_flags(flags, a, b, 1), 2) == (operand16(a) < b % 0x1_0000),
        flag_bit(sub_flags(flags, a, b, 1), 0) == (operand16(a) == b % 0x1_0000),
        flag_bit(sub_flags(flags, a, b, 1), 1) == ((operand16(a) - b % 0x1_0000) % 0x1_0000
            >= 0x8000),
        flag_bit(sub_flags(flags, a, b, 1), 3) == !(-0x8000 <= signed16(operand16(a))
            - signed16((b % 0x1_0000) as int) <= 0x7FFF),
{
    lemma_not_word(b);
    assert(operand16(!b) == 0xFFFF - b % 0x1_0000);
    let r = add_result(a, !b, 1);
    let f3 = add_flags(flags, a, !b, 1);
    lemma_four_flags(
        flags,
        r == 0,
        negative16(r as int),
        add_carry(a, !b, 1),
        add_overflow(a, !b, 1),
    );
    lemma_flag_set_get(f3, 2, !add_carry(a, !b, 1), 0);
    lemma_flag_set_get(f3, 2, !add_carry(a, !b, 1), 1);
    lemma_flag_set_get(f3, 2, !add_carry(a, !b, 1), 2);
    lemma_flag_set_get(f3, 2, !add_carry(a, !b, 1), 3);
}

/// On 16-bit operands the low and the high multiplication results are the
/// two halves of the unsigned 32-bit product.
pub proof fn lemma_unsigned_product_halves(a: u32, b: u32)
    requires
        a < 0x1_0000,
        b < 0x1_0000,
    ensures
        mul_result(a, b) < 0x1_0000,
        mulh_result(a, b) < 0x1_0000,
        mul_result(a, b) + 0x1_0000 * mulh_result(a, b) == a * b,
{
    let p = a * b;
    assert(0 <= p < 0x1_0000_0000) by (nonlinear_arith)
        requires
            a < 0x1_0000,
            b < 0x1_0000,
            p == a * b,
    ;
    assert(operand16(a) == a);
    assert(operand16(b) == b);
}

proof fn lemma_mod_shift(p: int, q: int, k: int)
    requires
        q == p + 0x1_0000 * k,
    ensures
        q % 0x1_0000_0000 % 0x1_0000 == p % 0x1_0000,
{
    let m = q % 0x1_0000_0000;
    vstd::arithmetic::div_mod::lemma_fundamental_div_mod(q, 0x1_0000_0000);
    let j = q / 0x1_0000_0000;
    assert(m == p + 0x1_0000 * (k - 0x1_0000 * j));
    vstd::arithmetic::div_mod::lemma_mod_multiples_vanish(k - 0x1_0000 * j, p, 0x1_0000);
    assert(0x1_0000 * (k - 0x1_0000 * j) + p == m);
}

/// Signed multiplication: the low result and the signed high result are the
/// two halves of the signed product, taken modulo 2^32.
pub proof fn lemma_signed_product_halves(a: u32, b: u32)
    requires
        a < 0x1_0000,
        b < 0x1_0000,
    ensures
        muls_result(a, b) < 0x1_0000,
        mul_result(a, b) + 0x1_0000 * muls_result(a, b) == (signed16(a as int) * signed16(
            b as int,
        )) % 0x1_0000_0000,
{
    assert(operand16(a) == a);
    assert(operand16(b) == b);
    let sa = signed16(a as int);
    let sb = signed16(b as int);
    let ka: int = if a >= 0x8000 { 1 } else { 0 };
    let kb: int = if b >= 0x8000 { 1 } else { 0 };
    let q = sa * sb;
    let p = a * b;
    let k = ka * kb * 0x1_0000 - ka * b - kb * a;
    assert(q == p + 0x1_0000 * k) by (nonlinear_arith)
        requires
            sa == a - 0x1_0000 * ka,
            sb == b - 0x1_0000 * kb,
            q == sa * sb,
            p == a * b,
            k == ka * kb * 0x1_0000 - ka * b - kb * a,
    ;
    assert(0 <= p < 0x1_0000_0000) by (nonlinear_arith)
        requires
            a < 0x1_0000,
            b < 0x1_0000,
            p == a * b,
    ;
    lemma_mod_shift(p, q, k);
    let m = q % 0x1_0000_0000;
    vstd::arithmetic::div_mod::lemma_fundamental_div_mod(m, 0x1_0000);
}

/// Mixed multiplication: the low result and the `mulx` result are the two
/// halves of the unsigned `a` times the signed `b`, taken modulo 2^32.
pub proof fn lemma_mixed_product_halves(a: u32, b: u32)
    requires
        a < 0x1_0000,
        b < 0x1_0000,
    ensures
        mulx_result(a, b) < 0x1_0000,
        mul_result(a, b) + 0x1_0000 * mulx_result(a, b) == (a * signed16(b as int))
            % 0x1_0000_0000,
{
    assert(operand16(a) == a);
    assert(operand16(b) == b);
    let sb = signed16(b as int);
    let kb: int = if b >= 0x8000 { 1 } else { 0 };
    let bx = if b >= 0x8000 { b + 0xFFFF_0000 } else { b as int };
    let q = a * sb;
    let p = a * b;
    let k = -kb * a;
    assert(q == p + 0x1_0000 * k) by (nonlinear_arith)
        requires
            sb == b - 0x1_0000 * kb,
            q == a * sb,
            p == a * b,
            k == -kb * a,
    ;
    assert(a * bx == q + 0x1_0000_0000 * kb * a) by (nonlinear_arith)
        requires
            bx == sb + 0x1_0000_0000 * kb,
            q == a * sb,
    ;
    assert((a * bx) % 0x1_0000_0000 == q % 0x1_0000_0000) by {
        vstd::arithmetic::div_mod::lemma_mod_multiples_vanish(kb * a, q, 0x1_0000_0000);
        assert(0x1_0000_0000 * (kb * a) == 0x1_0000_0000 * kb * a) by (nonlinear_arith);
    }
    assert(0 <= p < 0x1_0000_0000) by (nonlinear_arith)
        requires
            a < 0x1_0000,
            b < 0x1_0000,
            p == a * b,
    ;
    lemma_mod_shift(p, q, k);
    let m = q % 0x1_0000_0000;
    vstd::arithmetic::div_mod::lemma_fundamental_div_mod(m, 0x1_0000);
}

proof fn lemma_shl_low16(x: u32, k: u32)
    requires
        k < 16,
    ensures
        (x << k) % 0x1_0000 == ((x % 0x1_0000) << k) % 0x1_0000,
{
    assert(k < 16 ==> (x << k) % 0x1_0000 == ((x % 0x1_0000) << k) % 0x1_0000) by (bit_vector);
}

/// Shifts, in arithmetic terms: with k the low four bits of the (patched)
/// position, a left shift multiplies the 16-bit target by 2^k modulo 2^16
/// and a right shift divides it by 2^k (both results patched).
pub proof fn lemma_shifts_are_arithmetic(target: u32, pos: u32)
    ensures
        shl_result(target, pos) == patched(
            (((patched(target) % 0x1_0000) * vstd::arithmetic::power2::pow2(
                (patched(pos) % 16) as nat,
            )) % 0x1_0000) as u32,
        ),
        shr_result(target, pos) == patched(
            (((patched(target) % 0x1_0000) as nat) / vstd::arithmetic::power2::pow2(
                (patched(pos) % 16) as nat,
            )) as u32,
        ),
{
    let x = patched(target);
    let k = (patched(pos) % 16) as u32;
    let x16 = (x % 0x1_0000) as u32;
    let e = vstd::arithmetic::power2::pow2(k as nat);
    vstd::arithmetic::power2::lemma_pow2_pos(k as nat);
    vstd::arithmetic::power2::lemma_pow2_strictly_increases(k as nat, 16);
    vstd::arithmetic::power2::lemma2_to64();
    assert(x16 * e <= 0xFFFF * 0x1_0000) by (nonlinear_arith)
        requires
            x16 <= 0xFFFF,
            e <= 0x1_0000,
    ;
    vstd::bits::lemma_u32_shl_is_mul(x16, k);
    lemma_shl_low16(x, k);
    vstd::bits::lemma_u32_shr_is_div(x16, k);
}


/// The patch zeroes exactly the four words 0x00000000, 0x40000000,
/// 0x80000000 and 0xC0000000 and keeps every other word.
pub proof fn lemma_patch_values(w: u32)
    ensures
        (patched(w) == 0) == (w == 0 || w == 0x4000_0000 || w == 0x8000_0000 || w
            == 0xC000_0000),
        patched(w) != 0 ==> patched(w) == w,
{
}

/// The ALU word limit keeps the low 16 bits: what it removes is a multiple
/// of 2^16.
pub proof fn lemma_word_limit(w: u32)
    ensures
        low16(w) < 0x1_0000,
        low16(w) + 0x1_0000 * (w / 0x1_0000) == w,
{
}

proof fn lemma_bitwise_identities(x: u32, y: u32)
    ensures
        (x & y) + (x | y) == x + y,
        (x ^ y) + (x & y) == (x | y),
        x & y <= x,
        x | y >= x,
{
    assert((x & y) + (x | y) == x + y && (x ^ y) + (x & y) == (x | y) && x & y <= x && x | y
        >= x) by (bit_vector);
}

/// The bitwise operations on operands below 2^30 (where the patch keeps
/// everything but zero): `and` and `or` together add up to the two
/// operands, `and` is below and `or` above each operand, and `xor` is `or`
/// minus `and`.
pub proof fn lemma_bitwise_results(a: u32, b: u32)
    requires
        a < 0x4000_0000,
        b < 0x4000_0000,
    ensures
        patched(patched(a) & patched(b)) + patched(patched(a) | patched(b)) == a + b,
        patched(patched(a) & patched(b)) <= a,
        patched(patched(a) & patched(b)) <= b,
        patched(patched(a) | patched(b)) >= a,
        patched(patched(a) ^ patched(b)) + patched(patched(a) & patched(b)) == patched(
            patched(a) | patched(b),
        ),
{
    lemma_bitwise_identities(a, b);
    lemma_bitwise_identities(b, a);
    assert(a | b < 0x4000_0000) by (bit_vector)
        requires
            a < 0x4000_0000,
            b < 0x4000_0000,
    ;
    assert(b & a == a & b && b | a == a | b) by (bit_vector);
}

/// After a bitwise operation that updates the flags, carry is clear, zero is
/// set exactly when the result is 0 and sign is bit 15 of the result.
pub proof fn lemma_logic_flags(flags: u8, out: u32)
    ensures
        !flag_bit(logic_flags(flags, out), 2),
        flag_bit(logic_flags(flags, out), 0) == (out == 0),
        flag_bit(logic_flags(flags, out), 1) == (out % 0x1_0000 >= 0x8000),
{
    let f0 = with_flag(flags, 2, false);
    let f1 = with_flag(f0, 0, out == 0);
    lemma_flag_set_get(flags, 2, false, 2);
    lemma_flag_set_get(f0, 0, out == 0, 2);
    lemma_flag_set_get(f0, 0, out == 0, 0);
    lemma_flag_set_get(f1, 1, negative16(low16(out) as int), 2);
    lemma_flag_set_get(f1, 1, negative16(low16(out) as int), 0);
    lemma_flag_set_get(f1, 1, negative16(low16(out) as int), 1);
}


/// Subtraction with borrow-in (`carry_in` 1 means no borrow, 0 means
/// borrow): the 16-bit operand of `a` minus the low 16 bits of `b`, minus
/// the borrow, modulo 2^16.
pub proof fn lemma_subtraction_with_borrow(a: u32, b: u32, carry_in: u8)
    requires
        carry_in <= 1,
    ensures
        add_result(a, !b, carry_in) == (operand16(a) - b % 0x1_0000 - (1 - carry_in))
            % 0x1_0000,
{
    lemma_not_word(b);
    assert(operand16(!b) == 0xFFFF - b % 0x1_0000);
}

proof fn lemma_move_words(a: u32, x: u32)
    requires
        x < 0x1_0000,
    ensures
        (a & 0xFFFF_0000) | (x & 0xFFFF) == (a / 0x1_0000) * 0x1_0000 + x,
        (a << 16) | (x >> 16) == (a % 0x1_0000) * 0x1_0000,
{
    assert(x < 0x1_0000 ==> (a & 0xFFFF_0000) | (x & 0xFFFF) == (a / 0x1_0000) * 0x1_0000 + x
        && (a << 16) | (x >> 16) == (a % 0x1_0000) * 0x1_0000) by (bit_vector);
}

/// `mov` keeps the upper half of the primary source and puts the 16-bit
/// second source in the lower half; `exh` moves the lower half of the
/// primary source to the upper half (the lower half becomes 0).
pub proof fn lemma_move_halves(a: u32, x: u32)
    requires
        x < 0x1_0000,
    ensures
        (a & 0xFFFF_0000) | (x & 0xFFFF) == (a / 0x1_0000) * 0x1_0000 + x,
        (a << 16) | (x >> 16) == (a % 0x1_0000) * 0x1_0000,
{
    lemma_move_words(a, x);
}

/// Jump conditions 8..15 are the negations of conditions 0..7.
pub proof fn lemma_condition_negation(flags: u8, index: int)
    requires
        8 <= index < 16,
    ensures
        condition_holds(flags, index) == !condition_holds(flags, index - 8),
{
}

} // verus!
