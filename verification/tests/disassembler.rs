use r3emu::disassembler::disassemble;

fn encode(moi: u32, soii: u32, dest: u32, psrc: u32, loi: u32, ssrc: u32) -> u32 {
    (moi << 31) | (soii << 30) | (dest << 25) | (psrc << 20) | (loi << 16) | ssrc
}

#[test]
fn arithmetic_forms() {
    assert_eq!(disassemble(encode(0, 1, 2, 1, 6, 7)), "adds r2, r1, 7");
    assert_eq!(disassemble(encode(1, 1, 2, 1, 6, 7)), "add r2, r1, 7");
    assert_eq!(disassemble(encode(1, 0, 31, 10, 4, 3)), "sub r31, r3, r10");
    assert_eq!(disassemble(encode(0, 1, 1, 2, 5, 123)), "sbbs r1, 123, r2");
    assert_eq!(disassemble(encode(1, 1, 1, 2, 7, 0)), "adc r1, r2, 0");
    assert_eq!(disassemble(encode(1, 1, 1, 2, 8, 1)), "xor r1, r2, 1");
    assert_eq!(disassemble(encode(0, 1, 1, 2, 9, 1)), "ors r1, r2, 1");
    assert_eq!(disassemble(encode(1, 1, 1, 2, 12, 65535)), "and r1, r2, 65535");
}

#[test]
fn shifts_multiplies_and_memory() {
    assert_eq!(disassemble(encode(1, 1, 1, 2, 11, 3)), "shl r1, r2, 3");
    assert_eq!(disassemble(encode(1, 1, 1, 2, 11, 0x8003)), "shr r1, r2, 32771");
    assert_eq!(disassemble(encode(0, 1, 1, 2, 11, 0x8003)), "shrs r1, r2, 32771");
    assert_eq!(disassemble(encode(0, 0, 1, 2, 14, 3)), "mul r1, r2, r3");
    assert_eq!(disassemble(encode(1, 0, 1, 2, 14, 3)), "muls r1, r2, r3");
    assert_eq!(disassemble(encode(0, 0, 1, 2, 15, 3)), "mulh r1, r2, r3");
    assert_eq!(disassemble(encode(1, 0, 1, 2, 15, 3)), "mulx r1, r2, r3");
    assert_eq!(disassemble(encode(0, 1, 4, 5, 2, 10)), "ld r4, r5, 10");
    assert_eq!(disassemble(encode(0, 1, 4, 5, 10, 10)), "st r4, r5, 10");
    assert_eq!(disassemble(encode(0, 1, 4, 5, 3, 10)), "exh r4, r5, 10");
    assert_eq!(disassemble(encode(0, 1, 4, 5, 0, 10)), "mov r4, r5, 10");
    assert_eq!(disassemble(encode(1, 1, 4, 5, 0, 10)), "movf r4, r5, 10");
    assert_eq!(disassemble(encode(0, 1, 0, 0, 13, 0)), "hlt");
}

#[test]
fn jumps() {
    assert_eq!(disassemble(encode(0, 1, 0, 0, 1, 5)), "jy r0, 5");
    assert_eq!(disassemble(encode(0, 1, 0, 16, 1, 5)), "jmp r0, 5");
    assert_eq!(disassemble(encode(0, 1, 3, 16 + 5, 1, 9)), "jz r3, 9");
    assert_eq!(disassemble(encode(0, 1, 3, 13, 1, 9)), "jynz r3, 9");
    assert_eq!(disassemble(encode(0, 0, 3, 16 + 9, 1, 7)), "jnbe r3, r7");
}

#[test]
fn data_words() {
    let w = encode(0, 0, 1, 2, 6, 40);
    assert_eq!(disassemble(w), format!("dw {}", w));
    assert_eq!(disassemble(0), "mov r0, r0, r0");
}
