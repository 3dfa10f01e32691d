use r3emu::memview::calc_mem_color;

#[test]
fn empty_word_is_dim_red() {
    // only the forced bit 29 counts: red 1, scale 312, capped at 255
    assert_eq!(calc_mem_color(0), [127, 0, 0]);
}

#[test]
fn busy_word_colors() {
    // all bits set: red 12, green 12, blue 12; scale 624 / 37 = 16; 12 * 16 = 192
    let c = 127 * 192 / 255;
    assert_eq!(calc_mem_color(0xFFFF_FFFF), [c as u8, c as u8, c as u8]);
    // bits 0..11: blue 12, green 3 (bits 9..11), red 1 (bit 29); scale 624 / 17 = 36
    assert_eq!(
        calc_mem_color(0xFFF),
        [(127 * 36 / 255) as u8, (127 * 108 / 255) as u8, (127 * 255 / 255) as u8]
    );
}
