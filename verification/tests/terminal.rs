use r3emu::terminal::Terminal;

// Glyph of 'A' (first rows): 0x0C, 0x1E, 0x33
const A_ROW0: u8 = 0x0C;
const A_ROW1: u8 = 0x1E;

fn pixel(t: &Terminal, x: usize, y: usize) -> u8 {
    t.pixbuf[x + y * t.pixel_width() as usize]
}

#[test]
fn new_terminal_is_blank() {
    let t = Terminal::new(12, 8);
    assert_eq!(t.pixel_width(), 96);
    assert_eq!(t.pixel_height(), 64);
    assert_eq!(t.pixbuf.len(), 96 * 64);
    assert!(t.pixbuf.iter().all(|&p| p == 0));
    assert_eq!(t.nlchar, b'\n');
}

#[test]
fn set_char_draws_the_glyph() {
    let mut t = Terminal::new(4, 4);
    t.set_char(7, 1, b'A', 1, 2);
    for x in 0..8usize {
        let lit0 = (A_ROW0 >> x) & 1 != 0;
        let lit1 = (A_ROW1 >> x) & 1 != 0;
        assert_eq!(pixel(&t, 8 + x, 16), if lit0 { 7 } else { 1 });
        assert_eq!(pixel(&t, 8 + x, 17), if lit1 { 7 } else { 1 });
    }
    assert_eq!(pixel(&t, 0, 0), 0);
    assert_eq!(pixel(&t, 16, 16), 0);
}

#[test]
fn codes_above_127_draw_glyph_zero() {
    let mut t = Terminal::new(2, 2);
    t.set_char(9, 3, 200, 0, 0);
    assert_eq!(pixel(&t, 0, 0), 3);
    assert_eq!(pixel(&t, 7, 7), 3);
}

#[test]
fn plot_pixel_uses_offset_as_color() {
    let mut t = Terminal::new(2, 2);
    t.plot_pixel((5 << 8) | 6, 0x1B);
    assert_eq!(pixel(&t, 6, 5), 0xB);
}

#[test]
fn scroll_print_writes_and_advances() {
    let mut t = Terminal::new(12, 8);
    t.hrange = 11 << 5;
    t.vrange = 7 << 5;
    t.cursor = 0;
    // print-character mode, row-major, colors from data (fore 15, back 2)
    t.scroll_print(b'A' as u32 | (15 << 8) | (2 << 13), 0b111);
    assert_eq!(t.cursor, 1);
    assert_eq!(pixel(&t, 2, 0), 15);
    assert_eq!(pixel(&t, 0, 0), 2);
    // at the end of the line the cursor moves to the next line
    t.cursor = 11;
    t.scroll_print(b'A' as u32 | (15 << 8), 0b111);
    assert_eq!(t.cursor, 12 + (0 << 5));
    t.cursor = 12;
    t.scroll_print(b'A' as u32 | (15 << 8), 0b111);
    assert_eq!(t.cursor, 1 + (1 << 5));
}

#[test]
fn newline_moves_to_next_line() {
    let mut t = Terminal::new(12, 8);
    t.hrange = 11 << 5;
    t.vrange = 7 << 5;
    t.cursor = 3;
    t.scroll_print(b'\n' as u32, 0b100101);
    assert_eq!(t.cursor, 1 << 5);
    assert!(t.pixbuf.iter().all(|&p| p == 0));
}

#[test]
fn printing_past_the_last_line_scrolls() {
    let mut t = Terminal::new(2, 2);
    t.hrange = 1 << 5;
    t.vrange = 1 << 5;
    // draw 'A' on line 1, then print past the end of the window
    t.set_char(5, 0, b'A', 0, 1);
    t.cursor = 1 << 5 | 2;
    t.scroll_print(b'A' as u32 | (6 << 8), 0b10111);
    // line 1 moved up to line 0
    assert_eq!(pixel(&t, 2, 0), 5);
    // the new character went to the start of line 1
    assert_eq!(pixel(&t, 2, 8), 6);
    assert_eq!(t.cursor, 1 | (1 << 5));
}

#[test]
fn scroll_only_mode_fills_last_line() {
    let mut t = Terminal::new(2, 2);
    t.hrange = 1 << 5;
    t.vrange = 1 << 5;
    t.set_char(5, 0, b'A', 1, 1);
    t.scroll_print(200 | (4 << 8) | (1 << 13), 0b110);
    assert_eq!(pixel(&t, 8 + 2, 0), 5);
    assert_eq!(pixel(&t, 8 + 2, 8), 1);
}
