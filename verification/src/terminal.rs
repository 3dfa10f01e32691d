use vstd::prelude::*;
use crate::font::{glyph_row, font_row};

verus! {

/// 16-color palette (CGA-style ordering).
pub const COLOR_TABLE: [[u8; 3]; 16] = [
    [0x00, 0x00, 0x00],  // 0  black
    [0x00, 0x00, 0xAA],  // 1  dark blue
    [0x00, 0xAA, 0x00],  // 2  dark green
    [0x00, 0xAA, 0xAA],  // 3  dark cyan
    [0xAA, 0x00, 0x00],  // 4  dark red
    [0xAA, 0x00, 0xAA],  // 5  dark magenta
    [0xAA, 0xAA, 0x00],  // 6  dark yellow
    [0xAA, 0xAA, 0xAA],  // 7  light grey
    [0x55, 0x55, 0x55],  // 8  dark grey
    [0x55, 0x55, 0xFF],  // 9  light blue
    [0x55, 0xFF, 0x55],  // 10 light green
    [0x55, 0xFF, 0xFF],  // 11 light cyan
    [0xFF, 0x55, 0x55],  // 12 light red
    [0xFF, 0x55, 0xFF],  // 13 light magenta
    [0xFF, 0xFF, 0x55],  // 14 light yellow
    [0xFF, 0xFF, 0xFF],  // 15 white
];

// ---------------------------------------------------------------------------
// Pixel-buffer model. A buffer is row-major with `stride` pixels per row;
// pixel (x, y) lives at index x + y * stride when that index is in range.
// ---------------------------------------------------------------------------

/// The buffer after writing color `c` at pixel (x, y); writes that fall
/// outside the buffer are dropped.
pub open spec fn put_pixel(buf: Seq<u8>, stride: int, x: int, y: int, c: u8) -> Seq<u8> {
    let i = x + y * stride;
    if 0 <= i < buf.len() {
        buf.update(i, c)
    } else {
        buf
    }
}

/// The color at pixel (x, y); pixels outside the buffer read as 0.
pub open spec fn pixel_at(buf: Seq<u8>, stride: int, x: int, y: int) -> u8 {
    let i = x + y * stride;
    if 0 <= i < buf.len() {
        buf[i]
    } else {
        0
    }
}

/// Where buffer index `i` lies inside the 8x8 character cell (col, row):
/// its (dx, dy) offset in the cell, or None when it is outside the cell.
pub open spec fn cell_offset(i: int, col: int, row: int, stride: int) -> Option<(int, int)> {
    let d = i - (8 * col + 8 * row * stride);
    if stride >= 8 && d >= 0 && d % stride < 8 && d / stride < 8 {
        Some((d % stride, d / stride))
    } else {
        None
    }
}

/// The glyph drawn for a character code: codes above 127 draw glyph 0.
pub open spec fn glyph_index(charindex: u8) -> int {
    if charindex > 127 {
        0
    } else {
        charindex as int
    }
}

/// Whether pixel (dx, dy) of the glyph for `charindex` is lit.
pub open spec fn glyph_lit(charindex: u8, dx: int, dy: int) -> bool {
    (glyph_row(glyph_index(charindex), dy) >> (dx as u8)) & 1 != 0
}

/// The color of pixel (dx, dy) of a character cell.
pub open spec fn glyph_color(fcolor: u8, bcolor: u8, charindex: u8, dx: int, dy: int) -> u8 {
    if glyph_lit(charindex, dx, dy) {
        fcolor
    } else {
        bcolor
    }
}

/// The buffer with the first `k` pixels (row-major within the cell) of the
/// character cell (col, row) drawn.
pub open spec fn draw_char_upto(
    buf: Seq<u8>,
    stride: int,
    fcolor: u8,
    bcolor: u8,
    charindex: u8,
    col: int,
    row: int,
    k: int,
) -> Seq<u8> {
    Seq::new(
        buf.len(),
        |i: int|
            match cell_offset(i, col, row, stride) {
                Some((dx, dy)) => if dy * 8 + dx < k {
                    glyph_color(fcolor, bcolor, charindex, dx, dy)
                } else {
                    buf[i]
                },
                None => buf[i],
            },
    )
}

/// The buffer with the character `charindex` drawn in cell (col, row):
/// every pixel of the cell that lies in the buffer gets the foreground
/// color where the glyph is lit and the background color elsewhere.
pub open spec fn draw_char(
    buf: Seq<u8>,
    stride: int,
    fcolor: u8,
    bcolor: u8,
    charindex: u8,
    col: int,
    row: int,
) -> Seq<u8> {
    draw_char_upto(buf, stride, fcolor, bcolor, charindex, col, row, 64)
}

/// The color read from source index `s` (0 beyond the buffer).
pub open spec fn source_pixel(buf: Seq<u8>, s: int) -> u8 {
    if s < buf.len() {
        buf[s]
    } else {
        0
    }
}

/// The buffer with the first `k` pixels of cell (col, row) copied from
/// the cell below it.
pub open spec fn copy_cell_up_upto(buf: Seq<u8>, stride: int, col: int, row: int, k: int) -> Seq<
    u8,
> {
    Seq::new(
        buf.len(),
        |i: int|
            match cell_offset(i, col, row, stride) {
                Some((dx, dy)) => if dy * 8 + dx < k {
                    source_pixel(buf, i + 8 * stride)
                } else {
                    buf[i]
                },
                None => buf[i],
            },
    )
}

/// The buffer with cell (col, row) replaced by a copy of cell (col, row + 1)
/// (pixels of that cell beyond the buffer copy as 0).
pub open spec fn copy_cell_up(buf: Seq<u8>, stride: int, col: int, row: int) -> Seq<u8> {
    copy_cell_up_upto(buf, stride, col, row, 64)
}

/// Copies cells (col, row + 1) up to (col, row) for col in from..to, in order.
pub open spec fn copy_row_up(buf: Seq<u8>, stride: int, row: int, from: int, to: int) -> Seq<u8>
    decreases to - from,
{
    if to <= from {
        buf
    } else {
        copy_cell_up(copy_row_up(buf, stride, row, from, to - 1), stride, to - 1, row)
    }
}

/// Moves rows from_row+1 ..= to_row up by one character row, row by row
/// from the top, for the columns from_col..to_col.
pub open spec fn copy_rows_up(
    buf: Seq<u8>,
    stride: int,
    from_row: int,
    to_row: int,
    from_col: int,
    to_col: int,
) -> Seq<u8>
    decreases to_row - from_row,
{
    if to_row <= from_row {
        buf
    } else {
        copy_row_up(
            copy_rows_up(buf, stride, from_row, to_row - 1, from_col, to_col),
            stride,
            to_row - 1,
            from_col,
            to_col,
        )
    }
}

/// Draws the character in the cells (col, row) for col in from..to, in order.
pub open spec fn fill_row(
    buf: Seq<u8>,
    stride: int,
    fcolor: u8,
    bcolor: u8,
    charindex: u8,
    row: int,
    from: int,
    to: int,
) -> Seq<u8>
    decreases to - from,
{
    if to <= from {
        buf
    } else {
        draw_char(
            fill_row(buf, stride, fcolor, bcolor, charindex, row, from, to - 1),
            stride,
            fcolor,
            bcolor,
            charindex,
            to - 1,
            row,
        )
    }
}

/// The control bits of a scroll-print write, taken from the address offset.
pub struct PrintMode {
    /// Treat the terminal's newline character as a line break.
    pub newline_aware: bool,
    /// Scroll (rather than wrap to the top) when the cursor leaves the window.
    pub scroll: bool,
    /// Print along rows (the column is the primary coordinate).
    pub row_major: bool,
    /// Take the colors from the written value rather than the color register.
    pub colors_from_data: bool,
    /// Print a character (otherwise: scroll and fill the last line).
    pub print_char: bool,
}

pub open spec fn print_mode(offset: u16) -> PrintMode {
    PrintMode {
        newline_aware: (offset / 32) % 2 == 1,
        scroll: (offset / 16) % 2 == 1,
        row_major: (offset / 4) % 2 == 1,
        colors_from_data: (offset / 2) % 2 == 1,
        print_char: offset % 2 == 1,
    }
}

/// The terminal after a write of `val` to scroll-print offset `offset`.
///
/// The cursor holds a column (bits 0..4) and a row (bits 5..9); the range
/// registers hold a start (bits 0..4) and an end (bits 5..9) coordinate.
/// In row-major mode the column is the primary coordinate, moving along the
/// horizontal range, and the row the secondary one; otherwise the roles are
/// swapped. A character is drawn at the cursor, which then advances along the
/// primary coordinate; past the primary end it moves to the next secondary
/// line, and past the secondary end the window either scrolls up one line
/// (the last line filled with the newline character) or wraps to its start.
/// Without the print-character bit, the window scrolls up and its last line
/// is filled with the written character.
pub open spec fn scroll_print_result(t: TerminalState, val: u32, offset: u16) -> TerminalState {
    let m = print_mode(offset);
    let column = (t.cursor % 32) as int;
    let row = ((t.cursor / 32) % 32) as int;
    let prange = if m.row_major { t.hrange } else { t.vrange };
    let srange = if m.row_major { t.vrange } else { t.hrange };
    let pend = ((prange / 32) % 32) as int;
    let pstart = (prange % 32) as int;
    let send = ((srange / 32) % 32) as int;
    let sstart = (srange % 32) as int;
    let fore: u8 = if !m.colors_from_data { t.colors % 16 } else { ((val / 256) % 16) as u8 };
    let back: u8 = if !m.colors_from_data {
        (t.colors / 16) % 16
    } else {
        ((val / 8192) % 16) as u8
    };
    let ch = (val % 256) as u8;
    let newline = m.newline_aware && ch == t.nlchar;
    let p0 = if newline { pend + 1 } else if m.row_major { column } else { row };
    let s0 = if m.row_major { row } else { column };
    let stride = t.stride();
    if m.print_char {
        let p1 = if p0 > pend { 0 } else { p0 };
        let s1 = if p0 > pend { s0 + 1 } else { s0 };
        let scrolls = s1 > send && m.scroll;
        let buf1 = if scrolls {
            fill_row(
                copy_rows_up(t.pixbuf, stride, sstart, send + 1, pstart, pend + 1),
                stride,
                fore,
                back,
                t.nlchar,
                send,
                pstart,
                pend + 1,
            )
        } else {
            t.pixbuf
        };
        let s2 = if s1 > send {
            if m.scroll { s1 - 1 } else { sstart }
        } else {
            s1
        };
        let buf2 = if newline {
            buf1
        } else if m.row_major {
            draw_char(buf1, stride, fore, back, ch, p1, s2)
        } else {
            draw_char(buf1, stride, fore, back, ch, s2, p1)
        };
        let p2 = if newline { p1 } else { p1 + 1 };
        let cursor = if m.row_major { p2 + s2 * 32 } else { s2 + p2 * 32 };
        TerminalState { pixbuf: buf2, cursor: cursor as u16, ..t }
    } else {
        let buf = fill_row(
            copy_rows_up(t.pixbuf, stride, sstart, send, pstart, pend + 1),
            stride,
            fore,
            back,
            ch,
            send,
            pstart,
            pend + 1,
        );
        let cursor = if m.row_major { p0 + s0 * 32 } else { s0 + p0 * 32 };
        TerminalState { pixbuf: buf, cursor: cursor as u16, ..t }
    }
}


/// (The colors come from bits 8..11 and 13..16 of the value with the
/// colors-from-data bit, else from the low and high nibble of the color
/// register.)
/// Printing a character when the cursor is past the end of its line and on
/// (or past) the last line of the window: without the scroll bit the cursor
/// wraps to the first line of the window (the range start), the character
/// is drawn in the first cell of that line and the cursor moves one cell on;
/// with the scroll bit the window scrolls, the character goes to the first
/// cell of the cursor's line and the cursor stays on that line.
pub proof fn lemma_print_past_window_end(t: TerminalState, val: u32, offset: u16)
    requires
        offset % 2 == 1,
        (offset / 32) % 2 == 0,
    ensures
        ({
            let row_major = (offset / 4) % 2 == 1;
            let scroll = (offset / 16) % 2 == 1;
            let col = t.cursor % 32;
            let row = (t.cursor / 32) % 32;
            let p = if row_major { col } else { row };
            let sec = if row_major { row } else { col };
            let prange = if row_major { t.hrange } else { t.vrange };
            let srange = if row_major { t.vrange } else { t.hrange };
            let line = if scroll { sec as int } else { (srange % 32) as int };
            let r = scroll_print_result(t, val, offset);
            let from_data = (offset / 2) % 2 == 1;
            let fore: u8 = if from_data { ((val / 256) % 16) as u8 } else { t.colors % 16 };
            let back: u8 = if from_data { ((val / 8192) % 16) as u8 } else { (t.colors / 16) % 16 };
            let ch = (val % 256) as u8;
            (p > (prange / 32) % 32 && sec >= (srange / 32) % 32) ==> {
                &&& r.cursor == if row_major { 1 + line * 32 } else { line + 32 }
                &&& !scroll ==> r.pixbuf == draw_char(
                    t.pixbuf,
                    t.stride(),
                    fore,
                    back,
                    ch,
                    if row_major { 0 } else { line },
                    if row_major { line } else { 0 },
                )
            }
        }),
{
}

/// Printing a character inside the window moves the cursor one cell along
/// the line and draws the character in the cell the cursor was on.
pub proof fn lemma_print_advances(t: TerminalState, val: u32, offset: u16)
    requires
        offset % 2 == 1,
        (offset / 32) % 2 == 0,
    ensures
        ({
            let row_major = (offset / 4) % 2 == 1;
            let col = t.cursor % 32;
            let row = (t.cursor / 32) % 32;
            let p = if row_major { col } else { row };
            let sec = if row_major { row } else { col };
            let prange = if row_major { t.hrange } else { t.vrange };
            let srange = if row_major { t.vrange } else { t.hrange };
            let r = scroll_print_result(t, val, offset);
            let from_data = (offset / 2) % 2 == 1;
            let fore: u8 = if from_data { ((val / 256) % 16) as u8 } else { t.colors % 16 };
            let back: u8 = if from_data { ((val / 8192) % 16) as u8 } else { (t.colors / 16) % 16 };
            (p <= (prange / 32) % 32 && sec <= (srange / 32) % 32) ==> {
                &&& r.cursor == if row_major { col + 1 + row * 32 } else { col + (row + 1) * 32 }
                &&& r.pixbuf == draw_char(
                    t.pixbuf,
                    t.stride(),
                    fore,
                    back,
                    (val % 256) as u8,
                    col as int,
                    row as int,
                )
            }
        }),
{
}


/// With the newline bit set, writing the newline character draws nothing and
/// moves the cursor to the start of the next line of the window.
pub proof fn lemma_newline(t: TerminalState, val: u32, offset: u16)
    requires
        offset % 2 == 1,
        (offset / 32) % 2 == 1,
        (val % 256) as u8 == t.nlchar,
    ensures
        ({
            let row_major = (offset / 4) % 2 == 1;
            let col = t.cursor % 32;
            let row = (t.cursor / 32) % 32;
            let sec = if row_major { row } else { col };
            let srange = if row_major { t.vrange } else { t.hrange };
            let r = scroll_print_result(t, val, offset);
            sec < (srange / 32) % 32 ==> {
                &&& r.cursor == if row_major { (sec + 1) * 32 } else { sec + 1 }
                &&& r.pixbuf == t.pixbuf
            }
        }),
{
}

// ---------------------------------------------------------------------------
// Cell geometry
// ---------------------------------------------------------------------------

proof fn lemma_cell_offset_of(stride: int, col: int, row: int, dx: int, dy: int)
    requires
        stride >= 8,
        0 <= dx < 8,
        0 <= dy,
    ensures
        cell_offset(8 * col + 8 * row * stride + dx + dy * stride, col, row, stride) == if dy < 8 {
            Some((dx, dy))
        } else {
            None::<(int, int)>
        },
{
    let d = dx + dy * stride;
    vstd::arithmetic::div_mod::lemma_fundamental_div_mod_converse(d, stride, dy, dx);
    assert(d >= 0) by (nonlinear_arith)
        requires
            dx >= 0,
            dy >= 0,
            stride >= 8,
            d == dx + dy * stride,
    ;
}

proof fn lemma_cell_offset_inverse(i: int, stride: int, col: int, row: int)
    requires
        cell_offset(i, col, row, stride) is Some,
    ensures
        ({
            let (dx, dy) = cell_offset(i, col, row, stride)->0;
            &&& 0 <= dx < 8
            &&& 0 <= dy < 8
            &&& i == 8 * col + 8 * row * stride + dx + dy * stride
        }),
{
    let d = i - (8 * col + 8 * row * stride);
    vstd::arithmetic::div_mod::lemma_fundamental_div_mod(d, stride);
    assert(stride * (d / stride) == (d / stride) * stride) by (nonlinear_arith);
}

/// The index of pixel (8col + dx, 8row + dy) in a buffer of the given stride.
proof fn lemma_cell_pixel_index(stride: int, col: int, row: int, dx: int, dy: int)
    ensures
        (8 * col + dx) + (8 * row + dy) * stride == 8 * col + 8 * row * stride + dx + dy * stride,
{
    assert((8 * row + dy) * stride == 8 * row * stride + dy * stride) by (nonlinear_arith);
}

/// Drawing one more pixel of a character cell.
proof fn lemma_draw_char_step(
    buf: Seq<u8>,
    stride: int,
    fcolor: u8,
    bcolor: u8,
    charindex: u8,
    col: int,
    row: int,
    dx: int,
    dy: int,
)
    requires
        stride >= 8 || buf.len() == 0,
        col >= 0,
        row >= 0,
        stride >= 0,
        0 <= dx < 8,
        0 <= dy < 8,
    ensures
        draw_char_upto(buf, stride, fcolor, bcolor, charindex, col, row, dy * 8 + dx + 1)
            == put_pixel(
            draw_char_upto(buf, stride, fcolor, bcolor, charindex, col, row, dy * 8 + dx),
            stride,
            8 * col + dx,
            8 * row + dy,
            glyph_color(fcolor, bcolor, charindex, dx, dy),
        ),
{
    let k = dy * 8 + dx;
    let prev = draw_char_upto(buf, stride, fcolor, bcolor, charindex, col, row, k);
    let next = draw_char_upto(buf, stride, fcolor, bcolor, charindex, col, row, k + 1);
    let c = glyph_color(fcolor, bcolor, charindex, dx, dy);
    let idx = (8 * col + dx) + (8 * row + dy) * stride;
    let after = put_pixel(prev, stride, 8 * col + dx, 8 * row + dy, c);
    if buf.len() > 0 {
        lemma_cell_pixel_index(stride, col, row, dx, dy);
        lemma_cell_offset_of(stride, col, row, dx, dy);
        assert(idx >= 0) by (nonlinear_arith)
            requires
                idx == (8 * col + dx) + (8 * row + dy) * stride,
                col >= 0,
                row >= 0,
                dx >= 0,
                dy >= 0,
                stride >= 0,
        ;
        assert forall|i: int| 0 <= i < buf.len() implies next[i] == after[i] by {
            if cell_offset(i, col, row, stride) is Some {
                lemma_cell_offset_inverse(i, stride, col, row);
            }
        }
    }
    assert(next =~= after);
}

/// Copying one more pixel of a character cell from the cell below.
proof fn lemma_copy_cell_step(buf: Seq<u8>, stride: int, col: int, row: int, dx: int, dy: int)
    requires
        stride >= 8 || buf.len() == 0,
        col >= 0,
        row >= 0,
        stride >= 0,
        0 <= dx < 8,
        0 <= dy < 8,
    ensures
        copy_cell_up_upto(buf, stride, col, row, dy * 8 + dx + 1) == put_pixel(
            copy_cell_up_upto(buf, stride, col, row, dy * 8 + dx),
            stride,
            8 * col + dx,
            8 * row + dy,
            pixel_at(
                copy_cell_up_upto(buf, stride, col, row, dy * 8 + dx),
                stride,
                8 * col + dx,
                8 * (row + 1) + dy,
            ),
        ),
{
    let k = dy * 8 + dx;
    let prev = copy_cell_up_upto(buf, stride, col, row, k);
    let next = copy_cell_up_upto(buf, stride, col, row, k + 1);
    let idx = (8 * col + dx) + (8 * row + dy) * stride;
    let src = (8 * col + dx) + (8 * (row + 1) + dy) * stride;
    let c = pixel_at(prev, stride, 8 * col + dx, 8 * (row + 1) + dy);
    let after = put_pixel(prev, stride, 8 * col + dx, 8 * row + dy, c);
    if buf.len() > 0 {
        lemma_cell_pixel_index(stride, col, row, dx, dy);
        lemma_cell_offset_of(stride, col, row, dx, dy);
        assert(src == idx + 8 * stride) by (nonlinear_arith)
            requires
                idx == (8 * col + dx) + (8 * row + dy) * stride,
                src == (8 * col + dx) + (8 * (row + 1) + dy) * stride,
        ;
        lemma_cell_pixel_index(stride, col, row, dx, dy + 8);
        lemma_cell_offset_of(stride, col, row, dx, dy + 8);
        assert(8 * col + 8 * row * stride + dx + (dy + 8) * stride == idx + 8 * stride)
            by (nonlinear_arith)
            requires
                idx == 8 * col + 8 * row * stride + dx + dy * stride,
        ;
        assert(idx >= 0) by (nonlinear_arith)
            requires
                idx == (8 * col + dx) + (8 * row + dy) * stride,
                col >= 0,
                row >= 0,
                dx >= 0,
                dy >= 0,
                stride >= 0,
        ;
        assert(c == source_pixel(buf, idx + 8 * stride));
        assert forall|i: int| 0 <= i < buf.len() implies next[i] == after[i] by {
            if cell_offset(i, col, row, stride) is Some {
                lemma_cell_offset_inverse(i, stride, col, row);
            }
        }
    }
    assert(next =~= after);
}


/// The buffer index of pixel (8*col + dx, 8*row + dy).
pub open spec fn cell_pixel_index(col: int, row: int, stride: int, dx: int, dy: int) -> int {
    (8 * col + dx) + (8 * row + dy) * stride
}

/// Drawing a character in cell (col, row) of a buffer `stride` pixels wide:
/// the pixel (8*col + dx, 8*row + dy), for dx, dy in 0..8, gets the
/// foreground color where bit dx of row dy of the glyph is set and the
/// background color elsewhere (codes above 127 use glyph 0); every pixel
/// outside the cell keeps its color.
pub proof fn lemma_draw_char_pixels(
    buf: Seq<u8>,
    stride: int,
    fcolor: u8,
    bcolor: u8,
    charindex: u8,
    col: int,
    row: int,
)
    requires
        stride >= 8,
        col >= 0,
        row >= 0,
    ensures
        forall|dx: int, dy: int|
            0 <= dx < 8 && 0 <= dy < 8 && #[trigger] cell_pixel_index(col, row, stride, dx, dy)
                < buf.len() ==> draw_char(buf, stride, fcolor, bcolor, charindex, col, row)[cell_pixel_index(
                col,
                row,
                stride,
                dx,
                dy,
            )] == if (glyph_row(if charindex > 127 { 0 } else { charindex as int }, dy) >> (
            dx as u8)) & 1 != 0 {
                fcolor
            } else {
                bcolor
            },
        forall|i: int|
            0 <= i < buf.len() && (forall|dx: int, dy: int|
                0 <= dx < 8 && 0 <= dy < 8 ==> i != #[trigger] cell_pixel_index(col, row, stride, dx, dy))
                ==> #[trigger] draw_char(buf, stride, fcolor, bcolor, charindex, col, row)[i]
                == buf[i],
{
    assert forall|dx: int, dy: int|
        0 <= dx < 8 && 0 <= dy < 8 && #[trigger] cell_pixel_index(col, row, stride, dx, dy)
            < buf.len() implies draw_char(buf, stride, fcolor, bcolor, charindex, col, row)[cell_pixel_index(
        col,
        row,
        stride,
        dx,
        dy,
    )] == if (glyph_row(if charindex > 127 { 0 } else { charindex as int }, dy) >> (dx as u8)) & 1
        != 0 {
        fcolor
    } else {
        bcolor
    } by {
        lemma_cell_pixel_index(stride, col, row, dx, dy);
        lemma_cell_offset_of(stride, col, row, dx, dy);
        assert((8 * col + dx) + (8 * row + dy) * stride >= 0) by (nonlinear_arith)
            requires
                col >= 0,
                row >= 0,
                dx >= 0,
                dy >= 0,
                stride >= 0,
        ;
    }
    assert forall|i: int|
        0 <= i < buf.len() && (forall|dx: int, dy: int|
            0 <= dx < 8 && 0 <= dy < 8 ==> i != #[trigger] cell_pixel_index(
                col,
                row,
                stride,
                dx,
                dy,
            )) implies #[trigger] draw_char(buf, stride, fcolor, bcolor, charindex, col, row)[i]
        == buf[i] by {
        if cell_offset(i, col, row, stride) is Some {
            lemma_cell_offset_inverse(i, stride, col, row);
            let (dx, dy) = cell_offset(i, col, row, stride)->0;
            lemma_cell_pixel_index(stride, col, row, dx, dy);
            assert(i == cell_pixel_index(col, row, stride, dx, dy));
        }
    }
}


/// Copying a cell up: pixel (8*col + dx, 8*row + dy) of cell (col, row)
/// gets the color of the same pixel of the cell below, (8*col + dx,
/// 8*(row + 1) + dy) (0 when that lies beyond the buffer); every pixel
/// outside the cell keeps its color.
pub proof fn lemma_copy_cell_up_pixels(buf: Seq<u8>, stride: int, col: int, row: int)
    requires
        stride >= 8,
        col >= 0,
        row >= 0,
    ensures
        forall|dx: int, dy: int|
            0 <= dx < 8 && 0 <= dy < 8 && #[trigger] cell_pixel_index(col, row, stride, dx, dy)
                < buf.len() ==> copy_cell_up(buf, stride, col, row)[cell_pixel_index(
                col,
                row,
                stride,
                dx,
                dy,
            )] == if cell_pixel_index(col, row + 1, stride, dx, dy) < buf.len() {
                buf[cell_pixel_index(col, row + 1, stride, dx, dy)]
            } else {
                0
            },
        forall|i: int|
            0 <= i < buf.len() && (forall|dx: int, dy: int|
                0 <= dx < 8 && 0 <= dy < 8 ==> i != #[trigger] cell_pixel_index(col, row, stride, dx, dy))
                ==> #[trigger] copy_cell_up(buf, stride, col, row)[i] == buf[i],
{
    assert forall|dx: int, dy: int|
        0 <= dx < 8 && 0 <= dy < 8 && #[trigger] cell_pixel_index(col, row, stride, dx, dy)
            < buf.len() implies copy_cell_up(buf, stride, col, row)[cell_pixel_index(
        col,
        row,
        stride,
        dx,
        dy,
    )] == if cell_pixel_index(col, row + 1, stride, dx, dy) < buf.len() {
        buf[cell_pixel_index(col, row + 1, stride, dx, dy)]
    } else {
        0
    } by {
        lemma_cell_pixel_index(stride, col, row, dx, dy);
        lemma_cell_offset_of(stride, col, row, dx, dy);
        assert(cell_pixel_index(col, row + 1, stride, dx, dy) == cell_pixel_index(
            col,
            row,
            stride,
            dx,
            dy,
        ) + 8 * stride) by (nonlinear_arith);
        assert((8 * col + dx) + (8 * row + dy) * stride >= 0) by (nonlinear_arith)
            requires
                col >= 0,
                row >= 0,
                dx >= 0,
                dy >= 0,
                stride >= 0,
        ;
    }
    assert forall|i: int|
        0 <= i < buf.len() && (forall|dx: int, dy: int|
            0 <= dx < 8 && 0 <= dy < 8 ==> i != #[trigger] cell_pixel_index(
                col,
                row,
                stride,
                dx,
                dy,
            )) implies #[trigger] copy_cell_up(buf, stride, col, row)[i] == buf[i] by {
        if cell_offset(i, col, row, stride) is Some {
            lemma_cell_offset_inverse(i, stride, col, row);
            let (dx, dy) = cell_offset(i, col, row, stride)->0;
            lemma_cell_pixel_index(stride, col, row, dx, dy);
            assert(i == cell_pixel_index(col, row, stride, dx, dy));
        }
    }
}

// ---------------------------------------------------------------------------
// Terminal
// ---------------------------------------------------------------------------

/// The abstract state of the terminal.
pub struct TerminalState {
    pub charsnh: u8,
    pub charsnv: u8,
    pub pixbuf: Seq<u8>,
    pub colors: u8,
    pub hrange: u16,
    pub vrange: u16,
    pub cursor: u16,
    pub nlchar: u8,
    pub scrollmask: u32,
    pub char0even: u32,
    pub char0odd: u32,
}

impl TerminalState {
    /// Pixels per row of the pixel buffer.
    pub open spec fn stride(self) -> int {
        8 * self.charsnh
    }

    /// The buffer holds one pixel per position of the character grid.
    pub open spec fn wf(self) -> bool {
        self.pixbuf.len() == 64 * self.charsnh * self.charsnv
    }

    pub open spec fn with_pixels(self, pixbuf: Seq<u8>) -> TerminalState {
        TerminalState { pixbuf, ..self }
    }
}

/// A terminal of the given size with a blank screen, cursor and registers 0
/// and the newline character as line break.
pub open spec fn fresh_terminal(charsnh: u8, charsnv: u8) -> TerminalState {
    TerminalState {
        charsnh,
        charsnv,
        pixbuf: Seq::new((64 * charsnh * charsnv) as nat, |i: int| 0u8),
        colors: 0,
        hrange: 0,
        vrange: 0,
        cursor: 0,
        nlchar: 10,
        scrollmask: 0,
        char0even: 0,
        char0odd: 0,
    }
}

pub struct Terminal {
    pub charsnh: u8,
    pub charsnv: u8,
    /// Pixel buffer: one byte per pixel (color index), row-major.
    /// Size = (8 * charsnh) * (8 * charsnv).
    pub pixbuf: Vec<u8>,
    pub colors: u8,
    pub hrange: u16,
    pub vrange: u16,
    pub cursor: u16,
    pub nlchar: u8,
    pub scrollmask: u32,
    pub char0even: u32,
    pub char0odd: u32,
}

impl View for Terminal {
    type V = TerminalState;

    open spec fn view(&self) -> TerminalState {
        TerminalState {
            charsnh: self.charsnh,
            charsnv: self.charsnv,
            pixbuf: self.pixbuf@,
            colors: self.colors,
            hrange: self.hrange,
            vrange: self.vrange,
            cursor: self.cursor,
            nlchar: self.nlchar,
            scrollmask: self.scrollmask,
            char0even: self.char0even,
            char0odd: self.char0odd,
        }
    }
}

impl Terminal {
    pub fn new(charsnh: u8, charsnv: u8) -> (t: Self)
        ensures
            t@ == fresh_terminal(charsnh, charsnv),
            t@.wf(),
    {
        assert((8 * charsnh) * (8 * charsnv) <= 2040 * 2040) by (nonlinear_arith)
            requires
                charsnh <= 255,
                charsnv <= 255,
        ;
        let pix_count = (8 * charsnh as usize) * (8 * charsnv as usize);
        assert(pix_count == 64 * charsnh * charsnv) by (nonlinear_arith)
            requires
                pix_count == (8 * charsnh) * (8 * charsnv),
        ;
        let pixbuf = vec![0u8; pix_count];
        assert(pixbuf@ =~= Seq::new(pix_count as nat, |i: int| 0u8));
        Terminal {
            charsnh,
            charsnv,
            pixbuf,
            colors: 0,
            hrange: 0,
            vrange: 0,
            cursor: 0,
            nlchar: 10,
            scrollmask: 0,
            char0even: 0,
            char0odd: 0,
        }
    }

    pub fn pixel_width(&self) -> (w: u32)
        ensures
            w == 8 * self.charsnh,
    {
        8 * self.charsnh as u32
    }

    pub fn pixel_height(&self) -> (h: u32)
        ensures
            h == 8 * self.charsnv,
    {
        8 * self.charsnv as u32
    }

    fn set_pix(&mut self, x: u32, y: u32, color_index: u8)
        requires
            x < 0x1000,
            y < 0x1000,
        ensures
            final(self)@ == old(self)@.with_pixels(
                put_pixel(old(self)@.pixbuf, old(self)@.stride(), x as int, y as int, color_index),
            ),
    {
        let stride = 8 * self.charsnh as u32;
        assert(y * stride <= 0x1000 * 2040) by (nonlinear_arith)
            requires
                y < 0x1000,
                stride <= 2040,
        ;
        let idx = x + y * stride;
        if (idx as usize) < self.pixbuf.len() {
            self.pixbuf.set(idx as usize, color_index);
        }
    }

    fn get_pix(&self, x: u32, y: u32) -> (c: u8)
        requires
            x < 0x1000,
            y < 0x1000,
        ensures
            c == pixel_at(self@.pixbuf, self@.stride(), x as int, y as int),
    {
        let stride = 8 * self.charsnh as u32;
        assert(y * stride <= 0x1000 * 2040) by (nonlinear_arith)
            requires
                y < 0x1000,
                stride <= 2040,
        ;
        let idx = x + y * stride;
        if (idx as usize) < self.pixbuf.len() {
            self.pixbuf[idx as usize]
        } else {
            0
        }
    }

    /// Draws character `charindex` (codes above 127 draw glyph 0) in the
    /// character cell (column, row).
    pub fn set_char(&mut self, fcolor: u8, bcolor: u8, charindex: u8, column: u8, row: u8)
        requires
            old(self)@.wf(),
        ensures
            final(self)@ == old(self)@.with_pixels(
                draw_char(
                    old(self)@.pixbuf,
                    old(self)@.stride(),
                    fcolor,
                    bcolor,
                    charindex,
                    column as int,
                    row as int,
                ),
            ),
            final(self)@.wf(),
    {
        let ghost buf0 = self.pixbuf@;
        let ghost stride = self@.stride();
        proof {
            if self.charsnh == 0 {
                assert(64 * self.charsnh * self.charsnv == 0) by (nonlinear_arith)
                    requires
                        self.charsnh == 0,
                ;
            }
        }
        let ci = if charindex > 127 {
            0
        } else {
            charindex
        };
        proof {
            assert(draw_char_upto(buf0, stride, fcolor, bcolor, charindex, column as int, row as int, 0) =~= buf0);
            assert(old(self)@.with_pixels(buf0) =~= old(self)@);
        }
        let mut y: u8 = 0;
        while y < 8
            invariant
                y <= 8,
                stride == old(self)@.stride(),
                stride >= 8 || buf0.len() == 0,
                buf0 == old(self)@.pixbuf,
                ci as int == glyph_index(charindex),
                self@ == old(self)@.with_pixels(
                    draw_char_upto(buf0, stride, fcolor, bcolor, charindex, column as int, row as int, y * 8),
                ),
            decreases 8 - y,
        {
            let mut x: u8 = 0;
            while x < 8
                invariant
                    y < 8,
                    x <= 8,
                    stride == old(self)@.stride(),
                    stride >= 8 || buf0.len() == 0,
                    buf0 == old(self)@.pixbuf,
                    ci as int == glyph_index(charindex),
                    self@ == old(self)@.with_pixels(
                        draw_char_upto(
                            buf0,
                            stride,
                            fcolor,
                            bcolor,
                            charindex,
                            column as int,
                            row as int,
                            y * 8 + x,
                        ),
                    ),
                decreases 8 - x,
            {
                let lit = (font_row(ci, y) >> x) & 1 != 0;
                let color = if lit {
                    fcolor
                } else {
                    bcolor
                };
                proof {
                    lemma_draw_char_step(
                        buf0,
                        stride,
                        fcolor,
                        bcolor,
                        charindex,
                        column as int,
                        row as int,
                        x as int,
                        y as int,
                    );
                }
                self.set_pix(x as u32 + column as u32 * 8, y as u32 + row as u32 * 8, color);
                x = x + 1;
            }
            y = y + 1;
        }
    }

    /// Copies the character cell (sx, sy) into the cell (dx, dy); the cells
    /// are vertically adjacent, the source one row below the destination.
    fn copy_char_pix(&mut self, sx: u8, sy: u8, dx: u8, dy: u8)
        requires
            old(self)@.wf(),
            sx == dx,
            sy == dy + 1,
        ensures
            final(self)@ == old(self)@.with_pixels(
                copy_cell_up(old(self)@.pixbuf, old(self)@.stride(), dx as int, dy as int),
            ),
    {
        let ghost buf0 = self.pixbuf@;
        let ghost stride = self@.stride();
        proof {
            if self.charsnh == 0 {
                assert(64 * self.charsnh * self.charsnv == 0) by (nonlinear_arith)
                    requires
                        self.charsnh == 0,
                ;
            }
        }
        let sx = sx as u32 * 8;
        let sy = sy as u32 * 8;
        let dx = dx as u32 * 8;
        let dy = dy as u32 * 8;
        proof {
            assert(copy_cell_up_upto(buf0, stride, (dx / 8) as int, (dy / 8) as int, 0) =~= buf0);
            assert(old(self)@.with_pixels(buf0) =~= old(self)@);
        }
        let mut y: u32 = 0;
        while y < 8
            invariant
                y <= 8,
                dx % 8 == 0,
                dy % 8 == 0,
                stride == old(self)@.stride(),
                stride >= 8 || buf0.len() == 0,
                buf0 == old(self)@.pixbuf,
                sx == dx,
                sy == dy + 8,
                dy < 0x800,
                dx < 0x800,
                self@ == old(self)@.with_pixels(
                    copy_cell_up_upto(buf0, stride, (dx / 8) as int, (dy / 8) as int, y * 8),
                ),
            decreases 8 - y,
        {
            let mut x: u32 = 0;
            while x < 8
                invariant
                    y < 8,
                    x <= 8,
                    dx % 8 == 0,
                    dy % 8 == 0,
                    stride == old(self)@.stride(),
                    stride >= 8 || buf0.len() == 0,
                    buf0 == old(self)@.pixbuf,
                    sx == dx,
                    sy == dy + 8,
                    dy < 0x800,
                    dx < 0x800,
                    self@ == old(self)@.with_pixels(
                        copy_cell_up_upto(buf0, stride, (dx / 8) as int, (dy / 8) as int, y * 8 + x),
                    ),
                decreases 8 - x,
            {
                proof {
                    lemma_copy_cell_step(buf0, stride, (dx / 8) as int, (dy / 8) as int, x as int, y as int);
                }
                let c = self.get_pix(sx + x, sy + y);
                self.set_pix(dx + x, dy + y, c);
                x = x + 1;
            }
            y = y + 1;
        }
    }

    /// Moves the character rows from_row+1 ..= to_row-1+1 up by one row,
    /// for the columns from_col..to_col.
    fn scroll_rows_up(&mut self, from_row: u8, to_row: u32, from_col: u8, to_col: u32)
        requires
            old(self)@.wf(),
            to_row <= 32,
            to_col <= 32,
        ensures
            final(self)@ == old(self)@.with_pixels(
                copy_rows_up(
                    old(self)@.pixbuf,
                    old(self)@.stride(),
                    from_row as int,
                    to_row as int,
                    from_col as int,
                    to_col as int,
                ),
            ),
            final(self)@.wf(),
    {
        let ghost buf0 = self.pixbuf@;
        let ghost stride = self@.stride();
        proof {
            assert(old(self)@.with_pixels(buf0) =~= old(self)@);
        }
        let mut y: u32 = from_row as u32;
        while y < to_row
            invariant
                from_row <= y,
                y <= to_row || y == from_row,
                to_row <= 32,
                to_col <= 32,
                buf0 == old(self)@.pixbuf,
                stride == old(self)@.stride(),
                self@ == old(self)@.with_pixels(
                    copy_rows_up(buf0, stride, from_row as int, y as int, from_col as int, to_col as int),
                ),
                self@.wf(),
            decreases to_row - y,
        {
            let ghost before = self.pixbuf@;
            let mut x: u32 = from_col as u32;
            while x < to_col
                invariant
                    from_col <= x,
                    x <= to_col || x == from_col,
                    y < to_row,
                    to_row <= 32,
                    to_col <= 32,
                    stride == old(self)@.stride(),
                    self@ == old(self)@.with_pixels(
                        copy_row_up(before, stride, y as int, from_col as int, x as int),
                    ),
                    self@.wf(),
                decreases to_col - x,
            {
                self.copy_char_pix(x as u8, (y + 1) as u8, x as u8, y as u8);
                x = x + 1;
            }
            y = y + 1;
        }
    }

    /// Draws the character in the cells (col, row) for col in from_col..to_col.
    fn fill_char_row(
        &mut self,
        fcolor: u8,
        bcolor: u8,
        charindex: u8,
        row: u8,
        from_col: u8,
        to_col: u32,
    )
        requires
            old(self)@.wf(),
            to_col <= 32,
        ensures
            final(self)@ == old(self)@.with_pixels(
                fill_row(
                    old(self)@.pixbuf,
                    old(self)@.stride(),
                    fcolor,
                    bcolor,
                    charindex,
                    row as int,
                    from_col as int,
                    to_col as int,
                ),
            ),
            final(self)@.wf(),
    {
        let ghost buf0 = self.pixbuf@;
        let ghost stride = self@.stride();
        proof {
            assert(old(self)@.with_pixels(buf0) =~= old(self)@);
        }
        let mut x: u32 = from_col as u32;
        while x < to_col
            invariant
                from_col <= x,
                x <= to_col || x == from_col,
                to_col <= 32,
                buf0 == old(self)@.pixbuf,
                stride == old(self)@.stride(),
                self@ == old(self)@.with_pixels(
                    fill_row(buf0, stride, fcolor, bcolor, charindex, row as int, from_col as int, x as int),
                ),
                self@.wf(),
            decreases to_col - x,
        {
            self.set_char(fcolor, bcolor, charindex, x as u8, row);
            x = x + 1;
        }
    }

    /// Scroll-print I/O handler.
    /// `val` = value written, `offset` = address offset from I/O base (0..=0x3F).
    /// The offset bits encode control flags.
    pub fn scroll_print(&mut self, val: u32, offset: u16)
        requires
            old(self)@.wf(),
        ensures
            final(self)@ == scroll_print_result(old(self)@, val, offset),
            final(self)@.wf(),
    {
        let nlchar_flag = (offset / 32) % 2 == 1;
        let tmscroll = (offset / 16) % 2 == 1;
        // bit 3 unused
        let roprint = (offset / 4) % 2 == 1;
        let cfdata = (offset / 2) % 2 == 1;
        let etmode = offset % 2 == 1;

        let mut column = (self.cursor % 32) as u8;
        let mut row = ((self.cursor / 32) % 32) as u8;

        let (prange, srange) = if roprint {
            (self.hrange, self.vrange)
        } else {
            (self.vrange, self.hrange)
        };

        let pend = ((prange / 32) % 32) as u8;
        let pstart = (prange % 32) as u8;
        let send = ((srange / 32) % 32) as u8;
        let sstart = (srange % 32) as u8;

        let forecolor = if !cfdata {
            self.colors % 16
        } else {
            ((val / 256) % 16) as u8
        };
        let backcolor = if !cfdata {
            (self.colors / 16) % 16
        } else {
            ((val / 8192) % 16) as u8
        };
        let charindex = (val % 256) as u8;

        // Map primary/secondary to column/row
        let mut pval = if roprint {
            column
        } else {
            row
        };
        let mut sval = if roprint {
            row
        } else {
            column
        };

        // Newline character handling
        let newline = nlchar_flag && charindex == self.nlchar;
        if newline {
            pval = pend + 1;
        }
        if etmode {
            // Character print mode
            if pval > pend {
                pval = 0;
                sval = sval + 1;
            }
            if sval > send {
                if tmscroll {
                    // Scroll: copy lines up, then fill the last line
                    self.scroll_rows_up(sstart, send as u32 + 1, pstart, pend as u32 + 1);
                    let nl = self.nlchar;
                    self.fill_char_row(forecolor, backcolor, nl, send, pstart, pend as u32 + 1);
                    sval = sval - 1;
                } else {
                    sval = sstart;
                }
            }
            if !newline {
                // Write character at current position
                let (col, rw) = if roprint {
                    (pval, sval)
                } else {
                    (sval, pval)
                };
                self.set_char(forecolor, backcolor, charindex, col, rw);
                pval = pval + 1;
            }
        } else {
            // Scroll-only mode
            self.scroll_rows_up(sstart, send as u32, pstart, pend as u32 + 1);
            // Fill last line with the character
            self.fill_char_row(forecolor, backcolor, charindex, send, pstart, pend as u32 + 1);
        }

        // Write back cursor
        if roprint {
            column = pval;
            row = sval;
        } else {
            row = pval;
            column = sval;
        }
        self.cursor = column as u16 + row as u16 * 32;
    }

    /// Plot a single pixel via the pixel-plot I/O range.
    /// `offset` = address offset from 0x9FE0 (lower 4 bits = color index).
    pub fn plot_pixel(&mut self, val: u32, offset: u16)
        ensures
            final(self)@ == old(self)@.with_pixels(
                put_pixel(
                    old(self)@.pixbuf,
                    old(self)@.stride(),
                    (val % 256) as int,
                    ((val / 256) % 256) as int,
                    (offset % 16) as u8,
                ),
            ),
    {
        let color_index = (offset % 16) as u8;
        let row = (val / 256) % 256;
        let column = val % 256;
        self.set_pix(column, row, color_index);
    }
}

} // verus!
