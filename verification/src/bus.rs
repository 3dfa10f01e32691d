use vstd::prelude::*;
use crate::alu::{patch_word, patched};
use crate::keyboard::{Keyboard, KeyboardState, key_read};
use crate::terminal::{Terminal, TerminalState, scroll_print_result, put_pixel, fresh_terminal};

verus! {

/// First address of the memory-mapped I/O window; reading it reads the keyboard.
pub const IO_BASE: u16 = 0x9F80;

/// The abstract state of the bus.
pub struct BusState {
    pub ram: Seq<u32>,
    pub rows: u8,
    pub row_size: u16,
    pub terminal: TerminalState,
    pub keyboard: KeyboardState,
    pub has_pixplot: bool,
}

impl BusState {
    /// The number of words of memory.
    pub open spec fn mem_size(self) -> int {
        self.rows * self.row_size
    }

    /// Memory holds (at least) `rows * row_size` words and the terminal is
    /// well formed.
    pub open spec fn wf(self) -> bool {
        &&& self.ram.len() >= self.mem_size()
        &&& self.terminal.wf()
    }

    /// The memory size fits the 16-bit address space.
    pub open spec fn addressable(self) -> bool {
        self.mem_size() <= 0xFFFF
    }
}

/// Whether a write to `addr` is taken by an I/O device rather than memory.
pub open spec fn is_io_write(addr: u16) -> bool {
    (0x9F80 <= addr <= 0x9FC7) || (0x9FE0 <= addr <= 0x9FFF)
}

/// A read of `addr`: the keyboard at the I/O base (a destructive read),
/// otherwise the patched memory word, 0 beyond memory.
pub open spec fn bus_read(b: BusState, addr: u16) -> (u32, BusState) {
    if addr == IO_BASE {
        let (k, kb) = key_read(b.keyboard);
        (k as u32, BusState { keyboard: kb, ..b })
    } else if addr >= b.mem_size() {
        (0, b)
    } else {
        (patched(b.ram[addr as int]), b)
    }
}

/// A write of `val` to `addr`: the I/O window feeds the terminal (scroll
/// print, its registers, pixel plot); other addresses in memory store the
/// patched value; anything else is dropped.
pub open spec fn bus_write(b: BusState, addr: u16, val: u32) -> BusState {
    let t = b.terminal;
    if 0x9F80 <= addr <= 0x9FBF {
        BusState { terminal: scroll_print_result(t, val, (addr - IO_BASE) as u16), ..b }
    } else if addr == 0x9FC0 {
        BusState { terminal: TerminalState { char0odd: val, ..t }, ..b }
    } else if addr == 0x9FC1 {
        BusState { terminal: TerminalState { char0even: val, ..t }, ..b }
    } else if addr == 0x9FC2 {
        BusState { terminal: TerminalState { hrange: val as u16, ..t }, ..b }
    } else if addr == 0x9FC3 {
        BusState { terminal: TerminalState { vrange: val as u16, ..t }, ..b }
    } else if addr == 0x9FC4 {
        BusState { terminal: TerminalState { cursor: val as u16, ..t }, ..b }
    } else if addr == 0x9FC5 {
        BusState { terminal: TerminalState { nlchar: val as u8, ..t }, ..b }
    } else if addr == 0x9FC6 {
        BusState { terminal: TerminalState { colors: val as u8, ..t }, ..b }
    } else if addr == 0x9FC7 {
        BusState { terminal: TerminalState { scrollmask: val, ..t }, ..b }
    } else if 0x9FE0 <= addr <= 0x9FFF {
        if b.has_pixplot {
            BusState {
                terminal: t.with_pixels(
                    put_pixel(
                        t.pixbuf,
                        t.stride(),
                        (val % 256) as int,
                        ((val / 256) % 256) as int,
                        ((addr - 0x9FE0) % 16) as u8,
                    ),
                ),
                ..b
            }
        } else {
            b
        }
    } else if addr >= b.mem_size() {
        b
    } else {
        BusState { ram: b.ram.update(addr as int, patched(val)), ..b }
    }
}

pub struct Bus {
    pub ram: Vec<u32>,
    rows: u8,
    row_size: u16,
    pub terminal: Terminal,
    pub keyboard: Keyboard,
    pub has_pixplot: bool,
}

impl View for Bus {
    type V = BusState;

    closed spec fn view(&self) -> BusState {
        BusState {
            ram: self.ram@,
            rows: self.rows,
            row_size: self.row_size,
            terminal: self.terminal@,
            keyboard: self.keyboard@,
            has_pixplot: self.has_pixplot,
        }
    }
}

impl Bus {
    pub fn new(rows: u8, row_size: u16, term_cols: u8, term_rows: u8, has_pixplot: bool) -> (b:
        Self)
        ensures
            b@.rows == rows,
            b@.row_size == row_size,
            b@.ram == Seq::new(b@.mem_size() as nat, |i: int| 0u32),
            b@.terminal == fresh_terminal(term_cols, term_rows),
            b@.keyboard == (KeyboardState { keycode: 0, queued: Seq::empty() }),
            b@.has_pixplot == has_pixplot,
            b@.wf(),
    {
        assert(rows * row_size <= 255 * 65535) by (nonlinear_arith)
            requires
                rows <= 255,
                row_size <= 65535,
        ;
        let mem_size = rows as usize * row_size as usize;
        let ram = vec![0u32; mem_size];
        assert(ram@ =~= Seq::new(mem_size as nat, |i: int| 0u32));
        Bus {
            ram,
            rows,
            row_size,
            terminal: Terminal::new(term_cols, term_rows),
            keyboard: Keyboard::new(),
            has_pixplot,
        }
    }

    /// The number of words of memory.
    pub fn mem_size(&self) -> (n: u16)
        requires
            self@.addressable(),
        ensures
            n == self@.mem_size(),
    {
        self.rows as u16 * self.row_size
    }

    /// Reads a word (see `bus_read`).
    pub fn read(&mut self, addr: u16) -> (r: u32)
        requires
            old(self)@.wf(),
            old(self)@.addressable(),
        ensures
            (r, final(self)@) == bus_read(old(self)@, addr),
    {
        // Keyboard read hook
        if addr == IO_BASE {
            return self.keyboard.get_key() as u32;
        }
        // Regular memory
        if addr >= self.mem_size() {
            return 0;
        }
        patch_word(self.ram[addr as usize])
    }

    /// Writes a word (see `bus_write`).
    pub fn write(&mut self, addr: u16, val: u32)
        requires
            old(self)@.wf(),
            old(self)@.addressable(),
        ensures
            final(self)@ == bus_write(old(self)@, addr, val),
            final(self)@.wf(),
    {
        // Write hooks: check I/O address ranges (value is NOT patched for hooks)
        if 0x9F80 <= addr && addr <= 0x9FBF {
            // Scroll print: offsets 0x00..=0x3F
            self.terminal.scroll_print(val, addr - IO_BASE);
            return;
        }
        // Terminal registers
        if addr == 0x9FC0 {
            self.terminal.char0odd = val;
            return;
        }
        if addr == 0x9FC1 {
            self.terminal.char0even = val;
            return;
        }
        if addr == 0x9FC2 {
            self.terminal.hrange = val as u16;
            return;
        }
        if addr == 0x9FC3 {
            self.terminal.vrange = val as u16;
            return;
        }
        if addr == 0x9FC4 {
            self.terminal.cursor = val as u16;
            return;
        }
        if addr == 0x9FC5 {
            self.terminal.nlchar = val as u8;
            return;
        }
        if addr == 0x9FC6 {
            self.terminal.colors = val as u8;
            return;
        }
        if addr == 0x9FC7 {
            self.terminal.scrollmask = val;
            return;
        }
        if 0x9FE0 <= addr && addr <= 0x9FFF {
            // Pixel plot: offsets 0x60..=0x7F from the I/O base
            if self.has_pixplot {
                self.terminal.plot_pixel(val, addr - 0x9FE0);
            }
            return;
        }
        // Regular memory write (patchword applied)
        if addr >= self.mem_size() {
            return;
        }
        self.ram.set(addr as usize, patch_word(val));
    }

    /// Loads a memory image: word i of `words` goes to address i, as far as
    /// the memory size reaches; the rest of memory is kept. Words are stored
    /// as given, without the patch.
    pub fn load_image(&mut self, words: &[u32])
        requires
            old(self)@.wf(),
            old(self)@.addressable(),
        ensures
            final(self)@ == (BusState {
                ram: Seq::new(
                    old(self)@.ram.len(),
                    |i: int|
                        if i < words@.len() && i < old(self)@.mem_size() {
                            words@[i]
                        } else {
                            old(self)@.ram[i]
                        },
                ),
                ..old(self)@
            }),
            final(self)@.wf(),
    {
        let mem_size = self.mem_size() as usize;
        let n = if words.len() < mem_size {
            words.len()
        } else {
            mem_size
        };
        let mut i: usize = 0;
        assert(self.ram@ =~= Seq::new(
            old(self)@.ram.len(),
            |j: int|
                if j < 0 {
                    words@[j]
                } else {
                    old(self)@.ram[j]
                },
        ));
        while i < n
            invariant
                i <= n,
                n <= words@.len(),
                n <= old(self)@.mem_size(),
                n == words@.len() || n == old(self)@.mem_size(),
                old(self)@.mem_size() <= old(self)@.ram.len(),
                self@ == (BusState {
                    ram: Seq::new(
                        old(self)@.ram.len(),
                        |j: int|
                            if j < i {
                                words@[j]
                            } else {
                                old(self)@.ram[j]
                            },
                    ),
                    ..old(self)@
                }),
            decreases n - i,
        {
            self.ram.set(i, words[i]);
            i = i + 1;
            assert(self.ram@ =~= Seq::new(
                old(self)@.ram.len(),
                |j: int|
                    if j < i {
                        words@[j]
                    } else {
                        old(self)@.ram[j]
                    },
            ));
        }
        assert(self.ram@ =~= Seq::new(
            old(self)@.ram.len(),
            |j: int|
                if j < words@.len() && j < old(self)@.mem_size() {
                    words@[j]
                } else {
                    old(self)@.ram[j]
                },
        ));
    }
}


/// The terminal registers in address order from 0x9FC0: odd character 0,
/// even character 0, horizontal range, vertical range, cursor, newline
/// character, colors, scroll mask.
pub open spec fn terminal_register(t: TerminalState, i: int) -> u32 {
    if i == 0 {
        t.char0odd
    } else if i == 1 {
        t.char0even
    } else if i == 2 {
        t.hrange as u32
    } else if i == 3 {
        t.vrange as u32
    } else if i == 4 {
        t.cursor as u32
    } else if i == 5 {
        t.nlchar as u32
    } else if i == 6 {
        t.colors as u32
    } else {
        t.scrollmask
    }
}

/// The number of values terminal register `i` can hold.
pub open spec fn register_modulus(i: int) -> int {
    if 2 <= i <= 4 {
        0x1_0000
    } else if 5 <= i <= 6 {
        0x100
    } else {
        0x1_0000_0000
    }
}

proof fn lemma_truncations(v: u32)
    ensures
        (v as u16) as u32 == v % 0x1_0000,
        (v as u8) as u32 == v % 0x100,
{
    assert((v as u16) as u32 == v % 0x1_0000 && (v as u8) as u32 == v % 0x100) by (bit_vector);
}

/// A write to terminal register address 0x9FC0 + i stores the value (cut to
/// the register's width) in register i and changes nothing else: the other
/// registers, the pixels, memory and the keyboard keep their values.
pub proof fn lemma_register_write(b: BusState, i: int, v: u32)
    requires
        0 <= i < 8,
    ensures
        ({
            let nb = bus_write(b, (0x9FC0 + i) as u16, v);
            &&& terminal_register(nb.terminal, i) == (v as int) % register_modulus(i)
            &&& forall|j: int|
                0 <= j < 8 && j != i ==> terminal_register(nb.terminal, j) == terminal_register(
                    b.terminal,
                    j,
                )
            &&& nb.terminal.pixbuf == b.terminal.pixbuf
            &&& nb.terminal.charsnh == b.terminal.charsnh
            &&& nb.terminal.charsnv == b.terminal.charsnv
            &&& nb.ram == b.ram
            &&& nb.keyboard == b.keyboard
        }),
{
    lemma_truncations(v);
    let nb = bus_write(b, (0x9FC0 + i) as u16, v);
    if i == 0 {
        assert(nb.terminal == TerminalState { char0odd: v, ..b.terminal });
    } else if i == 1 {
        assert(nb.terminal == TerminalState { char0even: v, ..b.terminal });
    } else if i == 2 {
        assert(nb.terminal == TerminalState { hrange: v as u16, ..b.terminal });
    } else if i == 3 {
        assert(nb.terminal == TerminalState { vrange: v as u16, ..b.terminal });
    } else if i == 4 {
        assert(nb.terminal == TerminalState { cursor: v as u16, ..b.terminal });
    } else if i == 5 {
        assert(nb.terminal == TerminalState { nlchar: v as u8, ..b.terminal });
    } else if i == 6 {
        assert(nb.terminal == TerminalState { colors: v as u8, ..b.terminal });
    } else {
        assert(nb.terminal == TerminalState { scrollmask: v, ..b.terminal });
    }
}


/// A write to pixel-plot address 0x9FE0 + o plots one pixel: column = the
/// low byte of the value, row = the next byte, color = the low four bits of
/// o; with pixel plotting off the write does nothing.
pub proof fn lemma_pixel_plot(b: BusState, o: int, val: u32)
    requires
        0 <= o < 32,
    ensures
        ({
            let nb = bus_write(b, (0x9FE0 + o) as u16, val);
            let idx = (val % 256) + ((val / 256) % 256) * (8 * b.terminal.charsnh);
            &&& b.has_pixplot ==> {
                &&& nb.terminal.pixbuf.len() == b.terminal.pixbuf.len()
                &&& idx < b.terminal.pixbuf.len() ==> nb.terminal.pixbuf[idx] == o % 16
                &&& forall|i: int|
                    0 <= i < b.terminal.pixbuf.len() && i != idx ==> nb.terminal.pixbuf[i]
                        == b.terminal.pixbuf[i]
                &&& nb.ram == b.ram
                &&& nb.terminal.cursor == b.terminal.cursor
            }
            &&& !b.has_pixplot ==> nb == b
        }),
{
    assert(((val / 256) % 256) * (8 * b.terminal.charsnh) >= 0) by (nonlinear_arith);
}

/// A word written to memory (below the memory size and outside the I/O
/// window) reads back patched, and the read changes nothing.
pub proof fn lemma_read_after_write(b: BusState, addr: u16, val: u32)
    requires
        b.wf(),
        addr < b.mem_size(),
        !is_io_write(addr),
    ensures
        bus_read(bus_write(b, addr, val), addr) == (patched(val), bus_write(b, addr, val)),
{
}

/// A memory write leaves every other address as it was.
pub proof fn lemma_write_other_address(b: BusState, addr: u16, val: u32, other: u16)
    requires
        b.wf(),
        !is_io_write(addr),
        other != addr,
    ensures
        bus_read(bus_write(b, addr, val), other).0 == bus_read(b, other).0,
{
}

/// Reading memory (anything but the keyboard port) changes nothing.
pub proof fn lemma_memory_read_is_pure(b: BusState, addr: u16)
    requires
        addr != IO_BASE,
    ensures
        bus_read(b, addr).1 == b,
{
}

} // verus!
