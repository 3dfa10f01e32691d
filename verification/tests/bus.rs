use r3emu::alu::patch_word;
use r3emu::bus::Bus;

#[test]
fn memory_write_reads_back_patched() {
    let mut bus = Bus::new(64, 128, 12, 8, true);
    assert_eq!(bus.mem_size(), 8192);
    bus.write(10, 1234);
    assert_eq!(bus.read(10), 1234);
    bus.write(11, 0x4000_0000);
    assert_eq!(bus.read(11), patch_word(0x4000_0000));
    assert_eq!(bus.read(11), 0);
    assert_eq!(bus.read(12), 0);
}

#[test]
fn reads_and_writes_beyond_memory() {
    let mut bus = Bus::new(1, 16, 2, 2, true);
    bus.write(20, 99);
    assert_eq!(bus.read(20), 0);
    assert_eq!(bus.ram.len(), 16);
}

#[test]
fn keyboard_port_is_read_destructively() {
    let mut bus = Bus::new(64, 128, 12, 8, true);
    bus.keyboard.register_keypress(b'q');
    assert_eq!(bus.read(0x9F80), b'q' as u32);
    assert_eq!(bus.read(0x9F80), 0);
}

#[test]
fn terminal_registers_are_memory_mapped() {
    let mut bus = Bus::new(64, 128, 12, 8, true);
    bus.write(0x9FC2, 0x1_0123);
    bus.write(0x9FC4, 37);
    bus.write(0x9FC5, 0x10D);
    bus.write(0x9FC6, 0xF0);
    assert_eq!(bus.terminal.hrange, 0x0123);
    assert_eq!(bus.terminal.cursor, 37);
    assert_eq!(bus.terminal.nlchar, 0x0D);
    assert_eq!(bus.terminal.colors, 0xF0);
}

#[test]
fn pixel_plot_respects_the_switch() {
    let mut on = Bus::new(64, 128, 2, 2, true);
    on.write(0x9FE0 + 5, (3 << 8) | 4);
    assert_eq!(on.terminal.pixbuf[4 + 3 * 16], 5);
    let mut off = Bus::new(64, 128, 2, 2, false);
    off.write(0x9FE0 + 5, (3 << 8) | 4);
    assert_eq!(off.terminal.pixbuf[4 + 3 * 16], 0);
}

#[test]
fn load_image_copies_as_far_as_memory_reaches() {
    let mut bus = Bus::new(1, 4, 1, 1, true);
    bus.load_image(&[1, 2, 3, 4, 5, 6]);
    assert_eq!(bus.ram, vec![1, 2, 3, 4]);
    let mut bus = Bus::new(1, 4, 1, 1, true);
    bus.load_image(&[9]);
    assert_eq!(bus.ram, vec![9, 0, 0, 0]);
}
