use r3emu::bus::Bus;
use r3emu::vm::{CoreType, Vm};

fn encode(moi: u32, soii: u32, dest: u32, psrc: u32, loi: u32, ssrc: u32) -> u32 {
    (moi << 31) | (soii << 30) | (dest << 25) | (psrc << 20) | (loi << 16) | ssrc
}

fn run(program: &[u32], cores: usize) -> Vm {
    let mut bus = Bus::new(64, 128, 12, 8, true);
    bus.load_image(program);
    let mut vm = Vm::new(bus, vec![CoreType::M; cores], true, Some(16));
    let mut guard = 0;
    while !vm.halted && guard < 1000 {
        vm.cycle();
        guard += 1;
    }
    vm
}

#[test]
fn program_computes_and_stores() {
    let program = [
        encode(0, 1, 1, 0, 0, 5),    // mov r1, r0, 5
        encode(1, 1, 2, 1, 6, 7),    // add r2, r1, 7
        encode(0, 1, 2, 0, 10, 100), // st r2, r0, 100
        encode(0, 1, 0, 0, 13, 0),   // hlt
    ];
    let vm = run(&program, 1);
    assert!(vm.halted);
    assert_eq!(vm.bus.ram[100], 12);
    assert_eq!(vm.ip, 4);
    let trace = vm.trace.as_ref().unwrap();
    assert_eq!(trace.entries.len(), 4);
    assert_eq!(trace.entries[1].instruction, program[1]);
    assert_eq!(trace.entries[1].addr, 1);
    assert_eq!(trace.entries[1].ops, [2, 5, 7]);
}

#[test]
fn load_and_subtract() {
    let program = [
        encode(0, 1, 3, 0, 2, 20),  // ld r3, r0, 20
        encode(0, 1, 0, 0, 0, 0),   // mov r0, r0, 0 (no-op, lets the load land)
        encode(1, 1, 4, 3, 4, 50),  // sub r4, 50, r3  (50 - r3)
        encode(0, 1, 4, 0, 10, 21), // st r4, r0, 21
        encode(0, 1, 0, 0, 13, 0),  // hlt
        0, 0, 0, 0, 0, 0, 0, 0, 0, 0, 0, 0, 0, 0, 0,
        8, // word 20
    ];
    let vm = run(&program, 1);
    assert_eq!(vm.bus.ram[21], 42);
}

#[test]
fn jump_skips_instructions() {
    let program = [
        encode(0, 1, 5, 0x10, 1, 3), // jmp r5, 3 (not sync, always)
        encode(0, 1, 0, 0, 13, 0),   // hlt (skipped)
        encode(0, 1, 0, 0, 13, 0),   // hlt (skipped)
        encode(0, 1, 5, 0, 10, 30),  // st r5, r0, 30 (r5 holds the return address 1)
        encode(0, 1, 0, 0, 13, 0),   // hlt
    ];
    let vm = run(&program, 1);
    assert_eq!(vm.bus.ram[30], 1);
    assert_eq!(vm.ip, 5);
}

#[test]
fn register_zero_stays_zero() {
    let program = [
        encode(0, 1, 0, 0, 0, 77),  // mov r0, r0, 77 (dropped)
        encode(0, 1, 0, 0, 10, 40), // st r0, r0, 40
        encode(0, 1, 0, 0, 13, 0),  // hlt
    ];
    let mut bus = Bus::new(64, 128, 12, 8, true);
    bus.load_image(&program);
    bus.ram[40] = 9;
    let mut vm = Vm::new(bus, vec![CoreType::M], true, None);
    while !vm.halted {
        vm.cycle();
    }
    assert_eq!(vm.bus.ram[40], 0);
    assert!(vm.trace.is_none());
}

#[test]
fn cores_without_multiplier_retry() {
    let program = [
        encode(0, 1, 1, 0, 0, 6),  // mov r1, r0, 6
        encode(0, 1, 2, 1, 14, 7), // mul r2, r1, 7
        encode(0, 1, 2, 0, 10, 50), // st r2, r0, 50
        encode(0, 1, 0, 0, 13, 0), // hlt
    ];
    let mut bus = Bus::new(64, 128, 12, 8, true);
    bus.load_image(&program);
    let mut vm = Vm::new(bus, vec![CoreType::M, CoreType::F], true, None);
    let mut guard = 0;
    while !vm.halted && guard < 100 {
        vm.cycle();
        guard += 1;
    }
    assert!(vm.halted);
    assert_eq!(vm.bus.ram[50], 42);
}

#[test]
fn halted_machine_does_not_advance() {
    let program = [encode(0, 1, 0, 0, 13, 0)];
    let mut vm = run(&program, 2);
    assert!(vm.halted);
    let ip = vm.ip;
    vm.cycle();
    assert_eq!(vm.ip, ip);
}

#[test]
fn keyboard_reads_through_load() {
    let program = [
        encode(0, 1, 1, 0, 2, 0x9F80), // ld r1, r0, 0x9F80
        encode(0, 1, 0, 0, 0, 0),      // mov r0, r0, 0
        encode(0, 1, 1, 0, 10, 60),    // st r1, r0, 60
        encode(0, 1, 0, 0, 13, 0),     // hlt
    ];
    let mut bus = Bus::new(64, 128, 12, 8, true);
    bus.load_image(&program);
    bus.keyboard.register_keypress(b'k');
    let mut vm = Vm::new(bus, vec![CoreType::M], true, None);
    while !vm.halted {
        vm.cycle();
    }
    assert_eq!(vm.bus.ram[60], b'k' as u32);
}
