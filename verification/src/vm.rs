use vstd::prelude::*;
use crate::alu::{
    adc, sbb, mulh, muls, mulx, shl, shr, and, or, xor, eval_condition, get_flag,
    set_flag, patch_word, alu_word_limit, patched, low16, flag_bit, with_flag, add_result,
    add_flags, sub_flags, logic_flags, with_zero_sign, shl_result, shr_result, mul_result,
    mulh_result, muls_result, mulx_result, condition_holds,
};
use crate::bus::{Bus, BusState, bus_read, bus_write};
use crate::isa::{Fields, fields_of, decode};

verus! {

#[derive(Clone, Copy, PartialEq, Eq, Structural)]
pub enum CoreType {
    F,
    S,
    M,
}

/// The memory operation an `ld`/`st` schedules for the next slot.
#[derive(Clone, Copy, PartialEq, Eq, Structural)]
pub enum SchMode {
    Load,
    Store,
    Idle,
}

pub struct TraceEntry {
    pub instruction: u32,
    pub addr: u32,
    pub ops: [u32; 3],
}

/// One traced instruction: the word, its address, and its operands
/// (destination register number, primary source value, second source value).
pub struct TraceRecord {
    pub instruction: u32,
    pub addr: u32,
    pub dest: u32,
    pub psrc: u32,
    pub ssrc: u32,
}

impl View for TraceEntry {
    type V = TraceRecord;

    open spec fn view(&self) -> TraceRecord {
        TraceRecord {
            instruction: self.instruction,
            addr: self.addr,
            dest: self.ops@[0],
            psrc: self.ops@[1],
            ssrc: self.ops@[2],
        }
    }
}

pub struct Trace {
    pub entries: Vec<TraceEntry>,
    pub max_size: usize,
}

#[verifier::ext_equal]
pub struct TraceState {
    pub entries: Seq<TraceRecord>,
    pub max_size: usize,
}

pub open spec fn trace_state(t: Option<Trace>) -> Option<TraceState> {
    match t {
        Some(tr) => Some(
            TraceState { entries: tr.entries@.map_values(|e: TraceEntry| e@), max_size: tr.max_size },
        ),
        None => None,
    }
}

/// The abstract state of the machine.
#[verifier::ext_equal]
pub struct VmState {
    pub bus: BusState,
    pub regs: Seq<u32>,
    pub flags: u8,
    pub ip: u32,
    pub halted: bool,
    pub cores: Seq<CoreType>,
    pub allow_smul: bool,
    pub sch_addr: u16,
    pub sch_mode: SchMode,
    pub sch_reg: u8,
    pub trace: Option<TraceState>,
}

impl VmState {
    /// The machine invariant: the bus is well formed and addressable, there
    /// are 32 registers, r0 reads 0, every register holds a patched word, and
    /// the trace holds at most its maximum number of entries.
    pub open spec fn wf(self) -> bool {
        &&& self.bus.wf()
        &&& self.bus.addressable()
        &&& self.regs.len() == 32
        &&& self.regs[0] == 0
        &&& forall|i: int| 0 <= i < 32 ==> patched(#[trigger] self.regs[i]) == self.regs[i]
        &&& (self.trace matches Some(t) ==> t.entries.len() <= t.max_size)
    }
}

// ---------------------------------------------------------------------------
// Instruction semantics
// ---------------------------------------------------------------------------

/// Register `index` (taken modulo 32).
pub open spec fn reg_of(regs: Seq<u32>, index: u8) -> u32 {
    regs[(index % 32) as int]
}

/// The registers after writing `val` (patched) to register `index`; writes
/// to r0 are dropped.
pub open spec fn with_reg(regs: Seq<u32>, index: u8, val: u32) -> Seq<u32> {
    let i = (index % 32) as int;
    if i != 0 {
        regs.update(i, patched(val))
    } else {
        regs
    }
}

/// The second source operand: the immediate, or the low 16 bits of the
/// register it names.
pub open spec fn second_source(regs: Seq<u32>, f: Fields) -> u16 {
    let raw: u16 = if f.soii == 0 {
        (reg_of(regs, (f.raw_ssrc % 32) as u8) % 0x1_0000) as u16
    } else {
        f.raw_ssrc
    };
    patched(raw as u32) as u16
}

/// Whether a core of this type may multiply.
pub open spec fn may_multiply(core: CoreType, allow_smul: bool) -> bool {
    (core == CoreType::S && allow_smul) || core == CoreType::M
}

/// The flags after `mov`/`exh` with the flag-update bit: zero and sign of
/// the full word, carry cleared.
pub open spec fn move_flags(flags: u8, newval: u32) -> u8 {
    with_flag(with_flag(with_flag(flags, 0, newval == 0), 1, (newval >> 31) != 0), 2, false)
}

/// The memory address of `ld`/`st`: base register plus offset, 16 bits.
pub open spec fn mem_operand(a: u32, ssrc: u16) -> u16 {
    ((low16(a) + low16(ssrc as u32)) % 0x1_0000) as u16
}

/// The machine after executing instruction fields `f` with second operand
/// `ssrc` on core `core_idx` (the instruction already fetched).
#[verifier::opaque]
pub open spec fn execute(s: VmState, core_idx: int, f: Fields, ssrc: u16) -> VmState {
    let update = f.moi != 0;
    let a = reg_of(s.regs, f.psrcreg);
    let x = ssrc as u32;
    let flags = s.flags;
    let dest = f.destreg;
    let next = VmState { ip: (s.ip + 1) as u32, ..s };
    let can_mul = may_multiply(s.cores[core_idx], s.allow_smul);
    if f.loi == 4 {
        // sub: ssrc - psrc
        VmState {
            regs: with_reg(s.regs, dest, add_result(x, !a, 1)),
            flags: if update { sub_flags(flags, x, a, 1) } else { flags },
            ..next
        }
    } else if f.loi == 5 {
        // sbb
        let cin: u8 = if flag_bit(flags, 2) { 0 } else { 1 };
        VmState {
            regs: with_reg(s.regs, dest, add_result(x, !a, cin)),
            flags: if update { sub_flags(flags, x, a, cin) } else { flags },
            ..next
        }
    } else if f.loi == 6 {
        // add
        VmState {
            regs: with_reg(s.regs, dest, add_result(a, x, 0)),
            flags: if update { add_flags(flags, a, x, 0) } else { flags },
            ..next
        }
    } else if f.loi == 7 {
        // adc
        let cin: u8 = if flag_bit(flags, 2) { 1 } else { 0 };
        VmState {
            regs: with_reg(s.regs, dest, add_result(a, x, cin)),
            flags: if update { add_flags(flags, a, x, cin) } else { flags },
            ..next
        }
    } else if f.loi == 8 || f.loi == 9 || f.loi == 12 {
        // xor / or / and
        let r = if f.loi == 8 {
            patched(patched(a) ^ patched(x))
        } else if f.loi == 9 {
            patched(patched(a) | patched(x))
        } else {
            patched(patched(a) & patched(x))
        };
        VmState {
            regs: with_reg(s.regs, dest, r),
            flags: if update { logic_flags(flags, r) } else { flags },
            ..next
        }
    } else if f.loi == 11 {
        // bit shift; bit 15 of the raw second source selects the direction
        let r = if f.raw_ssrc / 0x8000 != 0 {
            shr_result(a, x % 16)
        } else {
            shl_result(a, x % 16)
        };
        VmState {
            regs: with_reg(s.regs, dest, r),
            flags: if update { with_zero_sign(flags, r) } else { flags },
            ..next
        }
    } else if f.loi == 13 {
        // hlt
        VmState { halted: true, ..next }
    } else if f.loi == 14 || f.loi == 15 {
        // mul / muls, mulh / mulx: only on cores that may multiply; other
        // cores retry the instruction
        if can_mul {
            let r = if f.loi == 14 {
                if f.moi == 0 { mul_result(a, x) } else { muls_result(a, x) }
            } else {
                if f.moi == 0 { mulh_result(a, x) } else { mulx_result(a, x) }
            };
            VmState { regs: with_reg(s.regs, dest, r), ..next }
        } else {
            s
        }
    } else if f.loi == 1 {
        // jump: sync jumps take effect on the last core only
        if condition_holds(flags, (f.psrcreg % 16) as int) {
            if f.psrcreg / 16 != 0 || core_idx == s.cores.len() - 1 {
                VmState { regs: with_reg(s.regs, dest, (s.ip + 1) as u32), ip: x, ..s }
            } else {
                s
            }
        } else {
            next
        }
    } else if f.loi == 2 || f.loi == 10 {
        // ld / st: scheduled for the next memory slot
        VmState {
            sch_mode: if f.loi == 2 { SchMode::Load } else { SchMode::Store },
            sch_addr: mem_operand(a, ssrc),
            sch_reg: dest,
            ..next
        }
    } else {
        // mov / movf (0), exh (3)
        let newval = if f.loi == 0 {
            patched((a & 0xFFFF_0000) | (x & 0xFFFF))
        } else {
            patched((a << 16) | (x >> 16))
        };
        VmState {
            regs: with_reg(s.regs, dest, newval),
            flags: if update { move_flags(flags, newval) } else { flags },
            ..next
        }
    }
}

/// The trace after recording `r`, if tracing is on and the trace has room.
pub open spec fn traced(t: Option<TraceState>, r: TraceRecord) -> Option<TraceState> {
    match t {
        Some(ts) => if ts.entries.len() < ts.max_size {
            Some(TraceState { entries: ts.entries.push(r), ..ts })
        } else {
            t
        },
        None => None,
    }
}

/// One instruction on core `core_idx`: the instruction pointer wraps to 0
/// when beyond memory, the instruction is fetched through the bus, traced,
/// and executed.
#[verifier::opaque]
pub open spec fn step(s: VmState, core_idx: int) -> VmState {
    let ip: u32 = if s.ip > s.bus.mem_size() { 0 } else { s.ip };
    let (instruction, bus) = bus_read(s.bus, ip as u16);
    let f = fields_of(instruction);
    let ssrc = second_source(s.regs, f);
    let record = TraceRecord {
        instruction,
        addr: ip,
        dest: f.destreg as u32,
        psrc: s.regs[(f.psrcreg % 32) as int],
        ssrc: ssrc as u32,
    };
    execute(VmState { bus, ip, trace: traced(s.trace, record), ..s }, core_idx, f, ssrc)
}

/// The pending memory operation, performed; afterwards none is pending.
#[verifier::opaque]
pub open spec fn memory_slot(s: VmState) -> VmState {
    match s.sch_mode {
        SchMode::Load => {
            let (v, bus) = bus_read(s.bus, s.sch_addr);
            VmState { bus, regs: with_reg(s.regs, s.sch_reg, v), sch_mode: SchMode::Idle, ..s }
        },
        SchMode::Store => VmState {
            bus: bus_write(s.bus, s.sch_addr, reg_of(s.regs, s.sch_reg)),
            sch_mode: SchMode::Idle,
            ..s
        },
        SchMode::Idle => s,
    }
}

/// The rest of a cycle from core `i` on: each core gets a memory slot and
/// then runs one instruction, until the machine halts; a final memory slot
/// ends the cycle.
pub open spec fn cycle_from(s: VmState, i: int, n: int) -> VmState
    decreases n - i,
{
    if i >= n {
        memory_slot(s)
    } else {
        let s1 = memory_slot(s);
        if s1.halted {
            memory_slot(s1)
        } else {
            cycle_from(step(s1, i), i + 1, n)
        }
    }
}

/// One machine cycle.
pub open spec fn cycle_result(s: VmState) -> VmState {
    cycle_from(s, 0, s.cores.len() as int)
}



/// A shift instruction writes to its destination the primary source, as a
/// 16-bit value, shifted LEFT by the low four bits of the second source when
/// bit 15 of the raw second source is clear (a multiplication by 2^k modulo
/// 2^16), and shifted RIGHT (a division by 2^k) when that bit is set; the
/// instruction pointer then advances.
pub proof fn lemma_shift_instruction(s: VmState, core_idx: int, f: Fields, ssrc: u16)
    requires
        s.regs.len() == 32,
        s.ip < 0xFFFF_FFFF,
        f.loi == 11,
        f.destreg % 32 != 0,
    ensures
        ({
            let a = (patched(s.regs[(f.psrcreg % 32) as int]) % 0x1_0000) as nat;
            let e = vstd::arithmetic::power2::pow2((ssrc % 16) as nat);
            let t = execute(s, core_idx, f, ssrc);
            let r = t.regs[(f.destreg % 32) as int];
            &&& f.raw_ssrc < 0x8000 ==> r == patched(((a * e) % 0x1_0000) as u32)
            &&& f.raw_ssrc >= 0x8000 ==> r == patched((a / e) as u32)
            &&& t.ip == s.ip + 1
        }),
{
    reveal(execute);
    let a = s.regs[(f.psrcreg % 32) as int];
    let x = ssrc as u32;
    assert(patched(x % 16) % 16 == x % 16);
    crate::alu::lemma_shifts_are_arithmetic(a, x % 16);
}

/// Arithmetic instructions, on the 16-bit value `a` of the primary source
/// and the second source `x`: `add` writes a + x, `sub` writes x - a (the
/// second source minus the primary source), `mul` the low and `mulh` the
/// high half of a * x, all modulo 2^16; the instruction pointer advances.
pub proof fn lemma_arithmetic_instructions(s: VmState, core_idx: int, f: Fields, ssrc: u16)
    requires
        s.wf(),
        s.ip < 0xFFFF_FFFF,
        0 <= core_idx < s.cores.len(),
        f.destreg % 32 != 0,
        f.loi == 4 || f.loi == 6 || ((f.loi == 14 || f.loi == 15) && f.moi == 0 && may_multiply(
            s.cores[core_idx],
            s.allow_smul,
        )),
    ensures
        ({
            let a = s.regs[(f.psrcreg % 32) as int] % 0x1_0000;
            let t = execute(s, core_idx, f, ssrc);
            let r = t.regs[(f.destreg % 32) as int];
            &&& f.loi == 6 ==> r == (a + ssrc) % 0x1_0000
            &&& f.loi == 4 ==> r == (ssrc - a) % 0x1_0000
            &&& f.loi == 14 ==> r == (a * ssrc) % 0x1_0000
            &&& f.loi == 15 ==> r == (a * ssrc) / 0x1_0000
            &&& t.ip == s.ip + 1
        }),
{
    reveal(execute);
    let a = s.regs[(f.psrcreg % 32) as int];
    let x = ssrc as u32;
    let a16 = patched(a) % 0x1_0000;
    assert(patched(a) == a);
    assert(crate::alu::operand16(x) == x);
    if f.loi == 4 {
        crate::alu::lemma_subtraction(x, a, s.flags);
    }
    if f.loi == 14 || f.loi == 15 {
        assert(a16 * x < 0x1_0000_0000) by (nonlinear_arith)
            requires
                a16 < 0x1_0000,
                x < 0x1_0000,
        ;
    }
}


/// The other data instructions, on the primary source `a` (its 16-bit value
/// `a16`), the second source `x` and the carry flag `c`: `adc` writes
/// a16 + x + c and `sbb` writes x - a16 - c (modulo 2^16); `xor`, `or` and
/// `and` write the bitwise combination of `a` and `x`; `mov` writes `a` with
/// its lower half replaced by `x`, `exh` writes the lower half of `a` moved
/// to the upper half; on a core that may multiply, `muls` writes the upper
/// half of the signed product and `mulx` that of unsigned `a16` times signed
/// `x` (each completing the low half `a16 * x mod 2^16` to the product
/// modulo 2^32). The instruction pointer advances.
pub proof fn lemma_data_instructions(s: VmState, core_idx: int, f: Fields, ssrc: u16)
    requires
        s.wf(),
        s.ip < 0xFFFF_FFFF,
        0 <= core_idx < s.cores.len(),
        f.destreg % 32 != 0,
        f.loi == 0 || f.loi == 3 || f.loi == 5 || f.loi == 7 || f.loi == 8 || f.loi == 9 || f.loi
            == 12 || ((f.loi == 14 || f.loi == 15) && f.moi != 0 && may_multiply(
            s.cores[core_idx],
            s.allow_smul,
        )),
    ensures
        ({
            let a = s.regs[(f.psrcreg % 32) as int];
            let a16 = a % 0x1_0000;
            let x = ssrc as u32;
            let c: int = if flag_bit(s.flags, 2) { 1 } else { 0 };
            let t = execute(s, core_idx, f, ssrc);
            let r = t.regs[(f.destreg % 32) as int];
            &&& f.loi == 7 ==> r == (a16 + x + c) % 0x1_0000
            &&& f.loi == 5 ==> r == (x - a16 - c) % 0x1_0000
            &&& f.loi == 8 ==> r == patched(a ^ x)
            &&& f.loi == 9 ==> r == patched(a | x)
            &&& f.loi == 12 ==> r == patched(a & x)
            &&& f.loi == 0 ==> r == patched(((a / 0x1_0000) * 0x1_0000 + x) as u32)
            &&& f.loi == 3 ==> r == patched((a16 * 0x1_0000) as u32)
            &&& f.loi == 14 ==> (a16 * x) % 0x1_0000 + 0x1_0000 * r == (
            crate::alu::signed16(a16 as int) * crate::alu::signed16(x as int)) % 0x1_0000_0000
            &&& f.loi == 15 ==> (a16 * x) % 0x1_0000 + 0x1_0000 * r == (a16
                * crate::alu::signed16(x as int)) % 0x1_0000_0000
            &&& t.ip == s.ip + 1
        }),
{
    reveal(execute);
    let a = s.regs[(f.psrcreg % 32) as int];
    let a16 = (a % 0x1_0000) as u32;
    let x = ssrc as u32;
    assert(patched(a) == a);
    assert(patched(x) == x);
    assert(crate::alu::operand16(x) == x);
    assert(crate::alu::operand16(a) == a16);
    assert(crate::alu::operand16(a16) == a16);
    if f.loi == 5 {
        let cin: u8 = if flag_bit(s.flags, 2) { 0 } else { 1 };
        crate::alu::lemma_subtraction_with_borrow(x, a, cin);
    }
    if f.loi == 0 || f.loi == 3 {
        crate::alu::lemma_move_halves(a, x);
    }
    if f.loi == 14 {
        crate::alu::lemma_signed_product_halves(a16, x);
        assert(muls_result(a, x) == muls_result(a16, x));
        assert(mul_result(a16, x) == (a16 * x) % 0x1_0000);
    }
    if f.loi == 15 {
        crate::alu::lemma_mixed_product_halves(a16, x);
        assert(mulx_result(a, x) == mulx_result(a16, x));
        assert(mul_result(a16, x) == (a16 * x) % 0x1_0000);
    }
}

/// Jumps: when the condition holds, a non-sync jump (or a sync jump on the
/// last core) stores the address of the next instruction in the destination
/// register and continues at the second source; a sync jump on another core
/// waits (nothing changes); when the condition fails, execution continues
/// with the next instruction.
pub proof fn lemma_jump_instruction(s: VmState, core_idx: int, f: Fields, ssrc: u16)
    requires
        s.regs.len() == 32,
        f.loi == 1,
    ensures
        ({
            let t = execute(s, core_idx, f, ssrc);
            let taken = condition_holds(s.flags, (f.psrcreg % 16) as int);
            let sync = f.psrcreg < 16;
            &&& !taken ==> t == (VmState { ip: (s.ip + 1) as u32, ..s })
            &&& taken && (!sync || core_idx == s.cores.len() - 1) ==> t.ip == ssrc && t.regs
                == with_reg(s.regs, f.destreg, (s.ip + 1) as u32)
            &&& taken && sync && core_idx != s.cores.len() - 1 ==> t == s
        }),
{
    reveal(execute);
}

/// `hlt` halts the machine; `ld` and `st` schedule a load into, or a store
/// from, the destination register at the 16-bit sum of the primary source
/// and the second source.
pub proof fn lemma_control_instructions(s: VmState, core_idx: int, f: Fields, ssrc: u16)
    requires
        s.regs.len() == 32,
    ensures
        ({
            let t = execute(s, core_idx, f, ssrc);
            let a = s.regs[(f.psrcreg % 32) as int];
            &&& f.loi == 13 ==> t.halted
            &&& (f.loi == 2 || f.loi == 10) ==> t.sch_addr == (a % 0x1_0000 + ssrc) % 0x1_0000
                && t.sch_reg == f.destreg && t.regs == s.regs
            &&& f.loi == 2 ==> t.sch_mode == SchMode::Load
            &&& f.loi == 10 ==> t.sch_mode == SchMode::Store
        }),
{
    reveal(execute);
}


/// The memory slot completes a scheduled store or load: after a store to a
/// memory address (outside the I/O window) that address reads back the
/// stored register's value (patched); after a load from such an address the
/// loaded register holds the word stored there.
pub proof fn lemma_memory_slot_transfers(s: VmState)
    requires
        s.wf(),
        (s.sch_addr as int) < s.bus.mem_size(),
        !crate::bus::is_io_write(s.sch_addr),
    ensures
        s.sch_mode == SchMode::Store ==> bus_read(memory_slot(s).bus, s.sch_addr).0 == patched(
            s.regs[(s.sch_reg % 32) as int],
        ),
        s.sch_mode == SchMode::Load && s.sch_reg % 32 != 0 ==> memory_slot(s).regs[(s.sch_reg
            % 32) as int] == patched(s.bus.ram[s.sch_addr as int]),
        memory_slot(s).sch_mode == SchMode::Idle,
{
    reveal(memory_slot);
    crate::bus::lemma_read_after_write(s.bus, s.sch_addr, s.regs[(s.sch_reg % 32) as int]);
}

/// A halted machine executes nothing in a cycle: the cycle only completes
/// the memory operation that was pending.
pub proof fn lemma_halted_cycle(s: VmState)
    requires
        s.halted,
    ensures
        cycle_result(s) == memory_slot(s),
{
    reveal(memory_slot);
    let s1 = memory_slot(s);
    assert(s1.sch_mode == SchMode::Idle);
    assert(memory_slot(s1) == s1);
    if s.cores.len() > 0 {
        assert(s1.halted);
    }
}

// ---------------------------------------------------------------------------
// Executable machine
// ---------------------------------------------------------------------------

pub struct Vm {
    pub bus: Bus,
    regs: [u32; 32],
    flags: u8,
    pub ip: u32,
    pub halted: bool,
    pub cores: Vec<CoreType>,
    pub allow_smul: bool,
    sch_addr: u16,
    sch_mode: SchMode,
    sch_reg: u8,
    pub trace: Option<Trace>,
}

impl View for Vm {
    type V = VmState;

    closed spec fn view(&self) -> VmState {
        VmState {
            bus: self.bus@,
            regs: self.regs@,
            flags: self.flags,
            ip: self.ip,
            halted: self.halted,
            cores: self.cores@,
            allow_smul: self.allow_smul,
            sch_addr: self.sch_addr,
            sch_mode: self.sch_mode,
            sch_reg: self.sch_reg,
            trace: trace_state(self.trace),
        }
    }
}

impl Vm {
    pub fn new(bus: Bus, cores: Vec<CoreType>, allow_smul: bool, trace_size: Option<usize>) -> (vm:
        Self)
        ensures
            vm@ == (VmState {
                bus: bus@,
                regs: Seq::new(32, |i: int| 0u32),
                flags: 0,
                ip: 0,
                halted: false,
                cores: cores@,
                allow_smul,
                sch_addr: 0,
                sch_mode: SchMode::Idle,
                sch_reg: 0,
                trace: match trace_size {
                    Some(m) => Some(TraceState { entries: Seq::empty(), max_size: m }),
                    None => None,
                },
            }),
            bus@.wf() && bus@.addressable() ==> vm@.wf(),
    {
        let trace = match trace_size {
            Some(max_size) => {
                let cap = if max_size < 1024 * 1024 {
                    max_size
                } else {
                    1024 * 1024
                };
                Some(Trace { entries: Vec::with_capacity(cap), max_size })
            },
            None => None,
        };
        let vm = Vm {
            bus,
            regs: [0u32; 32],
            flags: 0,
            ip: 0,
            halted: false,
            cores,
            allow_smul,
            sch_addr: 0,
            sch_mode: SchMode::Idle,
            sch_reg: 0,
            trace,
        };
        assert(vm.regs@ =~= Seq::new(32, |i: int| 0u32));
        assert(vm@.trace =~= match trace_size {
            Some(m) => Some(TraceState { entries: Seq::empty(), max_size: m }),
            None => None,
        });
        vm
    }

    fn read_reg(&self, index: u8) -> (r: u32)
        ensures
            r == reg_of(self@.regs, index),
    {
        self.regs[(index % 32) as usize]
    }

    fn write_reg(&mut self, index: u8, val: u32)
        requires
            old(self)@.wf(),
        ensures
            final(self)@ == (VmState { regs: with_reg(old(self)@.regs, index, val), ..old(self)@ }),
            final(self)@.wf(),
    {
        let i = (index % 32) as usize;
        if i != 0 {
            self.regs[i] = patch_word(val);
        }
    }

    fn handle_sch_mem(&mut self)
        requires
            old(self)@.wf(),
        ensures
            final(self)@ == memory_slot(old(self)@),
            final(self)@.wf(),
            final(self)@.cores == old(self)@.cores,
    {
        proof {
            reveal(memory_slot);
        }
        match self.sch_mode {
            SchMode::Load => {
                let val = self.bus.read(self.sch_addr);
                let r = self.sch_reg;
                self.write_reg(r, val);
            },
            SchMode::Store => {
                let val = self.read_reg(self.sch_reg);
                self.bus.write(self.sch_addr, val);
            },
            SchMode::Idle => {},
        }
        self.sch_mode = SchMode::Idle;
    }

    /// Runs one cycle: every core in turn gets a memory slot and then
    /// executes one instruction, stopping early when the machine halts; a
    /// final memory slot completes the cycle.
    pub fn cycle(&mut self)
        requires
            old(self)@.wf(),
        ensures
            final(self)@ == cycle_result(old(self)@),
            final(self)@.wf(),
    {
        let core_count = self.cores.len();
        let ghost n = core_count as int;
        let mut i: usize = 0;
        while i < core_count
            invariant_except_break
                cycle_from(self@, i as int, n) == cycle_result(old(self)@),
            invariant
                i <= core_count,
                core_count == self@.cores.len(),
                n == core_count,
                self@.wf(),
            ensures
                self@.wf(),
                memory_slot(self@) == cycle_result(old(self)@),
            decreases core_count - i,
        {
            self.handle_sch_mem();
            if self.halted {
                break;
            }
            self.exec_instruction(i);
            i = i + 1;
        }
        self.handle_sch_mem();
    }

    fn record_trace(&mut self, instruction: u32, f: Fields, ssrc: u16)
        requires
            old(self)@.wf(),
        ensures
            final(self)@ == (VmState {
                trace: traced(
                    old(self)@.trace,
                    TraceRecord {
                        instruction,
                        addr: old(self)@.ip,
                        dest: f.destreg as u32,
                        psrc: old(self)@.regs[(f.psrcreg % 32) as int],
                        ssrc: ssrc as u32,
                    },
                ),
                ..old(self)@
            }),
            final(self)@.wf(),
    {
        let psrc_val = self.regs[(f.psrcreg % 32) as usize];
        let addr = self.ip;
        let mut t = self.trace.take();
        match t {
            Some(ref mut trace) => {
                if trace.entries.len() < trace.max_size {
                    let entry = TraceEntry {
                        instruction,
                        addr,
                        ops: [f.destreg as u32, psrc_val, ssrc as u32],
                    };
                    let ghost old_entries = trace.entries@;
                    trace.entries.push(entry);
                    assert(trace.entries@.map_values(|e: TraceEntry| e@) =~= old_entries.map_values(
                        |e: TraceEntry| e@,
                    ).push(entry@));
                }
            },
            None => {},
        }
        self.trace = t;
    }

    fn exec_instruction(&mut self, core_idx: usize)
        requires
            old(self)@.wf(),
            core_idx < old(self)@.cores.len(),
        ensures
            final(self)@ == step(old(self)@, core_idx as int),
            final(self)@.wf(),
            final(self)@.cores == old(self)@.cores,
    {
        proof {
            reveal(step);
        }
        // Reset IP if out of bounds
        let mem_size = self.bus.mem_size();
        if self.ip > mem_size as u32 {
            self.ip = 0;
        }
        // Fetch instruction
        let instruction = self.bus.read(self.ip as u16);
        let f = decode(instruction);
        // Resolve the second source: if soii=0, read from register (truncated to u16)
        let raw: u16 = if f.soii == 0 {
            (self.read_reg((f.raw_ssrc % 32) as u8) % 0x1_0000) as u16
        } else {
            f.raw_ssrc
        };
        let ssrc = patch_word(raw as u32) as u16;
        self.record_trace(instruction, f, ssrc);
        self.execute_fields(core_idx, f, ssrc);
    }

    #[verifier::rlimit(40)]
    fn execute_fields(&mut self, core_idx: usize, f: Fields, ssrc: u16)
        requires
            old(self)@.wf(),
            core_idx < old(self)@.cores.len(),
            old(self)@.ip <= 0xFFFF,
            f.psrcreg < 32,
            f.loi < 16,
        ensures
            final(self)@ == execute(old(self)@, core_idx as int, f, ssrc),
            final(self)@.wf(),
            final(self)@.cores == old(self)@.cores,
    {
        proof {
            reveal(execute);
        }
        let core_type = self.cores[core_idx];
        let update = f.moi != 0;
        let dest = f.destreg;
        let a = self.read_reg(f.psrcreg);
        let x = ssrc as u32;
        let mut skip_ip_inc = false;
        let loi = f.loi;
        if loi == 4 {
            // sub: operand order is ssrc - psrcreg (reversed vs add)
            let result = crate::alu::sub(x, a, &mut self.flags, update);
            self.write_reg(dest, result);
        } else if loi == 5 {
            // sbb
            let carry_in = get_flag(self.flags, 2);
            let result = sbb(x, a, &mut self.flags, carry_in, update);
            self.write_reg(dest, result);
        } else if loi == 6 {
            // add
            let result = crate::alu::add(a, x, &mut self.flags, update);
            self.write_reg(dest, result);
        } else if loi == 7 {
            // adc
            let carry_in: u8 = if get_flag(self.flags, 2) {
                1
            } else {
                0
            };
            let result = adc(a, x, &mut self.flags, carry_in, update);
            self.write_reg(dest, result);
        } else if loi == 8 {
            let result = xor(a, x, &mut self.flags, update);
            self.write_reg(dest, result);
        } else if loi == 9 {
            let result = or(a, x, &mut self.flags, update);
            self.write_reg(dest, result);
        } else if loi == 11 {
            // bitshift: raw_ssrc bit 15 determines direction
            let is_shr = f.raw_ssrc / 0x8000 != 0;
            let result = if !is_shr {
                shl(a, x % 16, &mut self.flags, update)
            } else {
                shr(a, x % 16, &mut self.flags, update)
            };
            self.write_reg(dest, result);
        } else if loi == 12 {
            let result = and(a, x, &mut self.flags, update);
            self.write_reg(dest, result);
        } else if loi == 13 {
            // hlt
            self.halted = true;
        } else if loi == 14 || loi == 15 {
            // mul (moi=0) / muls (moi=1); mulh (moi=0) / mulx (moi=1)
            let can_mul = match core_type {
                CoreType::S => self.allow_smul,
                CoreType::M => true,
                CoreType::F => false,
            };
            if can_mul {
                let result = if loi == 14 {
                    if f.moi == 0 {
                        crate::alu::mul(a, x)
                    } else {
                        muls(a, x)
                    }
                } else {
                    if f.moi == 0 {
                        mulh(a, x)
                    } else {
                        mulx(a, x)
                    }
                };
                self.write_reg(dest, result);
            } else {
                skip_ip_inc = true;
            }
        } else if loi == 1 {
            // jmp
            let sync = f.psrcreg / 16 == 0;
            let condindex = (f.psrcreg % 16) as usize;
            if eval_condition(self.flags, condindex) {
                skip_ip_inc = true;
                // Sync jumps only execute on the last core
                if !sync || core_idx == self.cores.len() - 1 {
                    let ret = self.ip + 1;
                    self.write_reg(dest, ret);
                    self.ip = x;
                }
            }
        } else if loi == 2 || loi == 10 {
            // ld / st (scheduled for the next handle_sch_mem)
            self.sch_mode = if loi == 2 {
                SchMode::Load
            } else {
                SchMode::Store
            };
            self.sch_addr = ((alu_word_limit(a) + alu_word_limit(x)) % 0x1_0000) as u16;
            self.sch_reg = dest;
        } else if loi == 0 {
            // mov (moi=0) / movf (moi=1)
            let upper = a & 0xFFFF_0000;
            let lower = x & 0xFFFF;
            let newval = patch_word(upper | lower);
            self.write_reg(dest, newval);
            if update {
                set_flag(&mut self.flags, 0, newval == 0);
                set_flag(&mut self.flags, 1, (newval >> 31) != 0);
                set_flag(&mut self.flags, 2, false);
            }
        } else {
            // exh
            let shifted = a << 16;
            let lower = x >> 16;  // always 0 since ssrc is 16 bits
            let newval = patch_word(shifted | lower);
            self.write_reg(dest, newval);
            if update {
                set_flag(&mut self.flags, 0, newval == 0);
                set_flag(&mut self.flags, 1, (newval >> 31) != 0);
                set_flag(&mut self.flags, 2, false);
            }
        }
        if !skip_ip_inc {
            self.ip = self.ip + 1;
        }
    }
}

} // verus!
