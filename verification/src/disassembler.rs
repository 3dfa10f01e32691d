use vstd::prelude::*;
use crate::alu::{patch_word, patched, flag_bit, condition_holds};
use crate::isa::{Fields, fields_of, decode};

verus! {

/// The decimal digit `d` (0..=9).
pub open spec fn digit_char(d: int) -> char {
    if d == 0 {
        '0'
    } else if d == 1 {
        '1'
    } else if d == 2 {
        '2'
    } else if d == 3 {
        '3'
    } else if d == 4 {
        '4'
    } else if d == 5 {
        '5'
    } else if d == 6 {
        '6'
    } else if d == 7 {
        '7'
    } else if d == 8 {
        '8'
    } else {
        '9'
    }
}

/// The decimal representation of `n`, without leading zeros.
pub open spec fn decimal(n: nat) -> Seq<char>
    decreases n,
{
    if n < 10 {
        seq![digit_char(n as int)]
    } else {
        decimal(n / 10).push(digit_char((n % 10) as int))
    }
}

/// The name of register `idx`: `r0`..`r31`, and `rXX` for anything larger.
pub open spec fn reg_text(idx: u8) -> Seq<char> {
    if idx <= 31 {
        seq!['r'] + decimal(idx as nat)
    } else {
        seq!['r', 'X', 'X']
    }
}

/// `name a, b, c`
pub open spec fn three_operands(name: Seq<char>, a: Seq<char>, b: Seq<char>, c: Seq<char>) -> Seq<
    char,
> {
    name + " "@ + a + ", "@ + b + ", "@ + c
}

/// The condition suffix of jump condition `cond` (0..=15).
pub open spec fn jump_suffix(cond: int) -> Seq<char> {
    if cond == 0 {
        "mp"@
    } else if cond == 1 {
        "be"@
    } else if cond == 2 {
        "l"@
    } else if cond == 3 {
        "le"@
    } else if cond == 4 {
        "s"@
    } else if cond == 5 {
        "z"@
    } else if cond == 6 {
        "o"@
    } else if cond == 7 {
        "c"@
    } else if cond == 8 {
        "n"@
    } else if cond == 9 {
        "nbe"@
    } else if cond == 10 {
        "nl"@
    } else if cond == 11 {
        "nle"@
    } else if cond == 12 {
        "ns"@
    } else if cond == 13 {
        "nz"@
    } else if cond == 14 {
        "no"@
    } else {
        "nc"@
    }
}

/// The mnemonic of a jump: `j`, then `y` for a sync jump, then the
/// condition suffix (none for an unconditional sync jump).
pub open spec fn jump_name(psrcreg: u8) -> Seq<char> {
    let sync = psrcreg / 16 == 0;
    let cond = (psrcreg % 16) as int;
    let y: Seq<char> = if sync { "y"@ } else { Seq::empty() };
    let suffix: Seq<char> = if cond == 0 {
        if !sync { jump_suffix(0) } else { Seq::empty() }
    } else {
        jump_suffix(cond)
    };
    "j"@ + y + suffix
}

/// The text of an ALU operation with the destination, the primary source and
/// the second source, in that order; `sub`/`sbb` put the second source first.
pub open spec fn op_text(f: Fields, ssrc: Seq<char>) -> Seq<char> {
    let d = reg_text(f.destreg);
    let p = reg_text(f.psrcreg);
    let set_flags = f.moi != 0;
    if f.loi == 4 {
        three_operands(if !set_flags { "subs"@ } else { "sub"@ }, d, ssrc, p)
    } else if f.loi == 5 {
        three_operands(if !set_flags { "sbbs"@ } else { "sbb"@ }, d, ssrc, p)
    } else if f.loi == 6 {
        three_operands(if !set_flags { "adds"@ } else { "add"@ }, d, p, ssrc)
    } else if f.loi == 7 {
        three_operands(if !set_flags { "adcs"@ } else { "adc"@ }, d, p, ssrc)
    } else if f.loi == 8 {
        three_operands(if !set_flags { "xors"@ } else { "xor"@ }, d, p, ssrc)
    } else if f.loi == 9 {
        three_operands(if !set_flags { "ors"@ } else { "or"@ }, d, p, ssrc)
    } else if f.loi == 11 {
        if f.raw_ssrc / 0x8000 == 0 {
            three_operands(if !set_flags { "shls"@ } else { "shl"@ }, d, p, ssrc)
        } else {
            three_operands(if !set_flags { "shrs"@ } else { "shr"@ }, d, p, ssrc)
        }
    } else if f.loi == 12 {
        three_operands(if !set_flags { "ands"@ } else { "and"@ }, d, p, ssrc)
    } else if f.loi == 13 {
        "hlt"@
    } else if f.loi == 14 {
        three_operands(if !set_flags { "mul"@ } else { "muls"@ }, d, p, ssrc)
    } else if f.loi == 15 {
        three_operands(if !set_flags { "mulh"@ } else { "mulx"@ }, d, p, ssrc)
    } else if f.loi == 1 {
        jump_name(f.psrcreg) + " "@ + d + ", "@ + ssrc
    } else if f.loi == 2 {
        three_operands("ld"@, d, p, ssrc)
    } else if f.loi == 10 {
        three_operands("st"@, d, p, ssrc)
    } else if f.loi == 3 {
        three_operands("exh"@, d, p, ssrc)
    } else {
        three_operands(if set_flags { "movf"@ } else { "mov"@ }, d, p, ssrc)
    }
}

/// The assembly text of an instruction word. A register second source that
/// names no register (above 31) makes the word data: `dw <decimal word>`.
pub open spec fn disassembly(instruction: u32) -> Seq<char> {
    let f = fields_of(instruction);
    let ssrc_val = patched(f.raw_ssrc as u32);
    if f.soii == 0 && ssrc_val > 31 {
        "dw "@ + decimal(instruction as nat)
    } else {
        let ssrc = if f.soii != 0 {
            decimal(ssrc_val as nat)
        } else {
            reg_text(ssrc_val as u8)
        };
        op_text(f, ssrc)
    }
}


/// What a base condition name tests: `mp` always, `be` below or equal
/// (carry or zero), `l` less (sign differs from overflow), `le` less or
/// equal, `s` sign, `z` zero, `o` overflow, `c` carry.
pub open spec fn condition_named(name: Seq<char>, flags: u8) -> bool {
    let cf = flag_bit(flags, 2);
    let zf = flag_bit(flags, 0);
    let sf = flag_bit(flags, 1);
    let of = flag_bit(flags, 3);
    if name == "mp"@ {
        true
    } else if name == "be"@ {
        cf || zf
    } else if name == "l"@ {
        sf != of
    } else if name == "le"@ {
        zf || sf != of
    } else if name == "s"@ {
        sf
    } else if name == "z"@ {
        zf
    } else if name == "o"@ {
        of
    } else if name == "c"@ {
        cf
    } else {
        false
    }
}

/// What a jump suffix tests: a leading `n` negates the condition named by
/// the rest (`n` alone negates "always").
pub open spec fn suffix_meaning(suffix: Seq<char>, flags: u8) -> bool {
    if suffix.len() > 0 && suffix[0] == 'n' {
        let rest = suffix.drop_first();
        !(if rest.len() == 0 { true } else { condition_named(rest, flags) })
    } else {
        condition_named(suffix, flags)
    }
}

/// The suffix the disassembler writes for jump condition `cond` names
/// exactly the condition the machine evaluates for that index.
pub proof fn lemma_jump_suffix_names_condition(cond: int, flags: u8)
    requires
        0 <= cond < 16,
    ensures
        suffix_meaning(jump_suffix(cond), flags) == condition_holds(flags, cond),
{
    reveal_strlit("mp");
    reveal_strlit("be");
    reveal_strlit("l");
    reveal_strlit("le");
    reveal_strlit("s");
    reveal_strlit("z");
    reveal_strlit("o");
    reveal_strlit("c");
    reveal_strlit("n");
    reveal_strlit("nbe");
    reveal_strlit("nl");
    reveal_strlit("nle");
    reveal_strlit("ns");
    reveal_strlit("nz");
    reveal_strlit("no");
    reveal_strlit("nc");
    let names = seq!["mp"@, "be"@, "l"@, "le"@, "s"@, "z"@, "o"@, "c"@];
    assert forall|i: int, j: int| 0 <= i < 8 && 0 <= j < 8 && i != j implies names[i]
        != names[j] by {
        if names[i] == names[j] {
            assert(names[i].len() == names[j].len());
            assert(names[i][0] == names[j][0]);
            if names[i].len() > 1 {
                assert(names[i][1] == names[j][1]);
            }
        }
    }
    let suffix = jump_suffix(cond);
    if cond >= 8 {
        assert(suffix[0] == 'n');
        if cond > 8 {
            assert(suffix.drop_first() =~= names[cond - 8]);
        }
    } else {
        assert(suffix == names[cond]);
        assert(suffix[0] != 'n');
    }
}

/// The disassembler names a shift `shl` exactly when the machine shifts
/// left: when bit 15 of the raw second source is clear (and `shr` when it
/// is set).
pub proof fn lemma_shift_mnemonic(instruction: u32)
    requires
        fields_of(instruction).loi == 11,
        !(fields_of(instruction).soii == 0 && patched(fields_of(instruction).raw_ssrc as u32)
            > 31),
    ensures
        fields_of(instruction).raw_ssrc < 0x8000 ==> disassembly(instruction).subrange(0, 3)
            == "shl"@,
        fields_of(instruction).raw_ssrc >= 0x8000 ==> disassembly(instruction).subrange(0, 3)
            == "shr"@,
{
    reveal_strlit("shl");
    reveal_strlit("shls");
    reveal_strlit("shr");
    reveal_strlit("shrs");
    let d = disassembly(instruction);
    let f = fields_of(instruction);
    let ssrc_val = patched(f.raw_ssrc as u32);
    let ssrc = if f.soii != 0 {
        decimal(ssrc_val as nat)
    } else {
        reg_text(ssrc_val as u8)
    };
    let name = if f.raw_ssrc / 0x8000 == 0 {
        if f.moi == 0 { "shls"@ } else { "shl"@ }
    } else {
        if f.moi == 0 { "shrs"@ } else { "shr"@ }
    };
    let rest = " "@ + reg_text(f.destreg) + ", "@ + reg_text(f.psrcreg) + ", "@ + ssrc;
    assert(d =~= name + rest);
    assert((name + rest).subrange(0, 3) =~= name.subrange(0, 3));
}


/// The disassembly of an instruction (one that is not data) begins with the
/// name of the operation the machine executes for its opcode: `mov` (0),
/// `j` (1), `ld` (2), `exh` (3), `sub` (4), `sbb` (5), `add` (6), `adc` (7),
/// `xor` (8), `or` (9), `st` (10), `sh` (11), `and` (12), `hlt` (13), `mul`
/// (14, 15); with the alternate-form bit the multiplications are `muls` and
/// `mulx` (signed) and `mov` is `movf` (which sets flags).
pub proof fn lemma_mnemonic_names_operation(instruction: u32)
    requires
        !(fields_of(instruction).soii == 0 && patched(fields_of(instruction).raw_ssrc as u32)
            > 31),
    ensures
        ({
            let d = disassembly(instruction);
            let f = fields_of(instruction);
            &&& f.loi == 0 ==> d.subrange(0, 3) == "mov"@ && (d.subrange(0, 4) == "movf"@) == (
            f.moi != 0)
            &&& f.loi == 1 ==> d.subrange(0, 1) == "j"@
            &&& f.loi == 2 ==> d.subrange(0, 3) == "ld "@
            &&& f.loi == 3 ==> d.subrange(0, 3) == "exh"@
            &&& f.loi == 4 ==> d.subrange(0, 3) == "sub"@
            &&& f.loi == 5 ==> d.subrange(0, 3) == "sbb"@
            &&& f.loi == 6 ==> d.subrange(0, 3) == "add"@
            &&& f.loi == 7 ==> d.subrange(0, 3) == "adc"@
            &&& f.loi == 8 ==> d.subrange(0, 3) == "xor"@
            &&& f.loi == 9 ==> d.subrange(0, 2) == "or"@
            &&& f.loi == 10 ==> d.subrange(0, 3) == "st "@
            &&& f.loi == 11 ==> d.subrange(0, 2) == "sh"@
            &&& f.loi == 12 ==> d.subrange(0, 3) == "and"@
            &&& f.loi == 13 ==> d == "hlt"@
            &&& f.loi == 14 ==> d.subrange(0, 3) == "mul"@ && (d.subrange(0, 4) == "muls"@) == (
            f.moi != 0)
            &&& f.loi == 15 ==> d.subrange(0, 4) == (if f.moi != 0 { "mulx"@ } else { "mulh"@ })
        }),
{
    let f = fields_of(instruction);
    let d = disassembly(instruction);
    if f.loi == 1 {
        lemma_jump_text(instruction);
    } else if f.loi != 13 {
        lemma_operation_text(instruction);
        let name = operation_name(f);
        let rest = d.subrange(name.len() as int, d.len() as int);
        assert(d =~= name + rest);
        assert(rest.len() > 0 && rest[0] == ' ');
        lemma_name_prefixes(f, rest);
    }
}

/// The operation name in the disassembly of a non-jump instruction.
spec fn operation_name(f: Fields) -> Seq<char> {
    if f.loi == 4 {
        if f.moi == 0 { "subs"@ } else { "sub"@ }
    } else if f.loi == 5 {
        if f.moi == 0 { "sbbs"@ } else { "sbb"@ }
    } else if f.loi == 6 {
        if f.moi == 0 { "adds"@ } else { "add"@ }
    } else if f.loi == 7 {
        if f.moi == 0 { "adcs"@ } else { "adc"@ }
    } else if f.loi == 8 {
        if f.moi == 0 { "xors"@ } else { "xor"@ }
    } else if f.loi == 9 {
        if f.moi == 0 { "ors"@ } else { "or"@ }
    } else if f.loi == 11 {
        if f.raw_ssrc / 0x8000 == 0 {
            if f.moi == 0 { "shls"@ } else { "shl"@ }
        } else {
            if f.moi == 0 { "shrs"@ } else { "shr"@ }
        }
    } else if f.loi == 12 {
        if f.moi == 0 { "ands"@ } else { "and"@ }
    } else if f.loi == 14 {
        if f.moi == 0 { "mul"@ } else { "muls"@ }
    } else if f.loi == 15 {
        if f.moi == 0 { "mulh"@ } else { "mulx"@ }
    } else if f.loi == 2 {
        "ld"@
    } else if f.loi == 10 {
        "st"@
    } else if f.loi == 3 {
        "exh"@
    } else {
        if f.moi != 0 { "movf"@ } else { "mov"@ }
    }
}

proof fn lemma_operation_text(instruction: u32)
    requires
        !(fields_of(instruction).soii == 0 && patched(fields_of(instruction).raw_ssrc as u32)
            > 31),
        fields_of(instruction).loi != 1,
        fields_of(instruction).loi != 13,
    ensures
        ({
            let f = fields_of(instruction);
            let name = operation_name(f);
            let d = disassembly(instruction);
            &&& d.len() > name.len()
            &&& d.subrange(0, name.len() as int) == name
            &&& d[name.len() as int] == ' '
        }),
{
    reveal_strlit(" ");
    let d = disassembly(instruction);
    let f = fields_of(instruction);
    let ssrc_val = patched(f.raw_ssrc as u32);
    let ssrc = if f.soii != 0 {
        decimal(ssrc_val as nat)
    } else {
        reg_text(ssrc_val as u8)
    };
    let dt = reg_text(f.destreg);
    let pt = reg_text(f.psrcreg);
    let rest = if f.loi == 4 || f.loi == 5 {
        " "@ + dt + ", "@ + ssrc + ", "@ + pt
    } else {
        " "@ + dt + ", "@ + pt + ", "@ + ssrc
    };
    let name = operation_name(f);
    let (a, b) = if f.loi == 4 || f.loi == 5 { (ssrc, pt) } else { (pt, ssrc) };
    assert(d == op_text(f, ssrc));
    assert(op_text(f, ssrc) == three_operands(name, dt, a, b));
    lemma_three_operands_split(name, dt, a, b);
    assert(rest == " "@ + dt + ", "@ + a + ", "@ + b);
    lemma_starts_with(name, rest, name.len() as int);
    assert(name.subrange(0, name.len() as int) =~= name);
    assert((name + rest)[name.len() as int] == rest[0]);
}

proof fn lemma_three_operands_split(name: Seq<char>, a: Seq<char>, b: Seq<char>, c: Seq<char>)
    ensures
        three_operands(name, a, b, c) == name + (" "@ + a + ", "@ + b + ", "@ + c),
{
    assert(three_operands(name, a, b, c) =~= name + (" "@ + a + ", "@ + b + ", "@ + c));
}

proof fn lemma_jump_text(instruction: u32)
    requires
        fields_of(instruction).loi == 1,
        !(fields_of(instruction).soii == 0 && patched(fields_of(instruction).raw_ssrc as u32)
            > 31),
    ensures
        disassembly(instruction).subrange(0, 1) == "j"@,
{
    reveal_strlit("j");
    let d = disassembly(instruction);
    let f = fields_of(instruction);
    let ssrc_val = patched(f.raw_ssrc as u32);
    let ssrc = if f.soii != 0 {
        decimal(ssrc_val as nat)
    } else {
        reg_text(ssrc_val as u8)
    };
    let sync = f.psrcreg / 16 == 0;
    let cond = (f.psrcreg % 16) as int;
    let y: Seq<char> = if sync { "y"@ } else { Seq::empty() };
    let suffix: Seq<char> = if cond == 0 {
        if !sync { jump_suffix(0) } else { Seq::empty() }
    } else {
        jump_suffix(cond)
    };
    let jr = y + suffix + " "@ + reg_text(f.destreg) + ", "@ + ssrc;
    assert(d =~= "j"@ + jr);
    lemma_starts_with("j"@, jr, 1);
}

proof fn lemma_name_prefixes(f: Fields, rest: Seq<char>)
    requires
        f.loi != 1,
        f.loi != 13,
        rest.len() > 0,
        rest[0] == ' ',
    ensures
        ({
            let d = operation_name(f) + rest;
            &&& f.loi == 0 ==> d.subrange(0, 3) == "mov"@ && (d.subrange(0, 4) == "movf"@) == (
            f.moi != 0)
            &&& f.loi == 2 ==> d.subrange(0, 3) == "ld "@
            &&& f.loi == 3 ==> d.subrange(0, 3) == "exh"@
            &&& f.loi == 4 ==> d.subrange(0, 3) == "sub"@
            &&& f.loi == 5 ==> d.subrange(0, 3) == "sbb"@
            &&& f.loi == 6 ==> d.subrange(0, 3) == "add"@
            &&& f.loi == 7 ==> d.subrange(0, 3) == "adc"@
            &&& f.loi == 8 ==> d.subrange(0, 3) == "xor"@
            &&& f.loi == 9 ==> d.subrange(0, 2) == "or"@
            &&& f.loi == 10 ==> d.subrange(0, 3) == "st "@
            &&& f.loi == 11 ==> d.subrange(0, 2) == "sh"@
            &&& f.loi == 12 ==> d.subrange(0, 3) == "and"@
            &&& f.loi == 14 ==> d.subrange(0, 3) == "mul"@ && (d.subrange(0, 4) == "muls"@) == (
            f.moi != 0)
            &&& f.loi == 15 ==> d.subrange(0, 4) == (if f.moi != 0 { "mulx"@ } else { "mulh"@ })
        }),
{
    let name = operation_name(f);
    let d = name + rest;
    if f.loi == 0 {
        reveal_strlit("mov");
        reveal_strlit("movf");
        assert(d.subrange(0, 3) =~= "mov"@);
        if f.moi != 0 {
            assert(d.subrange(0, 4) =~= "movf"@);
        } else {
            assert(d[3] == ' ');
            assert(d.subrange(0, 4)[3] != "movf"@[3]);
        }
    } else if f.loi == 14 {
        reveal_strlit("mul");
        reveal_strlit("muls");
        assert(d.subrange(0, 3) =~= "mul"@);
        if f.moi != 0 {
            assert(d.subrange(0, 4) =~= "muls"@);
        } else {
            assert(d[3] == ' ');
            assert(d.subrange(0, 4)[3] != "muls"@[3]);
        }
    } else if f.loi == 15 {
        reveal_strlit("mulh");
        reveal_strlit("mulx");
        assert(d.subrange(0, 4) =~= name);
    } else if f.loi == 2 {
        reveal_strlit("ld");
        reveal_strlit("ld ");
        assert(d.subrange(0, 3) =~= "ld "@);
    } else if f.loi == 10 {
        reveal_strlit("st");
        reveal_strlit("st ");
        assert(d.subrange(0, 3) =~= "st "@);
    } else if f.loi == 3 {
        reveal_strlit("exh");
        assert(d.subrange(0, 3) =~= "exh"@);
    } else if f.loi == 4 {
        reveal_strlit("sub");
        reveal_strlit("subs");
        assert(d.subrange(0, 3) =~= "sub"@);
    } else if f.loi == 5 {
        reveal_strlit("sbb");
        reveal_strlit("sbbs");
        assert(d.subrange(0, 3) =~= "sbb"@);
    } else if f.loi == 6 {
        reveal_strlit("add");
        reveal_strlit("adds");
        assert(d.subrange(0, 3) =~= "add"@);
    } else if f.loi == 7 {
        reveal_strlit("adc");
        reveal_strlit("adcs");
        assert(d.subrange(0, 3) =~= "adc"@);
    } else if f.loi == 8 {
        reveal_strlit("xor");
        reveal_strlit("xors");
        assert(d.subrange(0, 3) =~= "xor"@);
    } else if f.loi == 9 {
        reveal_strlit("or");
        reveal_strlit("ors");
        assert(d.subrange(0, 2) =~= "or"@);
    } else if f.loi == 11 {
        reveal_strlit("sh");
        reveal_strlit("shl");
        reveal_strlit("shls");
        reveal_strlit("shr");
        reveal_strlit("shrs");
        assert(d.subrange(0, 2) =~= "sh"@);
    } else if f.loi == 12 {
        reveal_strlit("and");
        reveal_strlit("ands");
        assert(d.subrange(0, 3) =~= "and"@);
    }
}

proof fn lemma_starts_with(name: Seq<char>, rest: Seq<char>, k: int)
    requires
        0 <= k <= name.len(),
    ensures
        (name + rest).subrange(0, k) == name.subrange(0, k),
{
    assert((name + rest).subrange(0, k) =~= name.subrange(0, k));
}

fn digit_str(d: u32) -> (s: &'static str)
    requires
        d < 10,
    ensures
        s@ == seq![digit_char(d as int)],
{
    proof {
        reveal_strlit("0");
        reveal_strlit("1");
        reveal_strlit("2");
        reveal_strlit("3");
        reveal_strlit("4");
        reveal_strlit("5");
        reveal_strlit("6");
        reveal_strlit("7");
        reveal_strlit("8");
        reveal_strlit("9");
    }
    if d == 0 {
        "0"
    } else if d == 1 {
        "1"
    } else if d == 2 {
        "2"
    } else if d == 3 {
        "3"
    } else if d == 4 {
        "4"
    } else if d == 5 {
        "5"
    } else if d == 6 {
        "6"
    } else if d == 7 {
        "7"
    } else if d == 8 {
        "8"
    } else {
        "9"
    }
}

/// Appends the decimal representation of `n`.
fn push_decimal(s: &mut String, n: u32)
    ensures
        final(s)@ == old(s)@ + decimal(n as nat),
    decreases n,
{
    if n >= 10 {
        push_decimal(s, n / 10);
    }
    s.append(digit_str(n % 10));
    proof {
        if n >= 10 {
            assert(final(s)@ =~= old(s)@ + decimal(n as nat));
        }
    }
}

fn decimal_string(n: u32) -> (s: String)
    ensures
        s@ == decimal(n as nat),
{
    let mut s = String::new();
    push_decimal(&mut s, n);
    assert(s@ =~= decimal(n as nat));
    s
}

fn reg_name(idx: u8) -> (s: String)
    ensures
        s@ == reg_text(idx),
{
    proof {
        reveal_strlit("r");
        reveal_strlit("rXX");
    }
    if idx <= 31 {
        let mut s = String::from_str("r");
        push_decimal(&mut s, idx as u32);
        s
    } else {
        String::from_str("rXX")
    }
}

fn format3(name: &str, a: &str, b: &str, c: &str) -> (s: String)
    ensures
        s@ == three_operands(name@, a@, b@, c@),
{
    let mut s = String::from_str(name);
    s.append(" ");
    s.append(a);
    s.append(", ");
    s.append(b);
    s.append(", ");
    s.append(c);
    s
}

fn jmp_suffix(cond: u8) -> (s: &'static str)
    requires
        cond < 16,
    ensures
        s@ == jump_suffix(cond as int),
{
    if cond == 0 {
        "mp"
    } else if cond == 1 {
        "be"
    } else if cond == 2 {
        "l"
    } else if cond == 3 {
        "le"
    } else if cond == 4 {
        "s"
    } else if cond == 5 {
        "z"
    } else if cond == 6 {
        "o"
    } else if cond == 7 {
        "c"
    } else if cond == 8 {
        "n"
    } else if cond == 9 {
        "nbe"
    } else if cond == 10 {
        "nl"
    } else if cond == 11 {
        "nle"
    } else if cond == 12 {
        "ns"
    } else if cond == 13 {
        "nz"
    } else if cond == 14 {
        "no"
    } else {
        "nc"
    }
}

/// Disassembles an instruction word into assembly text.
pub fn disassemble(instruction: u32) -> (s: String)
    ensures
        s@ == disassembly(instruction),
{
    let f = decode(instruction);
    let moi = f.moi;
    let ssrc_val = patch_word(f.raw_ssrc as u32);

    // For soii=1, display the immediate value; for soii=0, display register name
    if f.soii == 0 && ssrc_val > 31 {
        let mut s = String::from_str("dw ");
        push_decimal(&mut s, instruction);
        return s;
    }
    let ssrc_string = if f.soii != 0 {
        decimal_string(ssrc_val)
    } else {
        reg_name(ssrc_val as u8)
    };
    let ssrc_str = ssrc_string.as_str();
    let dest_string = reg_name(f.destreg);
    let dest = dest_string.as_str();
    let psrc_string = reg_name(f.psrcreg);
    let psrc = psrc_string.as_str();

    // Jump condition decoding
    let sync = f.psrcreg / 16 == 0;
    let condindex = f.psrcreg % 16;

    // Use raw_ssrc bit 15 for shift direction (matches instruction execution)
    let is_shr = f.raw_ssrc / 0x8000 != 0;
    let loi = f.loi;
    if loi == 4 {
        format3(if moi == 0 { "subs" } else { "sub" }, dest, ssrc_str, psrc)
    } else if loi == 5 {
        format3(if moi == 0 { "sbbs" } else { "sbb" }, dest, ssrc_str, psrc)
    } else if loi == 6 {
        format3(if moi == 0 { "adds" } else { "add" }, dest, psrc, ssrc_str)
    } else if loi == 7 {
        format3(if moi == 0 { "adcs" } else { "adc" }, dest, psrc, ssrc_str)
    } else if loi == 8 {
        format3(if moi == 0 { "xors" } else { "xor" }, dest, psrc, ssrc_str)
    } else if loi == 9 {
        format3(if moi == 0 { "ors" } else { "or" }, dest, psrc, ssrc_str)
    } else if loi == 11 {
        if !is_shr {
            format3(if moi == 0 { "shls" } else { "shl" }, dest, psrc, ssrc_str)
        } else {
            format3(if moi == 0 { "shrs" } else { "shr" }, dest, psrc, ssrc_str)
        }
    } else if loi == 12 {
        format3(if moi == 0 { "ands" } else { "and" }, dest, psrc, ssrc_str)
    } else if loi == 13 {
        String::from_str("hlt")
    } else if loi == 14 {
        format3(if moi == 0 { "mul" } else { "muls" }, dest, psrc, ssrc_str)
    } else if loi == 15 {
        format3(if moi == 0 { "mulh" } else { "mulx" }, dest, psrc, ssrc_str)
    } else if loi == 1 {
        // jmp
        let mut name = String::from_str("j");
        if sync {
            name.append("y");
        }
        if condindex == 0 {
            if !sync {
                name.append(jmp_suffix(0));
            }
        } else {
            name.append(jmp_suffix(condindex));
        }
        name.append(" ");
        name.append(dest);
        name.append(", ");
        name.append(ssrc_str);
        let ghost y: Seq<char> = if sync { "y"@ } else { Seq::empty() };
        let ghost suffix: Seq<char> = if condindex == 0 {
            if !sync { jump_suffix(0) } else { Seq::empty() }
        } else {
            jump_suffix(condindex as int)
        };
        assert(name@ =~= "j"@ + y + suffix + " "@ + dest@ + ", "@ + ssrc_str@);
        name
    } else if loi == 2 {
        format3("ld", dest, psrc, ssrc_str)
    } else if loi == 10 {
        format3("st", dest, psrc, ssrc_str)
    } else if loi == 3 {
        format3("exh", dest, psrc, ssrc_str)
    } else {
        // mov / movf
        format3(if moi != 0 { "movf" } else { "mov" }, dest, psrc, ssrc_str)
    }
}

} // verus!
