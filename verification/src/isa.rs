use vstd::prelude::*;

verus! {

/// The fields of an instruction word.
///
/// | bits   | field    | meaning                                         |
/// |--------|----------|-------------------------------------------------|
/// | 31     | moi      | update flags / alternate form                   |
/// | 30     | soii     | second source is an immediate (else a register) |
/// | 25..29 | destreg  | destination register                            |
/// | 20..24 | psrcreg  | primary source register (jump: condition)       |
/// | 16..19 | loi      | operation                                       |
/// | 0..15  | raw_ssrc | second source: immediate or register number     |
#[derive(Clone, Copy)]
pub struct Fields {
    pub moi: u32,
    pub soii: u32,
    pub destreg: u8,
    pub psrcreg: u8,
    pub loi: u8,
    pub raw_ssrc: u16,
}

pub open spec fn fields_of(instruction: u32) -> Fields {
    Fields {
        moi: instruction / 0x8000_0000,
        soii: (instruction / 0x4000_0000) % 2,
        destreg: ((instruction / 0x200_0000) % 32) as u8,
        psrcreg: ((instruction / 0x10_0000) % 32) as u8,
        loi: ((instruction / 0x1_0000) % 16) as u8,
        raw_ssrc: (instruction % 0x1_0000) as u16,
    }
}

/// Splits an instruction word into its fields.
pub fn decode(instruction: u32) -> (f: Fields)
    ensures
        f == fields_of(instruction),
{
    Fields {
        moi: instruction / 0x8000_0000,
        soii: (instruction / 0x4000_0000) % 2,
        destreg: ((instruction / 0x200_0000) % 32) as u8,
        psrcreg: ((instruction / 0x10_0000) % 32) as u8,
        loi: ((instruction / 0x1_0000) % 16) as u8,
        raw_ssrc: (instruction % 0x1_0000) as u16,
    }
}

} // verus!
