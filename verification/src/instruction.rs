//! Instructions and the decoder from 16-bit words to instructions.

use vstd::prelude::*;

verus! {

#[derive(Debug, Clone, Copy, PartialEq, Eq)]
pub enum InstructionDecodeError {
    /// No instruction is encoded by `raw_inst`.
    UnsupportedOpcode { raw_inst: u16 },
}

/// One decoded instruction. `vx`, `vy`, `x`, `y` and `index` are register
/// numbers; `target` and `offset` are 12-bit addresses.
#[allow(inconsistent_fields)]
#[derive(Debug, Clone, Copy, PartialEq, Eq)]
pub enum Instruction {
    DisplayClear,
    SubReturn,
    Jump { target: u16 },
    SetVX { index: usize, value: u8 },
    AddVX { index: usize, value: u8 },
    SetIR { value: u16 },
    Draw { x: usize, y: usize, height: u16 },
    SubCall { target: u16 },
    SkipEq { vx: usize, nn: u8 },
    SkipNotEq { vx: usize, nn: u8 },
    SkipVEq { vx: usize, vy: usize },
    SkipVNotEq { vx: usize, vy: usize },
    MSetVReg { vx: usize, vy: usize },
    MSetVRegOr { vx: usize, vy: usize },
    MSetVRegAnd { vx: usize, vy: usize },
    MSetVRegXor { vx: usize, vy: usize },
    MAddWithCarry { vx: usize, vy: usize },
    MSubWithBorrow { vx: usize, vy: usize },
    MSubInvWithBorrow { vx: usize, vy: usize },
    MShiftRight { vx: usize, vy: usize },
    MShiftLeft { vx: usize, vy: usize },
    JumpOffset { vx: usize, offset: u16 },
    Random { vx: usize, nn: u8 },
    SkipIfKey { vx: usize },
    SkipIfNotKey { vx: usize },
    SetVXToDelayTimer { vx: usize },
    SetDelayTimerToVX { vx: usize },
    SetSoundTimerToVX { vx: usize },
    AddVXToIndexRegister { vx: usize },
    GetKeyBlock { vx: usize },
    FontChar { vx: usize },
    BinaryCodedDecimalConversion { vx: usize },
    SaveVXToMem { vx: usize },
    LoadVXFromMem { vx: usize },
}

/// The four bits of `raw` that start at bit `4 * k`, for `k` from 0 (lowest)
/// to 3 (highest).
pub open spec fn nibble(raw: u16, k: nat) -> int {
    if k == 0 {
        raw as int % 16
    } else if k == 1 {
        (raw as int / 16) % 16
    } else if k == 2 {
        (raw as int / 256) % 16
    } else {
        (raw as int / 4096) % 16
    }
}

/// The low byte of `raw`.
pub open spec fn low_byte(raw: u16) -> u8 {
    (raw as int % 256) as u8
}

/// The low twelve bits of `raw`.
pub open spec fn low_address(raw: u16) -> u16 {
    (raw as int % 4096) as u16
}

/// The failure that carries `raw`.
pub open spec fn unsupported(raw: u16) -> Result<Instruction, InstructionDecodeError> {
    Err(InstructionDecodeError::UnsupportedOpcode { raw_inst: raw })
}

/// What the arithmetic and logic group (top nibble 8) encodes, by its low
/// nibble.
pub open spec fn decode_alu_spec(raw: u16) -> Result<Instruction, InstructionDecodeError> {
    let vx = nibble(raw, 2) as usize;
    let vy = nibble(raw, 1) as usize;
    let n = nibble(raw, 0);
    if n == 0x0 {
        Ok(Instruction::MSetVReg { vx, vy })
    } else if n == 0x1 {
        Ok(Instruction::MSetVRegOr { vx, vy })
    } else if n == 0x2 {
        Ok(Instruction::MSetVRegAnd { vx, vy })
    } else if n == 0x3 {
        Ok(Instruction::MSetVRegXor { vx, vy })
    } else if n == 0x4 {
        Ok(Instruction::MAddWithCarry { vx, vy })
    } else if n == 0x5 {
        Ok(Instruction::MSubWithBorrow { vx, vy })
    } else if n == 0x6 {
        Ok(Instruction::MShiftRight { vx, vy })
    } else if n == 0x7 {
        Ok(Instruction::MSubInvWithBorrow { vx, vy })
    } else if n == 0xE {
        Ok(Instruction::MShiftLeft { vx, vy })
    } else {
        unsupported(raw)
    }
}

/// What the keypad group (top nibble E) encodes, by its low byte.
pub open spec fn decode_key_spec(raw: u16) -> Result<Instruction, InstructionDecodeError> {
    let vx = nibble(raw, 2) as usize;
    let nn = low_byte(raw);
    if nn == 0x9E {
        Ok(Instruction::SkipIfKey { vx })
    } else if nn == 0xA1 {
        Ok(Instruction::SkipIfNotKey { vx })
    } else {
        unsupported(raw)
    }
}

/// What the multi-function group (top nibble F) encodes, by its low byte.
pub open spec fn decode_misc_spec(raw: u16) -> Result<Instruction, InstructionDecodeError> {
    let vx = nibble(raw, 2) as usize;
    let nn = low_byte(raw);
    if nn == 0x07 {
        Ok(Instruction::SetVXToDelayTimer { vx })
    } else if nn == 0x0A {
        Ok(Instruction::GetKeyBlock { vx })
    } else if nn == 0x15 {
        Ok(Instruction::SetDelayTimerToVX { vx })
    } else if nn == 0x18 {
        Ok(Instruction::SetSoundTimerToVX { vx })
    } else if nn == 0x1E {
        Ok(Instruction::AddVXToIndexRegister { vx })
    } else if nn == 0x29 {
        Ok(Instruction::FontChar { vx })
    } else if nn == 0x33 {
        Ok(Instruction::BinaryCodedDecimalConversion { vx })
    } else if nn == 0x55 {
        Ok(Instruction::SaveVXToMem { vx })
    } else if nn == 0x65 {
        Ok(Instruction::LoadVXFromMem { vx })
    } else {
        unsupported(raw)
    }
}

/// The instruction that the word `raw` encodes, or the failure that carries
/// `raw` where it encodes none. The top nibble selects the group; the other
/// nibbles are operands or, in four groups, select within the group.
pub open spec fn decode_spec(raw: u16) -> Result<Instruction, InstructionDecodeError> {
    let group = nibble(raw, 3);
    let vx = nibble(raw, 2) as usize;
    let vy = nibble(raw, 1) as usize;
    let nn = low_byte(raw);
    let nnn = low_address(raw);
    if group == 0x0 {
        if raw == 0x00E0 {
            Ok(Instruction::DisplayClear)
        } else if raw == 0x00EE {
            Ok(Instruction::SubReturn)
        } else {
            unsupported(raw)
        }
    } else if group == 0x1 {
        Ok(Instruction::Jump { target: nnn })
    } else if group == 0x2 {
        Ok(Instruction::SubCall { target: nnn })
    } else if group == 0x3 {
        Ok(Instruction::SkipEq { vx, nn })
    } else if group == 0x4 {
        Ok(Instruction::SkipNotEq { vx, nn })
    } else if group == 0x5 {
        Ok(Instruction::SkipVEq { vx, vy })
    } else if group == 0x6 {
        Ok(Instruction::SetVX { index: vx, value: nn })
    } else if group == 0x7 {
        Ok(Instruction::AddVX { index: vx, value: nn })
    } else if group == 0x8 {
        decode_alu_spec(raw)
    } else if group == 0x9 {
        Ok(Instruction::SkipVNotEq { vx, vy })
    } else if group == 0xA {
        Ok(Instruction::SetIR { value: nnn })
    } else if group == 0xB {
        Ok(Instruction::JumpOffset { vx, offset: nnn })
    } else if group == 0xC {
        Ok(Instruction::Random { vx, nn })
    } else if group == 0xD {
        Ok(Instruction::Draw { x: vx, y: vy, height: nibble(raw, 0) as u16 })
    } else if group == 0xE {
        decode_key_spec(raw)
    } else {
        decode_misc_spec(raw)
    }
}

impl Instruction {
    /// Every operand is in the range that its field of the encoding can
    /// hold: register numbers and the sprite height below 16, addresses
    /// below 4096.
    pub open spec fn wf(self) -> bool {
        match self {
            Instruction::DisplayClear | Instruction::SubReturn => true,
            Instruction::Jump { target } | Instruction::SubCall { target } => target < 0x1000,
            Instruction::SetIR { value } => value < 0x1000,
            Instruction::JumpOffset { vx, offset } => vx < 16 && offset < 0x1000,
            Instruction::SetVX { index, .. } | Instruction::AddVX { index, .. } => index < 16,
            Instruction::Draw { x, y, height } => x < 16 && y < 16 && height < 16,
            Instruction::SkipEq { vx, .. }
            | Instruction::SkipNotEq { vx, .. }
            | Instruction::Random { vx, .. }
            | Instruction::SkipIfKey { vx }
            | Instruction::SkipIfNotKey { vx }
            | Instruction::SetVXToDelayTimer { vx }
            | Instruction::SetDelayTimerToVX { vx }
            | Instruction::SetSoundTimerToVX { vx }
            | Instruction::AddVXToIndexRegister { vx }
            | Instruction::GetKeyBlock { vx }
            | Instruction::FontChar { vx }
            | Instruction::BinaryCodedDecimalConversion { vx }
            | Instruction::SaveVXToMem { vx }
            | Instruction::LoadVXFromMem { vx } => vx < 16,
            Instruction::SkipVEq { vx, vy }
            | Instruction::SkipVNotEq { vx, vy }
            | Instruction::MSetVReg { vx, vy }
            | Instruction::MSetVRegOr { vx, vy }
            | Instruction::MSetVRegAnd { vx, vy }
            | Instruction::MSetVRegXor { vx, vy }
            | Instruction::MAddWithCarry { vx, vy }
            | Instruction::MSubWithBorrow { vx, vy }
            | Instruction::MSubInvWithBorrow { vx, vy }
            | Instruction::MShiftRight { vx, vy }
            | Instruction::MShiftLeft { vx, vy } => vx < 16 && vy < 16,
        }
    }
}

impl InstructionDecodeError {
    /// The text that describes the error.
    pub fn to_string(&self) -> (text: String)
        ensures
            text@ == "invalid instruction"@,
    {
        "invalid instruction".to_owned()
    }
}

impl Instruction {
    /// Tests whether every operand is in range.
    pub fn is_wf(&self) -> (ok: bool)
        ensures
            ok == self.wf(),
    {
        match *self {
            Instruction::DisplayClear | Instruction::SubReturn => true,
            Instruction::Jump { target } | Instruction::SubCall { target } => target < 0x1000,
            Instruction::SetIR { value } => value < 0x1000,
            Instruction::JumpOffset { vx, offset } => vx < 16 && offset < 0x1000,
            Instruction::SetVX { index, .. } | Instruction::AddVX { index, .. } => index < 16,
            Instruction::Draw { x, y, height } => x < 16 && y < 16 && height < 16,
            Instruction::SkipEq { vx, .. }
            | Instruction::SkipNotEq { vx, .. }
            | Instruction::Random { vx, .. }
            | Instruction::SkipIfKey { vx }
            | Instruction::SkipIfNotKey { vx }
            | Instruction::SetVXToDelayTimer { vx }
            | Instruction::SetDelayTimerToVX { vx }
            | Instruction::SetSoundTimerToVX { vx }
            | Instruction::AddVXToIndexRegister { vx }
            | Instruction::GetKeyBlock { vx }
            | Instruction::FontChar { vx }
            | Instruction::BinaryCodedDecimalConversion { vx }
            | Instruction::SaveVXToMem { vx }
            | Instruction::LoadVXFromMem { vx } => vx < 16,
            Instruction::SkipVEq { vx, vy }
            | Instruction::SkipVNotEq { vx, vy }
            | Instruction::MSetVReg { vx, vy }
            | Instruction::MSetVRegOr { vx, vy }
            | Instruction::MSetVRegAnd { vx, vy }
            | Instruction::MSetVRegXor { vx, vy }
            | Instruction::MAddWithCarry { vx, vy }
            | Instruction::MSubWithBorrow { vx, vy }
            | Instruction::MSubInvWithBorrow { vx, vy }
            | Instruction::MShiftRight { vx, vy }
            | Instruction::MShiftLeft { vx, vy } => vx < 16 && vy < 16,
        }
    }
}

/// Decoding is total: every word gives a well-formed instruction or the
/// failure that carries that very word.
pub proof fn lemma_decode_total(raw: u16)
    ensures
        match decode_spec(raw) {
            Ok(instruction) => instruction.wf(),
            Err(error) => error == (InstructionDecodeError::UnsupportedOpcode { raw_inst: raw }),
        },
{
}

/// Decoding depends on the word and on nothing else: the same word decodes
/// to the same instruction or to the same failure, whenever it is decoded.
pub proof fn lemma_decode_deterministic(first: u16, second: u16)
    requires
        first == second,
    ensures
        decode_spec(first) == decode_spec(second),
{
}

/// The fields of a word, cut out with masks and shifts, are its nibbles, its
/// low byte and its low twelve bits.
proof fn lemma_fields(raw: u16)
    ensures
        (raw & 0xF000) as int == nibble(raw, 3) * 0x1000,
        ((raw & 0x0F00) >> 8) as int == nibble(raw, 2),
        ((raw & 0x00F0) >> 4) as int == nibble(raw, 1),
        (raw & 0x000F) as int == nibble(raw, 0),
        (raw & 0x00FF) as int == raw as int % 256,
        (raw & 0x0FFF) as int == raw as int % 4096,
{
    assert((raw & 0xF000) == ((raw / 4096) % 16) * 0x1000) by (bit_vector);
    assert(((raw & 0x0F00) >> 8) == (raw / 256) % 16) by (bit_vector);
    assert(((raw & 0x00F0) >> 4) == (raw / 16) % 16) by (bit_vector);
    assert((raw & 0x000F) == raw % 16) by (bit_vector);
    assert((raw & 0x00FF) == raw % 256) by (bit_vector);
    assert((raw & 0x0FFF) == raw % 4096) by (bit_vector);
}

/// Decodes one 16-bit word.
pub fn decode(raw_inst: u16) -> (decoded: Result<Instruction, InstructionDecodeError>)
    ensures
        decoded == decode_spec(raw_inst),
        decoded matches Ok(instruction) ==> instruction.wf(),
        decoded is Err ==> decoded == unsupported(raw_inst),
{
    proof {
        lemma_fields(raw_inst);
    }
    let opcode: u16 = raw_inst & 0xF000;
    let vx: usize = ((raw_inst & 0x0F00) >> 8) as usize;
    let vy: usize = ((raw_inst & 0x00F0) >> 4) as usize;
    let n: u16 = raw_inst & 0x000F;
    let nn: u8 = (raw_inst & 0x00FF) as u8;
    let nnn: u16 = raw_inst & 0x0FFF;
    let failure = Err(InstructionDecodeError::UnsupportedOpcode { raw_inst });

    match opcode {
        0x0000 => match raw_inst {
            0x00E0 => Ok(Instruction::DisplayClear),
            0x00EE => Ok(Instruction::SubReturn),
            _ => failure,
        },
        0x1000 => Ok(Instruction::Jump { target: nnn }),
        0x2000 => Ok(Instruction::SubCall { target: nnn }),
        0x3000 => Ok(Instruction::SkipEq { vx, nn }),
        0x4000 => Ok(Instruction::SkipNotEq { vx, nn }),
        0x5000 => Ok(Instruction::SkipVEq { vx, vy }),
        0x6000 => Ok(Instruction::SetVX { index: vx, value: nn }),
        0x7000 => Ok(Instruction::AddVX { index: vx, value: nn }),
        0x8000 => match n {
            0x0 => Ok(Instruction::MSetVReg { vx, vy }),
            0x1 => Ok(Instruction::MSetVRegOr { vx, vy }),
            0x2 => Ok(Instruction::MSetVRegAnd { vx, vy }),
            0x3 => Ok(Instruction::MSetVRegXor { vx, vy }),
            0x4 => Ok(Instruction::MAddWithCarry { vx, vy }),
            0x5 => Ok(Instruction::MSubWithBorrow { vx, vy }),
            0x6 => Ok(Instruction::MShiftRight { vx, vy }),
            0x7 => Ok(Instruction::MSubInvWithBorrow { vx, vy }),
            0xE => Ok(Instruction::MShiftLeft { vx, vy }),
            _ => failure,
        },
        0x9000 => Ok(Instruction::SkipVNotEq { vx, vy }),
        0xA000 => Ok(Instruction::SetIR { value: nnn }),
        0xB000 => Ok(Instruction::JumpOffset { vx, offset: nnn }),
        0xC000 => Ok(Instruction::Random { vx, nn }),
        0xD000 => Ok(Instruction::Draw { x: vx, y: vy, height: n }),
        0xE000 => match nn {
            0x9E => Ok(Instruction::SkipIfKey { vx }),
            0xA1 => Ok(Instruction::SkipIfNotKey { vx }),
            _ => failure,
        },
        0xF000 => match nn {
            0x07 => Ok(Instruction::SetVXToDelayTimer { vx }),
            0x0A => Ok(Instruction::GetKeyBlock { vx }),
            0x15 => Ok(Instruction::SetDelayTimerToVX { vx }),
            0x18 => Ok(Instruction::SetSoundTimerToVX { vx }),
            0x1E => Ok(Instruction::AddVXToIndexRegister { vx }),
            0x29 => Ok(Instruction::FontChar { vx }),
            0x33 => Ok(Instruction::BinaryCodedDecimalConversion { vx }),
            0x55 => Ok(Instruction::SaveVXToMem { vx }),
            0x65 => Ok(Instruction::LoadVXFromMem { vx }),
            _ => failure,
        },
        _ => failure,
    }
}

} // verus!
