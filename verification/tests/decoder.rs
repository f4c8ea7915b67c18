use chip8::instruction::{decode, Instruction, InstructionDecodeError};

fn unsupported(raw_inst: u16) -> Result<Instruction, InstructionDecodeError> {
    Err(InstructionDecodeError::UnsupportedOpcode { raw_inst })
}

#[test]
fn decodes_clear_and_return() {
    assert_eq!(decode(0x00E0), Ok(Instruction::DisplayClear));
    assert_eq!(decode(0x00EE), Ok(Instruction::SubReturn));
}

#[test]
fn rejects_the_rest_of_group_zero() {
    assert_eq!(decode(0x0000), unsupported(0x0000));
    assert_eq!(decode(0x00E1), unsupported(0x00E1));
    assert_eq!(decode(0x0123), unsupported(0x0123));
    assert_eq!(decode(0x0FFF), unsupported(0x0FFF));
}

#[test]
fn decodes_jump_and_call() {
    assert_eq!(decode(0x1234), Ok(Instruction::Jump { target: 0x234 }));
    assert_eq!(decode(0x1FFF), Ok(Instruction::Jump { target: 0xFFF }));
    assert_eq!(decode(0x2ABC), Ok(Instruction::SubCall { target: 0xABC }));
}

#[test]
fn decodes_immediate_groups() {
    assert_eq!(decode(0x3A12), Ok(Instruction::SkipEq { vx: 0xA, nn: 0x12 }));
    assert_eq!(decode(0x4BFF), Ok(Instruction::SkipNotEq { vx: 0xB, nn: 0xFF }));
    assert_eq!(decode(0x6C34), Ok(Instruction::SetVX { index: 0xC, value: 0x34 }));
    assert_eq!(decode(0x7D01), Ok(Instruction::AddVX { index: 0xD, value: 0x01 }));
    assert_eq!(decode(0xC57F), Ok(Instruction::Random { vx: 5, nn: 0x7F }));
    assert_eq!(decode(0xA123), Ok(Instruction::SetIR { value: 0x123 }));
}

#[test]
fn decodes_register_pair_groups() {
    assert_eq!(decode(0x5120), Ok(Instruction::SkipVEq { vx: 1, vy: 2 }));
    assert_eq!(decode(0x9EF0), Ok(Instruction::SkipVNotEq { vx: 0xE, vy: 0xF }));
    assert_eq!(decode(0xD125), Ok(Instruction::Draw { x: 1, y: 2, height: 5 }));
    assert_eq!(decode(0xDFE0), Ok(Instruction::Draw { x: 0xF, y: 0xE, height: 0 }));
}

#[test]
fn skip_on_registers_ignores_the_low_nibble() {
    assert_eq!(decode(0x512F), Ok(Instruction::SkipVEq { vx: 1, vy: 2 }));
    assert_eq!(decode(0x9127), Ok(Instruction::SkipVNotEq { vx: 1, vy: 2 }));
}

#[test]
fn decodes_arithmetic_group() {
    assert_eq!(decode(0x8010), Ok(Instruction::MSetVReg { vx: 0, vy: 1 }));
    assert_eq!(decode(0x8011), Ok(Instruction::MSetVRegOr { vx: 0, vy: 1 }));
    assert_eq!(decode(0x8012), Ok(Instruction::MSetVRegAnd { vx: 0, vy: 1 }));
    assert_eq!(decode(0x8013), Ok(Instruction::MSetVRegXor { vx: 0, vy: 1 }));
    assert_eq!(decode(0x8014), Ok(Instruction::MAddWithCarry { vx: 0, vy: 1 }));
    assert_eq!(decode(0x8015), Ok(Instruction::MSubWithBorrow { vx: 0, vy: 1 }));
    assert_eq!(decode(0x8016), Ok(Instruction::MShiftRight { vx: 0, vy: 1 }));
    assert_eq!(decode(0x8017), Ok(Instruction::MSubInvWithBorrow { vx: 0, vy: 1 }));
    assert_eq!(decode(0x801E), Ok(Instruction::MShiftLeft { vx: 0, vy: 1 }));
}

#[test]
fn rejects_unknown_arithmetic_selectors() {
    for n in [0x8u16, 0x9, 0xA, 0xB, 0xC, 0xD, 0xF] {
        let raw = 0x8120 | n;
        assert_eq!(decode(raw), unsupported(raw));
    }
}

#[test]
fn decodes_key_group() {
    assert_eq!(decode(0xE39E), Ok(Instruction::SkipIfKey { vx: 3 }));
    assert_eq!(decode(0xE4A1), Ok(Instruction::SkipIfNotKey { vx: 4 }));
    assert_eq!(decode(0xE49F), unsupported(0xE49F));
    assert_eq!(decode(0xE000), unsupported(0xE000));
}

#[test]
fn decodes_multi_function_group() {
    assert_eq!(decode(0xF107), Ok(Instruction::SetVXToDelayTimer { vx: 1 }));
    assert_eq!(decode(0xF20A), Ok(Instruction::GetKeyBlock { vx: 2 }));
    assert_eq!(decode(0xF315), Ok(Instruction::SetDelayTimerToVX { vx: 3 }));
    assert_eq!(decode(0xF418), Ok(Instruction::SetSoundTimerToVX { vx: 4 }));
    assert_eq!(decode(0xF51E), Ok(Instruction::AddVXToIndexRegister { vx: 5 }));
    assert_eq!(decode(0xF629), Ok(Instruction::FontChar { vx: 6 }));
    assert_eq!(decode(0xF733), Ok(Instruction::BinaryCodedDecimalConversion { vx: 7 }));
    assert_eq!(decode(0xF855), Ok(Instruction::SaveVXToMem { vx: 8 }));
    assert_eq!(decode(0xF965), Ok(Instruction::LoadVXFromMem { vx: 9 }));
}

#[test]
fn rejects_unknown_multi_function_selector() {
    assert_eq!(decode(0xFFFF), unsupported(0xFFFF));
    assert_eq!(decode(0xF000), unsupported(0xF000));
    assert_eq!(decode(0xF166), unsupported(0xF166));
}

#[test]
fn jump_with_offset_carries_twelve_bits() {
    assert_eq!(decode(0xB234), Ok(Instruction::JumpOffset { vx: 2, offset: 0x234 }));
    assert_eq!(decode(0xB000), Ok(Instruction::JumpOffset { vx: 0, offset: 0 }));
}

#[test]
fn every_word_decodes_or_fails_with_itself() {
    let mut supported: u32 = 0;
    for raw in 0..=u16::MAX {
        match decode(raw) {
            Ok(instruction) => {
                assert!(instruction.is_wf(), "{:#06x}", raw);
                supported += 1;
            }
            Err(InstructionDecodeError::UnsupportedOpcode { raw_inst }) => {
                assert_eq!(raw_inst, raw);
            }
        }
    }
    // 2 in group 0, twelve full groups, 9 of 16 selectors in group 8,
    // 2 of 256 in group E, 9 of 256 in group F.
    assert_eq!(supported, 2 + 12 * 4096 + 9 * 256 + 2 * 16 + 9 * 16);
}

#[test]
fn decoding_twice_gives_the_same() {
    for raw in [0x00E0u16, 0x1234, 0x8014, 0xFFFF, 0xD015, 0xF065] {
        assert_eq!(decode(raw), decode(raw));
    }
}

#[test]
fn well_formedness_is_tested_on_operands() {
    assert!(Instruction::Jump { target: 0xFFF }.is_wf());
    assert!(!Instruction::Jump { target: 0x1000 }.is_wf());
    assert!(!Instruction::SetVX { index: 16, value: 0 }.is_wf());
    assert!(!Instruction::Draw { x: 0, y: 0, height: 16 }.is_wf());
    assert!(!Instruction::MSetVReg { vx: 1, vy: 16 }.is_wf());
}

#[test]
fn decode_error_has_a_text() {
    let error = InstructionDecodeError::UnsupportedOpcode { raw_inst: 0xFFFF };
    assert_eq!(error.to_string(), "invalid instruction");
}
