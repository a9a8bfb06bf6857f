use chip8::instruction::Instruction;

#[test]
fn decode_is_total_and_deterministic() {
    // Every 16-bit word decodes, twice, to the same variant, without a panic.
    for word in 0..=0xFFFFu16 {
        let first = Instruction::from_u16(word);
        let second = Instruction::from_u16(word);
        assert_eq!(first, second);
    }
}

#[test]
fn decode_clear_and_return() {
    assert_eq!(Instruction::from_u16(0x00E0), Instruction::ClearScreen);
    assert_eq!(Instruction::from_u16(0x00EE), Instruction::Return);
}

#[test]
fn decode_jumps_and_calls() {
    assert_eq!(Instruction::from_u16(0x1ABC), Instruction::Jump { address: 0xABC });
    assert_eq!(Instruction::from_u16(0x2ABC), Instruction::Call { address: 0xABC });
    assert_eq!(Instruction::from_u16(0xBABC), Instruction::JumpWithOffset { address: 0xABC });
}

#[test]
fn decode_skips() {
    assert_eq!(
        Instruction::from_u16(0x3A7F),
        Instruction::SkipIfEqualByte { x: 0xA, value: 0x7F }
    );
    assert_eq!(
        Instruction::from_u16(0x4A7F),
        Instruction::SkipIfNotEqualByte { x: 0xA, value: 0x7F }
    );
    assert_eq!(
        Instruction::from_u16(0x5AB0),
        Instruction::SkipIfEqualRegister { x: 0xA, y: 0xB }
    );
    assert_eq!(
        Instruction::from_u16(0x9AB0),
        Instruction::SkipIfNotEqualRegister { x: 0xA, y: 0xB }
    );
}

#[test]
fn decode_register_immediates() {
    assert_eq!(Instruction::from_u16(0x6A7F), Instruction::SetRegister { x: 0xA, value: 0x7F });
    assert_eq!(Instruction::from_u16(0x7A7F), Instruction::AddRegister { x: 0xA, value: 0x7F });
}

#[test]
fn decode_register_ops() {
    assert_eq!(Instruction::from_u16(0x8AB0), Instruction::CopyRegister { x: 0xA, y: 0xB });
    assert_eq!(Instruction::from_u16(0x8AB1), Instruction::OrRegister { x: 0xA, y: 0xB });
    assert_eq!(Instruction::from_u16(0x8AB2), Instruction::AndRegister { x: 0xA, y: 0xB });
    assert_eq!(Instruction::from_u16(0x8AB3), Instruction::XorRegister { x: 0xA, y: 0xB });
    assert_eq!(Instruction::from_u16(0x8AB4), Instruction::AddWithCarry { x: 0xA, y: 0xB });
    assert_eq!(Instruction::from_u16(0x8AB5), Instruction::SubWithBorrow { x: 0xA, y: 0xB });
    assert_eq!(Instruction::from_u16(0x8AB6), Instruction::ShiftRight { x: 0xA });
    assert_eq!(Instruction::from_u16(0x8AB7), Instruction::SubFrom { x: 0xA, y: 0xB });
    assert_eq!(Instruction::from_u16(0x8ABE), Instruction::ShiftLeft { x: 0xA });
}

#[test]
fn decode_index_and_draw() {
    assert_eq!(Instruction::from_u16(0xAABC), Instruction::SetIRegister { address: 0xABC });
    assert_eq!(Instruction::from_u16(0xCA7F), Instruction::Random { x: 0xA, mask: 0x7F });
    assert_eq!(Instruction::from_u16(0xDAB7), Instruction::Draw { x: 0xA, y: 0xB, nibble: 7 });
}

#[test]
fn decode_key_group() {
    assert_eq!(Instruction::from_u16(0xEA9E), Instruction::SkipIfKeyPressed { x: 0xA });
    assert_eq!(Instruction::from_u16(0xEAA1), Instruction::SkipIfKeyNotPressed { x: 0xA });
}

#[test]
fn decode_timer_and_memory_group() {
    assert_eq!(Instruction::from_u16(0xFA07), Instruction::ReadDelayTimer { x: 0xA });
    assert_eq!(Instruction::from_u16(0xFA0A), Instruction::WaitForKey { x: 0xA });
    assert_eq!(Instruction::from_u16(0xFA15), Instruction::SetDelayTimer { x: 0xA });
    assert_eq!(Instruction::from_u16(0xFA18), Instruction::SetSoundTimer { x: 0xA });
    assert_eq!(Instruction::from_u16(0xFA1E), Instruction::AddIRegister { x: 0xA });
    assert_eq!(Instruction::from_u16(0xFA29), Instruction::SetGlyphIndex { x: 0xA });
    assert_eq!(Instruction::from_u16(0xFA33), Instruction::StoreBcd { x: 0xA });
    assert_eq!(Instruction::from_u16(0xFA55), Instruction::StoreRegisters { x: 0xA });
    assert_eq!(Instruction::from_u16(0xFA65), Instruction::LoadRegisters { x: 0xA });
}

#[test]
fn decode_unknown_words() {
    assert_eq!(Instruction::from_u16(0x0123), Instruction::Unknown { word: 0x0123 });
    assert_eq!(Instruction::from_u16(0x00E1), Instruction::Unknown { word: 0x00E1 });
    assert_eq!(Instruction::from_u16(0x8AB8), Instruction::Unknown { word: 0x8AB8 });
    assert_eq!(Instruction::from_u16(0xEA00), Instruction::Unknown { word: 0xEA00 });
    assert_eq!(Instruction::from_u16(0xFAFF), Instruction::Unknown { word: 0xFAFF });
}
