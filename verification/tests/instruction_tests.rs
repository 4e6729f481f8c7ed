use porcel8::instruction::Instruction;

#[test]
fn test_clear_screen() {
    let instruction_bytes = 0x00e0_u16.to_be_bytes();
    let ins = Instruction::decode_instruction(&instruction_bytes);
    assert_eq!(ins, Instruction::ClearScreen);
}

#[test]
fn test_procedure_return() {
    let instruction_bytes = 0x00ee_u16.to_be_bytes();
    let ins = Instruction::decode_instruction(&instruction_bytes);
    assert_eq!(ins, Instruction::ReturnFromProcedure);
}

#[test]
fn test_other_0x0nnn_instructions_passthrough() {
    for instruction_hex in [0xf0u16, 0x0, 0x1, 0x10] {
        let instruction_bytes = instruction_hex.to_be_bytes();
        let instruction = Instruction::decode_instruction(&instruction_bytes);
        assert_eq!(instruction, Instruction::PassThrough)
    }
}

#[test]
fn test_jump_to_instruction_1() {
    let instruction_bytes = 0x1123_u16.to_be_bytes();
    let ins = Instruction::decode_instruction(&instruction_bytes);
    assert_eq!(ins, Instruction::JumpTo(0x123));
}

#[test]
fn test_jump_to_instruction_2() {
    let instruction_bytes = 0x1faf_u16.to_be_bytes();
    let ins = Instruction::decode_instruction(&instruction_bytes);
    assert_eq!(ins, Instruction::JumpTo(0xfaf));
}

#[test]
fn test_link_jump() {
    let instruction_bytes = 0x2afa_u16.to_be_bytes();
    let ins = Instruction::decode_instruction(&instruction_bytes);
    assert_eq!(ins, Instruction::JumpAndLink(0xafa));
}

#[test]
fn test_conditional_equal_skip() {
    let instruction_bytes = 0x3fad_u16.to_be_bytes();
    let ins = Instruction::decode_instruction(&instruction_bytes);
    assert_eq!(ins, Instruction::ConditionalEqSkipNext(0xf, 0xad));
}

#[test]
fn test_conditional_in_equal_skip() {
    let instruction_bytes = 0x4fea_u16.to_be_bytes();
    let ins = Instruction::decode_instruction(&instruction_bytes);
    assert_eq!(ins, Instruction::ConditionalInEqSkipNext(0xf, 0xea));
}

#[test]
fn test_conditional_register_equal_skip() {
    let instruction_bytes = 0x5fa0_u16.to_be_bytes();
    let ins = Instruction::decode_instruction(&instruction_bytes);
    assert_eq!(ins, Instruction::ConditionalEqRegisterSkipNext(0xf, 0xa));
}

#[test]
fn test_set_register_instruction() {
    let instruction_bytes = 0x6a00_u16.to_be_bytes();
    let ins = Instruction::decode_instruction(&instruction_bytes);
    assert_eq!(ins, Instruction::SetRegister(10, 0));
}

#[test]
fn test_set_register_instruction_2() {
    let instruction_bytes = 0x6f23_u16.to_be_bytes();
    let ins = Instruction::decode_instruction(&instruction_bytes);
    assert_eq!(ins, Instruction::SetRegister(15, 0x23));
}

#[test]
fn test_add_register_instruction_2() {
    let instruction_bytes = 0x7f23_u16.to_be_bytes();
    let ins = Instruction::decode_instruction(&instruction_bytes);
    assert_eq!(ins, Instruction::AddValueToRegister(15, 0x23));
}

#[test]
fn test_conditional_register_in_equal_skip() {
    let instruction_bytes = 0x9af0_u16.to_be_bytes();
    let ins = Instruction::decode_instruction(&instruction_bytes);
    assert_eq!(ins, Instruction::ConditionalInEqRegisterSkipNext(0xa, 0xf));
}

#[test]
fn test_set_index() {
    let instruction_bytes = 0xafaf_u16.to_be_bytes();
    let ins = Instruction::decode_instruction(&instruction_bytes);
    assert_eq!(ins, Instruction::SetIndex(0xfaf));
}

#[test]
fn test_jump_with_offset() {
    let instruction_bytes = 0xbfae_u16.to_be_bytes();
    let ins = Instruction::decode_instruction(&instruction_bytes);
    assert_eq!(ins, Instruction::JumpWithOffset(0xf, 0xfae));
}

#[test]
fn test_random_and() {
    let instruction_bytes = 0xcabd_u16.to_be_bytes();
    let ins = Instruction::decode_instruction(&instruction_bytes);
    assert_eq!(ins, Instruction::RandomAnd(0xa, 0xbd));
}

#[test]
fn test_draw() {
    let instruction_bytes = 0xdfab_u16.to_be_bytes();
    let ins = Instruction::decode_instruction(&instruction_bytes);
    assert_eq!(ins, Instruction::Draw(0xf, 0xa, 0xb))
}

#[test]
fn test_alu_set() {
    let instruction_bytes = 0x8a50_u16.to_be_bytes();
    let ins = Instruction::decode_instruction(&instruction_bytes);
    assert_eq!(ins, Instruction::Assign(0xa, 0x5))
}

#[test]
fn test_alu_or() {
    let instruction_bytes = 0x85a1_u16.to_be_bytes();
    let ins = Instruction::decode_instruction(&instruction_bytes);
    assert_eq!(ins, Instruction::Or(0x5, 0xa))
}

#[test]
fn test_alu_and() {
    let instruction_bytes = 0x8ba2_u16.to_be_bytes();
    let ins = Instruction::decode_instruction(&instruction_bytes);
    assert_eq!(ins, Instruction::And(0xb, 0xa))
}

#[test]
fn test_alu_xor() {
    let instruction_bytes = 0x8ab3_u16.to_be_bytes();
    let ins = Instruction::decode_instruction(&instruction_bytes);
    assert_eq!(ins, Instruction::Xor(0xa, 0xb))
}

#[test]
fn test_alu_add() {
    let instruction_bytes = 0x8ed4_u16.to_be_bytes();
    let ins = Instruction::decode_instruction(&instruction_bytes);
    assert_eq!(ins, Instruction::Add(0xe, 0xd))
}

#[test]
fn test_alu_sub() {
    let instruction_bytes = 0x8ed5_u16.to_be_bytes();
    let ins = Instruction::decode_instruction(&instruction_bytes);
    assert_eq!(ins, Instruction::Sub(0xe, 0xd))
}

#[test]
fn test_alu_r_sub() {
    let instruction_bytes = 0x8517_u16.to_be_bytes();
    let ins = Instruction::decode_instruction(&instruction_bytes);
    assert_eq!(ins, Instruction::RSub(0x5, 0x1))
}

#[test]
fn test_alu_right_shift() {
    let instruction_bytes = 0x89a6_u16.to_be_bytes();
    let ins = Instruction::decode_instruction(&instruction_bytes);
    assert_eq!(ins, Instruction::RShift(0x9, 0xa))
}

#[test]
fn test_alu_left_shift() {
    let instruction_bytes = 0x812e_u16.to_be_bytes();
    let ins = Instruction::decode_instruction(&instruction_bytes);
    assert_eq!(ins, Instruction::LShift(0x1, 0x2))
}

#[test]
fn test_skip_if_keypress() {
    let instruction_bytes = 0xef9e_u16.to_be_bytes();
    let ins = Instruction::decode_instruction(&instruction_bytes);
    assert_eq!(ins, Instruction::SkipIfKeyPressed(0xf))
}

#[test]
fn test_skip_if_not_keypress() {
    let instruction_bytes = 0xeba1_u16.to_be_bytes();
    let ins = Instruction::decode_instruction(&instruction_bytes);
    assert_eq!(ins, Instruction::SkipIfKeyNotPressed(0xb))
}

#[test]
fn test_fetch_delay_timer() {
    let instruction_bytes = 0xfa07_u16.to_be_bytes();
    let ins = Instruction::decode_instruction(&instruction_bytes);
    assert_eq!(ins, Instruction::FetchDelayTimer(0xa))
}

#[test]
fn test_set_delay_timer() {
    let instruction_bytes = 0xfb15_u16.to_be_bytes();
    let ins = Instruction::decode_instruction(&instruction_bytes);
    assert_eq!(ins, Instruction::SetDelayTimer(0xb))
}

#[test]
fn test_set_sound_timer() {
    let instruction_bytes = 0xfc18_u16.to_be_bytes();
    let ins = Instruction::decode_instruction(&instruction_bytes);
    assert_eq!(ins, Instruction::SetSoundTimer(0xc))
}

#[test]
fn test_add_to_index() {
    let instruction_bytes = 0xfb1e_u16.to_be_bytes();
    let ins = Instruction::decode_instruction(&instruction_bytes);
    assert_eq!(ins, Instruction::AddToIndex(0xb))
}

#[test]
fn test_get_key() {
    let instruction_bytes = 0xf50a_u16.to_be_bytes();
    let ins = Instruction::decode_instruction(&instruction_bytes);
    assert_eq!(ins, Instruction::GetKey(0x5))
}

#[test]
fn test_set_index_to_font_char() {
    let instruction_bytes = 0xfb29_u16.to_be_bytes();
    let ins = Instruction::decode_instruction(&instruction_bytes);
    assert_eq!(ins, Instruction::SetIndexToFontCharacter(0xb))
}

#[test]
fn test_do_bcd_conversion() {
    let instruction_bytes = 0xfd33_u16.to_be_bytes();
    let ins = Instruction::decode_instruction(&instruction_bytes);
    assert_eq!(ins, Instruction::DoBCDConversion(0xd))
}

#[test]
fn test_store_regs_to_mem() {
    let instruction_bytes = 0xfb55_u16.to_be_bytes();
    let ins = Instruction::decode_instruction(&instruction_bytes);
    assert_eq!(ins, Instruction::StoreRegistersToMemory(0xb))
}

#[test]
fn test_load_regs_to_mem() {
    let instruction_bytes = 0xf965_u16.to_be_bytes();
    let ins = Instruction::decode_instruction(&instruction_bytes);
    assert_eq!(ins, Instruction::LoadRegistersFromMemory(0b1001))
}

#[test]
fn test_unmatched_key_and_misc_families_passthrough() {
    for instruction_hex in [0xe100u16, 0xef00, 0xfa00, 0xfaff, 0x8ab8, 0x8abf] {
        let instruction_bytes = instruction_hex.to_be_bytes();
        let instruction = Instruction::decode_instruction(&instruction_bytes);
        assert_eq!(instruction, Instruction::PassThrough)
    }
}
