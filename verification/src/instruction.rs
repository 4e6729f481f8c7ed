//! The instruction decoder: two bytes, read as one big-endian 16-bit opcode,
//! classify into exactly one `Instruction` value. Classification is total:
//! opcodes no family claims decode to `PassThrough`.

use vstd::prelude::*;

verus! {

#[derive(Eq, PartialEq, Debug)]
pub enum Instruction {
    /// Blanket instruction for unsupported opcodes; does nothing.
    PassThrough,
    /// 00E0 - Clear the screen
    ClearScreen,
    /// 00EE - Return from procedure
    ReturnFromProcedure,
    /// 1NNN - Jump to location
    JumpTo(u16),
    /// 2NNN - Link and jump
    JumpAndLink(u16),
    /// 3XNN - If register equals number, skip next
    ConditionalEqSkipNext(usize, u8),
    /// 4XNN - If register does not equal number, skip next
    ConditionalInEqSkipNext(usize, u8),
    /// 5XY0 - If registers equal, skip next
    ConditionalEqRegisterSkipNext(usize, usize),
    /// 6XNN - Set register to value
    SetRegister(usize, u8),
    /// 7XNN - Add value to register
    AddValueToRegister(usize, u8),
    /// 9XY0 - If registers not equal, skip next
    ConditionalInEqRegisterSkipNext(usize, usize),
    /// ANNN - Set index value
    SetIndex(u16),
    /// BNNN - Jump to address with offset from v0, or, under the updated
    /// behaviour, from the register picked at execute time
    JumpWithOffset(usize, u16),
    /// CXNN - AND a random number with NN and place in register
    RandomAnd(usize, u8),
    /// DXYN - Draw the n-byte sprite the index points at, at (vx, vy)
    Draw(usize, usize, u8),
    /// EX9E - Skip if the key named by the register is pressed
    SkipIfKeyPressed(usize),
    /// EXA1 - Skip if the key named by the register is not pressed
    SkipIfKeyNotPressed(usize),
    /// FX07 - Get delay timer, put into register
    FetchDelayTimer(usize),
    /// FX15 - Set delay timer from register
    SetDelayTimer(usize),
    /// FX18 - Set sound timer from register
    SetSoundTimer(usize),
    /// FX1E - Add register to index
    AddToIndex(usize),
    /// FX0A - Wait for a key press, store the key in the register
    GetKey(usize),
    /// FX29 - Set index to the font glyph of the register's value
    SetIndexToFontCharacter(usize),
    /// FX33 - Store the register's value in BCD at the index address
    DoBCDConversion(usize),
    /// FX55 - Store registers v0..=vx at the index address
    StoreRegistersToMemory(usize),
    /// FX65 - Load registers v0..=vx from the index address
    LoadRegistersFromMemory(usize),
    /// 8XY0 - x=y
    Assign(usize, usize),
    /// 8XY1 - x|=y
    Or(usize, usize),
    /// 8XY2 - x&=y
    And(usize, usize),
    /// 8XY3 - x^=y
    Xor(usize, usize),
    /// 8XY4 - x+=y
    Add(usize, usize),
    /// 8XY5 - x-=y
    Sub(usize, usize),
    /// 8XY6 - right shift; the legacy behaviour first copies y into x
    RShift(usize, usize),
    /// 8XY7 - x=y-x
    RSub(usize, usize),
    /// 8XYE - left shift; the legacy behaviour first copies y into x
    LShift(usize, usize),
}

/// The big-endian 16-bit word held by two consecutive bytes.
pub open spec fn spec_word(hi: u8, lo: u8) -> u16 {
    ((hi as int) * 256 + (lo as int)) as u16
}

pub open spec fn spec_reg_x(w: u16) -> usize {
    (((w & 0x0F00) >> 8) as usize)
}

pub open spec fn spec_reg_y(w: u16) -> usize {
    (((w & 0x00F0) >> 4) as usize)
}

pub open spec fn spec_addr(w: u16) -> u16 {
    w & 0x0FFF
}

pub open spec fn spec_byte(w: u16) -> u8 {
    ((w & 0x00FF) as u8)
}

/// The decoded form of the 16-bit opcode `w`.
pub open spec fn spec_decode(w: u16) -> Instruction {
    let hi = (w & 0xF000) >> 12;
    if hi == 0x0 {
        if w == 0x00E0 {
            Instruction::ClearScreen
        } else if w == 0x00EE {
            Instruction::ReturnFromProcedure
        } else {
            Instruction::PassThrough
        }
    } else if hi == 0x1 {
        Instruction::JumpTo(spec_addr(w))
    } else if hi == 0x2 {
        Instruction::JumpAndLink(spec_addr(w))
    } else if hi == 0x3 {
        Instruction::ConditionalEqSkipNext(spec_reg_x(w), spec_byte(w))
    } else if hi == 0x4 {
        Instruction::ConditionalInEqSkipNext(spec_reg_x(w), spec_byte(w))
    } else if hi == 0x5 {
        Instruction::ConditionalEqRegisterSkipNext(spec_reg_x(w), spec_reg_y(w))
    } else if hi == 0x6 {
        Instruction::SetRegister(spec_reg_x(w), spec_byte(w))
    } else if hi == 0x7 {
        Instruction::AddValueToRegister(spec_reg_x(w), spec_byte(w))
    } else if hi == 0x8 {
        spec_decode_arithmetic(w)
    } else if hi == 0x9 {
        Instruction::ConditionalInEqRegisterSkipNext(spec_reg_x(w), spec_reg_y(w))
    } else if hi == 0xA {
        Instruction::SetIndex(spec_addr(w))
    } else if hi == 0xB {
        Instruction::JumpWithOffset(spec_reg_x(w), spec_addr(w))
    } else if hi == 0xC {
        Instruction::RandomAnd(spec_reg_x(w), spec_byte(w))
    } else if hi == 0xD {
        Instruction::Draw(spec_reg_x(w), spec_reg_y(w), ((w & 0x000F) as u8))
    } else if hi == 0xE {
        if w & 0x00FF == 0x9E {
            Instruction::SkipIfKeyPressed(spec_reg_x(w))
        } else if w & 0x00FF == 0xA1 {
            Instruction::SkipIfKeyNotPressed(spec_reg_x(w))
        } else {
            Instruction::PassThrough
        }
    } else {
        let lo = w & 0x00FF;
        if lo == 0x07 {
            Instruction::FetchDelayTimer(spec_reg_x(w))
        } else if lo == 0x15 {
            Instruction::SetDelayTimer(spec_reg_x(w))
        } else if lo == 0x18 {
            Instruction::SetSoundTimer(spec_reg_x(w))
        } else if lo == 0x1E {
            Instruction::AddToIndex(spec_reg_x(w))
        } else if lo == 0x0A {
            Instruction::GetKey(spec_reg_x(w))
        } else if lo == 0x29 {
            Instruction::SetIndexToFontCharacter(spec_reg_x(w))
        } else if lo == 0x33 {
            Instruction::DoBCDConversion(spec_reg_x(w))
        } else if lo == 0x55 {
            Instruction::StoreRegistersToMemory(spec_reg_x(w))
        } else if lo == 0x65 {
            Instruction::LoadRegistersFromMemory(spec_reg_x(w))
        } else {
            Instruction::PassThrough
        }
    }
}

/// The decoded form of an opcode of the ALU family (top nibble 8).
pub open spec fn spec_decode_arithmetic(w: u16) -> Instruction {
    let op = w & 0x000F;
    if op == 0x0 {
        Instruction::Assign(spec_reg_x(w), spec_reg_y(w))
    } else if op == 0x1 {
        Instruction::Or(spec_reg_x(w), spec_reg_y(w))
    } else if op == 0x2 {
        Instruction::And(spec_reg_x(w), spec_reg_y(w))
    } else if op == 0x3 {
        Instruction::Xor(spec_reg_x(w), spec_reg_y(w))
    } else if op == 0x4 {
        Instruction::Add(spec_reg_x(w), spec_reg_y(w))
    } else if op == 0x5 {
        Instruction::Sub(spec_reg_x(w), spec_reg_y(w))
    } else if op == 0x6 {
        Instruction::RShift(spec_reg_x(w), spec_reg_y(w))
    } else if op == 0x7 {
        Instruction::RSub(spec_reg_x(w), spec_reg_y(w))
    } else if op == 0xE {
        Instruction::LShift(spec_reg_x(w), spec_reg_y(w))
    } else {
        Instruction::PassThrough
    }
}

impl Instruction {
    /// Every register-index operand is in `0..16`, and every address operand
    /// fits in 12 bits. The decoder only produces such values.
    pub open spec fn wf(self) -> bool {
        match self {
            Instruction::PassThrough => true,
            Instruction::ClearScreen => true,
            Instruction::ReturnFromProcedure => true,
            Instruction::JumpTo(a) => a <= 0xFFF,
            Instruction::JumpAndLink(a) => a <= 0xFFF,
            Instruction::ConditionalEqSkipNext(x, _) => x < 16,
            Instruction::ConditionalInEqSkipNext(x, _) => x < 16,
            Instruction::ConditionalEqRegisterSkipNext(x, y) => x < 16 && y < 16,
            Instruction::SetRegister(x, _) => x < 16,
            Instruction::AddValueToRegister(x, _) => x < 16,
            Instruction::ConditionalInEqRegisterSkipNext(x, y) => x < 16 && y < 16,
            Instruction::SetIndex(a) => a <= 0xFFF,
            Instruction::JumpWithOffset(x, a) => x < 16 && a <= 0xFFF,
            Instruction::RandomAnd(x, _) => x < 16,
            Instruction::Draw(x, y, _) => x < 16 && y < 16,
            Instruction::SkipIfKeyPressed(x) => x < 16,
            Instruction::SkipIfKeyNotPressed(x) => x < 16,
            Instruction::FetchDelayTimer(x) => x < 16,
            Instruction::SetDelayTimer(x) => x < 16,
            Instruction::SetSoundTimer(x) => x < 16,
            Instruction::AddToIndex(x) => x < 16,
            Instruction::GetKey(x) => x < 16,
            Instruction::SetIndexToFontCharacter(x) => x < 16,
            Instruction::DoBCDConversion(x) => x < 16,
            Instruction::StoreRegistersToMemory(x) => x < 16,
            Instruction::LoadRegistersFromMemory(x) => x < 16,
            Instruction::Assign(x, y) => x < 16 && y < 16,
            Instruction::Or(x, y) => x < 16 && y < 16,
            Instruction::And(x, y) => x < 16 && y < 16,
            Instruction::Xor(x, y) => x < 16 && y < 16,
            Instruction::Add(x, y) => x < 16 && y < 16,
            Instruction::Sub(x, y) => x < 16 && y < 16,
            Instruction::RShift(x, y) => x < 16 && y < 16,
            Instruction::RSub(x, y) => x < 16 && y < 16,
            Instruction::LShift(x, y) => x < 16 && y < 16,
        }
    }

    /// Decode one 16-bit opcode word.
    pub fn decode_word(w: u16) -> (r: Instruction)
        ensures
            r == spec_decode(w),
            r.wf(),
    {
        proof {
            lemma_decode_operand_bounds(w);
        }
        let outer_instruction_nibble = (w & 0xF000) >> 12;
        match outer_instruction_nibble {
            0x0 => {
                if w == 0x00E0 {
                    Instruction::ClearScreen
                } else if w == 0x00EE {
                    Instruction::ReturnFromProcedure
                } else {
                    Instruction::PassThrough
                }
            },
            0x1 => Instruction::JumpTo(w & 0x0FFF),
            0x2 => Instruction::JumpAndLink(w & 0x0FFF),
            0x3 => Instruction::ConditionalEqSkipNext(
                (((w & 0x0F00) >> 8) as usize),
                ((w & 0x00FF) as u8),
            ),
            0x4 => Instruction::ConditionalInEqSkipNext(
                (((w & 0x0F00) >> 8) as usize),
                ((w & 0x00FF) as u8),
            ),
            0x5 => Instruction::ConditionalEqRegisterSkipNext(
                (((w & 0x0F00) >> 8) as usize),
                (((w & 0x00F0) >> 4) as usize),
            ),
            0x6 => Instruction::SetRegister((((w & 0x0F00) >> 8) as usize), ((w & 0x00FF) as u8)),
            0x7 => Instruction::AddValueToRegister(
                (((w & 0x0F00) >> 8) as usize),
                ((w & 0x00FF) as u8),
            ),
            0x8 => {
                assert(w & 0xF000 == 0x8000) by (bit_vector)
                    requires
                        (w & 0xF000) >> 12 == 0x8,
                ;
                Self::decode_arithmetic_instruction(w)
            },
            0x9 => Instruction::ConditionalInEqRegisterSkipNext(
                (((w & 0x0F00) >> 8) as usize),
                (((w & 0x00F0) >> 4) as usize),
            ),
            0xA => Instruction::SetIndex(w & 0x0FFF),
            0xB => Instruction::JumpWithOffset((((w & 0x0F00) >> 8) as usize), w & 0x0FFF),
            0xC => Instruction::RandomAnd((((w & 0x0F00) >> 8) as usize), ((w & 0x00FF) as u8)),
            0xD => Instruction::Draw(
                (((w & 0x0F00) >> 8) as usize),
                (((w & 0x00F0) >> 4) as usize),
                ((w & 0x000F) as u8),
            ),
            0xE => {
                if w & 0x00FF == 0x9E {
                    Instruction::SkipIfKeyPressed((((w & 0x0F00) >> 8) as usize))
                } else if w & 0x00FF == 0xA1 {
                    Instruction::SkipIfKeyNotPressed((((w & 0x0F00) >> 8) as usize))
                } else {
                    Instruction::PassThrough
                }
            },
            _ => {
                let x = (((w & 0x0F00) >> 8) as usize);
                match w & 0x00FF {
                    0x07 => Instruction::FetchDelayTimer(x),
                    0x15 => Instruction::SetDelayTimer(x),
                    0x18 => Instruction::SetSoundTimer(x),
                    0x1E => Instruction::AddToIndex(x),
                    0x0A => Instruction::GetKey(x),
                    0x29 => Instruction::SetIndexToFontCharacter(x),
                    0x33 => Instruction::DoBCDConversion(x),
                    0x55 => Instruction::StoreRegistersToMemory(x),
                    0x65 => Instruction::LoadRegistersFromMemory(x),
                    _ => Instruction::PassThrough,
                }
            },
        }
    }

    /// Decode two consecutive memory bytes, read big-endian.
    pub fn decode_instruction(location: &[u8]) -> (r: Instruction)
        requires
            location@.len() == 2,
        ensures
            r == spec_decode(spec_word(location@[0], location@[1])),
            r.wf(),
    {
        let w: u16 = (location[0] as u16) * 256 + (location[1] as u16);
        Self::decode_word(w)
    }

    fn decode_arithmetic_instruction(w: u16) -> (r: Instruction)
        requires
            w & 0xF000 == 0x8000,
        ensures
            r == spec_decode_arithmetic(w),
            r.wf(),
    {
        proof {
            lemma_decode_operand_bounds(w);
        }
        let reg_x = (((w & 0x0F00) >> 8) as usize);
        let reg_y = (((w & 0x00F0) >> 4) as usize);
        match w & 0x000F {
            0x0 => Instruction::Assign(reg_x, reg_y),
            0x1 => Instruction::Or(reg_x, reg_y),
            0x2 => Instruction::And(reg_x, reg_y),
            0x3 => Instruction::Xor(reg_x, reg_y),
            0x4 => Instruction::Add(reg_x, reg_y),
            0x5 => Instruction::Sub(reg_x, reg_y),
            0x6 => Instruction::RShift(reg_x, reg_y),
            0x7 => Instruction::RSub(reg_x, reg_y),
            0xE => Instruction::LShift(reg_x, reg_y),
            _ => Instruction::PassThrough,
        }
    }
}

/// Bounds of the operand fields sliced out of an opcode word.
proof fn lemma_decode_operand_bounds(w: u16)
    by (bit_vector)
    ensures
        ((w & 0xF000) >> 12) <= 0xF,
        ((w & 0x0F00) >> 8) < 16,
        ((w & 0x00F0) >> 4) < 16,
        (w & 0x0FFF) <= 0xFFF,
        (w & 0x00FF) <= 0xFF,
        (w & 0x000F) <= 0xF,
{
}

} // verus!
