use vstd::prelude::*;
use crate::error::ChipError;
use crate::nibble::Nibble;
use crate::nibbles::Nibbles;

verus! {

broadcast use crate::nibble::group_nibble;

/// One decoded instruction: its kind and its operands.
#[derive(Copy, Clone, Debug, PartialEq, Eq, Structural)]
pub enum Opcode {
    /// 00E0: unset every pixel of the display.
    CLS,
    /// 00EE: return to the address on top of the stack.
    RET,
    /// 1NNN: jump to `addr`.
    JP { addr: u16 },
    /// 2NNN: call the subroutine at `addr`.
    CALL { addr: u16 },
    /// 3XNN: skip the next instruction if VX equals `byte`.
    SEByte { x: Nibble, byte: u8 },
    /// 4XNN: skip the next instruction if VX differs from `byte`.
    SNEByte { x: Nibble, byte: u8 },
    /// 5XY0: skip the next instruction if VX equals VY.
    SEReg { x: Nibble, y: Nibble },
    /// 6XNN: set VX to `byte`.
    LDByte { x: Nibble, byte: u8 },
    /// 7XNN: add `byte` to VX, modulo 256; VF is left alone.
    ADDByte { x: Nibble, byte: u8 },
    /// 8XY0: set VX to VY.
    LDReg { x: Nibble, y: Nibble },
    /// 8XY1: set VX to VX or VY, bit by bit.
    OR { x: Nibble, y: Nibble },
    /// 8XY2: set VX to VX and VY, bit by bit.
    AND { x: Nibble, y: Nibble },
    /// 8XY3: set VX to VX exclusive-or VY, bit by bit.
    XOR { x: Nibble, y: Nibble },
    /// 8XY4: add VY to VX; VF takes the carry.
    ADD { x: Nibble, y: Nibble },
    /// 8XY5: subtract VY from VX; VF is 1 where nothing was borrowed.
    SUB { x: Nibble, y: Nibble },
    /// 8XY6: shift right by one bit into VX; VF takes the bit shifted out.
    SHR { x: Nibble, y: Nibble },
    /// 8XY7: set VX to VY minus VX; VF is 1 where nothing was borrowed.
    SUBN { x: Nibble, y: Nibble },
    /// 8XYE: shift left by one bit into VX; VF takes the bit shifted out.
    SHL { x: Nibble, y: Nibble },
    /// 9XY0: skip the next instruction if VX differs from VY.
    SNEReg { x: Nibble, y: Nibble },
    /// ANNN: set the index register to `addr`.
    LDI { addr: u16 },
    /// BNNN: jump to `addr` plus V0.
    JPPlusV0 { addr: u16 },
    /// CXNN: set VX to a random byte masked with `byte`.
    RND { x: Nibble, byte: u8 },
    /// DXYN: draw the sprite of `n` rows at the index register at (VX, VY); VF takes the collision.
    DRW { x: Nibble, y: Nibble, n: Nibble },
    /// EX9E: skip the next instruction if the key with code VX is down.
    SKP { x: Nibble },
    /// EXA1: skip the next instruction if the key with code VX is not down.
    SKNP { x: Nibble },
    /// FX07: set VX to the delay timer.
    LDxDT { x: Nibble },
    /// FX0A: wait for a key press and set VX to the key's code.
    LDxK { x: Nibble },
    /// FX15: set the delay timer to VX.
    LDdtX { x: Nibble },
    /// FX18: set the sound timer to VX.
    LDstX { x: Nibble },
    /// FX1E: add VX to the index register, stopping at 65535.
    ADDI { x: Nibble },
    /// FX29: set the index register to the glyph for the low nibble of VX.
    LDF { x: Nibble },
    /// FX33: store the decimal digits of VX at the index register.
    LDB { x: Nibble },
    /// FX55: store V0 to VX at the index register.
    LDIStore { x: Nibble },
    /// FX65: load V0 to VX from the index register.
    LDIRead { x: Nibble },
}

/// The register-to-register instruction (family 8) selected by the last
/// nibble of the word.
pub open spec fn decode_arithmetic(x: Nibble, y: Nibble, last: int) -> Option<Opcode> {
    if last == 0x0 {
        Some(Opcode::LDReg { x, y })
    } else if last == 0x1 {
        Some(Opcode::OR { x, y })
    } else if last == 0x2 {
        Some(Opcode::AND { x, y })
    } else if last == 0x3 {
        Some(Opcode::XOR { x, y })
    } else if last == 0x4 {
        Some(Opcode::ADD { x, y })
    } else if last == 0x5 {
        Some(Opcode::SUB { x, y })
    } else if last == 0x6 {
        Some(Opcode::SHR { x, y })
    } else if last == 0x7 {
        Some(Opcode::SUBN { x, y })
    } else if last == 0xE {
        Some(Opcode::SHL { x, y })
    } else {
        None
    }
}

/// The timer, index and memory instruction (family F) selected by the low
/// byte of the word.
pub open spec fn decode_misc(x: Nibble, low: int) -> Option<Opcode> {
    if low == 0x07 {
        Some(Opcode::LDxDT { x })
    } else if low == 0x0A {
        Some(Opcode::LDxK { x })
    } else if low == 0x15 {
        Some(Opcode::LDdtX { x })
    } else if low == 0x18 {
        Some(Opcode::LDstX { x })
    } else if low == 0x1E {
        Some(Opcode::ADDI { x })
    } else if low == 0x29 {
        Some(Opcode::LDF { x })
    } else if low == 0x33 {
        Some(Opcode::LDB { x })
    } else if low == 0x55 {
        Some(Opcode::LDIStore { x })
    } else if low == 0x65 {
        Some(Opcode::LDIRead { x })
    } else {
        None
    }
}

/// The instruction set: the instruction that a word stands for, or `None`
/// where the word is outside the set. The word is read as four hexadecimal
/// digits `f x y n`; `addr` is its low twelve bits and `byte` its low eight.
pub open spec fn decode_spec(raw: u16) -> Option<Opcode> {
    let family = raw as int / 4096;
    let x = Nibble::of(((raw / 256) % 16) as u8);
    let y = Nibble::of(((raw / 16) % 16) as u8);
    let n = Nibble::of((raw % 16) as u8);
    let last = raw as int % 16;
    let low = raw as int % 256;
    let addr = (raw % 4096) as u16;
    let byte = (raw % 256) as u8;
    if raw == 0x00E0 {
        Some(Opcode::CLS)
    } else if raw == 0x00EE {
        Some(Opcode::RET)
    } else if family == 0x1 {
        Some(Opcode::JP { addr })
    } else if family == 0x2 {
        Some(Opcode::CALL { addr })
    } else if family == 0x3 {
        Some(Opcode::SEByte { x, byte })
    } else if family == 0x4 {
        Some(Opcode::SNEByte { x, byte })
    } else if family == 0x5 && last == 0 {
        Some(Opcode::SEReg { x, y })
    } else if family == 0x6 {
        Some(Opcode::LDByte { x, byte })
    } else if family == 0x7 {
        Some(Opcode::ADDByte { x, byte })
    } else if family == 0x8 {
        decode_arithmetic(x, y, last)
    } else if family == 0x9 && last == 0 {
        Some(Opcode::SNEReg { x, y })
    } else if family == 0xA {
        Some(Opcode::LDI { addr })
    } else if family == 0xB {
        Some(Opcode::JPPlusV0 { addr })
    } else if family == 0xC {
        Some(Opcode::RND { x, byte })
    } else if family == 0xD {
        Some(Opcode::DRW { x, y, n })
    } else if family == 0xE && low == 0x9E {
        Some(Opcode::SKP { x })
    } else if family == 0xE && low == 0xA1 {
        Some(Opcode::SKNP { x })
    } else if family == 0xF {
        decode_misc(x, low)
    } else {
        None
    }
}

impl Opcode {
    /// Every operand lies in the range of its field: register indices and
    /// counts below 16, addresses below 4096.
    pub open spec fn operands_in_range(self) -> bool {
        match self {
            Opcode::CLS | Opcode::RET => true,
            Opcode::JP { addr } | Opcode::CALL { addr } | Opcode::LDI { addr } | Opcode::JPPlusV0 {
                addr,
            } => addr < 4096,
            Opcode::SEByte { x, .. }
            | Opcode::SNEByte { x, .. }
            | Opcode::LDByte { x, .. }
            | Opcode::ADDByte { x, .. }
            | Opcode::RND { x, .. } => x@ < 16,
            Opcode::SEReg { x, y }
            | Opcode::LDReg { x, y }
            | Opcode::OR { x, y }
            | Opcode::AND { x, y }
            | Opcode::XOR { x, y }
            | Opcode::ADD { x, y }
            | Opcode::SUB { x, y }
            | Opcode::SHR { x, y }
            | Opcode::SUBN { x, y }
            | Opcode::SHL { x, y }
            | Opcode::SNEReg { x, y } => x@ < 16 && y@ < 16,
            Opcode::DRW { x, y, n } => x@ < 16 && y@ < 16 && n@ < 16,
            Opcode::SKP { x }
            | Opcode::SKNP { x }
            | Opcode::LDxDT { x }
            | Opcode::LDxK { x }
            | Opcode::LDdtX { x }
            | Opcode::LDstX { x }
            | Opcode::ADDI { x }
            | Opcode::LDF { x }
            | Opcode::LDB { x }
            | Opcode::LDIStore { x }
            | Opcode::LDIRead { x } => x@ < 16,
        }
    }

    /// Decodes an instruction word. A word outside the instruction set is
    /// reported, never skipped.
    pub fn decode(raw: u16) -> (r: Result<Opcode, ChipError>)
        ensures
            r == match decode_spec(raw) {
                Some(op) => Ok::<Opcode, ChipError>(op),
                None => Err(ChipError::DecodeError { raw }),
            },
            r matches Ok(op) ==> op.operands_in_range(),
    {
        let n = Nibbles::from_u16(raw);
        let addr: u16 = raw & 0x0FFF;
        let byte: u8 = (raw & 0xFF) as u8;
        assert(raw & 0x0FFF == raw % 4096) by (bit_vector);
        assert((raw & 0xFF) as u8 == (raw % 256) as u8) by (bit_vector);
        let (x, y, last) = (n.second, n.third, n.fourth);
        let family = n.first.as_u8();
        let third = n.third.as_u8();
        let fourth = n.fourth.as_u8();
        proof {
            lemma_digits(raw);
        }
        match (family, x.as_u8(), third, fourth) {
            (0x0, 0x0, 0xE, 0x0) => Ok(Opcode::CLS),
            (0x0, 0x0, 0xE, 0xE) => Ok(Opcode::RET),
            (0x1, _, _, _) => Ok(Opcode::JP { addr }),
            (0x2, _, _, _) => Ok(Opcode::CALL { addr }),
            (0x3, _, _, _) => Ok(Opcode::SEByte { x, byte }),
            (0x4, _, _, _) => Ok(Opcode::SNEByte { x, byte }),
            (0x5, _, _, 0x0) => Ok(Opcode::SEReg { x, y }),
            (0x6, _, _, _) => Ok(Opcode::LDByte { x, byte }),
            (0x7, _, _, _) => Ok(Opcode::ADDByte { x, byte }),
            (0x8, _, _, 0x0) => Ok(Opcode::LDReg { x, y }),
            (0x8, _, _, 0x1) => Ok(Opcode::OR { x, y }),
            (0x8, _, _, 0x2) => Ok(Opcode::AND { x, y }),
            (0x8, _, _, 0x3) => Ok(Opcode::XOR { x, y }),
            (0x8, _, _, 0x4) => Ok(Opcode::ADD { x, y }),
            (0x8, _, _, 0x5) => Ok(Opcode::SUB { x, y }),
            (0x8, _, _, 0x6) => Ok(Opcode::SHR { x, y }),
            (0x8, _, _, 0x7) => Ok(Opcode::SUBN { x, y }),
            (0x8, _, _, 0xE) => Ok(Opcode::SHL { x, y }),
            (0x9, _, _, 0x0) => Ok(Opcode::SNEReg { x, y }),
            (0xA, _, _, _) => Ok(Opcode::LDI { addr }),
            (0xB, _, _, _) => Ok(Opcode::JPPlusV0 { addr }),
            (0xC, _, _, _) => Ok(Opcode::RND { x, byte }),
            (0xD, _, _, _) => Ok(Opcode::DRW { x, y, n: last }),
            (0xE, _, 0x9, 0xE) => Ok(Opcode::SKP { x }),
            (0xE, _, 0xA, 0x1) => Ok(Opcode::SKNP { x }),
            (0xF, _, 0x0, 0x7) => Ok(Opcode::LDxDT { x }),
            (0xF, _, 0x0, 0xA) => Ok(Opcode::LDxK { x }),
            (0xF, _, 0x1, 0x5) => Ok(Opcode::LDdtX { x }),
            (0xF, _, 0x1, 0x8) => Ok(Opcode::LDstX { x }),
            (0xF, _, 0x1, 0xE) => Ok(Opcode::ADDI { x }),
            (0xF, _, 0x2, 0x9) => Ok(Opcode::LDF { x }),
            (0xF, _, 0x3, 0x3) => Ok(Opcode::LDB { x }),
            (0xF, _, 0x5, 0x5) => Ok(Opcode::LDIStore { x }),
            (0xF, _, 0x6, 0x5) => Ok(Opcode::LDIRead { x }),
            _ => Err(ChipError::DecodeError { raw }),
        }
    }
}

/// A word is the sum of its four hexadecimal digits, each weighted by its
/// place.
proof fn lemma_digits(raw: u16)
    ensures
        raw == (raw / 4096) * 4096 + ((raw / 256) % 16) * 256 + ((raw / 16) % 16) * 16 + raw % 16,
        raw % 256 == ((raw / 16) % 16) * 16 + raw % 16,
        raw % 4096 < 4096,
        raw / 4096 < 16,
{
    assert(raw == (raw / 4096) * 4096 + ((raw / 256) % 16) * 256 + ((raw / 16) % 16) * 16 + raw
        % 16) by (bit_vector);
    assert(raw % 256 == ((raw / 16) % 16) * 16 + raw % 16) by (bit_vector);
    assert(raw / 4096 < 16) by (bit_vector);
}

} // verus!
