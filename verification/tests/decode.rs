use chip8::error::ChipError;
use chip8::nibble::Nibble;
use chip8::nibbles::Nibbles;
use chip8::opcode::Opcode;
use chip8::{char_to_hex_number, combine_u8_to_u16, n, nn, nnn, u8_pair_to_hex, x, y};

fn nib(v: u8) -> Nibble {
    Nibble::from_low(v)
}

#[test]
fn test_nibble_from_opcode_picks_each_digit() {
    assert_eq!(Nibble::from_opcode(0xABCD, 12).as_u8(), 0xA);
    assert_eq!(Nibble::from_opcode(0xABCD, 8).as_u8(), 0xB);
    assert_eq!(Nibble::from_opcode(0xABCD, 4).as_u8(), 0xC);
    assert_eq!(Nibble::from_opcode(0xABCD, 0).as_usize(), 0xD);
    assert_eq!(Nibble::from_opcode(0xABCD, 1).as_u8(), 0x6);
}

#[test]
fn test_nibbles_from_u16() {
    let n = Nibbles::from_u16(0x1F0E);
    assert_eq!(n.first, nib(1));
    assert_eq!(n.second, nib(0xF));
    assert_eq!(n.third, nib(0));
    assert_eq!(n.fourth, nib(0xE));
}

#[test]
fn test_operand_helpers() {
    assert_eq!(nnn(0x1234), 0x234);
    assert_eq!(nn(0x1234), 0x34);
    assert_eq!(n(0x1234), 0x4);
    assert_eq!(x(0x1234), 0x2);
    assert_eq!(y(0x1234), 0x3);
    assert_eq!(combine_u8_to_u16(0x12, 0x34), 0x1234);
    assert_eq!(combine_u8_to_u16(0xFF, 0x00), 0xFF00);
}

#[test]
fn test_hex_helpers() {
    assert_eq!(u8_pair_to_hex(0xAB, 0x0F), ['A', 'B', '0', 'F']);
    assert_eq!(u8_pair_to_hex(0x00, 0x99), ['0', '0', '9', '9']);
    assert_eq!(char_to_hex_number('0'), Some(0));
    assert_eq!(char_to_hex_number('9'), Some(9));
    assert_eq!(char_to_hex_number('a'), Some(10));
    assert_eq!(char_to_hex_number('F'), Some(15));
    assert_eq!(char_to_hex_number('g'), None);
    assert_eq!(char_to_hex_number(' '), None);
    for v in 0..=255u8 {
        let d = u8_pair_to_hex(v, v);
        assert_eq!(char_to_hex_number(d[0]), Some(v / 16));
        assert_eq!(char_to_hex_number(d[1]), Some(v % 16));
        assert_eq!(d[0], d[2]);
        assert_eq!(d[1], d[3]);
    }
}

#[test]
fn test_decode_system_and_flow() {
    assert_eq!(Opcode::decode(0x00E0), Ok(Opcode::CLS));
    assert_eq!(Opcode::decode(0x00EE), Ok(Opcode::RET));
    assert_eq!(Opcode::decode(0x1ABC), Ok(Opcode::JP { addr: 0xABC }));
    assert_eq!(Opcode::decode(0x2FFF), Ok(Opcode::CALL { addr: 0xFFF }));
    assert_eq!(Opcode::decode(0xA123), Ok(Opcode::LDI { addr: 0x123 }));
    assert_eq!(Opcode::decode(0xB000), Ok(Opcode::JPPlusV0 { addr: 0 }));
}

#[test]
fn test_decode_skips_and_immediates() {
    assert_eq!(Opcode::decode(0x3A42), Ok(Opcode::SEByte { x: nib(0xA), byte: 0x42 }));
    assert_eq!(Opcode::decode(0x4B00), Ok(Opcode::SNEByte { x: nib(0xB), byte: 0 }));
    assert_eq!(Opcode::decode(0x5120), Ok(Opcode::SEReg { x: nib(1), y: nib(2) }));
    assert_eq!(Opcode::decode(0x9EF0), Ok(Opcode::SNEReg { x: nib(0xE), y: nib(0xF) }));
    assert_eq!(Opcode::decode(0x6005), Ok(Opcode::LDByte { x: nib(0), byte: 5 }));
    assert_eq!(Opcode::decode(0x7003), Ok(Opcode::ADDByte { x: nib(0), byte: 3 }));
    assert_eq!(Opcode::decode(0xC7F0), Ok(Opcode::RND { x: nib(7), byte: 0xF0 }));
    assert_eq!(Opcode::decode(0xD125), Ok(Opcode::DRW { x: nib(1), y: nib(2), n: nib(5) }));
}

#[test]
fn test_decode_register_family() {
    let (a, b) = (nib(3), nib(4));
    assert_eq!(Opcode::decode(0x8340), Ok(Opcode::LDReg { x: a, y: b }));
    assert_eq!(Opcode::decode(0x8341), Ok(Opcode::OR { x: a, y: b }));
    assert_eq!(Opcode::decode(0x8342), Ok(Opcode::AND { x: a, y: b }));
    assert_eq!(Opcode::decode(0x8343), Ok(Opcode::XOR { x: a, y: b }));
    assert_eq!(Opcode::decode(0x8344), Ok(Opcode::ADD { x: a, y: b }));
    assert_eq!(Opcode::decode(0x8345), Ok(Opcode::SUB { x: a, y: b }));
    assert_eq!(Opcode::decode(0x8346), Ok(Opcode::SHR { x: a, y: b }));
    assert_eq!(Opcode::decode(0x8347), Ok(Opcode::SUBN { x: a, y: b }));
    assert_eq!(Opcode::decode(0x834E), Ok(Opcode::SHL { x: a, y: b }));
}

#[test]
fn test_decode_keys_timers_memory() {
    let a = nib(9);
    assert_eq!(Opcode::decode(0xE99E), Ok(Opcode::SKP { x: a }));
    assert_eq!(Opcode::decode(0xE9A1), Ok(Opcode::SKNP { x: a }));
    assert_eq!(Opcode::decode(0xF907), Ok(Opcode::LDxDT { x: a }));
    assert_eq!(Opcode::decode(0xF90A), Ok(Opcode::LDxK { x: a }));
    assert_eq!(Opcode::decode(0xF915), Ok(Opcode::LDdtX { x: a }));
    assert_eq!(Opcode::decode(0xF918), Ok(Opcode::LDstX { x: a }));
    assert_eq!(Opcode::decode(0xF91E), Ok(Opcode::ADDI { x: a }));
    assert_eq!(Opcode::decode(0xF929), Ok(Opcode::LDF { x: a }));
    assert_eq!(Opcode::decode(0xF933), Ok(Opcode::LDB { x: a }));
    assert_eq!(Opcode::decode(0xF955), Ok(Opcode::LDIStore { x: a }));
    assert_eq!(Opcode::decode(0xF965), Ok(Opcode::LDIRead { x: a }));
}

#[test]
fn test_decode_rejects_words_outside_the_set() {
    for raw in [0x0000u16, 0x00E1, 0x0123, 0x5AB1, 0x8348, 0x834F, 0x9121, 0xE19F, 0xE000, 0xF100, 0xF1FF, 0xF934] {
        assert_eq!(Opcode::decode(raw), Err(ChipError::DecodeError { raw }));
    }
}

#[test]
fn test_decode_counts_the_instruction_set() {
    let mut valid: u32 = 0;
    for raw in 0..=0xFFFFu16 {
        if Opcode::decode(raw).is_ok() {
            valid += 1;
        }
    }
    // 2 system words; 10 families of 4096 words (1 2 3 4 6 7 A B C D);
    // 5XY0 and 9XY0 with 256 words each; 9 register operations, 2 key
    // skips and 9 timer and memory operations with 16 or 256 words each.
    assert_eq!(valid, 2 + 10 * 4096 + 2 * 256 + 9 * 256 + 2 * 16 + 9 * 16);
}
