//! A virtual machine for the CHIP-8 instruction set: sixteen 8-bit registers,
//! 4096 bytes of memory, a stack of return addresses, two timers, a keypad of
//! sixteen keys and a display of 64 by 32 pixels.
//!
//! The machine is [`chip::Chip`]. A driver loads a program, then runs
//! [`chip::Chip::cycle`] at its own pace, handing in the key typed since the
//! last cycle, and writes out what the display renders. What an instruction
//! does is stated by [`execute::execute_spec`], what a step and a cycle do by
//! [`cycle::step_spec`] and [`cycle::cycle_spec`]; the executable functions
//! are proved against them.

use vstd::prelude::*;

pub mod chip;
pub mod controls;
pub mod cycle;
pub mod display;
pub mod error;
pub mod execute;
pub mod font;
pub mod memory;
pub mod nibble;
pub mod nibbles;
pub mod opcode;
pub mod quirks;
pub mod registers;
pub mod stack;
pub mod timers;

verus! {

/// The number of bytes of memory.
pub const MEMORY_SIZE: usize = 4096;

/// The number of pixel rows of the display.
pub const DISPLAY_HEIGHT: usize = 32;

/// The number of pixel columns of the display.
pub const DISPLAY_WIDTH: usize = 64;

/// The address at which a program is loaded and at which execution starts.
pub const PROGRAM_START: usize = 512;

/// The hexadecimal digit, in upper case, that stands for `n`.
pub open spec fn hex_digit(n: int) -> char {
    if n < 10 {
        ('0' as int + n) as char
    } else {
        ('A' as int + n - 10) as char
    }
}

/// The value of a hexadecimal digit in either case, or `None` for any other
/// character.
pub open spec fn hex_value(c: char) -> Option<u8> {
    if '0' <= c <= '9' {
        Some((c as int - '0' as int) as u8)
    } else if 'a' <= c <= 'f' {
        Some((c as int - 'a' as int + 10) as u8)
    } else if 'A' <= c <= 'F' {
        Some((c as int - 'A' as int + 10) as u8)
    } else {
        None
    }
}

/// Reading a digit back gives the value that it was written for.
pub proof fn lemma_hex_round_trip(n: u8)
    requires
        n < 16,
    ensures
        hex_value(hex_digit(n as int)) == Some(n),
{
}

/// The word whose high byte is `high` and whose low byte is `low`.
pub fn combine_u8_to_u16(high: u8, low: u8) -> (w: u16)
    ensures
        w == high * 256 + low,
{
    assert(((high as u16) << 8) | (low as u16) == (high * 256 + low) as u16) by (bit_vector);
    ((high as u16) << 8) | (low as u16)
}

fn hex_char(n: u8) -> (c: char)
    requires
        n < 16,
    ensures
        c == hex_digit(n as int),
{
    if n < 10 {
        (0x30u8 + n) as char
    } else {
        (0x41u8 + (n - 10)) as char
    }
}

/// The four hexadecimal digits of the word made of `byte1` and `byte2`.
pub fn u8_pair_to_hex(byte1: u8, byte2: u8) -> (digits: [char; 4])
    ensures
        digits@ == seq![
            hex_digit(byte1 as int / 16),
            hex_digit(byte1 as int % 16),
            hex_digit(byte2 as int / 16),
            hex_digit(byte2 as int % 16),
        ],
{
    let digits = [
        hex_char(byte1 / 16),
        hex_char(byte1 % 16),
        hex_char(byte2 / 16),
        hex_char(byte2 % 16),
    ];
    assert(digits@ =~= seq![
        hex_digit(byte1 as int / 16),
        hex_digit(byte1 as int % 16),
        hex_digit(byte2 as int / 16),
        hex_digit(byte2 as int % 16),
    ]);
    digits
}

/// The value of a hexadecimal digit.
pub fn char_to_hex_number(hex_char: char) -> (value: Option<u8>)
    ensures
        value == hex_value(hex_char),
        value matches Some(v) ==> v < 16,
{
    let code: u32 = hex_char as u32;
    if '0' <= hex_char && hex_char <= '9' {
        Some((code - '0' as u32) as u8)
    } else if 'a' <= hex_char && hex_char <= 'f' {
        Some((code - 'a' as u32 + 10) as u8)
    } else if 'A' <= hex_char && hex_char <= 'F' {
        Some((code - 'A' as u32 + 10) as u8)
    } else {
        None
    }
}

/// The address operand of an instruction word: its low twelve bits.
pub fn nnn(value: u16) -> (addr: usize)
    ensures
        addr == value % 4096,
{
    assert(value & 0x0FFF == value % 4096) by (bit_vector);
    (value & 0x0FFF) as usize
}

/// The byte operand of an instruction word: its low eight bits.
pub fn nn(value: u16) -> (byte: u8)
    ensures
        byte == value % 256,
{
    assert((value & 0x00FF) as u8 == value % 256) by (bit_vector);
    (value & 0x00FF) as u8
}

/// The last nibble of an instruction word.
pub fn n(value: u16) -> (count: u8)
    ensures
        count == value % 16,
{
    assert((value & 0x000F) as u8 == value % 16) by (bit_vector);
    (value & 0x000F) as u8
}

/// The second nibble of an instruction word: the index of register X.
pub fn x(value: u16) -> (index: u8)
    ensures
        index == (value / 256) % 16,
{
    assert(((value & 0x0F00) >> 8) as u8 == (value / 256) % 16) by (bit_vector);
    ((value & 0x0F00) >> 8) as u8
}

/// The third nibble of an instruction word: the index of register Y.
pub fn y(value: u16) -> (index: u8)
    ensures
        index == (value / 16) % 16,
{
    assert(((value & 0x00F0) >> 4) as u8 == (value / 16) % 16) by (bit_vector);
    ((value & 0x00F0) >> 4) as u8
}

} // verus!
