use vstd::prelude::*;
use crate::nibble::Nibble;

verus! {

/// The four nibbles of an instruction word, most significant first.
pub struct Nibbles {
    pub first: Nibble,
    pub second: Nibble,
    pub third: Nibble,
    pub fourth: Nibble,
}

impl Nibbles {
    pub fn from_u16(value: u16) -> (r: Self)
        ensures
            r.first == Nibble::of((value / 4096) as u8),
            r.second == Nibble::of(((value / 256) % 16) as u8),
            r.third == Nibble::of(((value / 16) % 16) as u8),
            r.fourth == Nibble::of((value % 16) as u8),
    {
        assert(((value >> 12u8) & 0xF) as u8 == (value / 4096) as u8) by (bit_vector);
        assert(((value >> 8u8) & 0xF) as u8 == ((value / 256) % 16) as u8) by (bit_vector);
        assert(((value >> 4u8) & 0xF) as u8 == ((value / 16) % 16) as u8) by (bit_vector);
        assert(((value >> 0u8) & 0xF) as u8 == (value % 16) as u8) by (bit_vector);
        Nibbles {
            first: Nibble::from_opcode(value, 12),
            second: Nibble::from_opcode(value, 8),
            third: Nibble::from_opcode(value, 4),
            fourth: Nibble::from_opcode(value, 0),
        }
    }
}

} // verus!
