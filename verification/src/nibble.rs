use vstd::prelude::*;

verus! {

/// A four-bit value: one hexadecimal digit of an instruction word.
#[derive(Copy, Clone, Debug, PartialEq, Eq, Structural)]
pub struct Nibble(u8);

impl View for Nibble {
    type V = u8;

    closed spec fn view(&self) -> u8 {
        self.0
    }
}

impl Nibble {
    #[verifier::type_invariant]
    spec fn in_range(self) -> bool {
        self.0 < 16
    }

    /// The nibble whose value is `n`.
    pub closed spec fn of(n: u8) -> Nibble {
        Nibble(n)
    }

    /// `of` and the view are inverse to each other.
    pub broadcast proof fn lemma_view_of(n: u8)
        ensures
            (#[trigger] Nibble::of(n))@ == n,
    {
    }

    /// A nibble is determined by its value.
    pub broadcast proof fn lemma_of_view(x: Nibble)
        ensures
            Nibble::of(#[trigger] x@) == x,
    {
    }

    pub fn from_low(n: u8) -> (r: Self)
        requires
            n < 16,
        ensures
            r == Nibble::of(n),
            r@ == n,
    {
        Nibble(n)
    }

    /// The nibble of `opcode` that starts at bit `shift`.
    pub fn from_opcode(opcode: u16, shift: u8) -> (r: Self)
        requires
            shift < 16,
        ensures
            r == Nibble::of(((opcode >> shift) & 0xF) as u8),
            r@ == (opcode >> shift) & 0xF,
            r@ < 16,
    {
        let low: u16 = (opcode >> shift) & 0xF;
        assert(low < 16) by (bit_vector)
            requires
                low == (opcode >> shift) & 0xF,
        ;
        Nibble::from_low(low as u8)
    }

    pub fn as_u8(self) -> (r: u8)
        ensures
            r == self@,
            r < 16,
    {
        proof {
            use_type_invariant(&self);
        }
        self.0
    }

    pub fn as_usize(self) -> (r: usize)
        ensures
            r == self@,
            r < 16,
    {
        proof {
            use_type_invariant(&self);
        }
        self.0 as usize
    }
}

pub broadcast group group_nibble {
    Nibble::lemma_view_of,
    Nibble::lemma_of_view,
}

} // verus!
