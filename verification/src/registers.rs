use vstd::prelude::*;
use crate::nibble::Nibble;
use crate::{x, y};

verus! {

/// The sixteen general registers V0 to VF and the index register I. VF is
/// also the flag that arithmetic, shifts and drawing report in.
pub struct Registers {
    v: [u8; 16],
    i: u16,
}

/// The registers after `value` was added to register `x`: the sum modulo 256
/// in the register, then the carry in VF.
pub open spec fn added(v: Seq<u8>, x: int, value: u8) -> Seq<u8> {
    let sum = v[x] + value;
    v.update(x, (sum % 256) as u8).update(
        15,
        if sum > 255 {
            1u8
        } else {
            0u8
        },
    )
}

impl Registers {
    /// The values of V0 to VF.
    pub closed spec fn v(&self) -> Seq<u8> {
        self.v@
    }

    /// The value of the index register.
    pub closed spec fn i(&self) -> u16 {
        self.i
    }

    /// There are sixteen general registers.
    pub broadcast proof fn lemma_count(self)
        ensures
            #[trigger] self.v().len() == 16,
    {
    }

    pub fn new() -> (r: Self)
        ensures
            r.v() == Seq::new(16, |k: int| 0u8),
            r.i() == 0,
    {
        let r = Registers { v: [0; 16], i: 0 };
        assert(r.v() =~= Seq::new(16, |k: int| 0u8));
        r
    }

    pub fn get(&self, x: Nibble) -> (value: u8)
        ensures
            value == self.v()[x@ as int],
    {
        self.v[x.as_usize()]
    }

    pub fn set(&mut self, x: Nibble, value: u8)
        ensures
            final(self).v() == old(self).v().update(x@ as int, value),
            final(self).i() == old(self).i(),
    {
        self.v[x.as_usize()] = value;
    }

    /// Adds `value` to register `x` and leaves the carry in VF.
    pub fn add(&mut self, x: Nibble, value: u8)
        ensures
            final(self).v() == added(old(self).v(), x@ as int, value),
            final(self).i() == old(self).i(),
    {
        let idx = x.as_usize();
        let sum: u16 = self.v[idx] as u16 + value as u16;
        self.v[idx] = (sum % 256) as u8;
        self.v[0xF] = if sum > 255 {
            1
        } else {
            0
        };
    }

    pub fn set_carry(&mut self, value: u8)
        ensures
            final(self).v() == old(self).v().update(15, value),
            final(self).i() == old(self).i(),
    {
        self.v[0xF] = value;
    }

    pub fn get_carry(&self) -> (value: u8)
        ensures
            value == self.v()[15],
    {
        self.v[0xF]
    }

    pub fn set_i(&mut self, value: u16)
        ensures
            final(self).i() == value,
            final(self).v() == old(self).v(),
    {
        self.i = value;
    }

    pub fn get_i(&self) -> (value: u16)
        ensures
            value == self.i(),
    {
        self.i
    }

    /// The register that the second nibble of `instruction` names.
    pub fn get_vx(&self, instruction: u16) -> (value: u8)
        ensures
            value == self.v()[((instruction / 256) % 16) as int],
    {
        self.v[x(instruction) as usize]
    }

    /// The register that the third nibble of `instruction` names.
    pub fn get_vy(&self, instruction: u16) -> (value: u8)
        ensures
            value == self.v()[((instruction / 16) % 16) as int],
    {
        self.v[y(instruction) as usize]
    }

    pub fn set_vx(&mut self, instruction: u16, value: u8)
        ensures
            final(self).v() == old(self).v().update(((instruction / 256) % 16) as int, value),
            final(self).i() == old(self).i(),
    {
        let idx = x(instruction) as usize;
        self.v[idx] = value;
    }

    /// Adds `value` to the register that the second nibble of `instruction`
    /// names and leaves the carry in VF.
    pub fn add_vx(&mut self, instruction: u16, value: u8)
        ensures
            final(self).v() == added(old(self).v(), ((instruction / 256) % 16) as int, value),
            final(self).i() == old(self).i(),
    {
        let idx = x(instruction) as usize;
        let sum: u16 = self.v[idx] as u16 + value as u16;
        self.v[idx] = (sum % 256) as u8;
        self.v[0xF] = if sum > 255 {
            1
        } else {
            0
        };
    }
}

} // verus!
