use vstd::prelude::*;
use crate::MEMORY_SIZE;

verus! {

/// The machine's memory: 4096 bytes, addressed from 0.
pub struct Memory {
    ram: [u8; MEMORY_SIZE],
}

impl View for Memory {
    type V = Seq<u8>;

    closed spec fn view(&self) -> Seq<u8> {
        self.ram@
    }
}

/// What memory holds after `bytes` were copied to `start` and the addresses
/// that follow it.
pub open spec fn loaded(memory: Seq<u8>, start: int, bytes: Seq<u8>) -> Seq<u8> {
    Seq::new(
        memory.len(),
        |a: int|
            if start <= a < start + bytes.len() {
                bytes[a - start]
            } else {
                memory[a]
            },
    )
}

/// The 16-bit word whose high byte is `high` and whose low byte is `low`.
pub open spec fn word(high: u8, low: u8) -> u16 {
    (high * 256 + low) as u16
}

impl Memory {
    /// Memory always holds 4096 bytes.
    pub broadcast proof fn lemma_size(self)
        ensures
            #[trigger] self@.len() == MEMORY_SIZE,
    {
    }

    pub fn new() -> (m: Self)
        ensures
            m@ == Seq::new(MEMORY_SIZE as nat, |a: int| 0u8),
    {
        let m = Memory { ram: [0u8; MEMORY_SIZE] };
        assert(m@ =~= Seq::new(MEMORY_SIZE as nat, |a: int| 0u8));
        m
    }

    pub fn read(&self, addr: usize) -> (byte: u8)
        requires
            addr < MEMORY_SIZE,
        ensures
            byte == self@[addr as int],
    {
        self.ram[addr]
    }

    pub fn write(&mut self, addr: usize, value: u8)
        requires
            addr < MEMORY_SIZE,
        ensures
            final(self)@ == old(self)@.update(addr as int, value),
    {
        self.ram[addr] = value;
    }

    /// The big-endian word at `addr` and `addr + 1`.
    pub fn read_u16(&self, addr: usize) -> (w: u16)
        requires
            addr + 1 < MEMORY_SIZE,
        ensures
            w == word(self@[addr as int], self@[addr + 1]),
    {
        let high = self.ram[addr];
        let low = self.ram[addr + 1];
        assert(((high as u16) << 8) | (low as u16) == (high * 256 + low) as u16) by (bit_vector);
        ((high as u16) << 8) | (low as u16)
    }

    /// The bytes from `start` up to, not including, `end`.
    pub fn slice(&mut self, start: usize, end: usize) -> (bytes: &[u8])
        requires
            start <= end <= MEMORY_SIZE,
        ensures
            bytes@ == old(self)@.subrange(start as int, end as int),
            final(self)@ == old(self)@,
    {
        &self.ram[start..end]
    }

    /// Copies `bytes` to `start` and the addresses that follow it.
    pub fn load(&mut self, start: usize, bytes: &[u8])
        requires
            start + bytes.len() <= MEMORY_SIZE,
        ensures
            final(self)@ == loaded(old(self)@, start as int, bytes@),
    {
        let mut k: usize = 0;
        while k < bytes.len()
            invariant
                k <= bytes.len(),
                start + bytes.len() <= MEMORY_SIZE,
                self@ == loaded(old(self)@, start as int, bytes@.take(k as int)),
            decreases bytes.len() - k,
        {
            self.ram[start + k] = bytes[k];
            k += 1;
            assert(self@ =~= loaded(old(self)@, start as int, bytes@.take(k as int)));
        }
        assert(bytes@.take(k as int) =~= bytes@);
    }
}

} // verus!
