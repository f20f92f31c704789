use vstd::prelude::*;
use crate::chip::{Chip, MachineState};
use crate::controls::Chip8Key;
use crate::display::display_trait::{blank, collides, drawn, Ch8Display};
use crate::error::ChipError;
use crate::font::{FONT_START, GLYPH_SIZE};
use crate::memory::loaded;
use crate::nibble::Nibble;
use crate::opcode::Opcode;
use crate::quirks::Quirks;
use crate::registers::added;
use crate::stack::STACK_SIZE;
use crate::MEMORY_SIZE;

verus! {

broadcast use {
    crate::nibble::group_nibble,
    crate::controls::group_key,
    crate::memory::Memory::lemma_size,
    crate::registers::Registers::lemma_count,
    crate::stack::Stack::lemma_depth,
    crate::controls::Keypad::lemma_count,
};

/// The value that VF takes for an outcome: 1 where it holds, else 0.
pub open spec fn flag(outcome: bool) -> u8 {
    if outcome {
        1
    } else {
        0
    }
}

/// The state after a conditional skip: the program counter has moved past
/// one more instruction where the condition holds, and nothing has changed
/// where it does not.
pub open spec fn skipped(s: MachineState, condition: bool) -> MachineState {
    MachineState {
        pc: if condition {
            s.pc + 2
        } else {
            s.pc
        },
        ..s
    }
}

/// Whether the key with this code is down. A value that is no key code
/// stands for a key that is not down.
pub open spec fn key_down(s: MachineState, code: u8) -> bool {
    code < 16 && s.keys[code as int]
}

/// The address that an access which begins at `i` and leaves memory
/// reports: the first address of the access that lies outside memory.
pub open spec fn first_outside(i: u16) -> usize {
    if i >= MEMORY_SIZE {
        i as usize
    } else {
        MEMORY_SIZE
    }
}

/// The registers after `y` was subtracted from register `x`: the difference
/// modulo 256 in the register, then VF set to 1 where nothing was borrowed.
pub open spec fn subtracted(v: Seq<u8>, x: int, minuend: u8, subtrahend: u8) -> Seq<u8> {
    v.update(x, ((minuend - subtrahend) % 256) as u8).update(15, flag(minuend >= subtrahend))
}

/// The register that a shift takes its value from: register X, or register
/// Y where the machine follows the older variant.
pub open spec fn shift_source(quirks: Quirks, x: Nibble, y: Nibble) -> int {
    if quirks.shift_reads_vy {
        y@ as int
    } else {
        x@ as int
    }
}

/// The registers after `value` was shifted right by one into register `x`:
/// the bit that left in VF, then half the value in the register.
pub open spec fn shifted_right(v: Seq<u8>, x: int, value: u8) -> Seq<u8> {
    v.update(15, (value % 2) as u8).update(x, (value / 2) as u8)
}

/// The registers after `value` was shifted left by one into register `x`:
/// the bit that left in VF, then twice the value modulo 256 in the register.
pub open spec fn shifted_left(v: Seq<u8>, x: int, value: u8) -> Seq<u8> {
    v.update(15, (value / 128) as u8).update(x, ((value * 2) % 256) as u8)
}

/// The registers after block store: as they were, or with V0 to register
/// `x` at zero where the machine follows the older variant.
pub open spec fn after_store(quirks: Quirks, v: Seq<u8>, x: int) -> Seq<u8> {
    if quirks.store_clears_registers {
        Seq::new(
            v.len(),
            |k: int|
                if k <= x {
                    0u8
                } else {
                    v[k]
                },
        )
    } else {
        v
    }
}

/// The index register after `value` was added to it: the sum, or 65535
/// where the sum is larger.
pub open spec fn index_added(i: u16, value: u8) -> u16 {
    if i + value > 0xFFFF {
        0xFFFFu16
    } else {
        (i + value) as u16
    }
}

/// The address of the glyph for the low nibble of `value`.
pub open spec fn glyph_address(value: u8) -> u16 {
    (FONT_START + (value % 16) * GLYPH_SIZE) as u16
}

/// The decimal digits of a byte: hundreds, tens, ones.
pub open spec fn decimal_digits(value: u8) -> Seq<u8> {
    seq![(value / 100) as u8, ((value / 10) % 10) as u8, (value % 10) as u8]
}

/// What one instruction does: the state after it and, where it cannot be
/// carried out, the error, with the state as it was. `random` is the byte
/// that the random instruction draws; no other instruction looks at it.
///
/// Block store and load leave the index register as it was. Where the
/// historical machines disagree, `s.quirks` decides.
pub open spec fn execute_spec(s: MachineState, op: Opcode, random: u8) -> (
    MachineState,
    Result<(), ChipError>,
) {
    match op {
        Opcode::CLS => (MachineState { pixels: blank(), ..s }, Ok(())),
        Opcode::RET => if s.stack.len() == 0 {
            (s, Err(ChipError::StackUnderflow))
        } else {
            (MachineState { pc: s.stack.last() as int, stack: s.stack.drop_last(), ..s }, Ok(()))
        },
        Opcode::JP { addr } => (MachineState { pc: addr as int, ..s }, Ok(())),
        Opcode::JPPlusV0 { addr } => (MachineState { pc: addr + s.v[0], ..s }, Ok(())),
        Opcode::CALL { addr } => if s.stack.len() >= STACK_SIZE {
            (s, Err(ChipError::StackOverflow))
        } else {
            (
                MachineState { pc: addr as int, stack: s.stack.push(s.pc as usize as u16), ..s },
                Ok(()),
            )
        },
        Opcode::SEByte { x, byte } => (skipped(s, s.v[x@ as int] == byte), Ok(())),
        Opcode::SNEByte { x, byte } => (skipped(s, s.v[x@ as int] != byte), Ok(())),
        Opcode::SEReg { x, y } => (skipped(s, s.v[x@ as int] == s.v[y@ as int]), Ok(())),
        Opcode::SNEReg { x, y } => (skipped(s, s.v[x@ as int] != s.v[y@ as int]), Ok(())),
        Opcode::LDByte { x, byte } => (MachineState { v: s.v.update(x@ as int, byte), ..s }, Ok(())),
        Opcode::ADDByte { x, byte } => (
            MachineState { v: s.v.update(x@ as int, ((s.v[x@ as int] + byte) % 256) as u8), ..s },
            Ok(()),
        ),
        Opcode::LDReg { x, y } => (
            MachineState { v: s.v.update(x@ as int, s.v[y@ as int]), ..s },
            Ok(()),
        ),
        Opcode::OR { x, y } => (
            MachineState { v: s.v.update(x@ as int, s.v[x@ as int] | s.v[y@ as int]), ..s },
            Ok(()),
        ),
        Opcode::AND { x, y } => (
            MachineState { v: s.v.update(x@ as int, s.v[x@ as int] & s.v[y@ as int]), ..s },
            Ok(()),
        ),
        Opcode::XOR { x, y } => (
            MachineState { v: s.v.update(x@ as int, s.v[x@ as int] ^ s.v[y@ as int]), ..s },
            Ok(()),
        ),
        Opcode::ADD { x, y } => (
            MachineState { v: added(s.v, x@ as int, s.v[y@ as int]), ..s },
            Ok(()),
        ),
        Opcode::SUB { x, y } => (
            MachineState { v: subtracted(s.v, x@ as int, s.v[x@ as int], s.v[y@ as int]), ..s },
            Ok(()),
        ),
        Opcode::SUBN { x, y } => (
            MachineState { v: subtracted(s.v, x@ as int, s.v[y@ as int], s.v[x@ as int]), ..s },
            Ok(()),
        ),
        Opcode::SHR { x, y } => (
            MachineState { v: shifted_right(s.v, x@ as int, s.v[shift_source(s.quirks, x, y)]), ..s },
            Ok(()),
        ),
        Opcode::SHL { x, y } => (
            MachineState { v: shifted_left(s.v, x@ as int, s.v[shift_source(s.quirks, x, y)]), ..s },
            Ok(()),
        ),
        Opcode::LDI { addr } => (MachineState { i: addr, ..s }, Ok(())),
        Opcode::ADDI { x } => (MachineState { i: index_added(s.i, s.v[x@ as int]), ..s }, Ok(())),
        Opcode::LDF { x } => (MachineState { i: glyph_address(s.v[x@ as int]), ..s }, Ok(())),
        Opcode::LDB { x } => if s.i + 2 >= MEMORY_SIZE {
            (s, Err(ChipError::MemoryBoundsError { addr: first_outside(s.i) }))
        } else {
            (
                MachineState {
                    memory: loaded(s.memory, s.i as int, decimal_digits(s.v[x@ as int])),
                    ..s
                },
                Ok(()),
            )
        },
        Opcode::LDIStore { x } => if s.i + x@ >= MEMORY_SIZE {
            (s, Err(ChipError::MemoryBoundsError { addr: first_outside(s.i) }))
        } else {
            (
                MachineState {
                    memory: loaded(s.memory, s.i as int, s.v.take(x@ + 1)),
                    v: after_store(s.quirks, s.v, x@ as int),
                    ..s
                },
                Ok(()),
            )
        },
        Opcode::LDIRead { x } => if s.i + x@ >= MEMORY_SIZE {
            (s, Err(ChipError::MemoryBoundsError { addr: first_outside(s.i) }))
        } else {
            (
                MachineState {
                    v: loaded(s.v, 0, s.memory.subrange(s.i as int, s.i + x@ + 1)),
                    ..s
                },
                Ok(()),
            )
        },
        Opcode::RND { x, byte } => (
            MachineState { v: s.v.update(x@ as int, random & byte), ..s },
            Ok(()),
        ),
        Opcode::DRW { x, y, n } => if s.i + n@ > MEMORY_SIZE {
            (s, Err(ChipError::MemoryBoundsError { addr: first_outside(s.i) }))
        } else {
            let sprite = s.memory.subrange(s.i as int, s.i + n@);
            (
                MachineState {
                    pixels: drawn(s.pixels, s.v[x@ as int], s.v[y@ as int], sprite),
                    v: s.v.update(
                        15,
                        flag(collides(s.pixels, s.v[x@ as int], s.v[y@ as int], sprite)),
                    ),
                    ..s
                },
                Ok(()),
            )
        },
        Opcode::LDxDT { x } => (MachineState { v: s.v.update(x@ as int, s.delay), ..s }, Ok(())),
        Opcode::LDdtX { x } => (MachineState { delay: s.v[x@ as int], ..s }, Ok(())),
        Opcode::LDstX { x } => (MachineState { sound: s.v[x@ as int], ..s }, Ok(())),
        Opcode::SKP { x } => (skipped(s, key_down(s, s.v[x@ as int])), Ok(())),
        Opcode::SKNP { x } => (skipped(s, !key_down(s, s.v[x@ as int])), Ok(())),
        Opcode::LDxK { x } => (MachineState { waiting: Some(x@), ..s }, Ok(())),
    }
}

/// Addition of two registers leaves the sum modulo 256 in register X and
/// sets VF to 1 exactly when the sum is more than 255. Where X is VF
/// itself, the flag is what VF holds afterwards.
pub proof fn lemma_add_carry(s: MachineState, x: Nibble, y: Nibble, random: u8)
    requires
        s.v.len() == 16,
        x@ < 16,
        y@ < 16,
    ensures
        ({
            let sum = s.v[x@ as int] + s.v[y@ as int];
            let after = execute_spec(s, Opcode::ADD { x, y }, random).0;
            &&& after.v[15] == flag(sum > 255)
            &&& x@ != 15 ==> after.v[x@ as int] == sum % 256
        }),
{
}

/// Subtraction leaves the difference modulo 256 in register X and sets VF to
/// 1 exactly when nothing was borrowed, that is when VX is at least VY.
/// Where X is VF itself, the flag is what VF holds afterwards.
pub proof fn lemma_sub_borrow(s: MachineState, x: Nibble, y: Nibble, random: u8)
    requires
        s.v.len() == 16,
        x@ < 16,
        y@ < 16,
    ensures
        ({
            let a = s.v[x@ as int];
            let b = s.v[y@ as int];
            let after = execute_spec(s, Opcode::SUB { x, y }, random).0;
            &&& after.v[15] == flag(a >= b)
            &&& x@ != 15 ==> after.v[x@ as int] == (a - b) % 256
        }),
{
}

/// Reverse subtraction leaves VY - VX modulo 256 in register X and sets VF
/// to 1 exactly when VY is at least VX.
pub proof fn lemma_subn_borrow(s: MachineState, x: Nibble, y: Nibble, random: u8)
    requires
        s.v.len() == 16,
        x@ < 16,
        y@ < 16,
    ensures
        ({
            let a = s.v[x@ as int];
            let b = s.v[y@ as int];
            let after = execute_spec(s, Opcode::SUBN { x, y }, random).0;
            &&& after.v[15] == flag(b >= a)
            &&& x@ != 15 ==> after.v[x@ as int] == (b - a) % 256
        }),
{
}

/// A shift to the right leaves the value shifted by one bit in register X
/// and the bit that was shifted out, the lowest one, in VF. The value is
/// that of the shift's source register. Where X is VF itself, the shifted
/// value is what VF holds afterwards.
pub proof fn lemma_shift_right(s: MachineState, x: Nibble, y: Nibble, random: u8)
    requires
        s.v.len() == 16,
        x@ < 16,
        y@ < 16,
    ensures
        ({
            let value = s.v[shift_source(s.quirks, x, y)];
            let after = execute_spec(s, Opcode::SHR { x, y }, random).0;
            &&& after.v[x@ as int] == value >> 1
            &&& x@ != 15 ==> after.v[15] == value & 1
        }),
{
    let value = s.v[shift_source(s.quirks, x, y)];
    assert(value & 1 == value % 2) by (bit_vector);
    assert(value >> 1 == value / 2) by (bit_vector);
}

/// A shift to the left leaves the value shifted by one bit, modulo 256, in
/// register X and the bit that was shifted out, the highest one, in VF. The
/// value is that of the shift's source register. Where X is VF itself, the
/// shifted value is what VF holds afterwards.
pub proof fn lemma_shift_left(s: MachineState, x: Nibble, y: Nibble, random: u8)
    requires
        s.v.len() == 16,
        x@ < 16,
        y@ < 16,
    ensures
        ({
            let value = s.v[shift_source(s.quirks, x, y)];
            let after = execute_spec(s, Opcode::SHL { x, y }, random).0;
            &&& after.v[x@ as int] == value << 1
            &&& after.v[x@ as int] == (value * 2) % 256
            &&& x@ != 15 ==> after.v[15] == (value >> 7) & 1
        }),
{
    let value = s.v[shift_source(s.quirks, x, y)];
    assert((value >> 7) & 1 == value / 128) by (bit_vector);
    assert(value << 1 == (value * 2) % 256) by (bit_vector);
}

/// By default a shift works on register X alone: register Y plays no part.
pub proof fn lemma_shift_in_place(s: MachineState, x: Nibble, y: Nibble, z: Nibble, random: u8)
    requires
        !s.quirks.shift_reads_vy,
    ensures
        execute_spec(s, Opcode::SHR { x, y }, random) == execute_spec(
            s,
            Opcode::SHR { x, y: z },
            random,
        ),
        execute_spec(s, Opcode::SHL { x, y }, random) == execute_spec(
            s,
            Opcode::SHL { x, y: z },
            random,
        ),
{
}

/// Adding a byte to a register leaves the sum modulo 256 in the register and
/// every other register, the flag among them, as it was.
pub proof fn lemma_add_byte_keeps_flag(s: MachineState, x: Nibble, byte: u8, k: int, random: u8)
    requires
        s.v.len() == 16,
        x@ < 16,
        0 <= k < 16,
    ensures
        ({
            let after = execute_spec(s, Opcode::ADDByte { x, byte }, random).0;
            &&& after.v[x@ as int] == (s.v[x@ as int] + byte) % 256
            &&& k != x@ ==> after.v[k] == s.v[k]
        }),
{
}

/// Only the random instruction depends on the random byte.
pub proof fn lemma_random_only_in_rnd(s: MachineState, op: Opcode, r1: u8, r2: u8)
    requires
        !(op is RND),
    ensures
        execute_spec(s, op, r1) == execute_spec(s, op, r2),
{
}

/// An instruction that cannot be carried out changes nothing.
pub proof fn lemma_failure_changes_nothing(s: MachineState, op: Opcode, random: u8)
    requires
        execute_spec(s, op, random).1 is Err,
    ensures
        execute_spec(s, op, random).0 == s,
{
}

/// A byte from the thread-local random number generator, by
/// `rand::random::<u8>()`. Nothing is claimed of the byte: any value may
/// come back, and two calls may differ. The generator is seeded from the
/// operating system; `rand` panics where that source fails.
#[verifier::external_body]
fn random_byte() -> (byte: u8) {
    rand::random::<u8>()
}

impl<D: Ch8Display> Chip<D> {
    /// Moves the program counter past one more instruction where
    /// `condition` holds. Every conditional skip goes through here.
    pub fn skip_if(&mut self, condition: bool)
        requires
            old(self).program_counter + 2 <= usize::MAX,
        ensures
            final(self)@ == skipped(old(self)@, condition),
    {
        if condition {
            self.program_counter += 2;
        }
    }

    /// Whether the key with code `key` is down; a value of 16 or more is no
    /// key, and so not down.
    pub fn key_is_down(&self, key: u8) -> (down: bool)
        ensures
            down == key_down(self@, key),
    {
        match Chip8Key::new(key) {
            Some(k) => self.keypad.is_pressed(k),
            None => false,
        }
    }

    /// Skips the next instruction where the key with code `key` is down.
    pub fn skip_if_pressed(&mut self, key: u8)
        requires
            old(self).program_counter + 2 <= usize::MAX,
        ensures
            final(self)@ == skipped(old(self)@, key_down(old(self)@, key)),
    {
        let down = self.key_is_down(key);
        self.skip_if(down);
    }

    /// Skips the next instruction where the key with code `key` is not down.
    pub fn skip_if_not_pressed(&mut self, key: u8)
        requires
            old(self).program_counter + 2 <= usize::MAX,
        ensures
            final(self)@ == skipped(old(self)@, !key_down(old(self)@, key)),
    {
        let down = self.key_is_down(key);
        self.skip_if(!down);
    }

    /// Draws the sprite of `n` rows that memory holds at the index register,
    /// at the place that registers `x` and `y` give, and sets VF to 1 where a
    /// set pixel was turned off, else to 0.
    pub fn opcode_dxyn(&mut self, x: Nibble, y: Nibble, n: Nibble) -> (r: Result<(), ChipError>)
        ensures
            (final(self)@, r) == execute_spec(old(self)@, Opcode::DRW { x, y, n }, 0),
    {
        let vx = self.registers.get(x);
        let vy = self.registers.get(y);
        let i = self.registers.get_i() as usize;
        let rows = n.as_usize();
        if i + rows > MEMORY_SIZE {
            return Err(
                ChipError::MemoryBoundsError {
                    addr: if i >= MEMORY_SIZE {
                        i
                    } else {
                        MEMORY_SIZE
                    },
                },
            );
        }
        let sprite = self.memory.slice(i, i + rows);
        let collision = self.display.draw_sprite(vx, vy, sprite);
        self.registers.set_carry(
            if collision {
                1
            } else {
                0
            },
        );
        Ok(())
    }

    /// Writes the decimal digits of register `x` to memory at the index
    /// register and the two addresses after it.
    fn store_decimal(&mut self, x: Nibble) -> (r: Result<(), ChipError>)
        ensures
            (final(self)@, r) == execute_spec(old(self)@, Opcode::LDB { x }, 0),
    {
        let value = self.registers.get(x);
        let i = self.registers.get_i() as usize;
        if i + 2 >= MEMORY_SIZE {
            return Err(
                ChipError::MemoryBoundsError {
                    addr: if i >= MEMORY_SIZE {
                        i
                    } else {
                        MEMORY_SIZE
                    },
                },
            );
        }
        self.memory.write(i, value / 100);
        self.memory.write(i + 1, (value / 10) % 10);
        self.memory.write(i + 2, value % 10);
        assert(self@.memory =~= loaded(old(self)@.memory, i as int, decimal_digits(value)));
        Ok(())
    }

    /// Copies registers V0 to VX to memory at the index register and the
    /// addresses after it.
    fn store_registers(&mut self, x: Nibble) -> (r: Result<(), ChipError>)
        ensures
            (final(self)@, r) == execute_spec(old(self)@, Opcode::LDIStore { x }, 0),
    {
        let i = self.registers.get_i() as usize;
        let last = x.as_u8();
        if i + last as usize >= MEMORY_SIZE {
            return Err(
                ChipError::MemoryBoundsError {
                    addr: if i >= MEMORY_SIZE {
                        i
                    } else {
                        MEMORY_SIZE
                    },
                },
            );
        }
        let mut idx: u8 = 0;
        assert(self@.memory =~= loaded(old(self)@.memory, i as int, old(self)@.v.take(0)));
        while idx <= last
            invariant
                idx <= last + 1,
                last < 16,
                i + last < MEMORY_SIZE,
                self@ == (MachineState {
                    memory: loaded(old(self)@.memory, i as int, old(self)@.v.take(idx as int)),
                    ..old(self)@
                }),
            decreases last + 1 - idx,
        {
            let n = Nibble::from_low(idx);
            let value = self.registers.get(n);
            self.memory.write(i + n.as_usize(), value);
            idx += 1;
            assert(self@.memory =~= loaded(
                old(self)@.memory,
                i as int,
                old(self)@.v.take(idx as int),
            ));
        }
        if self.quirks.store_clears_registers {
            let ghost stored = self@;
            let mut idx: u8 = 0;
            assert(self@.v =~= Seq::new(
                16,
                |k: int|
                    if k < 0 {
                        0u8
                    } else {
                        stored.v[k]
                    },
            ));
            while idx <= last
                invariant
                    idx <= last + 1,
                    last < 16,
                    stored.v.len() == 16,
                    self@ == (MachineState {
                        v: Seq::new(
                            16,
                            |k: int|
                                if k < idx {
                                    0u8
                                } else {
                                    stored.v[k]
                                },
                        ),
                        ..stored
                    }),
                decreases last + 1 - idx,
            {
                self.registers.set(Nibble::from_low(idx), 0);
                idx += 1;
                assert(self@.v =~= Seq::new(
                    16,
                    |k: int|
                        if k < idx {
                            0u8
                        } else {
                            stored.v[k]
                        },
                ));
            }
            assert(self@.v =~= after_store(old(self)@.quirks, old(self)@.v, last as int));
        }
        Ok(())
    }

    /// Copies memory at the index register and the addresses after it to
    /// registers V0 to VX.
    fn load_registers(&mut self, x: Nibble) -> (r: Result<(), ChipError>)
        ensures
            (final(self)@, r) == execute_spec(old(self)@, Opcode::LDIRead { x }, 0),
    {
        let i = self.registers.get_i() as usize;
        let last = x.as_u8();
        if i + last as usize >= MEMORY_SIZE {
            return Err(
                ChipError::MemoryBoundsError {
                    addr: if i >= MEMORY_SIZE {
                        i
                    } else {
                        MEMORY_SIZE
                    },
                },
            );
        }
        let mut idx: u8 = 0;
        assert(self@.v =~= loaded(old(self)@.v, 0, old(self)@.memory.subrange(i as int, i as int)));
        while idx <= last
            invariant
                idx <= last + 1,
                last < 16,
                i + last < MEMORY_SIZE,
                self@ == (MachineState {
                    v: loaded(old(self)@.v, 0, old(self)@.memory.subrange(i as int, i + idx)),
                    ..old(self)@
                }),
            decreases last + 1 - idx,
        {
            let n = Nibble::from_low(idx);
            let value = self.memory.read(i + n.as_usize());
            self.registers.set(n, value);
            idx += 1;
            assert(self@.v =~= loaded(
                old(self)@.v,
                0,
                old(self)@.memory.subrange(i as int, i + idx),
            ));
        }
        Ok(())
    }

    /// Carries out one instruction, with `random` as the byte that the
    /// random instruction draws. An instruction that cannot be carried out
    /// leaves the machine as it was and reports why.
    pub fn execute_with(&mut self, opcode: Opcode, random: u8) -> (r: Result<(), ChipError>)
        requires
            old(self).program_counter + 2 <= usize::MAX,
        ensures
            (final(self)@, r) == execute_spec(old(self)@, opcode, random),
    {
        match opcode {
            Opcode::CLS => {
                self.display.clear();
            },
            Opcode::RET => {
                if self.stack.is_empty() {
                    return Err(ChipError::StackUnderflow);
                }
                self.program_counter = self.stack.pop() as usize;
            },
            Opcode::JP { addr } => {
                self.program_counter = addr as usize;
            },
            Opcode::JPPlusV0 { addr } => {
                let v0 = self.registers.get(Nibble::from_low(0));
                self.program_counter = addr as usize + v0 as usize;
            },
            Opcode::CALL { addr } => {
                if self.stack.is_full() {
                    return Err(ChipError::StackOverflow);
                }
                self.stack.push(self.program_counter as u16);
                self.program_counter = addr as usize;
            },
            Opcode::SEByte { x, byte } => {
                let vx = self.registers.get(x);
                self.skip_if(vx == byte);
            },
            Opcode::SNEByte { x, byte } => {
                let vx = self.registers.get(x);
                self.skip_if(vx != byte);
            },
            Opcode::SEReg { x, y } => {
                let vx = self.registers.get(x);
                let vy = self.registers.get(y);
                self.skip_if(vx == vy);
            },
            Opcode::SNEReg { x, y } => {
                let vx = self.registers.get(x);
                let vy = self.registers.get(y);
                self.skip_if(vx != vy);
            },
            Opcode::LDByte { x, byte } => {
                self.registers.set(x, byte);
            },
            Opcode::ADDByte { x, byte } => {
                let sum: u16 = self.registers.get(x) as u16 + byte as u16;
                self.registers.set(x, (sum % 256) as u8);
            },
            Opcode::LDReg { x, y } => {
                let vy = self.registers.get(y);
                self.registers.set(x, vy);
            },
            Opcode::OR { x, y } => {
                let v = self.registers.get(x) | self.registers.get(y);
                self.registers.set(x, v);
            },
            Opcode::AND { x, y } => {
                let v = self.registers.get(x) & self.registers.get(y);
                self.registers.set(x, v);
            },
            Opcode::XOR { x, y } => {
                let v = self.registers.get(x) ^ self.registers.get(y);
                self.registers.set(x, v);
            },
            Opcode::ADD { x, y } => {
                let vy = self.registers.get(y);
                self.registers.add(x, vy);
            },
            Opcode::SUB { x, y } => {
                let vx = self.registers.get(x);
                let vy = self.registers.get(y);
                self.subtract_into(x, vx, vy);
            },
            Opcode::SUBN { x, y } => {
                let vx = self.registers.get(x);
                let vy = self.registers.get(y);
                self.subtract_into(x, vy, vx);
            },
            Opcode::SHR { x, y } => {
                let value = self.shift_operand(x, y);
                assert(value & 0x01 == value % 2) by (bit_vector);
                assert(value >> 1 == value / 2) by (bit_vector);
                self.registers.set_carry(value & 0x01);
                self.registers.set(x, value >> 1);
            },
            Opcode::SHL { x, y } => {
                let value = self.shift_operand(x, y);
                assert((value & 0x80) >> 7 == value / 128) by (bit_vector);
                assert(value << 1 == (value * 2) % 256) by (bit_vector);
                self.registers.set_carry((value & 0x80) >> 7);
                self.registers.set(x, value << 1);
            },
            Opcode::LDI { addr } => {
                self.registers.set_i(addr);
            },
            Opcode::ADDI { x } => {
                let i = self.registers.get_i();
                let vx = self.registers.get(x) as u16;
                self.registers.set_i(i.saturating_add(vx));
            },
            Opcode::LDF { x } => {
                let vx = self.registers.get(x);
                assert(vx & 0x0F == vx % 16) by (bit_vector);
                let digit = (vx & 0x0F) as u16;
                self.registers.set_i(FONT_START as u16 + digit * GLYPH_SIZE as u16);
            },
            Opcode::LDB { x } => {
                return self.store_decimal(x);
            },
            Opcode::LDIStore { x } => {
                return self.store_registers(x);
            },
            Opcode::LDIRead { x } => {
                return self.load_registers(x);
            },
            Opcode::RND { x, byte } => {
                self.registers.set(x, random & byte);
            },
            Opcode::DRW { x, y, n } => {
                return self.opcode_dxyn(x, y, n);
            },
            Opcode::LDxDT { x } => {
                let dt = self.timers.get_delay();
                self.registers.set(x, dt);
            },
            Opcode::LDdtX { x } => {
                let vx = self.registers.get(x);
                self.timers.set_delay(vx);
            },
            Opcode::LDstX { x } => {
                let vx = self.registers.get(x);
                self.timers.set_sound(vx);
            },
            Opcode::SKP { x } => {
                let key = self.registers.get(x);
                self.skip_if_pressed(key);
            },
            Opcode::SKNP { x } => {
                let key = self.registers.get(x);
                self.skip_if_not_pressed(key);
            },
            Opcode::LDxK { x } => {
                self.wait_for_input = Some(x);
            },
        }
        Ok(())
    }

    /// The value that a shift works on.
    fn shift_operand(&self, x: Nibble, y: Nibble) -> (value: u8)
        ensures
            value == self@.v[shift_source(self@.quirks, x, y)],
    {
        if self.quirks.shift_reads_vy {
            self.registers.get(y)
        } else {
            self.registers.get(x)
        }
    }

    /// Sets register `x` to `minuend - subtrahend` modulo 256, then VF to 1
    /// where nothing was borrowed, else to 0.
    fn subtract_into(&mut self, x: Nibble, minuend: u8, subtrahend: u8)
        ensures
            final(self)@ == (MachineState {
                v: subtracted(old(self)@.v, x@ as int, minuend, subtrahend),
                ..old(self)@
            }),
    {
        let no_borrow = minuend >= subtrahend;
        let difference: u8 = if no_borrow {
            minuend - subtrahend
        } else {
            (256u16 + minuend as u16 - subtrahend as u16) as u8
        };
        self.registers.set(x, difference);
        self.registers.set_carry(
            if no_borrow {
                1
            } else {
                0
            },
        );
    }

    /// Carries out one instruction. The random instruction draws its byte
    /// from the random number generator; every other instruction does
    /// exactly what `execute_with` does.
    pub fn execute(&mut self, opcode: Opcode) -> (r: Result<(), ChipError>)
        requires
            old(self).program_counter + 2 <= usize::MAX,
        ensures
            exists|random: u8| (final(self)@, r) == execute_spec(old(self)@, opcode, random),
            !(opcode is RND) ==> (final(self)@, r) == execute_spec(old(self)@, opcode, 0),
    {
        let random = match opcode {
            Opcode::RND { .. } => random_byte(),
            _ => 0,
        };
        self.execute_with(opcode, random)
    }
}

} // verus!
