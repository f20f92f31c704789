use vstd::prelude::*;
use crate::chip::{key_pressed, Chip, MachineState};
use crate::controls::key_code;
use crate::display::display_trait::Ch8Display;
use crate::error::ChipError;
use crate::execute::execute_spec;
use crate::memory::word;
use crate::opcode::{decode_spec, Opcode};
use crate::timers::{ticked, ticked_times};
use crate::MEMORY_SIZE;

verus! {

broadcast use {
    crate::nibble::group_nibble,
    crate::controls::group_key,
    crate::memory::Memory::lemma_size,
    crate::registers::Registers::lemma_count,
};

/// The state one timer tick later.
pub open spec fn timers_ticked(s: MachineState) -> MachineState {
    MachineState { delay: ticked(s.delay), sound: ticked(s.sound), ..s }
}

/// The state after the key event of a cycle, if there was one.
pub open spec fn key_delivered(s: MachineState, key: Option<char>) -> MachineState {
    match key {
        Some(symbol) => key_pressed(s, symbol),
        None => s,
    }
}

/// The state after the instruction at the program counter was fetched.
pub open spec fn fetched(s: MachineState) -> MachineState {
    MachineState { pc: s.pc + 2, ..s }
}

/// What one step does.
///
/// While a register waits for a key, nothing is fetched: the step hands the
/// key pressed last to the register and ends the wait, or, where no key was
/// pressed, changes nothing. Otherwise the step fetches the instruction at
/// the program counter, decodes it and carries it out. An instruction that
/// lies across the end of memory, is outside the instruction set or cannot
/// be carried out is reported; the latter two leave the program counter
/// past the instruction.
pub open spec fn step_spec(s: MachineState, random: u8) -> (MachineState, Result<(), ChipError>) {
    match s.waiting {
        Some(x) => match s.latch {
            Some(code) => (
                MachineState { v: s.v.update(x as int, code), latch: None, waiting: None, ..s },
                Ok(()),
            ),
            None => (s, Ok(())),
        },
        None => if s.pc + 1 >= MEMORY_SIZE {
            (
                s,
                Err(
                    ChipError::MemoryBoundsError {
                        addr: if s.pc >= MEMORY_SIZE {
                            s.pc as usize
                        } else {
                            MEMORY_SIZE
                        },
                    },
                ),
            )
        } else {
            let raw = word(s.memory[s.pc], s.memory[s.pc + 1]);
            match decode_spec(raw) {
                Some(op) => execute_spec(fetched(s), op, random),
                None => (fetched(s), Err(ChipError::DecodeError { raw })),
            }
        },
    }
}

/// Whether the step that comes next carries out the random instruction.
pub open spec fn draws_random(s: MachineState) -> bool {
    &&& s.waiting is None
    &&& s.pc + 1 < MEMORY_SIZE
    &&& decode_spec(word(s.memory[s.pc], s.memory[s.pc + 1])) matches Some(op)
    &&& op is RND
}

/// What one cycle does: the timers tick once, the key event of the cycle is
/// taken, and one step is made.
pub open spec fn cycle_spec(s: MachineState, key: Option<char>, random: u8) -> (
    MachineState,
    Result<(), ChipError>,
) {
    step_spec(key_delivered(timers_ticked(s), key), random)
}

/// The state after `n` cycles that neither bring a key nor fail.
pub open spec fn idle_cycles(s: MachineState, n: nat, random: u8) -> MachineState
    decreases n,
{
    if n == 0 {
        s
    } else {
        cycle_spec(idle_cycles(s, (n - 1) as nat, random), None, random).0
    }
}

impl<D: Ch8Display> Chip<D> {
    /// Counts both timers down by one.
    pub fn tick(&mut self)
        ensures
            final(self)@ == timers_ticked(old(self)@),
    {
        self.timers.tick();
    }

    /// Makes one step: ends a wait for a key, or fetches, decodes and
    /// carries out one instruction. The random instruction draws its byte
    /// from the random number generator.
    pub fn step(&mut self) -> (r: Result<(), ChipError>)
        ensures
            exists|random: u8| (final(self)@, r) == step_spec(old(self)@, random),
            !draws_random(old(self)@) ==> (final(self)@, r) == step_spec(old(self)@, 0),
    {
        match self.wait_for_input {
            Some(x) => {
                match self.keypad.take_last_pressed() {
                    Some(key) => {
                        self.registers.set(x, key.as_u8());
                        self.wait_for_input = None;
                    },
                    None => {},
                }
                assert((self@, Ok::<(), ChipError>(())) == step_spec(old(self)@, 0));
                Ok(())
            },
            None => {
                if self.program_counter >= MEMORY_SIZE - 1 {
                    let addr = if self.program_counter >= MEMORY_SIZE {
                        self.program_counter
                    } else {
                        MEMORY_SIZE
                    };
                    let r = Err(ChipError::MemoryBoundsError { addr });
                    assert((self@, r) == step_spec(old(self)@, 0));
                    return r;
                }
                let raw = self.fetch();
                match Opcode::decode(raw) {
                    Ok(op) => {
                        let ghost before = self@;
                        let r = self.execute(op);
                        proof {
                            let random = choose|random: u8|
                                (self@, r) == execute_spec(before, op, random);
                            assert((self@, r) == step_spec(old(self)@, random));
                        }
                        r
                    },
                    Err(e) => {
                        assert((self@, Err::<(), ChipError>(e)) == step_spec(old(self)@, 0));
                        Err(e)
                    },
                }
            },
        }
    }

    /// Runs one cycle: ticks the timers, takes the key event of the cycle,
    /// if there is one, and makes one step.
    pub fn cycle(&mut self, key: Option<char>) -> (r: Result<(), ChipError>)
        ensures
            exists|random: u8| (final(self)@, r) == cycle_spec(old(self)@, key, random),
            !draws_random(key_delivered(timers_ticked(old(self)@), key)) ==> (final(self)@, r)
                == cycle_spec(old(self)@, key, 0),
    {
        self.tick();
        match key {
            Some(symbol) => {
                self.key_event(symbol);
            },
            None => {},
        }
        let ghost before = self@;
        assert(before == key_delivered(timers_ticked(old(self)@), key));
        let r = self.step();
        proof {
            let random = choose|random: u8| (self@, r) == step_spec(before, random);
            assert((self@, r) == cycle_spec(old(self)@, key, random));
        }
        r
    }
}

/// The instruction that waits for a key records the register that waits and
/// changes nothing else.
pub proof fn lemma_wait_begins(s: MachineState, x: crate::nibble::Nibble, random: u8)
    ensures
        execute_spec(s, Opcode::LDxK { x }, random) == (
            MachineState { waiting: Some(x@), ..s },
            Ok::<(), ChipError>(()),
        ),
{
}

/// While a register waits and no key was pressed, a cycle that brings no
/// key, or a symbol that stands for none, fetches nothing: only the timers
/// move, and the wait goes on.
pub proof fn lemma_wait_holds(s: MachineState, key: Option<char>, random: u8)
    requires
        s.waiting is Some,
        s.latch is None,
        key matches Some(symbol) ==> key_code(symbol) is None,
    ensures
        cycle_spec(s, key, random) == (timers_ticked(s), Ok::<(), ChipError>(())),
        cycle_spec(s, key, random).0.pc == s.pc,
        cycle_spec(s, key, random).0.waiting == s.waiting,
        cycle_spec(s, key, random).0.latch is None,
{
}

/// However many cycles pass without a key, a waiting machine stays where it
/// is: the program counter, memory, registers and display do not change,
/// only the timers run down.
pub proof fn lemma_wait_lasts(s: MachineState, n: nat, random: u8)
    requires
        s.waiting is Some,
        s.latch is None,
    ensures
        idle_cycles(s, n, random) == (MachineState {
            delay: ticked_times(s.delay, n),
            sound: ticked_times(s.sound, n),
            ..s
        }),
    decreases n,
{
    if n > 0 {
        lemma_wait_lasts(s, (n - 1) as nat, random);
        lemma_wait_holds(idle_cycles(s, (n - 1) as nat, random), None, random);
    }
}

/// When a key arrives while a register waits, the cycle hands the key's code
/// to that register and ends the wait. Nothing is fetched in that cycle: the
/// program counter stays, and the next cycle goes on with the instruction
/// after the wait.
pub proof fn lemma_wait_ends(s: MachineState, symbol: char, random: u8)
    requires
        s.waiting is Some,
        key_code(symbol) is Some,
    ensures
        cycle_spec(s, Some(symbol), random) == (
            MachineState {
                v: s.v.update(s.waiting.unwrap() as int, key_code(symbol).unwrap()),
                keys: Seq::new(16, |k: int| k == key_code(symbol).unwrap()),
                latch: None,
                waiting: None,
                delay: ticked(s.delay),
                sound: ticked(s.sound),
                ..s
            },
            Ok::<(), ChipError>(()),
        ),
        s.v.len() == 16 && s.waiting.unwrap() < 16 ==> cycle_spec(s, Some(symbol), random).0.v[s.waiting.unwrap() as int]
            == key_code(symbol).unwrap(),
        cycle_spec(s, Some(symbol), random).0.pc == s.pc,
{
    assert(cycle_spec(s, Some(symbol), random).0.keys =~= Seq::new(
        16,
        |k: int| k == key_code(symbol).unwrap(),
    ));
}

/// A machine that does not wait fetches: a step carries out the instruction
/// at the program counter on the state with the program counter past it.
pub proof fn lemma_step_fetches(s: MachineState, random: u8)
    requires
        s.waiting is None,
        0 <= s.pc,
        s.pc + 1 < MEMORY_SIZE,
        decode_spec(word(s.memory[s.pc], s.memory[s.pc + 1])) is Some,
    ensures
        step_spec(s, random) == execute_spec(
            fetched(s),
            decode_spec(word(s.memory[s.pc], s.memory[s.pc + 1])).unwrap(),
            random,
        ),
{
}

} // verus!
