use vstd::prelude::*;
use crate::controls::{key_code, Keypad};
use crate::display::display_trait::Ch8Display;
use crate::font::{FONT_DATA, FONT_START};
use crate::memory::{loaded, word, Memory};
use crate::nibble::Nibble;
use crate::quirks::Quirks;
use crate::registers::Registers;
use crate::stack::Stack;
use crate::timers::Timers;
use crate::{char_to_hex_number, hex_value, x, y, MEMORY_SIZE, PROGRAM_START};

verus! {

broadcast use {
    crate::nibble::group_nibble,
    crate::controls::group_key,
    crate::memory::Memory::lemma_size,
    crate::registers::Registers::lemma_count,
    crate::stack::Stack::lemma_depth,
    crate::controls::Keypad::lemma_count,
};

/// The state of the machine as the instructions see it.
pub struct MachineState {
    /// The 4096 bytes of memory.
    pub memory: Seq<u8>,
    /// The registers V0 to VF.
    pub v: Seq<u8>,
    /// The index register.
    pub i: u16,
    /// The return addresses, the most recent one last.
    pub stack: Seq<u16>,
    /// The delay timer.
    pub delay: u8,
    /// The sound timer.
    pub sound: u8,
    /// For each key code, whether the key is down.
    pub keys: Seq<bool>,
    /// The code of the key pressed last and not yet taken.
    pub latch: Option<u8>,
    /// The pixels of the display, by row and column.
    pub pixels: Seq<Seq<bool>>,
    /// The address of the next instruction.
    pub pc: int,
    /// The register that waits for a key press, while one does.
    pub waiting: Option<u8>,
    /// The variant of the instruction set that the machine follows.
    pub quirks: Quirks,
}

/// The state in which a machine starts: the font in memory at its place,
/// everything else zero, no key down, and execution about to begin at the
/// start of the program area.
pub open spec fn initial_state(pixels: Seq<Seq<bool>>, quirks: Quirks) -> MachineState {
    MachineState {
        memory: loaded(Seq::new(MEMORY_SIZE as nat, |a: int| 0u8), FONT_START as int, FONT_DATA@),
        v: Seq::new(16, |k: int| 0u8),
        i: 0,
        stack: Seq::empty(),
        delay: 0,
        sound: 0,
        keys: Seq::new(16, |k: int| false),
        latch: None,
        pixels,
        pc: PROGRAM_START as int,
        waiting: None,
        quirks,
    }
}

/// The registers after `value` was added to register `x` without carry: the
/// sum, or 255 where the sum is larger.
pub open spec fn added_saturating(v: Seq<u8>, x: int, value: u8) -> Seq<u8> {
    v.update(
        x,
        if v[x] + value > 255 {
            255u8
        } else {
            (v[x] + value) as u8
        },
    )
}

/// The state after a key event: the key that the symbol stands for is
/// pressed; a symbol that stands for no key changes nothing.
pub open spec fn key_pressed(s: MachineState, symbol: char) -> MachineState {
    match key_code(symbol) {
        Some(code) => MachineState {
            keys: Seq::new(16, |k: int| k == code),
            latch: Some(code),
            ..s
        },
        None => s,
    }
}

/// The machine: memory, registers, stack, timers, keypad and display, the
/// program counter, and the register that waits for a key while one does.
pub struct Chip<D: Ch8Display> {
    pub memory: Memory,
    pub registers: Registers,
    pub stack: Stack,
    pub timers: Timers,
    pub keypad: Keypad,
    pub display: D,
    pub program_counter: usize,
    pub wait_for_input: Option<Nibble>,
    pub quirks: Quirks,
}

impl<D: Ch8Display> View for Chip<D> {
    type V = MachineState;

    open spec fn view(&self) -> MachineState {
        MachineState {
            memory: self.memory@,
            v: self.registers.v(),
            i: self.registers.i(),
            stack: self.stack@,
            delay: self.timers.delay(),
            sound: self.timers.sound(),
            keys: self.keypad.keys(),
            latch: self.keypad.latch(),
            pixels: self.display.pixels(),
            pc: self.program_counter as int,
            waiting: match self.wait_for_input {
                Some(x) => Some(x@),
                None => None,
            },
            quirks: self.quirks,
        }
    }
}

impl<D: Ch8Display> Chip<D> {
    /// A machine in its initial state that draws on `display` and follows
    /// the default variant of the instruction set.
    pub fn new(display: D) -> (chip: Self)
        ensures
            chip@ == initial_state(display.pixels(), Quirks::standard()),
    {
        Chip::with_quirks(display, Quirks::default())
    }

    /// A machine in its initial state that draws on `display` and follows
    /// the variant of the instruction set that `quirks` selects.
    pub fn with_quirks(display: D, quirks: Quirks) -> (chip: Self)
        ensures
            chip@ == initial_state(display.pixels(), quirks),
    {
        let mut chip = Chip {
            memory: Memory::new(),
            registers: Registers::new(),
            stack: Stack::new(),
            timers: Timers::new(),
            keypad: Keypad::new(),
            display,
            program_counter: PROGRAM_START,
            wait_for_input: None,
            quirks,
        };
        chip.set_memory_at_position(FONT_START, &FONT_DATA);
        chip
    }

    pub fn increment_counter(&mut self, n: usize)
        requires
            old(self).program_counter + n <= usize::MAX,
        ensures
            final(self)@ == (MachineState { pc: old(self)@.pc + n, ..old(self)@ }),
    {
        self.program_counter += n;
    }

    /// Reads the instruction word at the program counter and moves the
    /// program counter past it.
    pub fn fetch(&mut self) -> (raw: u16)
        requires
            old(self).program_counter + 1 < MEMORY_SIZE,
        ensures
            raw == word(old(self)@.memory[old(self)@.pc], old(self)@.memory[old(self)@.pc + 1]),
            final(self)@ == (MachineState { pc: old(self)@.pc + 2, ..old(self)@ }),
    {
        let result = self.memory.read_u16(self.program_counter);
        self.increment_counter(2);
        result
    }

    /// The register that the hexadecimal digit `char` names.
    pub fn read_variable_register(&self, char: char) -> (value: u8)
        requires
            hex_value(char) is Some,
        ensures
            value == self@.v[hex_value(char).unwrap() as int],
    {
        let idx = char_to_hex_number(char).unwrap();
        self.registers.get(Nibble::from_low(idx))
    }

    /// The register that the second nibble of the instruction word names.
    pub fn read_var_reg_x(&self, value: u16) -> (vx: u8)
        ensures
            vx == self@.v[((value / 256) % 16) as int],
    {
        self.registers.get(Nibble::from_low(x(value)))
    }

    /// The register that the third nibble of the instruction word names.
    pub fn read_var_reg_y(&self, value: u16) -> (vy: u8)
        ensures
            vy == self@.v[((value / 16) % 16) as int],
    {
        self.registers.get(Nibble::from_low(y(value)))
    }

    pub fn set_carry(&mut self, res: u8)
        ensures
            final(self)@ == (MachineState { v: old(self)@.v.update(15, res), ..old(self)@ }),
    {
        self.registers.set_carry(res);
    }

    pub fn get_carry(&mut self) -> (flag: u8)
        ensures
            flag == old(self)@.v[15],
            final(self)@ == old(self)@,
    {
        self.registers.get_carry()
    }

    /// Sets the register that the hexadecimal digit `char` names.
    pub fn set_variable_register(&mut self, char: char, value: u8)
        requires
            hex_value(char) is Some,
        ensures
            final(self)@ == (MachineState {
                v: old(self)@.v.update(hex_value(char).unwrap() as int, value),
                ..old(self)@
            }),
    {
        let idx = char_to_hex_number(char).unwrap();
        self.registers.set(Nibble::from_low(idx), value);
    }

    /// Adds `value` to the register that the hexadecimal digit `char` names.
    /// The sum stops at 255, and VF is left alone.
    pub fn add_to_variable_register(&mut self, char: char, value: u8)
        requires
            hex_value(char) is Some,
        ensures
            final(self)@ == (MachineState {
                v: added_saturating(old(self)@.v, hex_value(char).unwrap() as int, value),
                ..old(self)@
            }),
    {
        let idx = Nibble::from_low(char_to_hex_number(char).unwrap());
        let sum = match self.registers.get(idx).checked_add(value) {
            Some(val) => val,
            None => 255,
        };
        self.registers.set(idx, sum);
    }

    /// Reads the byte at the program counter and moves the program counter
    /// past it.
    pub fn next(&mut self) -> (byte: u8)
        requires
            old(self).program_counter < MEMORY_SIZE,
        ensures
            byte == old(self)@.memory[old(self)@.pc],
            final(self)@ == (MachineState { pc: old(self)@.pc + 1, ..old(self)@ }),
    {
        let result = self.memory.read(self.program_counter);
        self.increment_counter(1);
        result
    }

    /// Loads a program at the start of the program area.
    pub fn load_rom(&mut self, bytes: &Vec<u8>)
        requires
            bytes.len() <= MEMORY_SIZE - PROGRAM_START,
        ensures
            final(self)@ == (MachineState {
                memory: loaded(old(self)@.memory, PROGRAM_START as int, bytes@),
                ..old(self)@
            }),
    {
        self.set_memory_at_position(PROGRAM_START, bytes.as_slice())
    }

    /// Copies `bytes` into memory at `idx` and the addresses that follow it.
    pub fn set_memory_at_position(&mut self, idx: usize, bytes: &[u8])
        requires
            idx + bytes.len() <= MEMORY_SIZE,
        ensures
            final(self)@ == (MachineState {
                memory: loaded(old(self)@.memory, idx as int, bytes@),
                ..old(self)@
            }),
    {
        self.memory.load(idx, bytes);
    }

    /// Takes one key event: the key that `symbol` stands for is pressed. A
    /// symbol that stands for no key is ignored.
    pub fn key_event(&mut self, symbol: char)
        ensures
            final(self)@ == key_pressed(old(self)@, symbol),
    {
        match self.keypad.lookup(symbol) {
            Some(key) => {
                self.keypad.press(key);
                assert(self@.keys =~= key_pressed(old(self)@, symbol).keys);
            },
            None => {},
        }
    }
}

} // verus!
