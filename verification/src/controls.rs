use vstd::prelude::*;
use std::collections::HashMap;

verus! {

broadcast use vstd::std_specs::hash::group_hash_axioms;

/// One of the sixteen keys of the keypad, named by its code 0 to 15.
#[derive(Copy, Clone, Debug, PartialEq, Eq, Structural)]
pub struct Chip8Key(u8);

impl View for Chip8Key {
    type V = u8;

    closed spec fn view(&self) -> u8 {
        self.0
    }
}

impl Chip8Key {
    #[verifier::type_invariant]
    spec fn in_range(self) -> bool {
        self.0 < 16
    }

    /// The key whose code is `n`.
    pub closed spec fn of(n: u8) -> Chip8Key {
        Chip8Key(n)
    }

    /// `of` and the view are inverse to each other.
    pub broadcast proof fn lemma_view_of(n: u8)
        ensures
            (#[trigger] Chip8Key::of(n))@ == n,
    {
    }

    /// A key is determined by its code.
    pub broadcast proof fn lemma_of_view(key: Chip8Key)
        ensures
            Chip8Key::of(#[trigger] key@) == key,
    {
    }

    /// The key with code `n`, if there is one.
    pub fn new(n: u8) -> (key: Option<Self>)
        ensures
            key == if n < 16 {
                Some(Chip8Key::of(n))
            } else {
                None
            },
    {
        if n < 16 {
            Some(Chip8Key(n))
        } else {
            None
        }
    }

    pub fn as_u8(self) -> (code: u8)
        ensures
            code == self@,
            code < 16,
    {
        proof {
            use_type_invariant(&self);
        }
        self.0
    }

    pub fn as_usize(self) -> (code: usize)
        ensures
            code == self@,
            code < 16,
    {
        proof {
            use_type_invariant(&self);
        }
        self.0 as usize
    }
}

pub broadcast group group_key {
    Chip8Key::lemma_view_of,
    Chip8Key::lemma_of_view,
}

/// The key that an input symbol stands for: the four rows `1234`, `qwer`,
/// `asdf`, `zxcv` of a keyboard laid over the keypad's rows `123C`, `456D`,
/// `789E`, `A0BF`. Any other symbol stands for no key.
pub open spec fn key_code(symbol: char) -> Option<u8> {
    if symbol == '1' {
        Some(0x1u8)
    } else if symbol == '2' {
        Some(0x2u8)
    } else if symbol == '3' {
        Some(0x3u8)
    } else if symbol == '4' {
        Some(0xCu8)
    } else if symbol == 'q' {
        Some(0x4u8)
    } else if symbol == 'w' {
        Some(0x5u8)
    } else if symbol == 'e' {
        Some(0x6u8)
    } else if symbol == 'r' {
        Some(0xDu8)
    } else if symbol == 'a' {
        Some(0x7u8)
    } else if symbol == 's' {
        Some(0x8u8)
    } else if symbol == 'd' {
        Some(0x9u8)
    } else if symbol == 'f' {
        Some(0xEu8)
    } else if symbol == 'z' {
        Some(0xAu8)
    } else if symbol == 'x' {
        Some(0x0u8)
    } else if symbol == 'c' {
        Some(0xBu8)
    } else if symbol == 'v' {
        Some(0xFu8)
    } else {
        None
    }
}

/// The code point of a symbol fits in 32 bits.
proof fn lemma_code_point(symbol: char)
    ensures
        symbol as u32 as int == symbol as int,
{
}

/// The bindings of input symbols to keys. The table is keyed by the
/// symbol's code point.
pub struct KeyMap {
    bindings: HashMap<u32, Chip8Key>,
}

impl KeyMap {
    #[verifier::type_invariant]
    spec fn holds_the_table(self) -> bool {
        forall|symbol: char|
            match #[trigger] key_code(symbol) {
                Some(code) => self.bindings@.contains_key(symbol as u32) && self.bindings@[symbol as u32]@
                    == code,
                None => !self.bindings@.contains_key(symbol as u32),
            }
    }

    /// The key that this table binds `symbol` to.
    pub closed spec fn binding(&self, symbol: char) -> Option<u8> {
        if self.bindings@.contains_key(symbol as u32) {
            Some(self.bindings@[symbol as u32]@)
        } else {
            None
        }
    }

    /// The table of the sixteen bindings.
    pub fn default() -> (map: Self)
        ensures
            forall|symbol: char| #[trigger] map.binding(symbol) == key_code(symbol),
    {
        let mut bindings: HashMap<u32, Chip8Key> = HashMap::new();
        bindings.insert('1' as u32, Chip8Key(0x1));
        bindings.insert('2' as u32, Chip8Key(0x2));
        bindings.insert('3' as u32, Chip8Key(0x3));
        bindings.insert('4' as u32, Chip8Key(0xC));
        bindings.insert('q' as u32, Chip8Key(0x4));
        bindings.insert('w' as u32, Chip8Key(0x5));
        bindings.insert('e' as u32, Chip8Key(0x6));
        bindings.insert('r' as u32, Chip8Key(0xD));
        bindings.insert('a' as u32, Chip8Key(0x7));
        bindings.insert('s' as u32, Chip8Key(0x8));
        bindings.insert('d' as u32, Chip8Key(0x9));
        bindings.insert('f' as u32, Chip8Key(0xE));
        bindings.insert('z' as u32, Chip8Key(0xA));
        bindings.insert('x' as u32, Chip8Key(0x0));
        bindings.insert('c' as u32, Chip8Key(0xB));
        bindings.insert('v' as u32, Chip8Key(0xF));
        proof {
            assert forall|symbol: char|
                match #[trigger] key_code(symbol) {
                    Some(code) => bindings@.contains_key(symbol as u32) && bindings@[symbol as u32]@
                        == code,
                    None => !bindings@.contains_key(symbol as u32),
                } by {
                lemma_code_point(symbol);
            }
        }
        KeyMap { bindings }
    }

    /// The key that `key` is bound to, if it is bound. Every table holds
    /// the same sixteen bindings.
    pub fn lookup(&self, key: char) -> (found: Option<Chip8Key>)
        ensures
            self.binding(key) == key_code(key),
            found == match key_code(key) {
                Some(code) => Some(Chip8Key::of(code)),
                None => None,
            },
    {
        proof {
            use_type_invariant(self);
        }
        let code: u32 = key as u32;
        match self.bindings.get(&code) {
            Some(bound) => Some(*bound),
            None => None,
        }
    }
}

/// The keypad as the machine sees it: which keys are down, and the key that
/// was pressed last and not yet taken.
pub struct Keypad {
    keys: [bool; 16],
    last_pressed: Option<Chip8Key>,
    pub keymap: KeyMap,
}

impl Keypad {
    /// For each key code, whether the key is down.
    pub closed spec fn keys(&self) -> Seq<bool> {
        self.keys@
    }

    /// The code of the key that was pressed last, until it is taken.
    pub closed spec fn latch(&self) -> Option<u8> {
        match self.last_pressed {
            Some(key) => Some(key@),
            None => None,
        }
    }

    /// There are sixteen keys.
    pub broadcast proof fn lemma_count(self)
        ensures
            #[trigger] self.keys().len() == 16,
    {
    }

    pub fn new() -> (pad: Self)
        ensures
            pad.keys() == Seq::new(16, |k: int| false),
            pad.latch() is None,
    {
        let pad = Keypad { keys: [false; 16], last_pressed: None, keymap: KeyMap::default() };
        assert(pad.keys() =~= Seq::new(16, |k: int| false));
        pad
    }

    /// Releases every key and forgets the last one pressed.
    pub fn clear(&mut self)
        ensures
            final(self).keys() == Seq::new(16, |k: int| false),
            final(self).latch() is None,
    {
        self.keys = [false; 16];
        self.last_pressed = None;
        assert(self.keys() =~= Seq::new(16, |k: int| false));
    }

    /// Presses `key`: it is then the one key that is down, and the last one
    /// pressed.
    pub fn press(&mut self, key: Chip8Key)
        ensures
            final(self).keys() == Seq::new(16, |k: int| k == key@),
            final(self).latch() == Some(key@),
    {
        self.keys = [false; 16];
        self.keys[key.as_usize()] = true;
        self.last_pressed = Some(key);
        assert(self.keys() =~= Seq::new(16, |k: int| k == key@));
    }

    pub fn release(&mut self, key: Chip8Key)
        ensures
            final(self).keys() == old(self).keys().update(key@ as int, false),
            final(self).latch() == old(self).latch(),
    {
        self.keys[key.as_usize()] = false;
    }

    pub fn is_pressed(&self, key: Chip8Key) -> (down: bool)
        ensures
            down == self.keys()[key@ as int],
    {
        self.keys[key.as_usize()]
    }

    /// Takes the key that was pressed last: it is handed out once.
    pub fn take_last_pressed(&mut self) -> (key: Option<Chip8Key>)
        ensures
            key == match old(self).latch() {
                Some(code) => Some(Chip8Key::of(code)),
                None => None,
            },
            key matches Some(k) ==> k@ < 16,
            final(self).latch() is None,
            final(self).keys() == old(self).keys(),
    {
        let key = self.last_pressed;
        self.last_pressed = None;
        proof {
            if let Some(k) = key {
                use_type_invariant(&k);
            }
        }
        key
    }

    /// The key that the input symbol `key` stands for, if it stands for one.
    pub fn lookup(&self, key: char) -> (found: Option<Chip8Key>)
        ensures
            found == match key_code(key) {
                Some(code) => Some(Chip8Key::of(code)),
                None => None,
            },
    {
        self.keymap.lookup(key)
    }
}

} // verus!
