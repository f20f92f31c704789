use vstd::prelude::*;

verus! {

/// The delay timer and the sound timer: two counters that run down to zero.
pub struct Timers {
    delay: u8,
    sound: u8,
}

/// A counter one tick later: one less, and zero stays zero.
pub open spec fn ticked(value: u8) -> u8 {
    if value > 0 {
        (value - 1) as u8
    } else {
        0
    }
}

/// A counter `n` ticks later.
pub open spec fn ticked_times(value: u8, n: nat) -> u8
    decreases n,
{
    if n == 0 {
        value
    } else {
        ticked(ticked_times(value, (n - 1) as nat))
    }
}

/// After `n` ticks a counter has lost `n`, or stands at zero if it held less.
pub proof fn lemma_ticked_times(value: u8, n: nat)
    ensures
        ticked_times(value, n) == if value >= n {
            value - n
        } else {
            0
        },
    decreases n,
{
    if n > 0 {
        lemma_ticked_times(value, (n - 1) as nat);
    }
}

/// A counter at zero stays at zero, however often it is ticked.
pub proof fn lemma_zero_stays_zero(n: nat)
    ensures
        ticked_times(0, n) == 0,
{
    lemma_ticked_times(0, n);
}

/// A counter never grows by ticking.
pub proof fn lemma_ticks_never_increase(value: u8, n: nat)
    ensures
        ticked_times(value, n) <= value,
{
    lemma_ticked_times(value, n);
}

impl Timers {
    /// The value of the delay timer.
    pub closed spec fn delay(&self) -> u8 {
        self.delay
    }

    /// The value of the sound timer.
    pub closed spec fn sound(&self) -> u8 {
        self.sound
    }

    pub fn new() -> (t: Self)
        ensures
            t.delay() == 0,
            t.sound() == 0,
    {
        Timers { delay: 0, sound: 0 }
    }

    pub fn set_delay(&mut self, value: u8)
        ensures
            final(self).delay() == value,
            final(self).sound() == old(self).sound(),
    {
        self.delay = value;
    }

    pub fn get_delay(&self) -> (value: u8)
        ensures
            value == self.delay(),
    {
        self.delay
    }

    pub fn set_sound(&mut self, value: u8)
        ensures
            final(self).sound() == value,
            final(self).delay() == old(self).delay(),
    {
        self.sound = value;
    }

    pub fn get_sound(&self) -> (value: u8)
        ensures
            value == self.sound(),
    {
        self.sound
    }

    /// Counts both timers down by one; a timer at zero stays there.
    pub fn tick(&mut self)
        ensures
            final(self).delay() == ticked(old(self).delay()),
            final(self).sound() == ticked(old(self).sound()),
    {
        if self.delay > 0 {
            self.delay -= 1;
        }
        if self.sound > 0 {
            self.sound -= 1;
        }
    }

    pub fn is_sound_active(&self) -> (active: bool)
        ensures
            active == (self.sound() > 0),
    {
        self.sound > 0
    }
}

} // verus!
