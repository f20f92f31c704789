use vstd::prelude::*;

verus! {

/// The two points on which the historical machines disagree. Each flag
/// selects the variant of the earliest machines; with both flags off, which
/// is the default, the machine behaves as the later ones do.
#[derive(Copy, Clone, Debug, PartialEq, Eq, Structural)]
pub struct Quirks {
    /// The shifts take the value to shift from register Y. By default they
    /// shift register X in place and ignore register Y.
    pub shift_reads_vy: bool,
    /// Block store sets the registers that it has stored to zero. By default
    /// it leaves them as they are.
    pub store_clears_registers: bool,
}

impl Quirks {
    /// The default: both flags off.
    pub open spec fn standard() -> Quirks {
        Quirks { shift_reads_vy: false, store_clears_registers: false }
    }
}

impl Default for Quirks {
    fn default() -> (q: Self)
        ensures
            q == Quirks::standard(),
    {
        Quirks { shift_reads_vy: false, store_clears_registers: false }
    }
}

} // verus!
