//! The raw measurement of one transmitted bit.

use vstd::prelude::*;

verus! {

/// One bit's transmission window: how long the line stayed low (the
/// delimiter) and how long it then stayed high (the value pulse), both in
/// whole microseconds, saturating at 255.
///
/// The transmitted bit is `1` exactly when the high pulse outlasted the low
/// pulse; see [`crate::pulse::Pulse::bit`].
#[derive(Copy, Clone, Debug)]
pub struct Pulse {
    /// Duration of the low delimiter pulse, in microseconds.
    pub lo: u8,
    /// Duration of the high value pulse, in microseconds.
    pub hi: u8,
}

impl Pulse {
    /// The bit this pulse pair encodes: the comparative decision tolerates a
    /// constant sampling bias, since both windows shift by the same offset.
    pub open spec fn spec_bit(self) -> bool {
        self.hi > self.lo
    }

    /// Executable form of [`Pulse::spec_bit`].
    pub fn bit(self) -> (r: bool)
        ensures
            r == self.spec_bit(),
    {
        self.hi > self.lo
    }
}

} // verus!
