//! Request identifiers for the external flight-simulator bridge.
use vstd::prelude::*;

verus! {

/// Hands out request identifiers: 0, 1, 2, ... (wrapping after `u32::MAX`).
#[derive(Debug)]
pub struct GenRequestID {
    pub counter: u32,
}

impl GenRequestID {
    /// A generator whose first identifier is 0.
    pub fn new() -> (r: Self)
        ensures
            r.counter == 0,
    {
        GenRequestID { counter: 0 }
    }

    /// The next identifier.
    pub fn unique(&mut self) -> (r: u32)
        ensures
            r == old(self).counter,
            final(self).counter == (if old(self).counter == u32::MAX {
                0
            } else {
                old(self).counter + 1
            }),
    {
        let r = self.counter;
        self.counter = self.counter.wrapping_add(1);
        r
    }
}

} // verus!
