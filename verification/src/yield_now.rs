//! The cooperative yield primitive: a future that is pending exactly once,
//! waking itself so the executor polls it again, and ready from then on.

use vstd::prelude::*;

verus! {

/// A future that yields once: pending on its first poll, ready on the
/// second.
pub struct YieldNow {
    pub yielded: bool,
}

impl YieldNow {
    /// A yield that has not yielded yet.
    pub fn new() -> (y: YieldNow)
        ensures
            !y.yielded,
    {
        YieldNow { yielded: false }
    }

    /// Poll once: the first poll yields (and the future wakes itself so it
    /// is re-polled), every later poll is ready. Returns true when ready.
    pub fn poll(&mut self) -> (ready: bool)
        ensures
            ready == old(self).yielded,
            final(self).yielded,
    {
        if self.yielded {
            true
        } else {
            self.yielded = true;
            false
        }
    }
}

} // verus!
