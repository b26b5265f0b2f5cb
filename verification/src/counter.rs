//! A small counter taken by exclusive reference, so each increment is
//! a single serialized update.

use vstd::prelude::*;

verus! {

/// A counter updated only under exclusive access.
#[derive(Debug, Clone, Copy, PartialEq, Eq)]
pub struct CanIncrement {
    pub count: i32,
}

impl CanIncrement {
    /// A counter starting at `start`.
    pub fn new(start: i32) -> (r: CanIncrement)
        ensures
            r.count == start,
    {
        CanIncrement { count: start }
    }

    /// Add one to the counter.
    pub fn increment(&mut self)
        requires
            old(self).count < i32::MAX,
        ensures
            final(self).count == old(self).count + 1,
    {
        self.count = self.count + 1;
    }
}

} // verus!
