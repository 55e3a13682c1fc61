//! A small signed counter with saturation-free, overflow-checked steps.

use vstd::prelude::*;

verus! {

/// The counter; the embedding program shares it behind its own exclusion
/// primitive.
pub struct Counter {
    pub count: i32,
}

impl Default for Counter {
    fn default() -> (r: Self)
        ensures
            r.count == 0,
    {
        Counter { count: 0 }
    }
}

impl Counter {
    /// The current value.
    pub fn get(&self) -> (r: i32)
        ensures
            r == self.count,
    {
        self.count
    }

    /// Steps the counter up, returning the new value.
    pub fn increment(&mut self) -> (r: i32)
        requires
            old(self).count < i32::MAX,
        ensures
            final(self).count == old(self).count + 1,
            r == final(self).count,
    {
        self.count = self.count + 1;
        self.count
    }

    /// Steps the counter down, returning the new value.
    pub fn decrement(&mut self) -> (r: i32)
        requires
            old(self).count > i32::MIN,
        ensures
            final(self).count == old(self).count - 1,
            r == final(self).count,
    {
        self.count = self.count - 1;
        self.count
    }

    /// Resets the counter to zero, returning the new value.
    pub fn reset(&mut self) -> (r: i32)
        ensures
            final(self).count == 0,
            r == 0,
    {
        self.count = 0;
        self.count
    }
}

/// The payload of a counter-change notification to the front end.
pub struct CounterChanged {
    pub count: i32,
}

} // verus!
