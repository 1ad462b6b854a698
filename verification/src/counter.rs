//! A minimal poolable type, used to demonstrate and test the pool.

use crate::pool::Poolable;
use vstd::prelude::*;

verus! {

/// A single counter value; its initial state is zero.
pub struct Counter {
    /// The counter's current value.
    pub value: i32,
}

impl Poolable for Counter {
    open spec fn initial_spec() -> Counter {
        Counter { value: 0 }
    }

    fn new() -> (r: Counter) {
        Counter { value: 0 }
    }

    fn reset(&mut self) {
        self.value = 0;
    }
}

} // verus!
