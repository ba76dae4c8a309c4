//! Stable integer handles and their generator.

use vstd::prelude::*;

verus! {

#[derive(Clone, Copy, PartialEq, Eq, Structural, Debug)]
pub struct Handle(pub u32);

pub struct HandleGenerator {
    pub counter: u32,
}

impl HandleGenerator {
    pub fn new() -> (r: HandleGenerator)
        ensures
            r.counter == 0,
    {
        HandleGenerator { counter: 0 }
    }

    /// Hands out the next handle; handles are never repeated.
    pub fn next_handle(&mut self) -> (r: Handle)
        requires
            old(self).counter < u32::MAX,
        ensures
            r == Handle(old(self).counter),
            final(self).counter == old(self).counter + 1,
    {
        let out = Handle(self.counter);
        self.counter = self.counter + 1;
        out
    }
}

} // verus!
