//! Flipping a flag while handing back its previous value.

use vstd::prelude::*;

verus! {

pub trait Toggle: Sized {
    spec fn toggled_spec(&self) -> Self;

    /// Flip the value in place and return what it was before.
    fn toggle(&mut self) -> (r: Self)
        ensures
            *final(self) == old(self).toggled_spec(),
            r == *old(self),
    ;
}

impl Toggle for bool {
    open spec fn toggled_spec(&self) -> bool {
        !*self
    }

    fn toggle(&mut self) -> (r: bool) {
        let was = *self;
        *self = !was;
        was
    }
}

} // verus!
