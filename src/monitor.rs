use vstd::prelude::*;

verus! {

/// The live status view: it holds no state of its own and never ends by itself.
pub struct Monitor {}

impl Monitor {
    pub fn new() -> (r: Self)
        ensures
            r == (Monitor {}),
    {
        Monitor {}
    }
}

} // verus!
