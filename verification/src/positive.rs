//! Counts that are never zero.
use vstd::prelude::*;

verus! {

/// A positive number of 32 bits.
#[derive(Debug, Clone, Copy, PartialEq, Eq, Hash)]
pub struct PositiveU32 {
    n: u32,
}

impl View for PositiveU32 {
    type V = u32;

    closed spec fn view(&self) -> u32 {
        self.n
    }
}

impl PositiveU32 {
    #[verifier::type_invariant]
    closed spec fn positive(self) -> bool {
        self.n > 0
    }

    /// The number, where it is not zero.
    pub fn new(n: u32) -> (r: Option<PositiveU32>)
        ensures
            r is Some <==> n > 0,
            r is Some ==> r->0@ == n,
    {
        if n > 0 {
            Some(PositiveU32 { n })
        } else {
            None
        }
    }

    /// The number.
    pub fn get(self) -> (r: u32)
        ensures
            r == self@,
            r > 0,
    {
        proof {
            use_type_invariant(&self);
        }
        self.n
    }
}

} // verus!
