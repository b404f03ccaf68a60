use vstd::prelude::*;

verus! {

/// A 128-bit object identifier, kept as its two 64-bit halves.
#[derive(Clone, Copy, Debug, PartialEq, Eq, Structural)]
pub struct ObjectGuid {
    pub high: u64,
    pub low: u64,
}

impl ObjectGuid {
    /// The empty identifier (both halves zero).
    pub fn empty() -> (g: ObjectGuid)
        ensures
            g.high == 0,
            g.low == 0,
    {
        ObjectGuid { high: 0, low: 0 }
    }

    pub fn new(high: u64, low: u64) -> (g: ObjectGuid)
        ensures
            g.high == high,
            g.low == low,
    {
        ObjectGuid { high, low }
    }

    pub open spec fn is_empty_spec(self) -> bool {
        self.high == 0 && self.low == 0
    }

    pub fn is_empty(&self) -> (b: bool)
        ensures
            b == self.is_empty_spec(),
    {
        self.high == 0 && self.low == 0
    }
}

} // verus!
