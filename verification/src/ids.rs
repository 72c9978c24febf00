use vstd::prelude::*;

verus! {

/// Identifier of a block: a fixed-size content-derived value with
/// byte-exact equality, carried here as an opaque machine word.
#[derive(Clone, Copy, PartialEq, Eq, Structural, Debug)]
pub struct BlockId(pub u64);

/// Identifier of a fragment, with the same shape as a block id.
#[derive(Clone, Copy, PartialEq, Eq, Structural, Debug)]
pub struct FragmentId(pub u64);

/// Identifier of a peer node; every service instance can report the one
/// it is connected to.
#[derive(Clone, Copy, PartialEq, Eq, Structural, Debug)]
pub struct NodeId(pub u64);

/// A totally ordered logical time for a block: the epoch, then the slot
/// within the epoch.  Two distinct blocks may share a date only when
/// they sit on different branches.
#[derive(Clone, Copy, PartialEq, Eq, Structural, Debug)]
pub struct BlockDate {
    pub epoch: u32,
    pub slot: u32,
}

impl BlockDate {
    /// The strict order on dates: lexicographic on (epoch, slot).
    pub open spec fn lt(self, other: BlockDate) -> bool {
        self.epoch < other.epoch || (self.epoch == other.epoch && self.slot < other.slot)
    }

    /// Decides the strict date order.
    pub fn is_before(&self, other: &BlockDate) -> (r: bool)
        ensures
            r == self.lt(*other),
    {
        self.epoch < other.epoch || (self.epoch == other.epoch && self.slot < other.slot)
    }
}

} // verus!
