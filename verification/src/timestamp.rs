//! Logical timestamps: partially ordered coordinates in computation time.

use vstd::prelude::*;

verus! {

/// A logical timestamp: an epoch counter paired with an inner counter for
/// nested (iterative) scopes.  Timestamps are partially ordered coordinatewise
/// and have a least upper bound, `join`.
#[derive(Clone, Copy, PartialEq, Eq, Structural, Debug)]
pub struct Timestamp {
    /// Outer epoch number.
    pub epoch: u64,
    /// Iteration count within the epoch; zero for non-iterative scopes.
    pub iter: u64,
}

impl Timestamp {
    /// The partial order: at or before `other` in both coordinates.
    pub open spec fn spec_le(self, other: Timestamp) -> bool {
        self.epoch <= other.epoch && self.iter <= other.iter
    }

    pub fn new(epoch: u64, iter: u64) -> (r: Timestamp)
        ensures
            r.epoch == epoch,
            r.iter == iter,
    {
        Timestamp { epoch, iter }
    }

    /// Order test: does `self` precede (or equal) `other`?
    pub fn le(&self, other: &Timestamp) -> (r: bool)
        ensures
            r == self.spec_le(*other),
    {
        self.epoch <= other.epoch && self.iter <= other.iter
    }

    /// Least upper bound of two timestamps.
    pub fn join(&self, other: &Timestamp) -> (r: Timestamp)
        ensures
            self.spec_le(r),
            other.spec_le(r),
            forall|u: Timestamp| self.spec_le(u) && other.spec_le(u) ==> r.spec_le(u),
    {
        Timestamp {
            epoch: if self.epoch >= other.epoch {
                self.epoch
            } else {
                other.epoch
            },
            iter: if self.iter >= other.iter {
                self.iter
            } else {
                other.iter
            },
        }
    }
}

/// The order on timestamps is consistent: reflexive, transitive and
/// antisymmetric, so it admits no cycles.
pub proof fn lemma_order_consistent(a: Timestamp, b: Timestamp, c: Timestamp)
    ensures
        a.spec_le(a),
        a.spec_le(b) && b.spec_le(c) ==> a.spec_le(c),
        a.spec_le(b) && b.spec_le(a) ==> a == b,
{
}

} // verus!
