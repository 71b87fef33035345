use vstd::prelude::*;
use crate::relation::Relation;

verus! {

/// Snapshot of the facts about a file that can be had without reading it:
/// the storage device it lives on and its size in bytes.
#[derive(Clone, Copy, Debug, PartialEq, Eq, Structural)]
pub struct Metadata {
    pub dev: u64,
    pub size: u64,
}

impl Metadata {
    /// The snapshot of a file of `size` bytes on device `dev`.
    pub fn new(dev: u64, size: u64) -> (m: Metadata)
        ensures
            m.dev == dev,
            m.size == size,
    {
        Metadata { dev, size }
    }

    /// The total order on snapshots: by device first, then by size.
    pub open spec fn order(self, other: Metadata) -> Relation {
        if self.dev < other.dev {
            Relation::Less
        } else if self.dev > other.dev {
            Relation::Greater
        } else if self.size < other.size {
            Relation::Less
        } else if self.size > other.size {
            Relation::Greater
        } else {
            Relation::Equal
        }
    }

    /// Orders two snapshots without touching any file.
    pub fn compare(&self, other: &Metadata) -> (r: Relation)
        ensures
            r == self.order(*other),
    {
        if self.dev < other.dev {
            Relation::Less
        } else if self.dev > other.dev {
            Relation::Greater
        } else if self.size < other.size {
            Relation::Less
        } else if self.size > other.size {
            Relation::Greater
        } else {
            Relation::Equal
        }
    }

    /// Snapshots are equal under the order exactly when device and size agree.
    pub proof fn lemma_order_equal(a: Metadata, b: Metadata)
        ensures
            a.order(b) == Relation::Equal <==> (a.dev == b.dev && a.size == b.size),
            a.order(b) == Relation::Equal <==> a == b,
    {
    }

    /// Swapping the operands reverses the order.
    pub proof fn lemma_order_antisymmetric(a: Metadata, b: Metadata)
        ensures
            b.order(a) == a.order(b).reversed(),
    {
    }

    /// The order is transitive.
    pub proof fn lemma_order_transitive(a: Metadata, b: Metadata, c: Metadata)
        requires
            a.order(b) != Relation::Greater,
            b.order(c) != Relation::Greater,
        ensures
            a.order(c) != Relation::Greater,
            a.order(b) == Relation::Less || b.order(c) == Relation::Less ==> a.order(c)
                == Relation::Less,
    {
    }
}

} // verus!
