use vstd::prelude::*;

verus! {

/// Three-way result of comparing two values.
#[derive(Clone, Copy, Debug, PartialEq, Eq, Structural)]
pub enum Relation {
    Less,
    Equal,
    Greater,
}

impl Relation {
    /// The relation seen from the other operand.
    pub open spec fn reversed(self) -> Relation {
        match self {
            Relation::Less => Relation::Greater,
            Relation::Equal => Relation::Equal,
            Relation::Greater => Relation::Less,
        }
    }

    /// The relation seen from the other operand.
    pub fn reverse(self) -> (r: Relation)
        ensures
            r == self.reversed(),
    {
        match self {
            Relation::Less => Relation::Greater,
            Relation::Equal => Relation::Equal,
            Relation::Greater => Relation::Less,
        }
    }

    /// The same relation in the standard library's type.
    pub fn to_ordering(self) -> (r: std::cmp::Ordering)
        ensures
            r == (match self {
                Relation::Less => std::cmp::Ordering::Less,
                Relation::Equal => std::cmp::Ordering::Equal,
                Relation::Greater => std::cmp::Ordering::Greater,
            }),
    {
        match self {
            Relation::Less => std::cmp::Ordering::Less,
            Relation::Equal => std::cmp::Ordering::Equal,
            Relation::Greater => std::cmp::Ordering::Greater,
        }
    }
}

/// Which of the two candidates of a comparison is meant.
#[derive(Clone, Copy, Debug, PartialEq, Eq, Structural)]
pub enum Side {
    Left,
    Right,
}

} // verus!
