//! The three-valued visibility lattice.

use core::cmp::Ordering;
use vstd::prelude::*;

verus! {

/// How well a player sees a tile. The variants are ordered
/// `No < Normal < Excellent`.
#[derive(Clone, Copy, PartialEq, Eq, Structural, Debug, Hash)]
pub enum TileVisibility {
    /// The tile is hidden.
    No,
    /// The tile is seen, but whatever hides in cover on it is not.
    Normal,
    /// The tile and everything on it is seen.
    Excellent,
}

impl TileVisibility {
    /// The position of a variant in the order: 0, 1 or 2.
    pub open spec fn level(self) -> nat {
        match self {
            TileVisibility::No => 0,
            TileVisibility::Normal => 1,
            TileVisibility::Excellent => 2,
        }
    }

    /// `self` is at most `other` in the order.
    pub open spec fn spec_le(self, other: TileVisibility) -> bool {
        self.level() <= other.level()
    }

    /// The least upper bound of two values: the larger of the two.
    pub open spec fn spec_join(self, other: TileVisibility) -> TileVisibility {
        if self.level() >= other.level() {
            self
        } else {
            other
        }
    }

    /// The position of a variant in the order, as a machine integer.
    pub fn rank(self) -> (r: u8)
        ensures
            r == self.level(),
    {
        match self {
            TileVisibility::No => 0,
            TileVisibility::Normal => 1,
            TileVisibility::Excellent => 2,
        }
    }

    /// The larger of two values.
    pub fn join(self, other: TileVisibility) -> (r: TileVisibility)
        ensures
            r == self.spec_join(other),
    {
        if self.rank() >= other.rank() {
            self
        } else {
            other
        }
    }
}

impl Default for TileVisibility {
    fn default() -> (r: TileVisibility)
        ensures
            r == TileVisibility::No,
    {
        TileVisibility::No
    }
}

impl PartialOrd for TileVisibility {
    fn partial_cmp(&self, other: &TileVisibility) -> (r: Option<Ordering>) {
        let a: u8 = self.rank();
        let b: u8 = other.rank();
        if a < b {
            Some(Ordering::Less)
        } else if a > b {
            Some(Ordering::Greater)
        } else {
            Some(Ordering::Equal)
        }
    }
}

impl vstd::std_specs::cmp::PartialOrdSpecImpl for TileVisibility {
    open spec fn obeys_partial_cmp_spec() -> bool {
        true
    }

    open spec fn partial_cmp_spec(&self, other: &TileVisibility) -> Option<Ordering> {
        if self.level() < other.level() {
            Some(Ordering::Less)
        } else if self.level() > other.level() {
            Some(Ordering::Greater)
        } else {
            Some(Ordering::Equal)
        }
    }
}

/// The order is total: any two values compare, and two values that bound each
/// other are equal.
pub proof fn lemma_order_total(a: TileVisibility, b: TileVisibility)
    ensures
        a.spec_le(b) || b.spec_le(a),
        a.spec_le(b) && b.spec_le(a) ==> a == b,
        a.spec_le(a),
{
}

/// The order is transitive.
pub proof fn lemma_order_transitive(a: TileVisibility, b: TileVisibility, c: TileVisibility)
    requires
        a.spec_le(b),
        b.spec_le(c),
    ensures
        a.spec_le(c),
{
}

/// The join is the least upper bound: it bounds both arguments, and every
/// value that bounds both bounds the join.
pub proof fn lemma_join_is_least_upper_bound(
    a: TileVisibility,
    b: TileVisibility,
    c: TileVisibility,
)
    ensures
        a.spec_le(a.spec_join(b)),
        b.spec_le(a.spec_join(b)),
        a.spec_join(b) == a || a.spec_join(b) == b,
        a.spec_le(c) && b.spec_le(c) ==> a.spec_join(b).spec_le(c),
{
}

/// The join is idempotent, commutative and associative, and `No` is its
/// neutral element.
pub proof fn lemma_join_laws(a: TileVisibility, b: TileVisibility, c: TileVisibility)
    ensures
        a.spec_join(a) == a,
        a.spec_join(b) == b.spec_join(a),
        a.spec_join(b).spec_join(c) == a.spec_join(b.spec_join(c)),
        a.spec_join(TileVisibility::No) == a,
        TileVisibility::No.spec_join(a) == a,
{
}

} // verus!
