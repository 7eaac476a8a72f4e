use vstd::prelude::*;
use vstd::std_specs::cmp::{PartialOrdIs, PartialOrdSpec};
use crate::colour::Colour;

verus! {

/// The scene evaluated at one point: a signed distance to the nearest
/// surface (zero or less inside or on it) and the colour of that surface.
#[derive(Debug)]
pub struct SignedDistance<D> {
    pub value: D,
    pub colour: Colour,
}

/// The union of two samples, for a distance type whose order Verus models:
/// `b` where its distance is strictly less than `a`'s, else `a`, so that on
/// a tie the first sample wins.
pub open spec fn nearer<D: PartialOrd>(a: SignedDistance<D>, b: SignedDistance<D>) -> SignedDistance<
    D,
> {
    if b.value.is_lt(&a.value) {
        b
    } else {
        a
    }
}

impl<D: PartialOrd> SignedDistance<D> {
    /// The sample of the nearer surface, with that surface's colour: `other`
    /// where its distance is strictly less than this one's, else this one.
    pub fn union(self, other: SignedDistance<D>) -> (r: SignedDistance<D>)
        ensures
            r == self || r == other,
            D::obeys_partial_cmp_spec() ==> r == nearer(self, other),
    {
        if other.value < self.value {
            other
        } else {
            self
        }
    }
}

/// Two distances that a strict order relates: neither is less than itself,
/// and they are not each less than the other.
pub open spec fn strictly_ordered<D: PartialOrd>(x: D, y: D) -> bool {
    &&& !x.is_lt(&x)
    &&& !y.is_lt(&y)
    &&& !(x.is_lt(&y) && y.is_lt(&x))
}

/// The union is the nearest of the two samples: it is one of them, colour
/// and all, and neither sample's distance is strictly less than its own.
pub proof fn union_is_nearest<D: PartialOrd>(a: SignedDistance<D>, b: SignedDistance<D>)
    requires
        D::obeys_partial_cmp_spec(),
        strictly_ordered(a.value, b.value),
    ensures
        b.value.is_lt(&a.value) ==> nearer(a, b) == b,
        !b.value.is_lt(&a.value) ==> nearer(a, b) == a,
        !a.value.is_lt(&nearer(a, b).value),
        !b.value.is_lt(&nearer(a, b).value),
{
}

} // verus!
