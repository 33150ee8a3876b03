//! What the version sets ask of a kind of version: a text and a three-way
//! comparison of texts.

use crate::text::Sign;
use vstd::prelude::*;

verus! {

/// A kind of version that version sets can be built over.
pub trait VersionOrder: Sized {
    /// The text that identifies the version.
    spec fn text(&self) -> Seq<char>;

    /// How the ecosystem orders two versions, given by their texts.
    spec fn order(a: Seq<char>, b: Seq<char>) -> Sign;

    /// Compares two versions in the ecosystem's order.
    fn compare(&self, other: &Self) -> (r: Sign)
        ensures
            r == Self::order(self.text(), other.text()),
    ;

    /// A copy of the version.
    fn duplicate(&self) -> (r: Self)
        ensures
            r.text() == self.text(),
    ;

    /// Whether two versions have the same text.
    fn same(&self, other: &Self) -> (r: bool)
        ensures
            r == (self.text() == other.text()),
    ;

    /// The text of the version.
    fn show(&self) -> (s: String)
        ensures
            s@ == self.text(),
    ;
}

/// A kind of version whose comparison is known to answer consistently in
/// both directions.
pub trait ConsistentOrder: VersionOrder {
    /// Comparing the other way round gives the opposite answer.
    proof fn lemma_order_flips(a: Seq<char>, b: Seq<char>)
        ensures
            Self::order(b, a) == Self::order(a, b).flip(),
    ;
}

/// A kind of version whose comparison is known to be a total order.
pub trait TotalOrder: ConsistentOrder {
    /// Every two versions are comparable, consistently in both directions
    /// and along chains.
    proof fn lemma_order_is_total()
        ensures
            order_is_total::<Self>(),
    ;
}

/// Comparing in the other direction gives the opposite answer.
pub open spec fn order_is_antisymmetric<V: VersionOrder>() -> bool {
    forall|a: Seq<char>, b: Seq<char>| #[trigger] V::order(a, b) == V::order(b, a).flip()
}

/// `a <= b` and `b <= c` give `a <= c`, and `a < c` where one of the two is
/// strict.
pub open spec fn order_is_transitive<V: VersionOrder>() -> bool {
    forall|a: Seq<char>, b: Seq<char>, c: Seq<char>|
        #![trigger V::order(a, b), V::order(b, c)]
        V::order(a, b) != Sign::Greater && V::order(b, c) != Sign::Greater ==> {
            &&& V::order(a, c) != Sign::Greater
            &&& (V::order(a, b) == Sign::Less || V::order(b, c) == Sign::Less) ==> V::order(a, c)
                == Sign::Less
        }
}

/// The comparison is a total preorder: every two versions are comparable,
/// consistently in both directions and along chains.
#[verifier::opaque]
pub open spec fn order_is_total<V: VersionOrder>() -> bool {
    order_is_antisymmetric::<V>() && order_is_transitive::<V>()
}

/// The three answers fit a chain: `a <= b` and `b <= c` give `a <= c`, and
/// `a < c` where one of the two steps is strict.
pub open spec fn chains(ab: Sign, bc: Sign, ac: Sign) -> bool {
    ab != Sign::Greater && bc != Sign::Greater ==> {
        &&& ac != Sign::Greater
        &&& (ab == Sign::Less || bc == Sign::Less) ==> ac == Sign::Less
    }
}

} // verus!
