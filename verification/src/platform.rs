//! Platforms: the operating systems that a query can be resolved for. A
//! platform is a name, and names are ordered as texts.

use crate::order::{order_is_total, ConsistentOrder, VersionOrder};
use crate::text::{
    chars_of, compare_lex, lemma_lex_order_flip, lemma_lex_order_transitive, lex_order, Sign,
};
use vstd::prelude::*;

verus! {

/// The name of a platform, as a version of the platform package.
#[derive(Clone, Debug, PartialEq, Eq, Hash)]
pub struct PlatformVersion(pub String);

impl View for PlatformVersion {
    type V = Seq<char>;

    open spec fn view(&self) -> Seq<char> {
        self.0@
    }
}

impl VersionOrder for PlatformVersion {
    open spec fn text(&self) -> Seq<char> {
        self@
    }

    open spec fn order(a: Seq<char>, b: Seq<char>) -> Sign {
        lex_order(a, b)
    }

    fn compare(&self, other: &Self) -> (r: Sign) {
        compare_lex(&chars_of(self.0.as_str()), &chars_of(other.0.as_str()))
    }

    fn duplicate(&self) -> (r: Self) {
        PlatformVersion(self.0.clone())
    }

    fn same(&self, other: &Self) -> (r: bool) {
        self.0 == other.0
    }

    fn show(&self) -> (s: String) {
        self.0.clone()
    }
}

impl ConsistentOrder for PlatformVersion {
    proof fn lemma_order_flips(a: Seq<char>, b: Seq<char>) {
        lemma_lex_order_flip(a, b, 0);
    }
}

/// The order of platform names is a total order.
pub proof fn lemma_platform_order_total()
    ensures
        order_is_total::<PlatformVersion>(),
{
    reveal(order_is_total);
    assert forall|a: Seq<char>, b: Seq<char>| #[trigger]
        PlatformVersion::order(a, b) == PlatformVersion::order(b, a).flip() by {
        lemma_lex_order_flip(b, a, 0);
    }
    assert forall|a: Seq<char>, b: Seq<char>, c: Seq<char>|
        #![trigger PlatformVersion::order(a, b), PlatformVersion::order(b, c)]
        PlatformVersion::order(a, b) != Sign::Greater && PlatformVersion::order(b, c)
            != Sign::Greater implies {
        &&& PlatformVersion::order(a, c) != Sign::Greater
        &&& (PlatformVersion::order(a, b) == Sign::Less || PlatformVersion::order(b, c)
            == Sign::Less) ==> PlatformVersion::order(a, c) == Sign::Less
    } by {
        lemma_lex_order_transitive(a, b, c, 0);
    }
}

impl crate::order::TotalOrder for PlatformVersion {
    proof fn lemma_order_is_total() {
        lemma_platform_order_total();
    }
}

} // verus!
