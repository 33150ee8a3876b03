//! Versions and sets of versions across the ecosystems.
//!
//! A version belongs to one ecosystem. A set of versions is empty, full, or
//! a set of versions of one ecosystem; two sets of different ecosystems have
//! no version in common.

use crate::alpine::version::AlpineVersion;
use crate::cargo::version::CargoVersion;
use crate::constraints::Copied;
use crate::debian::version::DebianVersion;
use crate::opam::version::OpamVersion;
use crate::canonical::{
    law_complement_written, law_intersection_with_itself, lemma_complement_valid, lemma_intersection_valid,
    lemma_simple_ranges_valid, lemma_union_valid, valid,
};
use crate::order::{order_is_total, VersionOrder};
use crate::platform::PlatformVersion;
use crate::range::{
    empty_range, full_range, lemma_complement, lemma_contains_one, lemma_intersection,
    lemma_union, range_complement, range_contains, range_intersection, range_text, range_union,
    singleton_range, Range, SegmentModel,
};
use crate::text::{compare_u64, int_order, Sign};
use vstd::prelude::*;

verus! {

/// A version of a package of some ecosystem.
#[derive(Debug, PartialEq, Eq, Hash)]
pub enum BabelVersion {
    Opam(OpamVersion),
    Debian(DebianVersion),
    Alpine(AlpineVersion),
    Cargo(CargoVersion),
    /// The name of a platform.
    Platform(String),
    /// The one version of a root.
    Singular,
}

/// What a [`BabelVersion`] stands for.
pub enum VersionModel {
    Opam(Seq<char>),
    Debian(Seq<char>),
    Alpine(Seq<char>),
    Cargo(Seq<char>),
    Platform(Seq<char>),
    Singular,
}

impl View for BabelVersion {
    type V = VersionModel;

    open spec fn view(&self) -> VersionModel {
        match self {
            BabelVersion::Opam(v) => VersionModel::Opam(v@),
            BabelVersion::Debian(v) => VersionModel::Debian(v@),
            BabelVersion::Alpine(v) => VersionModel::Alpine(v@),
            BabelVersion::Cargo(v) => VersionModel::Cargo(v@),
            BabelVersion::Platform(v) => VersionModel::Platform(v@),
            BabelVersion::Singular => VersionModel::Singular,
        }
    }
}

/// The place of the ecosystem of a version among the ecosystems.
pub open spec fn ecosystem_rank(v: VersionModel) -> int {
    match v {
        VersionModel::Singular => 0,
        VersionModel::Platform(_) => 1,
        VersionModel::Opam(_) => 2,
        VersionModel::Debian(_) => 3,
        VersionModel::Alpine(_) => 4,
        VersionModel::Cargo(_) => 5,
    }
}

/// How two versions compare: versions of one ecosystem in the order of that
/// ecosystem, versions of different ecosystems by the place of their
/// ecosystem.
pub open spec fn version_order(a: VersionModel, b: VersionModel) -> Sign {
    match (a, b) {
        (VersionModel::Opam(x), VersionModel::Opam(y)) => OpamVersion::order(x, y),
        (VersionModel::Debian(x), VersionModel::Debian(y)) => DebianVersion::order(x, y),
        (VersionModel::Alpine(x), VersionModel::Alpine(y)) => AlpineVersion::order(x, y),
        (VersionModel::Cargo(x), VersionModel::Cargo(y)) => CargoVersion::order(x, y),
        (VersionModel::Platform(x), VersionModel::Platform(y)) => PlatformVersion::order(x, y),
        _ => int_order(ecosystem_rank(a), ecosystem_rank(b)),
    }
}

/// What a version is shown as: its text; the one version of a root has
/// none.
pub open spec fn version_text(v: VersionModel) -> Seq<char> {
    match v {
        VersionModel::Opam(t) => t,
        VersionModel::Debian(t) => t,
        VersionModel::Alpine(t) => t,
        VersionModel::Cargo(t) => t,
        VersionModel::Platform(t) => t,
        VersionModel::Singular => ""@,
    }
}

impl Clone for BabelVersion {
    fn clone(&self) -> (r: Self)
        ensures
            r@ == self@,
    {
        match self {
            BabelVersion::Opam(v) => BabelVersion::Opam(v.duplicate()),
            BabelVersion::Debian(v) => BabelVersion::Debian(v.duplicate()),
            BabelVersion::Alpine(v) => BabelVersion::Alpine(v.duplicate()),
            BabelVersion::Cargo(v) => BabelVersion::Cargo(v.duplicate()),
            BabelVersion::Platform(v) => BabelVersion::Platform(v.clone()),
            BabelVersion::Singular => BabelVersion::Singular,
        }
    }
}

impl BabelVersion {
    /// What the version is shown as.
    pub fn to_string(&self) -> (s: String)
        ensures
            s@ == version_text(self@),
    {
        match self {
            BabelVersion::Opam(v) => v.to_string(),
            BabelVersion::Debian(v) => v.to_string(),
            BabelVersion::Alpine(v) => v.to_string(),
            BabelVersion::Cargo(v) => v.to_string(),
            BabelVersion::Platform(v) => v.clone(),
            BabelVersion::Singular => "".to_string(),
        }
    }

    /// The place of the ecosystem of the version among the ecosystems.
    fn rank(&self) -> (r: u64)
        ensures
            r == ecosystem_rank(self@),
    {
        match self {
            BabelVersion::Singular => 0,
            BabelVersion::Platform(_) => 1,
            BabelVersion::Opam(_) => 2,
            BabelVersion::Debian(_) => 3,
            BabelVersion::Alpine(_) => 4,
            BabelVersion::Cargo(_) => 5,
        }
    }

    /// Compares two versions.
    pub fn compare(&self, other: &BabelVersion) -> (r: Sign)
        ensures
            r == version_order(self@, other@),
    {
        match (self, other) {
            (BabelVersion::Opam(a), BabelVersion::Opam(b)) => a.compare(b),
            (BabelVersion::Debian(a), BabelVersion::Debian(b)) => a.compare(b),
            (BabelVersion::Alpine(a), BabelVersion::Alpine(b)) => a.compare(b),
            (BabelVersion::Cargo(a), BabelVersion::Cargo(b)) => a.compare(b),
            (BabelVersion::Platform(a), BabelVersion::Platform(b)) => VersionOrder::compare(
                &PlatformVersion(a.clone()),
                &PlatformVersion(b.clone()),
            ),
            _ => compare_u64(self.rank(), other.rank()),
        }
    }

    /// Whether two versions are written the same.
    pub fn same(&self, other: &BabelVersion) -> (r: bool)
        ensures
            r == (self@ == other@),
    {
        match (self, other) {
            (BabelVersion::Opam(a), BabelVersion::Opam(b)) => a.same(b),
            (BabelVersion::Debian(a), BabelVersion::Debian(b)) => a.same(b),
            (BabelVersion::Alpine(a), BabelVersion::Alpine(b)) => a.same(b),
            (BabelVersion::Cargo(a), BabelVersion::Cargo(b)) => a.same(b),
            (BabelVersion::Platform(a), BabelVersion::Platform(b)) => *a == *b,
            (BabelVersion::Singular, BabelVersion::Singular) => true,
            _ => false,
        }
    }
}

/// A set of versions.
#[derive(Debug, PartialEq, Eq, Hash)]
pub enum BabelVersionSet {
    /// No version.
    Empty,
    /// Every version of every ecosystem.
    Full,
    Opam(Range<OpamVersion>),
    Debian(Range<DebianVersion>),
    Alpine(Range<AlpineVersion>),
    Cargo(Range<CargoVersion>),
    Platform(Range<PlatformVersion>),
    /// The one version of a root.
    Singular,
}

impl Copied for BabelVersionSet {
    fn copied(&self) -> (r: Self) {
        self.duplicate()
    }
}

impl Clone for BabelVersionSet {
    fn clone(&self) -> (r: Self)
        ensures
            r@ == self@,
    {
        self.duplicate()
    }
}

/// What a [`BabelVersionSet`] stands for.
pub enum SetModel {
    Empty,
    Full,
    Opam(Seq<SegmentModel>),
    Debian(Seq<SegmentModel>),
    Alpine(Seq<SegmentModel>),
    Cargo(Seq<SegmentModel>),
    Platform(Seq<SegmentModel>),
    Singular,
}

impl View for BabelVersionSet {
    type V = SetModel;

    open spec fn view(&self) -> SetModel {
        match self {
            BabelVersionSet::Empty => SetModel::Empty,
            BabelVersionSet::Full => SetModel::Full,
            BabelVersionSet::Opam(r) => SetModel::Opam(r@),
            BabelVersionSet::Debian(r) => SetModel::Debian(r@),
            BabelVersionSet::Alpine(r) => SetModel::Alpine(r@),
            BabelVersionSet::Cargo(r) => SetModel::Cargo(r@),
            BabelVersionSet::Platform(r) => SetModel::Platform(r@),
            BabelVersionSet::Singular => SetModel::Singular,
        }
    }
}

/// What a set is written as: `Empty`, `Full`, `Singular`, or its range.
pub open spec fn set_text(s: SetModel) -> Seq<char> {
    match s {
        SetModel::Empty => "Empty"@,
        SetModel::Full => "Full"@,
        SetModel::Opam(r) => range_text(r),
        SetModel::Debian(r) => range_text(r),
        SetModel::Alpine(r) => range_text(r),
        SetModel::Cargo(r) => range_text(r),
        SetModel::Platform(r) => range_text(r),
        SetModel::Singular => "Singular"@,
    }
}

/// The version lies in the set: the full set holds every version, and a set
/// of one ecosystem holds the versions of that ecosystem that lie in its
/// range.
pub open spec fn set_contains(s: SetModel, v: VersionModel) -> bool {
    match (s, v) {
        (SetModel::Full, _) => true,
        (SetModel::Opam(r), VersionModel::Opam(t)) => range_contains::<OpamVersion>(r, t),
        (SetModel::Debian(r), VersionModel::Debian(t)) => range_contains::<DebianVersion>(r, t),
        (SetModel::Alpine(r), VersionModel::Alpine(t)) => range_contains::<AlpineVersion>(r, t),
        (SetModel::Cargo(r), VersionModel::Cargo(t)) => range_contains::<CargoVersion>(r, t),
        (SetModel::Platform(r), VersionModel::Platform(t)) => range_contains::<PlatformVersion>(
            r,
            t,
        ),
        (SetModel::Singular, VersionModel::Singular) => true,
        _ => false,
    }
}

/// The set that holds `v` and what compares equal to it in its ecosystem.
pub open spec fn set_singleton(v: VersionModel) -> SetModel {
    match v {
        VersionModel::Opam(t) => SetModel::Opam(singleton_range(t)),
        VersionModel::Debian(t) => SetModel::Debian(singleton_range(t)),
        VersionModel::Alpine(t) => SetModel::Alpine(singleton_range(t)),
        VersionModel::Cargo(t) => SetModel::Cargo(singleton_range(t)),
        VersionModel::Platform(t) => SetModel::Platform(singleton_range(t)),
        VersionModel::Singular => SetModel::Singular,
    }
}

/// The complement of a set within its ecosystem. The complement of the
/// empty set is the full set and the other way round.
pub open spec fn set_complement(s: SetModel) -> SetModel {
    match s {
        SetModel::Empty => SetModel::Full,
        SetModel::Full => SetModel::Empty,
        SetModel::Opam(r) => SetModel::Opam(range_complement::<OpamVersion>(r)),
        SetModel::Debian(r) => SetModel::Debian(range_complement::<DebianVersion>(r)),
        SetModel::Alpine(r) => SetModel::Alpine(range_complement::<AlpineVersion>(r)),
        SetModel::Cargo(r) => SetModel::Cargo(range_complement::<CargoVersion>(r)),
        SetModel::Platform(r) => SetModel::Platform(range_complement::<PlatformVersion>(r)),
        SetModel::Singular => SetModel::Empty,
    }
}

/// The intersection of two sets. Sets of different ecosystems have nothing
/// in common.
pub open spec fn set_intersection(a: SetModel, b: SetModel) -> SetModel {
    match (a, b) {
        (SetModel::Empty, _) => SetModel::Empty,
        (_, SetModel::Empty) => SetModel::Empty,
        (SetModel::Full, _) => b,
        (_, SetModel::Full) => a,
        (SetModel::Opam(x), SetModel::Opam(y)) => SetModel::Opam(
            range_intersection::<OpamVersion>(x, y),
        ),
        (SetModel::Debian(x), SetModel::Debian(y)) => SetModel::Debian(
            range_intersection::<DebianVersion>(x, y),
        ),
        (SetModel::Alpine(x), SetModel::Alpine(y)) => SetModel::Alpine(
            range_intersection::<AlpineVersion>(x, y),
        ),
        (SetModel::Cargo(x), SetModel::Cargo(y)) => SetModel::Cargo(
            range_intersection::<CargoVersion>(x, y),
        ),
        (SetModel::Platform(x), SetModel::Platform(y)) => SetModel::Platform(
            range_intersection::<PlatformVersion>(x, y),
        ),
        (SetModel::Singular, SetModel::Singular) => SetModel::Singular,
        _ => SetModel::Empty,
    }
}

/// The two sets are of one ecosystem, or one of them is empty or full.
pub open spec fn same_ecosystem(a: SetModel, b: SetModel) -> bool {
    match (a, b) {
        (SetModel::Empty, _) | (_, SetModel::Empty) => true,
        (SetModel::Full, _) | (_, SetModel::Full) => true,
        (SetModel::Opam(_), SetModel::Opam(_)) => true,
        (SetModel::Debian(_), SetModel::Debian(_)) => true,
        (SetModel::Alpine(_), SetModel::Alpine(_)) => true,
        (SetModel::Cargo(_), SetModel::Cargo(_)) => true,
        (SetModel::Platform(_), SetModel::Platform(_)) => true,
        (SetModel::Singular, SetModel::Singular) => true,
        _ => false,
    }
}

/// The union of two sets of one ecosystem.
pub open spec fn set_union(a: SetModel, b: SetModel) -> SetModel {
    match (a, b) {
        (SetModel::Full, _) => SetModel::Full,
        (_, SetModel::Full) => SetModel::Full,
        (SetModel::Empty, _) => b,
        (_, SetModel::Empty) => a,
        (SetModel::Opam(x), SetModel::Opam(y)) => SetModel::Opam(range_union::<OpamVersion>(x, y)),
        (SetModel::Debian(x), SetModel::Debian(y)) => SetModel::Debian(
            range_union::<DebianVersion>(x, y),
        ),
        (SetModel::Alpine(x), SetModel::Alpine(y)) => SetModel::Alpine(
            range_union::<AlpineVersion>(x, y),
        ),
        (SetModel::Cargo(x), SetModel::Cargo(y)) => SetModel::Cargo(
            range_union::<CargoVersion>(x, y),
        ),
        (SetModel::Platform(x), SetModel::Platform(y)) => SetModel::Platform(
            range_union::<PlatformVersion>(x, y),
        ),
        _ => a,
    }
}

/// The set is written without a version: it is the empty set, or a set of
/// one ecosystem whose range has no segment.
pub open spec fn is_empty_set(s: SetModel) -> bool {
    match s {
        SetModel::Empty => true,
        SetModel::Full => false,
        SetModel::Opam(r) => r == empty_range(),
        SetModel::Debian(r) => r == empty_range(),
        SetModel::Alpine(r) => r == empty_range(),
        SetModel::Cargo(r) => r == empty_range(),
        SetModel::Platform(r) => r == empty_range(),
        SetModel::Singular => false,
    }
}

/// The set is written as all versions: it is the full set, or a set of one
/// ecosystem whose range is the full range.
pub open spec fn is_full_set(s: SetModel) -> bool {
    match s {
        SetModel::Empty => false,
        SetModel::Full => true,
        SetModel::Opam(r) => r == full_range(),
        SetModel::Debian(r) => r == full_range(),
        SetModel::Alpine(r) => r == full_range(),
        SetModel::Cargo(r) => r == full_range(),
        SetModel::Platform(r) => r == full_range(),
        SetModel::Singular => true,
    }
}

/// Two sets count as equal: both are empty, both are full, or they are sets
/// of one ecosystem with the same range.
pub open spec fn set_equal(a: SetModel, b: SetModel) -> bool {
    match (a, b) {
        (SetModel::Empty, _) => is_empty_set(b),
        (_, SetModel::Empty) => is_empty_set(a),
        (SetModel::Full, _) => is_full_set(b),
        (_, SetModel::Full) => is_full_set(a),
        _ => a == b,
    }
}

/// The set is written in order: its range, where it has one, is written with
/// segments that leave room and follow each other apart.
pub open spec fn set_valid(s: SetModel) -> bool {
    match s {
        SetModel::Opam(r) => valid::<OpamVersion>(r),
        SetModel::Debian(r) => valid::<DebianVersion>(r),
        SetModel::Alpine(r) => valid::<AlpineVersion>(r),
        SetModel::Cargo(r) => valid::<CargoVersion>(r),
        SetModel::Platform(r) => valid::<PlatformVersion>(r),
        _ => true,
    }
}

/// The comparison of every ecosystem in which the set has versions is a
/// total order.
pub open spec fn ordered(s: SetModel) -> bool {
    match s {
        SetModel::Opam(_) => order_is_total::<OpamVersion>(),
        SetModel::Debian(_) => order_is_total::<DebianVersion>(),
        SetModel::Alpine(_) => order_is_total::<AlpineVersion>(),
        SetModel::Cargo(_) => order_is_total::<CargoVersion>(),
        SetModel::Platform(_) => order_is_total::<PlatformVersion>(),
        _ => true,
    }
}

/// The comparisons of OPAM, Debian and Alpine versions and of platform names
/// are total orders; so every set but one of Cargo versions is ordered. The
/// order of Cargo versions is that of the SemVer library.
pub proof fn law_orders_are_total(s: SetModel)
    requires
        !(s is Cargo),
    ensures
        ordered(s),
{
    crate::opam::version::lemma_opam_order_is_total();
    crate::debian::version::lemma_debian_order_is_total();
    crate::alpine::version::lemma_alpine_order_is_total();
    crate::platform::lemma_platform_order_total();
}

/// The version is of the ecosystem of the set, where the set has one.
pub open spec fn belongs(s: SetModel, v: VersionModel) -> bool {
    match (s, v) {
        (SetModel::Empty, _) | (SetModel::Full, _) => true,
        (SetModel::Opam(_), VersionModel::Opam(_)) => true,
        (SetModel::Debian(_), VersionModel::Debian(_)) => true,
        (SetModel::Alpine(_), VersionModel::Alpine(_)) => true,
        (SetModel::Cargo(_), VersionModel::Cargo(_)) => true,
        (SetModel::Platform(_), VersionModel::Platform(_)) => true,
        (SetModel::Singular, VersionModel::Singular) => true,
        _ => false,
    }
}

impl BabelVersionSet {
    /// What the set is written as.
    pub fn to_string(&self) -> (s: String)
        ensures
            s@ == set_text(self@),
    {
        match self {
            BabelVersionSet::Empty => "Empty".to_string(),
            BabelVersionSet::Full => "Full".to_string(),
            BabelVersionSet::Opam(set) => set.to_string(),
            BabelVersionSet::Debian(set) => set.to_string(),
            BabelVersionSet::Alpine(set) => set.to_string(),
            BabelVersionSet::Cargo(set) => set.to_string(),
            BabelVersionSet::Platform(set) => set.to_string(),
            BabelVersionSet::Singular => "Singular".to_string(),
        }
    }

    /// The set without versions.
    pub fn empty() -> (r: Self)
        ensures
            r@ == SetModel::Empty,
    {
        BabelVersionSet::Empty
    }

    /// The set of all versions.
    pub fn full() -> (r: Self)
        ensures
            r@ == SetModel::Full,
    {
        BabelVersionSet::Full
    }

    /// The set that holds `v`, in the ecosystem of `v`.
    pub fn singleton(v: BabelVersion) -> (r: Self)
        ensures
            r@ == set_singleton(v@),
            ordered(r@) ==> set_valid(r@),
    {
        let r = match v {
            BabelVersion::Opam(ver) => BabelVersionSet::Opam(Range::singleton(ver)),
            BabelVersion::Debian(ver) => BabelVersionSet::Debian(Range::singleton(ver)),
            BabelVersion::Alpine(ver) => BabelVersionSet::Alpine(Range::singleton(ver)),
            BabelVersion::Cargo(ver) => BabelVersionSet::Cargo(Range::singleton(ver)),
            BabelVersion::Platform(ver) => BabelVersionSet::Platform(
                Range::singleton(PlatformVersion(ver)),
            ),
            BabelVersion::Singular => BabelVersionSet::Singular,
        };
        proof {
            if ordered(r@) {
                law_singleton_is_in_order(v@);
            }
        }
        r
    }

    /// The complement of the set within its ecosystem.
    pub fn complement(&self) -> (r: Self)
        ensures
            r@ == set_complement(self@),
            ordered(r@) && set_valid(self@) ==> set_valid(r@),
    {
        let r = match self {
            BabelVersionSet::Empty => BabelVersionSet::Full,
            BabelVersionSet::Full => BabelVersionSet::Empty,
            BabelVersionSet::Opam(set) => BabelVersionSet::Opam(set.complement()),
            BabelVersionSet::Debian(set) => BabelVersionSet::Debian(set.complement()),
            BabelVersionSet::Alpine(set) => BabelVersionSet::Alpine(set.complement()),
            BabelVersionSet::Cargo(set) => BabelVersionSet::Cargo(set.complement()),
            BabelVersionSet::Platform(set) => BabelVersionSet::Platform(set.complement()),
            BabelVersionSet::Singular => BabelVersionSet::Empty,
        };
        proof {
            if ordered(r@) && set_valid(self@) {
                law_complement_keeps_order(self@);
            }
        }
        r
    }

    /// A copy of the set.
    pub fn duplicate(&self) -> (r: Self)
        ensures
            r@ == self@,
    {
        match self {
            BabelVersionSet::Empty => BabelVersionSet::Empty,
            BabelVersionSet::Full => BabelVersionSet::Full,
            BabelVersionSet::Opam(set) => BabelVersionSet::Opam(set.duplicate()),
            BabelVersionSet::Debian(set) => BabelVersionSet::Debian(set.duplicate()),
            BabelVersionSet::Alpine(set) => BabelVersionSet::Alpine(set.duplicate()),
            BabelVersionSet::Cargo(set) => BabelVersionSet::Cargo(set.duplicate()),
            BabelVersionSet::Platform(set) => BabelVersionSet::Platform(set.duplicate()),
            BabelVersionSet::Singular => BabelVersionSet::Singular,
        }
    }

    /// The intersection of two sets.
    pub fn intersection(&self, other: &Self) -> (r: Self)
        ensures
            r@ == set_intersection(self@, other@),
            ordered(r@) && set_valid(self@) && set_valid(other@) ==> set_valid(r@),
    {
        let r = match (self, other) {
            (BabelVersionSet::Empty, _) | (_, BabelVersionSet::Empty) => BabelVersionSet::Empty,
            (BabelVersionSet::Full, s) => s.duplicate(),
            (s, BabelVersionSet::Full) => s.duplicate(),
            (BabelVersionSet::Opam(set), BabelVersionSet::Opam(other_set)) => {
                BabelVersionSet::Opam(set.intersection(other_set))
            },
            (BabelVersionSet::Debian(set), BabelVersionSet::Debian(other_set)) => {
                BabelVersionSet::Debian(set.intersection(other_set))
            },
            (BabelVersionSet::Alpine(set), BabelVersionSet::Alpine(other_set)) => {
                BabelVersionSet::Alpine(set.intersection(other_set))
            },
            (BabelVersionSet::Cargo(set), BabelVersionSet::Cargo(other_set)) => {
                BabelVersionSet::Cargo(set.intersection(other_set))
            },
            (BabelVersionSet::Platform(set), BabelVersionSet::Platform(other_set)) => {
                BabelVersionSet::Platform(set.intersection(other_set))
            },
            (BabelVersionSet::Singular, BabelVersionSet::Singular) => BabelVersionSet::Singular,
            _ => BabelVersionSet::Empty,
        };
        proof {
            if ordered(r@) && set_valid(self@) && set_valid(other@) {
                law_intersection_keeps_order(self@, other@);
            }
        }
        r
    }

    /// Whether `v` lies in the set.
    pub fn contains(&self, v: &BabelVersion) -> (r: bool)
        ensures
            r == set_contains(self@, v@),
    {
        match (self, v) {
            (BabelVersionSet::Full, _) => true,
            (BabelVersionSet::Opam(set), BabelVersion::Opam(ver)) => set.contains(ver),
            (BabelVersionSet::Debian(set), BabelVersion::Debian(ver)) => set.contains(ver),
            (BabelVersionSet::Alpine(set), BabelVersion::Alpine(ver)) => set.contains(ver),
            (BabelVersionSet::Cargo(set), BabelVersion::Cargo(ver)) => set.contains(ver),
            (BabelVersionSet::Platform(set), BabelVersion::Platform(ver)) => set.contains(
                &PlatformVersion(ver.clone()),
            ),
            (BabelVersionSet::Singular, BabelVersion::Singular) => true,
            _ => false,
        }
    }

    /// Whether the set is written in order.
    pub fn is_valid(&self) -> (r: bool)
        ensures
            r == set_valid(self@),
    {
        match self {
            BabelVersionSet::Opam(set) => set.is_valid(),
            BabelVersionSet::Debian(set) => set.is_valid(),
            BabelVersionSet::Alpine(set) => set.is_valid(),
            BabelVersionSet::Cargo(set) => set.is_valid(),
            BabelVersionSet::Platform(set) => set.is_valid(),
            _ => true,
        }
    }

    /// Whether the two sets are of one ecosystem, so that they have a union.
    pub fn same_ecosystem(&self, other: &Self) -> (r: bool)
        ensures
            r == same_ecosystem(self@, other@),
    {
        match (self, other) {
            (BabelVersionSet::Empty, _) | (_, BabelVersionSet::Empty) => true,
            (BabelVersionSet::Full, _) | (_, BabelVersionSet::Full) => true,
            (BabelVersionSet::Opam(_), BabelVersionSet::Opam(_)) => true,
            (BabelVersionSet::Debian(_), BabelVersionSet::Debian(_)) => true,
            (BabelVersionSet::Alpine(_), BabelVersionSet::Alpine(_)) => true,
            (BabelVersionSet::Cargo(_), BabelVersionSet::Cargo(_)) => true,
            (BabelVersionSet::Platform(_), BabelVersionSet::Platform(_)) => true,
            (BabelVersionSet::Singular, BabelVersionSet::Singular) => true,
            _ => false,
        }
    }

    /// The union of two sets of one ecosystem.
    #[verifier::rlimit(60)]
    #[verifier::spinoff_prover]
    pub fn union(&self, other: &Self) -> (r: Self)
        requires
            same_ecosystem(self@, other@),
        ensures
            r@ == set_union(self@, other@),
            ordered(r@) && set_valid(self@) && set_valid(other@) ==> set_valid(r@),
    {
        let r = match (self, other) {
            (BabelVersionSet::Full, _) | (_, BabelVersionSet::Full) => BabelVersionSet::Full,
            (BabelVersionSet::Empty, s) => s.duplicate(),
            (s, BabelVersionSet::Empty) => s.duplicate(),
            (BabelVersionSet::Opam(set), BabelVersionSet::Opam(other_set)) => {
                BabelVersionSet::Opam(set.union(other_set))
            },
            (BabelVersionSet::Debian(set), BabelVersionSet::Debian(other_set)) => {
                BabelVersionSet::Debian(set.union(other_set))
            },
            (BabelVersionSet::Alpine(set), BabelVersionSet::Alpine(other_set)) => {
                BabelVersionSet::Alpine(set.union(other_set))
            },
            (BabelVersionSet::Cargo(set), BabelVersionSet::Cargo(other_set)) => {
                BabelVersionSet::Cargo(set.union(other_set))
            },
            (BabelVersionSet::Platform(set), BabelVersionSet::Platform(other_set)) => {
                BabelVersionSet::Platform(set.union(other_set))
            },
            (s, _) => s.duplicate(),
        };
        proof {
            if ordered(r@) && set_valid(self@) && set_valid(other@) {
                law_union_keeps_order(self@, other@);
            }
        }
        r
    }

    /// Whether the set is written without a version.
    pub fn is_empty(&self) -> (r: bool)
        ensures
            r == is_empty_set(self@),
    {
        match self {
            BabelVersionSet::Empty => true,
            BabelVersionSet::Full => false,
            BabelVersionSet::Opam(set) => set.is_empty(),
            BabelVersionSet::Debian(set) => set.is_empty(),
            BabelVersionSet::Alpine(set) => set.is_empty(),
            BabelVersionSet::Cargo(set) => set.is_empty(),
            BabelVersionSet::Platform(set) => set.is_empty(),
            BabelVersionSet::Singular => false,
        }
    }

    /// Whether the set is written as all versions.
    pub fn is_full(&self) -> (r: bool)
        ensures
            r == is_full_set(self@),
    {
        match self {
            BabelVersionSet::Empty => false,
            BabelVersionSet::Full => true,
            BabelVersionSet::Opam(set) => set.same(&Range::full()),
            BabelVersionSet::Debian(set) => set.same(&Range::full()),
            BabelVersionSet::Alpine(set) => set.same(&Range::full()),
            BabelVersionSet::Cargo(set) => set.same(&Range::full()),
            BabelVersionSet::Platform(set) => set.same(&Range::full()),
            BabelVersionSet::Singular => true,
        }
    }

    /// Whether two sets count as equal.
    pub fn same(&self, other: &Self) -> (r: bool)
        ensures
            r == set_equal(self@, other@),
    {
        match (self, other) {
            (BabelVersionSet::Empty, o) => o.is_empty(),
            (o, BabelVersionSet::Empty) => o.is_empty(),
            (BabelVersionSet::Full, o) => o.is_full(),
            (o, BabelVersionSet::Full) => o.is_full(),
            (BabelVersionSet::Opam(a), BabelVersionSet::Opam(b)) => a.same(b),
            (BabelVersionSet::Debian(a), BabelVersionSet::Debian(b)) => a.same(b),
            (BabelVersionSet::Alpine(a), BabelVersionSet::Alpine(b)) => a.same(b),
            (BabelVersionSet::Cargo(a), BabelVersionSet::Cargo(b)) => a.same(b),
            (BabelVersionSet::Platform(a), BabelVersionSet::Platform(b)) => a.same(b),
            (BabelVersionSet::Singular, BabelVersionSet::Singular) => true,
            _ => false,
        }
    }

    /// Whether two sets are written the same.
    pub fn written_same(&self, other: &Self) -> (r: bool)
        ensures
            r == (self@ == other@),
    {
        match (self, other) {
            (BabelVersionSet::Empty, BabelVersionSet::Empty) => true,
            (BabelVersionSet::Full, BabelVersionSet::Full) => true,
            (BabelVersionSet::Opam(a), BabelVersionSet::Opam(b)) => a.same(b),
            (BabelVersionSet::Debian(a), BabelVersionSet::Debian(b)) => a.same(b),
            (BabelVersionSet::Alpine(a), BabelVersionSet::Alpine(b)) => a.same(b),
            (BabelVersionSet::Cargo(a), BabelVersionSet::Cargo(b)) => a.same(b),
            (BabelVersionSet::Platform(a), BabelVersionSet::Platform(b)) => a.same(b),
            (BabelVersionSet::Singular, BabelVersionSet::Singular) => true,
            _ => false,
        }
    }

    /// Whether the two sets are written without a version in common.
    pub fn is_disjoint(&self, other: &Self) -> (r: bool)
        ensures
            r == is_empty_set(set_intersection(self@, other@)),
    {
        self.intersection(other).is_empty()
    }

    /// Whether the set equals what it has in common with `other`.
    pub fn subset_of(&self, other: &Self) -> (r: bool)
        ensures
            r == set_equal(self@, set_intersection(self@, other@)),
    {
        let common = self.intersection(other);
        self.same(&common)
    }
}

/// A version lies in the singleton of `v` exactly when it is of the
/// ecosystem of `v` and compares equal to `v` there.
pub proof fn law_singleton_members(v: VersionModel, w: VersionModel)
    ensures
        set_contains(set_singleton(v), w) == match (v, w) {
            (VersionModel::Opam(a), VersionModel::Opam(b)) => OpamVersion::order(b, a)
                == Sign::Equal,
            (VersionModel::Debian(a), VersionModel::Debian(b)) => DebianVersion::order(b, a)
                == Sign::Equal,
            (VersionModel::Alpine(a), VersionModel::Alpine(b)) => AlpineVersion::order(b, a)
                == Sign::Equal,
            (VersionModel::Cargo(a), VersionModel::Cargo(b)) => CargoVersion::order(b, a)
                == Sign::Equal,
            (VersionModel::Platform(a), VersionModel::Platform(b)) => PlatformVersion::order(b, a)
                == Sign::Equal,
            (VersionModel::Singular, VersionModel::Singular) => true,
            _ => false,
        },
{
    match (v, w) {
        (VersionModel::Opam(a), VersionModel::Opam(b)) => {
            lemma_contains_one::<OpamVersion>(singleton_range(a)[0], b);
        },
        (VersionModel::Debian(a), VersionModel::Debian(b)) => {
            lemma_contains_one::<DebianVersion>(singleton_range(a)[0], b);
        },
        (VersionModel::Alpine(a), VersionModel::Alpine(b)) => {
            lemma_contains_one::<AlpineVersion>(singleton_range(a)[0], b);
        },
        (VersionModel::Cargo(a), VersionModel::Cargo(b)) => {
            lemma_contains_one::<CargoVersion>(singleton_range(a)[0], b);
        },
        (VersionModel::Platform(a), VersionModel::Platform(b)) => {
            lemma_contains_one::<PlatformVersion>(singleton_range(a)[0], b);
        },
        _ => {},
    }
}

/// Every version that lies in a set which is neither empty nor full is of
/// the ecosystem of the set.
pub proof fn law_members_belong(s: SetModel, v: VersionModel)
    requires
        set_contains(s, v),
    ensures
        belongs(s, v),
{
}

/// A version lies in `a ∩ b` exactly when it lies in `a` and in `b`.
pub proof fn law_intersection_members(a: SetModel, b: SetModel, v: VersionModel)
    requires
        ordered(a),
        ordered(b),
    ensures
        set_contains(set_intersection(a, b), v) == (set_contains(a, v) && set_contains(b, v)),
{
    match (a, b, v) {
        (SetModel::Opam(x), SetModel::Opam(y), VersionModel::Opam(t)) => {
            lemma_intersection::<OpamVersion>(x, y, t);
        },
        (SetModel::Debian(x), SetModel::Debian(y), VersionModel::Debian(t)) => {
            lemma_intersection::<DebianVersion>(x, y, t);
        },
        (SetModel::Alpine(x), SetModel::Alpine(y), VersionModel::Alpine(t)) => {
            lemma_intersection::<AlpineVersion>(x, y, t);
        },
        (SetModel::Cargo(x), SetModel::Cargo(y), VersionModel::Cargo(t)) => {
            lemma_intersection::<CargoVersion>(x, y, t);
        },
        (SetModel::Platform(x), SetModel::Platform(y), VersionModel::Platform(t)) => {
            lemma_intersection::<PlatformVersion>(x, y, t);
        },
        _ => {},
    }
}

/// A version of the ecosystem of a set lies in the complement of the set
/// exactly when it does not lie in the set.
pub proof fn law_complement_members(a: SetModel, v: VersionModel)
    requires
        ordered(a),
        belongs(a, v),
    ensures
        set_contains(set_complement(a), v) == !set_contains(a, v),
{
    match (a, v) {
        (SetModel::Opam(x), VersionModel::Opam(t)) => {
            lemma_complement::<OpamVersion>(x, t);
        },
        (SetModel::Debian(x), VersionModel::Debian(t)) => {
            lemma_complement::<DebianVersion>(x, t);
        },
        (SetModel::Alpine(x), VersionModel::Alpine(t)) => {
            lemma_complement::<AlpineVersion>(x, t);
        },
        (SetModel::Cargo(x), VersionModel::Cargo(t)) => {
            lemma_complement::<CargoVersion>(x, t);
        },
        (SetModel::Platform(x), VersionModel::Platform(t)) => {
            lemma_complement::<PlatformVersion>(x, t);
        },
        _ => {},
    }
}

/// A version lies in the union of two sets of one ecosystem exactly when it
/// lies in one of them.
pub proof fn law_union_members(a: SetModel, b: SetModel, v: VersionModel)
    requires
        ordered(a),
        ordered(b),
        same_ecosystem(a, b),
    ensures
        set_contains(set_union(a, b), v) == (set_contains(a, v) || set_contains(b, v)),
{
    match (a, b, v) {
        (SetModel::Opam(x), SetModel::Opam(y), VersionModel::Opam(t)) => {
            lemma_union::<OpamVersion>(x, y, t);
        },
        (SetModel::Debian(x), SetModel::Debian(y), VersionModel::Debian(t)) => {
            lemma_union::<DebianVersion>(x, y, t);
        },
        (SetModel::Alpine(x), SetModel::Alpine(y), VersionModel::Alpine(t)) => {
            lemma_union::<AlpineVersion>(x, y, t);
        },
        (SetModel::Cargo(x), SetModel::Cargo(y), VersionModel::Cargo(t)) => {
            lemma_union::<CargoVersion>(x, y, t);
        },
        (SetModel::Platform(x), SetModel::Platform(y), VersionModel::Platform(t)) => {
            lemma_union::<PlatformVersion>(x, y, t);
        },
        _ => {},
    }
}

/// The intersection of a set written in order with itself is the set, as it
/// is written; so the two count as equal.
pub proof fn law_intersection_with_itself_is_same(a: SetModel)
    requires
        ordered(a),
        set_valid(a),
    ensures
        set_intersection(a, a) == a,
        set_equal(set_intersection(a, a), a),
{
    match a {
        SetModel::Opam(x) => {
            law_intersection_with_itself::<OpamVersion>(x);
        },
        SetModel::Debian(x) => {
            law_intersection_with_itself::<DebianVersion>(x);
        },
        SetModel::Alpine(x) => {
            law_intersection_with_itself::<AlpineVersion>(x);
        },
        SetModel::Cargo(x) => {
            law_intersection_with_itself::<CargoVersion>(x);
        },
        SetModel::Platform(x) => {
            law_intersection_with_itself::<PlatformVersion>(x);
        },
        _ => {},
    }
}

/// A set and its complement have nothing in common, and their union counts
/// as equal to the full set, as the sets are written.
#[verifier::rlimit(60)]
#[verifier::spinoff_prover]
pub proof fn law_complement_is_same(a: SetModel)
    requires
        ordered(a),
    ensures
        is_empty_set(set_intersection(a, set_complement(a))),
        set_equal(set_intersection(a, set_complement(a)), SetModel::Empty),
        is_full_set(set_union(a, set_complement(a))),
        set_equal(set_union(a, set_complement(a)), SetModel::Full),
{
    match a {
        SetModel::Opam(x) => {
            law_complement_written::<OpamVersion>(x);
            assert(set_intersection(a, set_complement(a)) == SetModel::Opam(empty_range()));
            assert(set_union(a, set_complement(a)) == SetModel::Opam(full_range()));
        },
        SetModel::Debian(x) => {
            law_complement_written::<DebianVersion>(x);
            assert(set_intersection(a, set_complement(a)) == SetModel::Debian(empty_range()));
            assert(set_union(a, set_complement(a)) == SetModel::Debian(full_range()));
        },
        SetModel::Alpine(x) => {
            law_complement_written::<AlpineVersion>(x);
            assert(set_intersection(a, set_complement(a)) == SetModel::Alpine(empty_range()));
            assert(set_union(a, set_complement(a)) == SetModel::Alpine(full_range()));
        },
        SetModel::Cargo(x) => {
            law_complement_written::<CargoVersion>(x);
            assert(set_intersection(a, set_complement(a)) == SetModel::Cargo(empty_range()));
            assert(set_union(a, set_complement(a)) == SetModel::Cargo(full_range()));
        },
        SetModel::Platform(x) => {
            law_complement_written::<PlatformVersion>(x);
            assert(set_intersection(a, set_complement(a)) == SetModel::Platform(empty_range()));
            assert(set_union(a, set_complement(a)) == SetModel::Platform(full_range()));
        },
        _ => {},
    }
}

/// Sets that count as equal have the same members among the versions of
/// their ecosystems.
pub proof fn law_equal_sets_have_equal_members(a: SetModel, b: SetModel, v: VersionModel)
    requires
        set_equal(a, b),
        belongs(a, v),
        belongs(b, v),
    ensures
        set_contains(a, v) == set_contains(b, v),
{
    match v {
        VersionModel::Opam(t) => {
            lemma_contains_one::<OpamVersion>(full_range()[0], t);
        },
        VersionModel::Debian(t) => {
            lemma_contains_one::<DebianVersion>(full_range()[0], t);
        },
        VersionModel::Alpine(t) => {
            lemma_contains_one::<AlpineVersion>(full_range()[0], t);
        },
        VersionModel::Cargo(t) => {
            lemma_contains_one::<CargoVersion>(full_range()[0], t);
        },
        VersionModel::Platform(t) => {
            lemma_contains_one::<PlatformVersion>(full_range()[0], t);
        },
        VersionModel::Singular => {},
    }
}

/// Where two sets are found disjoint, no version lies in both.
pub proof fn law_disjoint_sets_share_no_member(a: SetModel, b: SetModel, v: VersionModel)
    requires
        ordered(a),
        ordered(b),
        is_empty_set(set_intersection(a, b)),
    ensures
        !(set_contains(a, v) && set_contains(b, v)),
{
    law_intersection_members(a, b, v);
}

/// Where a set is found to be a subset of another, each of its members
/// that is of the ecosystem of the other lies in the other.
pub proof fn law_subset_members_lie_in_superset(a: SetModel, b: SetModel, v: VersionModel)
    requires
        ordered(a),
        ordered(b),
        set_equal(a, set_intersection(a, b)),
        set_contains(a, v),
        belongs(b, v),
    ensures
        set_contains(b, v),
{
    law_intersection_members(a, b, v);
    let c = set_intersection(a, b);
    if belongs(c, v) {
        law_equal_sets_have_equal_members(a, c, v);
    }
}

/// The set of one version is written in order.
pub proof fn law_singleton_is_in_order(v: VersionModel)
    requires
        ordered(set_singleton(v)),
    ensures
        set_valid(set_singleton(v)),
{
    match v {
        VersionModel::Opam(t) => {
            lemma_simple_ranges_valid::<OpamVersion>(t);
        },
        VersionModel::Debian(t) => {
            lemma_simple_ranges_valid::<DebianVersion>(t);
        },
        VersionModel::Alpine(t) => {
            lemma_simple_ranges_valid::<AlpineVersion>(t);
        },
        VersionModel::Cargo(t) => {
            lemma_simple_ranges_valid::<CargoVersion>(t);
        },
        VersionModel::Platform(t) => {
            lemma_simple_ranges_valid::<PlatformVersion>(t);
        },
        VersionModel::Singular => {},
    }
}

/// The complement of a set written in order is written in order.
pub proof fn law_complement_keeps_order(a: SetModel)
    requires
        ordered(a),
        set_valid(a),
    ensures
        set_valid(set_complement(a)),
{
    match a {
        SetModel::Opam(x) => {
            lemma_complement_valid::<OpamVersion>(x);
        },
        SetModel::Debian(x) => {
            lemma_complement_valid::<DebianVersion>(x);
        },
        SetModel::Alpine(x) => {
            lemma_complement_valid::<AlpineVersion>(x);
        },
        SetModel::Cargo(x) => {
            lemma_complement_valid::<CargoVersion>(x);
        },
        SetModel::Platform(x) => {
            lemma_complement_valid::<PlatformVersion>(x);
        },
        _ => {},
    }
}

/// The intersection of two sets written in order is written in order.
pub proof fn law_intersection_keeps_order(a: SetModel, b: SetModel)
    requires
        ordered(set_intersection(a, b)),
        set_valid(a),
        set_valid(b),
    ensures
        set_valid(set_intersection(a, b)),
{
    match (a, b) {
        (SetModel::Opam(x), SetModel::Opam(y)) => {
            lemma_intersection_valid::<OpamVersion>(x, y);
        },
        (SetModel::Debian(x), SetModel::Debian(y)) => {
            lemma_intersection_valid::<DebianVersion>(x, y);
        },
        (SetModel::Alpine(x), SetModel::Alpine(y)) => {
            lemma_intersection_valid::<AlpineVersion>(x, y);
        },
        (SetModel::Cargo(x), SetModel::Cargo(y)) => {
            lemma_intersection_valid::<CargoVersion>(x, y);
        },
        (SetModel::Platform(x), SetModel::Platform(y)) => {
            lemma_intersection_valid::<PlatformVersion>(x, y);
        },
        _ => {},
    }
}

/// The union of two sets of one ecosystem that are written in order is
/// written in order.
pub proof fn law_union_keeps_order(a: SetModel, b: SetModel)
    requires
        ordered(set_union(a, b)),
        set_valid(a),
        set_valid(b),
    ensures
        set_valid(set_union(a, b)),
{
    match (a, b) {
        (SetModel::Opam(x), SetModel::Opam(y)) => {
            lemma_union_valid::<OpamVersion>(x, y);
        },
        (SetModel::Debian(x), SetModel::Debian(y)) => {
            lemma_union_valid::<DebianVersion>(x, y);
        },
        (SetModel::Alpine(x), SetModel::Alpine(y)) => {
            lemma_union_valid::<AlpineVersion>(x, y);
        },
        (SetModel::Cargo(x), SetModel::Cargo(y)) => {
            lemma_union_valid::<CargoVersion>(x, y);
        },
        (SetModel::Platform(x), SetModel::Platform(y)) => {
            lemma_union_valid::<PlatformVersion>(x, y);
        },
        _ => {},
    }
}

/// Intersecting a set with itself leaves its members unchanged.
pub proof fn law_intersection_idempotent(a: SetModel, v: VersionModel)
    requires
        ordered(a),
    ensures
        set_contains(set_intersection(a, a), v) == set_contains(a, v),
{
    law_intersection_members(a, a, v);
}

/// A set and its complement have no member in common, and every version of
/// the ecosystem of the set lies in one of the two, as it lies in the full
/// set.
pub proof fn law_excluded_middle(a: SetModel, v: VersionModel)
    requires
        ordered(a),
        belongs(a, v),
    ensures
        !set_contains(set_intersection(a, set_complement(a)), v),
        set_contains(set_union(a, set_complement(a)), v),
        set_contains(SetModel::Full, v),
        !set_contains(SetModel::Empty, v),
{
    law_complement_members(a, v);
    law_intersection_members(a, set_complement(a), v);
    law_union_members(a, set_complement(a), v);
}

/// Intersection distributes over union: `(a ∩ b) ∪ (a ∩ c)` and
/// `a ∩ (b ∪ c)` have the same members.
pub proof fn law_distributive(a: SetModel, b: SetModel, c: SetModel, v: VersionModel)
    requires
        ordered(a),
        ordered(b),
        ordered(c),
        same_ecosystem(b, c),
    ensures
        same_ecosystem(set_intersection(a, b), set_intersection(a, c)),
        set_contains(set_union(set_intersection(a, b), set_intersection(a, c)), v)
            == set_contains(set_intersection(a, set_union(b, c)), v),
{
    law_intersection_members(a, b, v);
    law_intersection_members(a, c, v);
    law_union_members(set_intersection(a, b), set_intersection(a, c), v);
    law_union_members(b, c, v);
    law_intersection_members(a, set_union(b, c), v);
}

} // verus!
