//! Cargo versions: texts that the SemVer grammar accepts, in the order of
//! SemVer versions.

use crate::error::SolverError;
use crate::order::VersionOrder;
use crate::text::{chars_of, compare_lex, lex_order, Sign};
use vstd::prelude::*;

verus! {

/// The major, minor and patch numbers of the version that `text` spells, as
/// `semver::Version::parse` reads them; `None` where it refuses the text.
pub uninterp spec fn semver_numbers(text: Seq<char>) -> Option<(u64, u64, u64)>;

/// How `semver::Version` orders the versions that two texts spell.
pub uninterp spec fn semver_order(a: Seq<char>, b: Seq<char>) -> Sign;

/// Calls `semver::Version::parse` and hands out the three numbers of the
/// version. The parse depends on the text alone; nothing is claimed about
/// which texts it accepts.
#[verifier::external_body]
pub(crate) fn semver_parse(text: &str) -> (r: Option<(u64, u64, u64)>)
    ensures
        r == semver_numbers(text@),
{
    match semver::Version::parse(text) {
        Ok(v) => Some((v.major, v.minor, v.patch)),
        Err(_) => None,
    }
}

/// Parses two texts with `semver::Version::parse` and compares the versions
/// with `Ord::cmp` of `semver::Version`. There is an answer exactly when
/// both texts parse, and it depends on the two texts alone.
#[verifier::external_body]
pub(crate) fn semver_compare(a: &str, b: &str) -> (r: Option<Sign>)
    ensures
        r is Some <==> (semver_numbers(a@) is Some && semver_numbers(b@) is Some),
        r is Some ==> r == Some(semver_order(a@, b@)),
{
    match (semver::Version::parse(a), semver::Version::parse(b)) {
        (Ok(x), Ok(y)) => Some(
            match x.cmp(&y) {
                core::cmp::Ordering::Less => Sign::Less,
                core::cmp::Ordering::Equal => Sign::Equal,
                core::cmp::Ordering::Greater => Sign::Greater,
            },
        ),
        _ => None,
    }
}

/// The class of versions that are compatible with each other under SemVer:
/// those that agree in their first number that is not zero.
#[derive(Clone, Copy, Debug, PartialEq, Eq, Hash, Structural)]
pub enum SemverCompatibility {
    Major(u64),
    Minor(u64),
    Patch(u64),
}

/// The compatibility class of the version `major.minor.patch`.
pub open spec fn bucket_of(major: u64, minor: u64, patch: u64) -> SemverCompatibility {
    if major != 0 {
        SemverCompatibility::Major(major)
    } else if minor != 0 {
        SemverCompatibility::Minor(minor)
    } else {
        SemverCompatibility::Patch(patch)
    }
}

/// A Cargo version: a text that the SemVer grammar accepts.
#[derive(Debug, PartialEq, Eq, Hash)]
pub struct CargoVersion {
    text: String,
}

impl View for CargoVersion {
    type V = Seq<char>;

    closed spec fn view(&self) -> Seq<char> {
        self.text@
    }
}

/// The order of Cargo versions: the order of SemVer versions. Texts that are
/// no versions are ordered as texts.
pub open spec fn cargo_order(a: Seq<char>, b: Seq<char>) -> Sign {
    if semver_numbers(a) is Some && semver_numbers(b) is Some {
        semver_order(a, b)
    } else {
        lex_order(a, b)
    }
}

impl CargoVersion {
    #[verifier::type_invariant]
    spec fn valid(&self) -> bool {
        semver_numbers(self.text@) is Some
    }

    /// Reads a version. A text that the SemVer grammar refuses is no
    /// version.
    pub fn parse(text: &str) -> (r: Result<CargoVersion, SolverError>)
        ensures
            r is Ok <==> semver_numbers(text@) is Some,
            r matches Ok(v) ==> v@ == text@,
            r matches Err(e) ==> e == SolverError::InvalidVersion,
    {
        match semver_parse(text) {
            Some(_) => Ok(CargoVersion { text: text.to_string() }),
            None => Err(SolverError::InvalidVersion),
        }
    }

    /// The text of the version.
    pub fn to_string(&self) -> (s: String)
        ensures
            s@ == self@,
    {
        self.text.clone()
    }

    /// The compatibility class of the version.
    pub fn compatibility(&self) -> (r: SemverCompatibility)
        ensures
            semver_numbers(self@) matches Some(n) && r == bucket_of(n.0, n.1, n.2),
    {
        proof {
            use_type_invariant(self);
        }
        match semver_parse(self.text.as_str()) {
            Some((major, minor, patch)) => {
                if major != 0 {
                    SemverCompatibility::Major(major)
                } else if minor != 0 {
                    SemverCompatibility::Minor(minor)
                } else {
                    SemverCompatibility::Patch(patch)
                }
            },
            None => SemverCompatibility::Patch(0),
        }
    }

    /// Compares two versions in the order of SemVer versions.
    pub fn compare(&self, other: &CargoVersion) -> (r: Sign)
        ensures
            r == cargo_order(self@, other@),
            r == semver_order(self@, other@),
    {
        proof {
            use_type_invariant(self);
            use_type_invariant(other);
        }
        match semver_compare(self.text.as_str(), other.text.as_str()) {
            Some(o) => o,
            None => compare_lex(&chars_of(self.text.as_str()), &chars_of(other.text.as_str())),
        }
    }
}

impl VersionOrder for CargoVersion {
    open spec fn text(&self) -> Seq<char> {
        self@
    }

    open spec fn order(a: Seq<char>, b: Seq<char>) -> Sign {
        cargo_order(a, b)
    }

    fn compare(&self, other: &Self) -> (r: Sign) {
        CargoVersion::compare(self, other)
    }

    fn duplicate(&self) -> (r: Self) {
        proof {
            use_type_invariant(self);
        }
        CargoVersion { text: self.text.clone() }
    }

    fn same(&self, other: &Self) -> (r: bool) {
        self.text == other.text
    }

    fn show(&self) -> (s: String) {
        self.text.clone()
    }
}

} // verus!
