//! The names under which the Cargo ecosystem presents crates to the solver.

use crate::cargo::version::SemverCompatibility;
use crate::text::{chars_of, compare_lex, decimal_string, decimal_text, lex_order, Sign};
use vstd::prelude::*;
use vstd::string::StringExecFns;

verus! {

/// The name of a feature: of the crate itself, or, written `dep:name`, the
/// optional dependency `name`.
#[derive(Clone, Copy, Debug, PartialEq, Eq, Hash)]
pub enum FeatureNamespace<'c> {
    Dep(&'c str),
    Feat(&'c str),
}

/// What a [`FeatureNamespace`] stands for.
pub enum FeatureModel {
    Dep(Seq<char>),
    Feat(Seq<char>),
}

impl<'c> View for FeatureNamespace<'c> {
    type V = FeatureModel;

    open spec fn view(&self) -> FeatureModel {
        match self {
            FeatureNamespace::Dep(n) => FeatureModel::Dep(n@),
            FeatureNamespace::Feat(n) => FeatureModel::Feat(n@),
        }
    }
}

/// The text starts with `dep:`.
pub open spec fn has_dep_prefix(s: Seq<char>) -> bool {
    s.len() >= 4 && s[0] == 'd' && s[1] == 'e' && s[2] == 'p' && s[3] == ':'
}

/// The feature that a text names.
pub open spec fn feature_of(s: Seq<char>) -> FeatureModel {
    if has_dep_prefix(s) {
        FeatureModel::Dep(s.subrange(4, s.len() as int))
    } else {
        FeatureModel::Feat(s)
    }
}

impl<'c> FeatureNamespace<'c> {
    /// Reads the name of a feature.
    pub fn new(feat: &'c str) -> (r: Self)
        ensures
            r@ == feature_of(feat@),
    {
        let n = feat.unicode_len();
        if n >= 4 && feat.get_char(0) == 'd' && feat.get_char(1) == 'e' && feat.get_char(2) == 'p'
            && feat.get_char(3) == ':' {
            FeatureNamespace::Dep(feat.substring_char(4, n))
        } else {
            FeatureNamespace::Feat(feat)
        }
    }

    /// The name without its `dep:`.
    pub fn as_str(&self) -> (r: &'c str)
        ensures
            r@ == match self@ {
                FeatureModel::Dep(n) => n,
                FeatureModel::Feat(n) => n,
            },
    {
        match self {
            FeatureNamespace::Dep(n) => n,
            FeatureNamespace::Feat(n) => n,
        }
    }

    /// The name as it is written: with `dep:` for an optional dependency.
    pub open spec fn text(self) -> Seq<char> {
        match self@ {
            FeatureModel::Dep(n) => "dep:"@ + n,
            FeatureModel::Feat(n) => n,
        }
    }

    /// The name as it is written.
    pub fn to_string(&self) -> (s: String)
        ensures
            s@ == self.text(),
    {
        match self {
            FeatureNamespace::Dep(n) => {
                let mut s = "dep:".to_string();
                s.append(*n);
                s
            },
            FeatureNamespace::Feat(n) => {
                let name: &str = n;
                name.to_string()
            },
        }
    }
}

/// Writing a feature and reading it again gives the feature back, unless the
/// feature is a plain one whose name itself starts with `dep:`.
pub proof fn law_feature_round_trip(f: FeatureNamespace)
    requires
        f@ matches FeatureModel::Feat(n) ==> !has_dep_prefix(n),
    ensures
        feature_of(f.text()) == f@,
{
    reveal_strlit("dep:");
    match f@ {
        FeatureModel::Dep(n) => {
            assert(("dep:"@ + n).subrange(4, ("dep:"@ + n).len() as int) =~= n);
        },
        FeatureModel::Feat(n) => {},
    }
}

/// A package of the Cargo world.
///
/// A crate is presented once for each compatibility class of its versions
/// (`Bucket`), and again for each feature that may be switched on. A `Wide`
/// package stands for a requirement that spans several classes, seen from
/// the crate that states it. `Links` stands for a native library that only
/// one crate may link.
#[derive(Clone, Debug, PartialEq, Eq, Hash)]
pub enum Names<'c> {
    /// A crate in one compatibility class; the flag asks for all features.
    Bucket(String, SemverCompatibility, bool),
    /// A feature of a crate in one compatibility class.
    BucketFeatures(String, SemverCompatibility, FeatureNamespace<'c>),
    /// The default features of a crate in one compatibility class.
    BucketDefaultFeatures(String, SemverCompatibility),
    /// A crate under a requirement, stated by a parent in its class.
    Wide(String, String, String, SemverCompatibility),
    /// A feature of a crate under such a requirement.
    WideFeatures(String, String, String, SemverCompatibility, FeatureNamespace<'c>),
    /// The default features of a crate under such a requirement.
    WideDefaultFeatures(String, String, String, SemverCompatibility),
    /// A native library.
    Links(String),
}

/// What a [`Names`] stands for.
pub enum NamesModel {
    Bucket(Seq<char>, SemverCompatibility, bool),
    BucketFeatures(Seq<char>, SemverCompatibility, FeatureModel),
    BucketDefaultFeatures(Seq<char>, SemverCompatibility),
    Wide(Seq<char>, Seq<char>, Seq<char>, SemverCompatibility),
    WideFeatures(Seq<char>, Seq<char>, Seq<char>, SemverCompatibility, FeatureModel),
    WideDefaultFeatures(Seq<char>, Seq<char>, Seq<char>, SemverCompatibility),
    Links(Seq<char>),
}

impl<'c> View for Names<'c> {
    type V = NamesModel;

    open spec fn view(&self) -> NamesModel {
        match self {
            Names::Bucket(c, m, a) => NamesModel::Bucket(c@, *m, *a),
            Names::BucketFeatures(c, m, f) => NamesModel::BucketFeatures(c@, *m, f@),
            Names::BucketDefaultFeatures(c, m) => NamesModel::BucketDefaultFeatures(c@, *m),
            Names::Wide(c, r, p, m) => NamesModel::Wide(c@, r@, p@, *m),
            Names::WideFeatures(c, r, p, m, f) => NamesModel::WideFeatures(c@, r@, p@, *m, f@),
            Names::WideDefaultFeatures(c, r, p, m) => NamesModel::WideDefaultFeatures(
                c@,
                r@,
                p@,
                *m,
            ),
            Names::Links(c) => NamesModel::Links(c@),
        }
    }
}

/// A compatibility class as it is written: `3.x.y`, `0.3.x` or `0.0.3`.
pub open spec fn compatibility_text(m: SemverCompatibility) -> Seq<char> {
    match m {
        SemverCompatibility::Major(i) => decimal_text(i as nat) + ".x.y"@,
        SemverCompatibility::Minor(i) => "0."@ + decimal_text(i as nat) + ".x"@,
        SemverCompatibility::Patch(i) => "0.0."@ + decimal_text(i as nat),
    }
}

/// A feature as it is written.
pub open spec fn feature_text(f: FeatureModel) -> Seq<char> {
    match f {
        FeatureModel::Dep(n) => "dep:"@ + n,
        FeatureModel::Feat(n) => n,
    }
}

/// The start of what a crate in a class is written as.
pub open spec fn bucket_text(name: Seq<char>, m: SemverCompatibility) -> Seq<char> {
    "Bucket:"@ + name + "@"@ + compatibility_text(m)
}

/// The start of what a crate under a requirement is written as.
pub open spec fn wide_text(
    name: Seq<char>,
    req: Seq<char>,
    parent: Seq<char>,
    m: SemverCompatibility,
) -> Seq<char> {
    "Range:"@ + name + "(From:"@ + parent + "@"@ + compatibility_text(m) + "):"@ + req
}

/// What a package is written as.
pub open spec fn names_text(n: NamesModel) -> Seq<char> {
    match n {
        NamesModel::Bucket(c, m, all) => if all {
            bucket_text(c, m) + "/All-FEATURES"@
        } else {
            bucket_text(c, m)
        },
        NamesModel::BucketFeatures(c, m, f) => bucket_text(c, m) + "/"@ + feature_text(f),
        NamesModel::BucketDefaultFeatures(c, m) => bucket_text(c, m) + "/default=true"@,
        NamesModel::Wide(c, r, p, m) => wide_text(c, r, p, m),
        NamesModel::WideFeatures(c, r, p, m, f) => wide_text(c, r, p, m) + "/"@ + feature_text(f),
        NamesModel::WideDefaultFeatures(c, r, p, m) => wide_text(c, r, p, m) + "/default=true"@,
        NamesModel::Links(c) => "Links:"@ + c,
    }
}

/// The name of the crate or of the native library.
pub open spec fn crate_of(n: NamesModel) -> Seq<char> {
    match n {
        NamesModel::Bucket(c, _, _) => c,
        NamesModel::BucketFeatures(c, _, _) => c,
        NamesModel::BucketDefaultFeatures(c, _) => c,
        NamesModel::Wide(c, _, _, _) => c,
        NamesModel::WideFeatures(c, _, _, _, _) => c,
        NamesModel::WideDefaultFeatures(c, _, _, _) => c,
        NamesModel::Links(c) => c,
    }
}

/// The same package with its default features.
pub open spec fn default_features_of(n: NamesModel) -> NamesModel {
    match n {
        NamesModel::Bucket(a, b, _) => NamesModel::BucketDefaultFeatures(a, b),
        NamesModel::BucketFeatures(a, b, _) => NamesModel::BucketDefaultFeatures(a, b),
        NamesModel::Wide(a, b, c, d) => NamesModel::WideDefaultFeatures(a, b, c, d),
        NamesModel::WideFeatures(a, b, c, d, _) => NamesModel::WideDefaultFeatures(a, b, c, d),
        _ => n,
    }
}

/// The same package with the feature `f`.
pub open spec fn feature_of_package(n: NamesModel, f: FeatureModel) -> NamesModel {
    match n {
        NamesModel::Bucket(a, b, _) => NamesModel::BucketFeatures(a, b, f),
        NamesModel::BucketFeatures(a, b, _) => NamesModel::BucketFeatures(a, b, f),
        NamesModel::BucketDefaultFeatures(a, b) => NamesModel::BucketFeatures(a, b, f),
        NamesModel::Wide(a, b, c, d) => NamesModel::WideFeatures(a, b, c, d, f),
        NamesModel::WideFeatures(a, b, c, d, _) => NamesModel::WideFeatures(a, b, c, d, f),
        NamesModel::WideDefaultFeatures(a, b, c, d) => NamesModel::WideFeatures(a, b, c, d, f),
        NamesModel::Links(_) => n,
    }
}

/// How two packages compare: by the name of the crate, then by what they
/// are written as.
pub open spec fn names_order(a: NamesModel, b: NamesModel) -> Sign {
    lex_order(crate_of(a), crate_of(b)).or_next(lex_order(names_text(a), names_text(b)))
}

/// The crate `crate_` in the class `compat`.
pub fn new_bucket<'c>(crate_: String, compat: SemverCompatibility, all_features: bool) -> (r:
    Names<'c>)
    ensures
        r@ == NamesModel::Bucket(crate_@, compat, all_features),
{
    Names::Bucket(crate_, compat, all_features)
}

/// The crate `crate_` under the requirement `req` of the crate `from` in the
/// class `compat`.
pub fn new_wide<'c>(crate_: String, req: String, from: String, compat: SemverCompatibility) -> (r:
    Names<'c>)
    ensures
        r@ == NamesModel::Wide(crate_@, req@, from@, compat),
{
    Names::Wide(crate_, req, from, compat)
}

/// The native library `crate_`.
pub fn new_links<'c>(crate_: String) -> (r: Names<'c>)
    ensures
        r@ == NamesModel::Links(crate_@),
{
    Names::Links(crate_)
}

/// Writes a compatibility class.
fn compatibility_string(m: &SemverCompatibility) -> (s: String)
    ensures
        s@ == compatibility_text(*m),
{
    match m {
        SemverCompatibility::Major(i) => {
            let mut s = decimal_string(*i);
            s.append(".x.y");
            s
        },
        SemverCompatibility::Minor(i) => {
            let mut s = "0.".to_string();
            s.append(decimal_string(*i).as_str());
            s.append(".x");
            s
        },
        SemverCompatibility::Patch(i) => {
            let mut s = "0.0.".to_string();
            s.append(decimal_string(*i).as_str());
            s
        },
    }
}

/// Writes the start of a crate in a class.
fn bucket_string(name: &String, m: &SemverCompatibility) -> (s: String)
    ensures
        s@ == bucket_text(name@, *m),
{
    let mut s = "Bucket:".to_string();
    s.append(name.as_str());
    s.append("@");
    s.append(compatibility_string(m).as_str());
    s
}

/// Writes the start of a crate under a requirement.
fn wide_string(name: &String, req: &String, parent: &String, m: &SemverCompatibility) -> (s:
    String)
    ensures
        s@ == wide_text(name@, req@, parent@, *m),
{
    let mut s = "Range:".to_string();
    s.append(name.as_str());
    s.append("(From:");
    s.append(parent.as_str());
    s.append("@");
    s.append(compatibility_string(m).as_str());
    s.append("):");
    s.append(req.as_str());
    s
}

impl<'c> Names<'c> {
    /// Whether the package is a crate in a class, and no feature of one.
    pub fn is_real(&self) -> (r: bool)
        ensures
            r == (self@ is Bucket),
    {
        match self {
            Names::Bucket(_, _, _) => true,
            _ => false,
        }
    }

    /// The name of the crate or of the native library.
    pub fn crate_(&self) -> (r: String)
        ensures
            r@ == crate_of(self@),
    {
        match self {
            Names::Bucket(c, _, _)
            | Names::BucketFeatures(c, _, _)
            | Names::BucketDefaultFeatures(c, _)
            | Names::Wide(c, _, _, _)
            | Names::WideFeatures(c, _, _, _, _)
            | Names::WideDefaultFeatures(c, _, _, _) => c.clone(),
            Names::Links(c) => c.clone(),
        }
    }

    /// The same package with its default features. A native library has no
    /// features and stays as it is.
    pub fn with_default_features(&self) -> (r: Self)
        ensures
            r@ == default_features_of(self@),
    {
        match self {
            Names::Bucket(a, b, _) | Names::BucketFeatures(a, b, _) => {
                Names::BucketDefaultFeatures(a.clone(), *b)
            },
            Names::Wide(a, b, c, d) | Names::WideFeatures(a, b, c, d, _) => {
                Names::WideDefaultFeatures(a.clone(), b.clone(), c.clone(), *d)
            },
            Names::BucketDefaultFeatures(a, b) => Names::BucketDefaultFeatures(a.clone(), *b),
            Names::WideDefaultFeatures(a, b, c, d) => Names::WideDefaultFeatures(
                a.clone(),
                b.clone(),
                c.clone(),
                *d,
            ),
            Names::Links(c) => Names::Links(c.clone()),
        }
    }

    /// The same package with the feature `feat`. A native library has no
    /// features and stays as it is.
    pub fn with_features(&self, feat: FeatureNamespace<'c>) -> (r: Self)
        ensures
            r@ == feature_of_package(self@, feat@),
    {
        match self {
            Names::Bucket(a, b, _)
            | Names::BucketFeatures(a, b, _)
            | Names::BucketDefaultFeatures(a, b) => Names::BucketFeatures(a.clone(), *b, feat),
            Names::Wide(a, b, c, d)
            | Names::WideFeatures(a, b, c, d, _)
            | Names::WideDefaultFeatures(a, b, c, d) => Names::WideFeatures(
                a.clone(),
                b.clone(),
                c.clone(),
                *d,
                feat,
            ),
            Names::Links(c) => Names::Links(c.clone()),
        }
    }

    /// What the package is written as.
    pub fn to_string(&self) -> (s: String)
        ensures
            s@ == names_text(self@),
    {
        match self {
            Names::Bucket(n, m, a) => {
                let mut s = bucket_string(n, m);
                if *a {
                    s.append("/All-FEATURES");
                }
                s
            },
            Names::BucketFeatures(n, m, feat) => {
                let mut s = bucket_string(n, m);
                s.append("/");
                s.append(feat.to_string().as_str());
                s
            },
            Names::BucketDefaultFeatures(n, m) => {
                let mut s = bucket_string(n, m);
                s.append("/default=true");
                s
            },
            Names::Wide(c, range, parent, parent_com) => wide_string(c, range, parent, parent_com),
            Names::WideFeatures(c, range, parent, parent_com, feat) => {
                let mut s = wide_string(c, range, parent, parent_com);
                s.append("/");
                s.append(feat.to_string().as_str());
                s
            },
            Names::WideDefaultFeatures(c, range, parent, parent_com) => {
                let mut s = wide_string(c, range, parent, parent_com);
                s.append("/default=true");
                s
            },
            Names::Links(name) => {
                let mut s = "Links:".to_string();
                s.append(name.as_str());
                s
            },
        }
    }

    /// The name of the crate or of the native library.
    fn key(&self) -> (r: &String)
        ensures
            r@ == crate_of(self@),
    {
        match self {
            Names::Bucket(c, _, _)
            | Names::BucketFeatures(c, _, _)
            | Names::BucketDefaultFeatures(c, _)
            | Names::Wide(c, _, _, _)
            | Names::WideFeatures(c, _, _, _, _)
            | Names::WideDefaultFeatures(c, _, _, _)
            | Names::Links(c) => c,
        }
    }

    /// Compares two packages: by the name of the crate, then by what they
    /// are written as.
    pub fn compare(&self, other: &Names<'c>) -> (r: Sign)
        ensures
            r == names_order(self@, other@),
    {
        let by_crate = compare_lex(
            &chars_of(self.key().as_str()),
            &chars_of(other.key().as_str()),
        );
        if by_crate != Sign::Equal {
            by_crate
        } else {
            compare_lex(
                &chars_of(self.to_string().as_str()),
                &chars_of(other.to_string().as_str()),
            )
        }
    }

    /// Whether two packages are the same package.
    pub fn same(&self, other: &Names<'c>) -> (r: bool)
        ensures
            r == (self@ == other@),
    {
        match (self, other) {
            (Names::Bucket(a, b, c), Names::Bucket(x, y, z)) => *a == *x && *b == *y && *c == *z,
            (Names::BucketFeatures(a, b, c), Names::BucketFeatures(x, y, z)) => *a == *x && *b
                == *y && c.same(z),
            (Names::BucketDefaultFeatures(a, b), Names::BucketDefaultFeatures(x, y)) => *a == *x
                && *b == *y,
            (Names::Wide(a, b, c, d), Names::Wide(w, x, y, z)) => *a == *w && *b == *x && *c
                == *y && *d == *z,
            (Names::WideFeatures(a, b, c, d, e), Names::WideFeatures(v, w, x, y, z)) => *a == *v
                && *b == *w && *c == *x && *d == *y && e.same(z),
            (Names::WideDefaultFeatures(a, b, c, d), Names::WideDefaultFeatures(w, x, y, z)) => {
                *a == *w && *b == *x && *c == *y && *d == *z
            },
            (Names::Links(a), Names::Links(x)) => *a == *x,
            _ => false,
        }
    }

    /// A copy of the package.
    pub fn duplicate(&self) -> (r: Names<'c>)
        ensures
            r@ == self@,
    {
        match self {
            Names::Bucket(a, b, c) => Names::Bucket(a.clone(), *b, *c),
            Names::BucketFeatures(a, b, c) => Names::BucketFeatures(a.clone(), *b, *c),
            Names::BucketDefaultFeatures(a, b) => Names::BucketDefaultFeatures(a.clone(), *b),
            Names::Wide(a, b, c, d) => Names::Wide(a.clone(), b.clone(), c.clone(), *d),
            Names::WideFeatures(a, b, c, d, e) => Names::WideFeatures(
                a.clone(),
                b.clone(),
                c.clone(),
                *d,
                *e,
            ),
            Names::WideDefaultFeatures(a, b, c, d) => Names::WideDefaultFeatures(
                a.clone(),
                b.clone(),
                c.clone(),
                *d,
            ),
            Names::Links(a) => Names::Links(a.clone()),
        }
    }
}

impl<'c> FeatureNamespace<'c> {
    /// Whether two features are the same feature.
    pub fn same(&self, other: &FeatureNamespace<'c>) -> (r: bool)
        ensures
            r == (self@ == other@),
    {
        match (self, other) {
            (FeatureNamespace::Dep(a), FeatureNamespace::Dep(b)) => crate::text::same_text(a, b),
            (FeatureNamespace::Feat(a), FeatureNamespace::Feat(b)) => crate::text::same_text(
                a,
                b,
            ),
            _ => false,
        }
    }
}

} // verus!
