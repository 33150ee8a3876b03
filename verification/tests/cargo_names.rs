use babel_solver::cargo::index::CargoIndex;
use babel_solver::cargo::names::{new_bucket, new_links, new_wide, FeatureNamespace, Names};
use babel_solver::cargo::version::{CargoVersion, SemverCompatibility};
use babel_solver::constraints::Dependencies;
use babel_solver::error::SolverError;
use babel_solver::order::VersionOrder;
use babel_solver::range::Range;
use babel_solver::text::Sign;

fn ver(s: &str) -> CargoVersion {
    CargoVersion::parse(s).unwrap()
}

#[test]
fn cargo_versions_are_read_by_the_semver_grammar() {
    for text in ["1.0.219", "0.1.0", "1.0.0-alpha.1", "1.20.0+c144a98", "0.0.0"].iter() {
        let v = CargoVersion::parse(text).unwrap();
        assert_eq!(v.to_string(), *text);
        assert_eq!(CargoVersion::parse(&v.to_string()), Ok(v));
    }
    for text in ["", "1.0", "1.0.01", "1.0.unknown", "1.0.0-", "1.0.0+", "v1.0.0", "1", " 1.0.0"]
        .iter()
    {
        assert_eq!(CargoVersion::parse(text), Err(SolverError::InvalidVersion), "{:?}", text);
    }
    assert_eq!(
        CargoVersion::parse("23456789999999999999.0.0"),
        Err(SolverError::InvalidVersion)
    );
}

#[test]
fn cargo_versions_compare_as_semver() {
    let ordered = [
        "0.0.1", "0.1.0", "1.0.0-alpha", "1.0.0-alpha.1", "1.0.0-beta", "1.0.0-rc.1", "1.0.0",
        "1.0.219", "1.20.0", "1.20.0+bc17664", "2.0.0", "10.0.0",
    ];
    for (i, a) in ordered.iter().enumerate() {
        for (j, b) in ordered.iter().enumerate() {
            let expected = match i.cmp(&j) {
                std::cmp::Ordering::Less => Sign::Less,
                std::cmp::Ordering::Equal => Sign::Equal,
                std::cmp::Ordering::Greater => Sign::Greater,
            };
            assert_eq!(ver(a).compare(&ver(b)), expected, "{} against {}", a, b);
        }
    }
    assert!(VersionOrder::same(&ver("1.0.0"), &ver("1.0.0")));
    assert!(!VersionOrder::same(&ver("1.0.0"), &ver("1.0.1")));
}

#[test]
fn cargo_compatibility_is_the_first_number_that_is_not_zero() {
    assert_eq!(ver("1.0.219").compatibility(), SemverCompatibility::Major(1));
    assert_eq!(ver("12.3.4").compatibility(), SemverCompatibility::Major(12));
    assert_eq!(ver("0.3.4").compatibility(), SemverCompatibility::Minor(3));
    assert_eq!(ver("0.0.4").compatibility(), SemverCompatibility::Patch(4));
    assert_eq!(ver("0.0.0").compatibility(), SemverCompatibility::Patch(0));
    assert_eq!(ver("0.3.4-alpha").compatibility(), SemverCompatibility::Minor(3));
}

#[test]
fn cargo_ranges_follow_semver() {
    let r = Range::higher_than(ver("1.0.0")).intersection(&Range::strictly_lower_than(ver("2.0.0")));
    assert!(r.contains(&ver("1.0.0")));
    assert!(r.contains(&ver("1.0.219")));
    assert!(r.contains(&ver("1.10.0")));
    assert!(!r.contains(&ver("2.0.0")));
    assert!(!r.contains(&ver("1.0.0-rc.1")));
    assert!(!r.contains(&ver("0.9.9")));
    assert_eq!(r.to_string(), ">=1.0.0, <2.0.0");
}

#[test]
fn features_are_read_and_written() {
    assert_eq!(FeatureNamespace::new("dep:serde"), FeatureNamespace::Dep("serde"));
    assert_eq!(FeatureNamespace::new("derive"), FeatureNamespace::Feat("derive"));
    assert_eq!(FeatureNamespace::new("dep:"), FeatureNamespace::Dep(""));
    assert_eq!(FeatureNamespace::new("dep"), FeatureNamespace::Feat("dep"));
    assert_eq!(FeatureNamespace::new(""), FeatureNamespace::Feat(""));
    assert_eq!(FeatureNamespace::new("dep:é"), FeatureNamespace::Dep("é"));
    assert_eq!(FeatureNamespace::new("dep:serde").as_str(), "serde");
    assert_eq!(FeatureNamespace::new("derive").as_str(), "derive");
    assert_eq!(FeatureNamespace::new("dep:serde").to_string(), "dep:serde");
    assert_eq!(FeatureNamespace::new("derive").to_string(), "derive");
    for text in ["dep:serde", "derive", "", "dep:"].iter() {
        let f = FeatureNamespace::new(text);
        assert_eq!(FeatureNamespace::new(&f.to_string()), f);
    }
    assert!(FeatureNamespace::Dep("a").same(&FeatureNamespace::Dep("a")));
    assert!(!FeatureNamespace::Dep("a").same(&FeatureNamespace::Feat("a")));
}

fn s(text: &str) -> String {
    text.to_string()
}

#[test]
fn names_are_written() {
    let major = SemverCompatibility::Major(1);
    let minor = SemverCompatibility::Minor(12);
    let patch = SemverCompatibility::Patch(3);
    assert_eq!(new_bucket(s("serde"), major, false).to_string(), "Bucket:serde@1.x.y");
    assert_eq!(
        new_bucket(s("serde"), minor, true).to_string(),
        "Bucket:serde@0.12.x/All-FEATURES"
    );
    assert_eq!(
        Names::BucketFeatures(s("serde"), patch, FeatureNamespace::new("derive")).to_string(),
        "Bucket:serde@0.0.3/derive"
    );
    assert_eq!(
        Names::BucketFeatures(s("serde"), major, FeatureNamespace::new("dep:x")).to_string(),
        "Bucket:serde@1.x.y/dep:x"
    );
    assert_eq!(
        Names::BucketDefaultFeatures(s("serde"), major).to_string(),
        "Bucket:serde@1.x.y/default=true"
    );
    assert_eq!(
        new_wide(s("serde"), s(">=1, <3"), s("app"), minor).to_string(),
        "Range:serde(From:app@0.12.x):>=1, <3"
    );
    assert_eq!(
        Names::WideFeatures(s("serde"), s("*"), s("app"), major, FeatureNamespace::new("std"))
            .to_string(),
        "Range:serde(From:app@1.x.y):*/std"
    );
    assert_eq!(
        Names::WideDefaultFeatures(s("serde"), s("*"), s("app"), major).to_string(),
        "Range:serde(From:app@1.x.y):*/default=true"
    );
    assert_eq!(new_links(s("z")).to_string(), "Links:z");
}

#[test]
fn names_change_their_features() {
    let major = SemverCompatibility::Major(1);
    let bucket = new_bucket(s("serde"), major, true);
    assert!(bucket.is_real());
    assert_eq!(bucket.crate_(), "serde");
    assert_eq!(bucket.with_default_features(), Names::BucketDefaultFeatures(s("serde"), major));
    let feat = FeatureNamespace::new("derive");
    let with = bucket.with_features(feat);
    assert_eq!(with, Names::BucketFeatures(s("serde"), major, feat));
    assert!(!with.is_real());
    assert_eq!(with.with_default_features(), Names::BucketDefaultFeatures(s("serde"), major));
    assert_eq!(
        Names::BucketDefaultFeatures(s("serde"), major).with_features(feat),
        Names::BucketFeatures(s("serde"), major, feat)
    );
    let wide = new_wide(s("serde"), s("*"), s("app"), major);
    assert!(!wide.is_real());
    assert_eq!(wide.crate_(), "serde");
    assert_eq!(
        wide.with_default_features(),
        Names::WideDefaultFeatures(s("serde"), s("*"), s("app"), major)
    );
    assert_eq!(
        wide.with_features(feat),
        Names::WideFeatures(s("serde"), s("*"), s("app"), major, feat)
    );
    assert_eq!(
        Names::WideDefaultFeatures(s("serde"), s("*"), s("app"), major)
            .with_default_features(),
        Names::WideDefaultFeatures(s("serde"), s("*"), s("app"), major)
    );
    // A native library has no features and stays as it is.
    let links = new_links(s("z"));
    assert_eq!(links.crate_(), "z");
    assert_eq!(links.with_default_features(), new_links(s("z")));
    assert_eq!(links.with_features(feat), new_links(s("z")));
    assert!(wide.same(&wide.duplicate()));
    assert!(!wide.same(&bucket));
}

#[test]
fn names_compare_by_crate_then_by_text() {
    let major = SemverCompatibility::Major(1);
    let a = new_bucket(s("a"), major, false);
    let b = new_bucket(s("b"), SemverCompatibility::Patch(0), false);
    let links = new_links(s("a"));
    assert_eq!(a.compare(&b), Sign::Less);
    assert_eq!(b.compare(&a), Sign::Greater);
    assert_eq!(a.compare(&a), Sign::Equal);
    // The same crate: "Bucket:a@1.x.y" against "Links:a".
    assert_eq!(a.compare(&links), Sign::Less);
    assert_eq!(
        a.compare(&Names::BucketDefaultFeatures(s("a"), major)),
        Sign::Less
    );
}

#[test]
fn cargo_index_answers() {
    let major = SemverCompatibility::Major(1);
    let serde = || new_bucket(s("serde"), major, false);
    let derive = || new_bucket(s("serde_derive"), major, false);
    let mut index = CargoIndex::new();
    assert!(index.list_versions(&serde()).is_empty());
    index.add_version(serde(), ver("1.0.219"), vec![(derive(), Range::higher_than(ver("1.0.0")))]);
    index.add_version(serde(), ver("1.0.200"), vec![]);
    index.add_version(derive(), ver("1.0.219"), vec![]);
    assert_eq!(index.list_versions(&serde()), vec![ver("1.0.219"), ver("1.0.200")]);
    assert_eq!(index.choose_version(&serde(), &Range::full()), Some(ver("1.0.219")));
    assert_eq!(
        index.choose_version(&serde(), &Range::strictly_lower_than(ver("1.0.219"))),
        Some(ver("1.0.200"))
    );
    assert_eq!(index.choose_version(&serde(), &Range::singleton(ver("2.0.0"))), None);
    assert_eq!(
        index.get_dependencies(&serde(), &ver("1.0.219")),
        Dependencies::Available(vec![(derive(), Range::higher_than(ver("1.0.0")))])
    );
    assert_eq!(
        index.get_dependencies(&serde(), &ver("1.0.0")),
        Dependencies::Unavailable(String::new())
    );
    assert_eq!(
        index.get_dependencies(&new_links(s("z")), &ver("1.0.0")),
        Dependencies::Unavailable(String::new())
    );
}

#[test]
fn cargo_index_keeps_the_newest_version_first() {
    let major = SemverCompatibility::Major(1);
    let serde = || new_bucket(s("serde"), major, false);
    let derive = || new_bucket(s("serde_derive"), major, false);
    let mut index = CargoIndex::new();
    assert!(index.is_well_formed());
    assert!(index.add_version(serde(), ver("1.0.200"), vec![]));
    assert!(index.add_version(serde(), ver("1.0.219"), vec![]));
    assert!(index.add_version(serde(), ver("1.0.210"), vec![]));
    assert!(index.add_version(serde(), ver("1.0.0-rc.1"), vec![]));
    assert_eq!(
        index.list_versions(&serde()),
        vec![ver("1.0.219"), ver("1.0.210"), ver("1.0.200"), ver("1.0.0-rc.1")]
    );
    assert!(index.is_well_formed());
    assert_eq!(index.choose_version(&serde(), &Range::full()), Some(ver("1.0.219")));
    assert_eq!(
        index.choose_version(&serde(), &Range::strictly_lower_than(ver("1.0.205"))),
        Some(ver("1.0.200"))
    );
    assert!(index.add_version(
        serde(),
        ver("1.0.210"),
        vec![(derive(), Range::higher_than(ver("1.0.0")))]
    ));
    assert_eq!(index.list_versions(&serde()).len(), 4);
    assert_eq!(
        index.get_dependencies(&serde(), &ver("1.0.210")),
        Dependencies::Available(vec![(derive(), Range::higher_than(ver("1.0.0")))])
    );
}
