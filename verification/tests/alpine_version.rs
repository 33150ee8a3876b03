use babel_solver::alpine::version::{tokenize, AlpineVersion, SuffixType, Token};
use babel_solver::text::Sign;
use std::cmp::Ordering;

#[test]
fn test_tokenization() {
    let tokens = tokenize("1.2.3_alpha4");

    assert_eq!(tokens.len(), 7);
    assert_eq!(tokens[0], Token::Num("1".to_string()));
    assert_eq!(tokens[1], Token::Str(".".to_string()));
    assert_eq!(tokens[2], Token::Num("2".to_string()));
    assert_eq!(tokens[3], Token::Str(".".to_string()));
    assert_eq!(tokens[4], Token::Num("3".to_string()));
    assert_eq!(tokens[5], Token::Suffix(SuffixType::Alpha));
    assert_eq!(tokens[6], Token::Num("4".to_string()));
}

#[test]
fn test_version_comparison() {
    let versions = [
        "1.0_alpha",
        "1.0_beta",
        "1.0_pre",
        "1.0_rc",
        "1.0",
        "1.0_p1",
        "1.0-r1",
        "1.0.1",
        "1.1",
    ];

    for (i, v1) in versions.iter().enumerate() {
        for (j, v2) in versions.iter().enumerate() {
            let a: AlpineVersion = AlpineVersion::from_str(v1).unwrap();
            let b: AlpineVersion = AlpineVersion::from_str(v2).unwrap();

            let expected = i.cmp(&j);
            let actual = a.cmp(&b);

            assert_eq!(
                actual, expected,
                "Comparing {} and {} resulted in {:?}, expected {:?}",
                v1, v2, actual, expected
            );
        }
    }
}

#[test]
fn test_specific_comparisons() {
    assert!(AlpineVersion("1.0".to_string()) < AlpineVersion("1.1".to_string()));
    assert!(AlpineVersion("1.0_alpha".to_string()) < AlpineVersion("1.0".to_string()));
    assert!(AlpineVersion("1.0_beta".to_string()) < AlpineVersion("1.0".to_string()));
    assert!(AlpineVersion("1.0_pre".to_string()) < AlpineVersion("1.0".to_string()));
    assert!(AlpineVersion("1.0_rc".to_string()) < AlpineVersion("1.0".to_string()));
    assert!(AlpineVersion("1.0".to_string()) < AlpineVersion("1.0_p1".to_string()));
    assert!(AlpineVersion("1.0".to_string()) < AlpineVersion("1.0-r1".to_string()));
    assert!(AlpineVersion("1.0_alpha".to_string()) < AlpineVersion("1.0_beta".to_string()));
    assert!(AlpineVersion("1.0.0".to_string()) < AlpineVersion("1.0.1".to_string()));
    assert!(AlpineVersion("".to_string()) < AlpineVersion("1.0".to_string()));

    assert_eq!(
        AlpineVersion("1.0".to_string()),
        AlpineVersion("1.0".to_string())
    );
    assert_eq!(AlpineVersion("".to_string()), AlpineVersion("".to_string()));
}

fn alpine(s: &str) -> AlpineVersion {
    AlpineVersion(s.to_string())
}

#[test]
fn alpine_tokens_of_suffixes_and_revision() {
    assert_eq!(
        tokenize("9.7_p1-r5"),
        vec![
            Token::Num("9".to_string()),
            Token::Str(".".to_string()),
            Token::Num("7".to_string()),
            Token::Suffix(SuffixType::Patch),
            Token::Num("1".to_string()),
            Token::Str("-r".to_string()),
            Token::Num("5".to_string()),
        ]
    );
    assert_eq!(tokenize(""), vec![]);
    assert_eq!(
        tokenize("1_foo"),
        vec![Token::Num("1".to_string()), Token::Str("_foo".to_string())]
    );
    assert_eq!(
        tokenize("a-b"),
        vec![Token::Str("a-b".to_string())]
    );
    assert_eq!(
        tokenize("1_git20200101"),
        vec![
            Token::Num("1".to_string()),
            Token::Suffix(SuffixType::Git),
            Token::Num("20200101".to_string()),
        ]
    );
}

#[test]
fn alpine_every_suffix_is_read() {
    let expected = [
        ("alpha", SuffixType::Alpha),
        ("beta", SuffixType::Beta),
        ("pre", SuffixType::Pre),
        ("rc", SuffixType::Rc),
        ("p", SuffixType::Patch),
        ("r", SuffixType::Rev),
        ("git", SuffixType::Git),
        ("svn", SuffixType::Svn),
        ("cvs", SuffixType::Cvs),
        ("hg", SuffixType::Hg),
    ];
    for (name, suffix) in expected.iter() {
        let tokens = tokenize(&format!("_{}", name));
        assert_eq!(tokens, vec![Token::Suffix(*suffix)]);
    }
}

#[test]
fn alpine_leading_zero_compares_as_text() {
    // Past the first token a leading zero makes the numbers compare as text.
    assert_eq!(alpine("1.01").cmp(&alpine("1.1")), Ordering::Less);
    assert_eq!(alpine("1.010").cmp(&alpine("1.02")), Ordering::Less);
    // The first token always compares by value.
    assert_eq!(alpine("01").cmp(&alpine("1")), Ordering::Equal);
    assert_eq!(alpine("010").cmp(&alpine("9")), Ordering::Greater);
    // Plain numbers compare by value.
    assert_eq!(alpine("1.10").cmp(&alpine("1.9")), Ordering::Greater);
}

#[test]
fn alpine_number_too_long_counts_as_zero() {
    assert_eq!(
        alpine("99999999999999999999999").cmp(&alpine("0")),
        Ordering::Equal
    );
    assert_eq!(
        alpine("99999999999999999999999").cmp(&alpine("1")),
        Ordering::Less
    );
}

#[test]
fn alpine_order_answers_consistently_both_ways() {
    let versions = [
        "", "1", "1.0", "1.0_alpha", "1.0_p1", "1.0-r1", "1.01", "2_rc3", "a", "1a", "1_foo",
        "0.9.28_git20200101-r3",
    ];
    for a in versions.iter() {
        for b in versions.iter() {
            let ab = alpine(a).compare(&alpine(b));
            let ba = alpine(b).compare(&alpine(a));
            assert_eq!(ab, ba.reversed(), "{} against {}", a, b);
        }
        assert_eq!(alpine(a).compare(&alpine(a)), Sign::Equal);
    }
}

#[test]
fn alpine_version_text_round_trip() {
    for text in ["9.7_p1-r5", "", "1.0_alpha", " odd text "].iter() {
        let v = AlpineVersion::from_str(text).unwrap();
        assert_eq!(v.to_string(), *text);
        assert_eq!(AlpineVersion::from_str(&v.to_string()).unwrap(), v);
    }
}
