use babel_solver::debian::version::{
    compare_str_token, compare_token_vecs, compare_tokens, split, tokenize, DebianVersion, Token,
};
use babel_solver::text::Sign;
use std::cmp::Ordering;

#[test]
fn test_tokenize_starts_with_digit() {
    let tokens = tokenize("1.2");
    assert_eq!(tokens.len(), 4);

    match &tokens[0] {
        Token::Str(s) => assert!(s.is_empty(), "Expected first token to be empty"),
        _ => panic!("Expected first token to be a string"),
    }
    match tokens[1] {
        Token::Num(n) => assert_eq!(n, 1),
        _ => panic!("Expected second token to be a number"),
    }
    match &tokens[2] {
        Token::Str(s) => assert_eq!(s, "."),
        _ => panic!("Expected third token to be a string"),
    }
    match tokens[3] {
        Token::Num(n) => assert_eq!(n, 2),
        _ => panic!("Expected fourth token to be a number"),
    }
}

#[test]
fn test_ordering() {
    let mut versions = vec![
        DebianVersion("1.0-test".to_string()),
        DebianVersion("1.0.10".to_string()),
        DebianVersion("1.0~beta".to_string()),
        DebianVersion("1.0".to_string()),
        DebianVersion("~beta2".to_string()),
        DebianVersion("trunk".to_string()),
        DebianVersion("0.1".to_string()),
        DebianVersion("dev".to_string()),
        DebianVersion("~~".to_string()),
        DebianVersion("1.0.1".to_string()),
        DebianVersion("~".to_string()),
        DebianVersion("~beta10".to_string()),
    ];

    versions.sort_by(|a, b| a.cmp(b));

    let expected_order = vec![
        "~~", "~", "~beta2", "~beta10", "0.1", "1.0~beta", "1.0", "1.0-test", "1.0.1",
        "1.0.10", "dev", "trunk",
    ]
    .into_iter()
    .map(|s| s.to_string())
    .collect::<Vec<_>>();

    let sorted_versions = versions.iter().map(|v| v.to_string()).collect::<Vec<_>>();

    assert_eq!(sorted_versions, expected_order);
}

fn debian(s: &str) -> DebianVersion {
    DebianVersion(s.to_string())
}

#[test]
fn debian_split_gives_epoch_upstream_revision() {
    assert_eq!(
        split(&debian("1:7.9p1-10+deb10u2")),
        (1, "7.9p1".to_string(), "10+deb10u2".to_string())
    );
    assert_eq!(split(&debian("2.30")), (0, "2.30".to_string(), "0".to_string()));
    // The revision follows the last hyphen.
    assert_eq!(
        split(&debian("1.2-3-4")),
        (0, "1.2-3".to_string(), "4".to_string())
    );
    // An epoch that is no number counts as 0; whitespace at the ends is dropped.
    assert_eq!(split(&debian("  x:1.0 ")), (0, "1.0".to_string(), "0".to_string()));
    assert_eq!(split(&debian("+5:1.0")), (5, "1.0".to_string(), "0".to_string()));
    assert_eq!(split(&debian("")), (0, "".to_string(), "0".to_string()));
}

#[test]
fn debian_tokens_alternate() {
    assert_eq!(
        tokenize("7.9p1"),
        vec![
            Token::Str("".to_string()),
            Token::Num(7),
            Token::Str(".".to_string()),
            Token::Num(9),
            Token::Str("p".to_string()),
            Token::Num(1),
        ]
    );
    assert_eq!(tokenize(""), vec![]);
    assert_eq!(tokenize("~beta2"), vec![Token::Str("~beta".to_string()), Token::Num(2)]);
    // A run of digits too long for 64 bits counts as 0.
    assert_eq!(
        tokenize("99999999999999999999999"),
        vec![Token::Str("".to_string()), Token::Num(0)]
    );
    assert_eq!(tokenize("007"), vec![Token::Str("".to_string()), Token::Num(7)]);
}

#[test]
fn debian_text_runs_compare_with_tilde_lowest() {
    assert_eq!(compare_str_token("~", ""), Sign::Less);
    assert_eq!(compare_str_token("", "~"), Sign::Greater);
    assert_eq!(compare_str_token("", "a"), Sign::Less);
    assert_eq!(compare_str_token("a", "+"), Sign::Less);
    assert_eq!(compare_str_token("+", "a"), Sign::Greater);
    assert_eq!(compare_str_token("a", "b"), Sign::Less);
    assert_eq!(compare_str_token("ab", "ab"), Sign::Equal);
    assert_eq!(compare_str_token("~~", "~"), Sign::Less);
    assert_eq!(compare_str_token(".", "-"), Sign::Greater);
}

#[test]
fn debian_tokens_compare() {
    assert_eq!(compare_tokens(&Token::Num(2), &Token::Num(10)), Sign::Less);
    assert_eq!(
        compare_tokens(&Token::Num(0), &Token::Str("z".to_string())),
        Sign::Greater
    );
    assert_eq!(
        compare_tokens(&Token::Str("z".to_string()), &Token::Num(0)),
        Sign::Less
    );
    assert_eq!(compare_token_vecs(&tokenize("1.0"), &tokenize("1.0")), None);
    assert_eq!(
        compare_token_vecs(&tokenize("1.0"), &tokenize("1.0~rc1")),
        Some(Sign::Greater)
    );
    assert_eq!(
        compare_token_vecs(&tokenize("1.0"), &tokenize("1.0a")),
        Some(Sign::Less)
    );
}

#[test]
fn debian_epoch_decides_first() {
    assert_eq!(debian("1:1.0").cmp(&debian("2.0")), Ordering::Greater);
    assert_eq!(debian("1:7.9p1-10+deb10u2").cmp(&debian("1:7.9p1-10")), Ordering::Greater);
    assert_eq!(debian("1.0-1").cmp(&debian("1.0-2")), Ordering::Less);
    assert_eq!(debian("1.0").cmp(&debian("1.0-0")), Ordering::Equal);
    assert!(debian("1.0~beta") < debian("1.0"));
}

#[test]
fn debian_order_answers_consistently_both_ways() {
    let versions = [
        "", "~", "~~", "1.0", "1.0-1", "1:0.1", "1.0~beta", "trunk", "1.0.10", "2:1-1-1", "a.b",
        "1.0+dfsg",
    ];
    for a in versions.iter() {
        for b in versions.iter() {
            let ab = debian(a).compare(&debian(b));
            let ba = debian(b).compare(&debian(a));
            assert_eq!(ab, ba.reversed(), "{} against {}", a, b);
        }
        assert_eq!(debian(a).compare(&debian(a)), Sign::Equal);
    }
}

#[test]
fn debian_version_text_round_trip() {
    for text in ["1:7.9p1-10+deb10u2", "", "~~"].iter() {
        let v = DebianVersion::from_str(text).unwrap();
        assert_eq!(v.to_string(), *text);
        assert_eq!(DebianVersion::from_str(&v.to_string()).unwrap(), v);
    }
}
