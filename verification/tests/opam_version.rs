use babel_solver::opam::version::{compare_tokens, tokenize, OpamVersion, Token};
use babel_solver::text::Sign;
use std::cmp::Ordering;

fn opam(s: &str) -> OpamVersion {
    OpamVersion(s.to_string())
}

#[test]
fn opam_tokens_alternate() {
    assert_eq!(
        tokenize("3.17.2"),
        vec![
            Token::Str("".to_string()),
            Token::Num("3".to_string()),
            Token::Str(".".to_string()),
            Token::Num("17".to_string()),
            Token::Str(".".to_string()),
            Token::Num("2".to_string()),
        ]
    );
    assert_eq!(
        tokenize("5.3.1+trunk"),
        vec![
            Token::Str("".to_string()),
            Token::Num("5".to_string()),
            Token::Str(".".to_string()),
            Token::Num("3".to_string()),
            Token::Str(".".to_string()),
            Token::Num("1".to_string()),
            Token::Str("+trunk".to_string()),
        ]
    );
    assert_eq!(tokenize(""), vec![]);
    assert_eq!(tokenize("dev"), vec![Token::Str("dev".to_string())]);
}

#[test]
fn opam_order_of_versions() {
    let ordered = [
        "~~", "~", "~beta2", "0.1", "1.0~beta", "1.0", "1.0.1", "1.0.10", "1.01", "1.1", "2",
        "10", "dev", "trunk",
    ];
    for (i, a) in ordered.iter().enumerate() {
        for (j, b) in ordered.iter().enumerate() {
            assert_eq!(opam(a).cmp(&opam(b)), i.cmp(&j), "{} against {}", a, b);
        }
    }
}

#[test]
fn opam_numbers_compare_by_value_then_by_spelling() {
    // Leading zeros are ignored for the value.
    assert_eq!(opam("1.10").cmp(&opam("1.9")), Ordering::Greater);
    assert_eq!(opam("1.010").cmp(&opam("1.9")), Ordering::Greater);
    // Where the values tie, the spelling decides.
    assert_eq!(opam("1.01").cmp(&opam("1.1")), Ordering::Less);
    assert_eq!(opam("1.1").cmp(&opam("1.1")), Ordering::Equal);
    assert_eq!(
        compare_tokens(&Token::Num("007".to_string()), &Token::Num("7".to_string())),
        Sign::Less
    );
    assert_eq!(
        compare_tokens(&Token::Num("7".to_string()), &Token::Str("a".to_string())),
        Sign::Greater
    );
}

#[test]
fn opam_values_of_variables_compare() {
    assert!(opam("false") < opam("true"));
    assert!(opam("alpine") < opam("debian"));
    assert!(opam("lhs") < opam("rhs"));
    assert_eq!(opam("linux").compare(&opam("linux")), Sign::Equal);
}

#[test]
fn opam_order_answers_consistently_both_ways() {
    let versions = ["", "~", "1", "1.0", "01", "1.0~rc1", "a", "1a", "1.", "1.0.0+x", "true"];
    for a in versions.iter() {
        for b in versions.iter() {
            let ab = opam(a).compare(&opam(b));
            let ba = opam(b).compare(&opam(a));
            assert_eq!(ab, ba.reversed(), "{} against {}", a, b);
            // Only the same text compares as equal.
            assert_eq!(ab == Sign::Equal, a == b, "{} against {}", a, b);
        }
    }
}

#[test]
fn opam_order_runs_along_chains() {
    let versions = ["", "~", "1", "1.0", "01", "1.0~rc1", "a", "1a", "1.", "9", "10", "1.0-2"];
    for a in versions.iter() {
        for b in versions.iter() {
            for c in versions.iter() {
                if opam(a).compare(&opam(b)) != Sign::Greater
                    && opam(b).compare(&opam(c)) != Sign::Greater
                {
                    assert_ne!(opam(a).compare(&opam(c)), Sign::Greater, "{} {} {}", a, b, c);
                }
            }
        }
    }
}

#[test]
fn opam_version_text_round_trip() {
    for text in ["3.17.2", "", "5.3.1+trunk"].iter() {
        let v = OpamVersion::from_str(text).unwrap();
        assert_eq!(v.to_string(), *text);
        assert_eq!(OpamVersion::from_str(&v.to_string()).unwrap(), v);
    }
}
