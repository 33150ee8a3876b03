use babel_solver::text::{
    chars_of, compare_lex, decimal_string, find_char, find_pattern, names_string, parse_u64,
    rfind_char, same_text, split_parts, split_pieces, split_words, string_of, trim_chars, Sign,
};

fn chars(s: &str) -> Vec<char> {
    s.chars().collect()
}

#[test]
fn text_chars_and_strings() {
    assert_eq!(chars_of("héllo"), vec!['h', 'é', 'l', 'l', 'o']);
    assert_eq!(chars_of(""), Vec::<char>::new());
    // Building a string appends the characters one by one.
    assert_eq!(string_of(&chars("héllo"), 1, 4), "éll");
    assert_eq!(string_of(&chars("abc"), 0, 0), "");
    assert!(same_text("abc", "abc"));
    assert!(!same_text("abc", "abd"));
    assert!(!same_text("abc", "ab"));
}

#[test]
fn text_order_of_texts() {
    assert_eq!(compare_lex(&chars("abc"), &chars("abd")), Sign::Less);
    assert_eq!(compare_lex(&chars("ab"), &chars("abc")), Sign::Less);
    assert_eq!(compare_lex(&chars("b"), &chars("abc")), Sign::Greater);
    assert_eq!(compare_lex(&chars(""), &chars("")), Sign::Equal);
    assert_eq!(Sign::Less.reversed(), Sign::Greater);
    assert_eq!(Sign::Equal.reversed(), Sign::Equal);
    assert_eq!(Sign::Greater.to_ordering(), std::cmp::Ordering::Greater);
}

#[test]
fn text_numbers_parse_as_in_std() {
    let cases = [
        "0", "7", "007", "+5", "", "+", "-1", "1a", " 1", "18446744073709551615",
        "18446744073709551616", "99999999999999999999999", "1_000",
    ];
    for text in cases.iter() {
        let c = chars(text);
        assert_eq!(parse_u64(&c, 0, c.len()), text.parse::<u64>().ok(), "{:?}", text);
    }
    let c = chars("ab123cd");
    assert_eq!(parse_u64(&c, 2, 5), Some(123));
}

#[test]
fn text_numbers_are_written_in_decimal() {
    assert_eq!(decimal_string(0), "0");
    assert_eq!(decimal_string(9), "9");
    assert_eq!(decimal_string(10), "10");
    assert_eq!(decimal_string(1234567890), "1234567890");
    assert_eq!(decimal_string(u64::MAX), "18446744073709551615");
}

#[test]
fn text_finding() {
    assert_eq!(find_char(&chars("a:b:c"), ':'), Some(1));
    assert_eq!(rfind_char(&chars("a:b:c"), ':'), Some(3));
    assert_eq!(find_char(&chars("abc"), ':'), None);
    assert_eq!(rfind_char(&chars(""), ':'), None);
    assert_eq!(find_pattern(&chars("a>=b"), &chars(">=")), Some(1));
    assert_eq!(find_pattern(&chars("a>b"), &chars(">=")), None);
    assert_eq!(find_pattern(&chars("a"), &chars(">=")), None);
    assert_eq!(find_pattern(&chars("xx=x="), &chars("=")), Some(2));
}

#[test]
fn text_trimming_follows_unicode_whitespace() {
    assert_eq!(trim_chars(&chars("  a b \t\n")), chars("a b"));
    assert_eq!(trim_chars(&chars("\u{2003}x\u{a0}")), chars("x"));
    assert_eq!(trim_chars(&chars("   ")), chars(""));
    assert_eq!(trim_chars(&chars("")), chars(""));
    assert_eq!(trim_chars(&chars("_")), chars("_"));
}

#[test]
fn text_splitting() {
    let lines: Vec<String> = split_pieces(&chars("a\n\nb\n"), '\n')
        .iter()
        .map(|l| l.iter().collect())
        .collect();
    assert_eq!(lines, vec!["a", "", "b"]);
    assert!(split_pieces(&chars(""), '\n').is_empty());

    let words: Vec<String> = split_words(&chars("  git=2.26.3-r1 tcl\ttk "))
        .iter()
        .map(|l| l.iter().collect())
        .collect();
    assert_eq!(words, vec!["git=2.26.3-r1", "tcl", "tk"]);
    assert!(split_words(&chars(" \n ")).is_empty());

    for text in ["a\n\nb", "a\n\n", "\n\n\n\n", "", "a\nb", "a\n\n\nb"].iter() {
        let parts: Vec<String> = split_parts(&chars(text), &chars("\n\n"))
            .iter()
            .map(|l| l.iter().collect())
            .collect();
        let expected: Vec<String> = text.split("\n\n").map(|p| p.to_string()).collect();
        assert_eq!(parts, expected, "{:?}", text);
    }
}

#[test]
fn text_lists_of_names() {
    assert_eq!(names_string(&vec![]), "[]");
    assert_eq!(names_string(&vec!["a".to_string()]), "[\"a\"]");
    assert_eq!(
        names_string(&vec!["libgmp-dev".to_string(), "gmp".to_string()]),
        "[\"libgmp-dev\", \"gmp\"]"
    );
}
