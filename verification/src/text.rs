//! Character-level helpers shared by the version parsers and comparators.
//!
//! Strings are handled through their sequence of characters: a `&str` is
//! turned into a `Vec<char>` once, and every scan works on that vector.

use vstd::prelude::*;

verus! {

/// Result of a three-way comparison.
#[derive(Clone, Copy, Debug, PartialEq, Eq, Structural)]
pub enum Sign {
    Less,
    Equal,
    Greater,
}

impl Sign {
    /// The comparison as a standard `Ordering`.
    pub open spec fn ordering(self) -> core::cmp::Ordering {
        match self {
            Sign::Less => core::cmp::Ordering::Less,
            Sign::Equal => core::cmp::Ordering::Equal,
            Sign::Greater => core::cmp::Ordering::Greater,
        }
    }

    /// Exec counterpart of [`Sign::ordering`].
    pub fn to_ordering(self) -> (r: core::cmp::Ordering)
        ensures
            r == self.ordering(),
    {
        match self {
            Sign::Less => core::cmp::Ordering::Less,
            Sign::Equal => core::cmp::Ordering::Equal,
            Sign::Greater => core::cmp::Ordering::Greater,
        }
    }

    /// The comparison seen from the other side.
    pub open spec fn flip(self) -> Sign {
        match self {
            Sign::Less => Sign::Greater,
            Sign::Equal => Sign::Equal,
            Sign::Greater => Sign::Less,
        }
    }

    /// Exec counterpart of [`Sign::flip`].
    pub fn reversed(self) -> (r: Sign)
        ensures
            r == self.flip(),
    {
        match self {
            Sign::Less => Sign::Greater,
            Sign::Equal => Sign::Equal,
            Sign::Greater => Sign::Less,
        }
    }

    /// `Equal` gives way to `next`; anything else is kept.
    pub open spec fn or_next(self, next: Sign) -> Sign {
        if self == Sign::Equal {
            next
        } else {
            self
        }
    }
}

/// Three-way comparison of two integers.
pub open spec fn int_order(a: int, b: int) -> Sign {
    if a < b {
        Sign::Less
    } else if a == b {
        Sign::Equal
    } else {
        Sign::Greater
    }
}

/// Three-way comparison of two `u64` values.
pub fn compare_u64(a: u64, b: u64) -> (r: Sign)
    ensures
        r == int_order(a as int, b as int),
{
    if a < b {
        Sign::Less
    } else if a == b {
        Sign::Equal
    } else {
        Sign::Greater
    }
}

/// Three-way comparison of two characters by code point.
pub fn compare_char(a: char, b: char) -> (r: Sign)
    ensures
        r == int_order(a as int, b as int),
{
    if a < b {
        Sign::Less
    } else if a == b {
        Sign::Equal
    } else {
        Sign::Greater
    }
}

/// `c` is one of the ten ASCII digits.
pub open spec fn is_digit(c: char) -> bool {
    '0' <= c && c <= '9'
}

/// Exec counterpart of [`is_digit`].
pub fn digit(c: char) -> (r: bool)
    ensures
        r == is_digit(c),
{
    '0' <= c && c <= '9'
}

/// Numeric value of an ASCII digit.
pub open spec fn digit_value(c: char) -> int {
    c as int - '0' as int
}

/// Whether `c` has the Unicode `Alphabetic` property, as `char::is_alphabetic`
/// reports it.
pub uninterp spec fn is_alphabetic(c: char) -> bool;

/// Calls `char::is_alphabetic`. The result is taken to be a fixed property of
/// the character; nothing more is claimed about which characters have it.
#[verifier::external_body]
pub(crate) fn alphabetic(c: char) -> (r: bool)
    ensures
        r == is_alphabetic(c),
{
    c.is_alphabetic()
}

/// Whether `c` has the Unicode `White_Space` property, as
/// `char::is_whitespace` reports it.
pub uninterp spec fn is_whitespace(c: char) -> bool;

/// Calls `char::is_whitespace`. The result is taken to be a fixed property of
/// the character.
#[verifier::external_body]
pub(crate) fn whitespace(c: char) -> (r: bool)
    ensures
        r == is_whitespace(c),
{
    c.is_whitespace()
}

/// Calls `String::push`, which appends one character to the end of the string.
#[verifier::external_body]
pub(crate) fn push_char(s: &mut String, c: char)
    ensures
        final(s)@ == old(s)@.push(c),
{
    s.push(c);
}

/// Collects the characters of a string slice in order.
pub fn chars_of(s: &str) -> (v: Vec<char>)
    ensures
        v@ == s@,
{
    let mut v: Vec<char> = Vec::new();
    for c in it: s.chars()
        invariant
            v@ == s@.take(it.index() as int),
            it.seq() == s@,
    {
        v.push(c);
    }
    v
}

/// Builds the string made of `chars[from..to]`.
pub fn string_of(chars: &Vec<char>, from: usize, to: usize) -> (s: String)
    requires
        from <= to <= chars.len(),
    ensures
        s@ == chars@.subrange(from as int, to as int),
{
    let mut s = String::new();
    let mut i: usize = from;
    while i < to
        invariant
            from <= i <= to <= chars.len(),
            s@ == chars@.subrange(from as int, i as int),
        decreases to - i,
    {
        push_char(&mut s, chars[i]);
        i = i + 1;
        assert(chars@.subrange(from as int, i as int) == chars@.subrange(
            from as int,
            i as int - 1,
        ).push(chars@[i as int - 1]));
    }
    s
}

/// Whether two string slices hold the same characters.
pub fn same_text(a: &str, b: &str) -> (r: bool)
    ensures
        r == (a@ == b@),
{
    let x = chars_of(a);
    let y = chars_of(b);
    same_chars(&x, &y)
}

/// Whether two character vectors hold the same characters.
pub fn same_chars(x: &Vec<char>, y: &Vec<char>) -> (r: bool)
    ensures
        r == (x@ == y@),
{
    if x.len() != y.len() {
        return false;
    }
    let mut i: usize = 0;
    while i < x.len()
        invariant
            i <= x.len(),
            x.len() == y.len(),
            forall|j: int| 0 <= j < i ==> x@[j] == y@[j],
        decreases x.len() - i,
    {
        if x[i] != y[i] {
            return false;
        }
        i = i + 1;
    }
    assert(x@ =~= y@);
    true
}

/// Lexicographic comparison of two character sequences by code point, from
/// position `i` on. A sequence that ends first is the smaller one.
pub open spec fn lex_order_from(a: Seq<char>, b: Seq<char>, i: int) -> Sign
    decreases a.len() - i,
{
    if i >= a.len() && i >= b.len() {
        Sign::Equal
    } else if i >= a.len() {
        Sign::Less
    } else if i >= b.len() {
        Sign::Greater
    } else if a[i] != b[i] {
        int_order(a[i] as int, b[i] as int)
    } else {
        lex_order_from(a, b, i + 1)
    }
}

/// Lexicographic comparison of two character sequences by code point. This is
/// the order of `str` in the standard library.
pub open spec fn lex_order(a: Seq<char>, b: Seq<char>) -> Sign {
    lex_order_from(a, b, 0)
}

/// Lexicographic order read from the other side gives the opposite result.
pub proof fn lemma_lex_order_flip(a: Seq<char>, b: Seq<char>, i: int)
    requires
        0 <= i,
    ensures
        lex_order_from(b, a, i) == lex_order_from(a, b, i).flip(),
    decreases a.len() - i,
{
    if i < a.len() && i < b.len() && a[i] == b[i] {
        lemma_lex_order_flip(a, b, i + 1);
    }
}

/// The order of texts runs along chains: from `a <= b` and `b <= c` follows
/// `a <= c`, strictly where one of the two steps is strict.
pub proof fn lemma_lex_order_transitive(a: Seq<char>, b: Seq<char>, c: Seq<char>, i: int)
    requires
        0 <= i,
    ensures
        crate::order::chains(
            lex_order_from(a, b, i),
            lex_order_from(b, c, i),
            lex_order_from(a, c, i),
        ),
    decreases a.len() + b.len() + c.len() - i,
{
    if i < a.len() && i < b.len() && i < c.len() && a[i] == b[i] && b[i] == c[i] {
        lemma_lex_order_transitive(a, b, c, i + 1);
    }
}

/// Exec counterpart of [`lex_order`].
pub fn compare_lex(a: &Vec<char>, b: &Vec<char>) -> (r: Sign)
    ensures
        r == lex_order(a@, b@),
{
    let mut i: usize = 0;
    loop
        invariant
            i <= a.len(),
            i <= b.len(),
            lex_order(a@, b@) == lex_order_from(a@, b@, i as int),
        decreases a.len() - i,
    {
        if i >= a.len() && i >= b.len() {
            return Sign::Equal;
        } else if i >= a.len() {
            return Sign::Less;
        } else if i >= b.len() {
            return Sign::Greater;
        } else if a[i] != b[i] {
            return compare_char(a[i], b[i]);
        }
        i = i + 1;
    }
}

/// The number that the decimal digits `s` spell, read from the left.
pub open spec fn decimal_value(s: Seq<char>) -> nat
    decreases s.len(),
{
    if s.len() == 0 {
        0
    } else {
        (decimal_value(s.drop_last()) * 10 + digit_value(s.last())) as nat
    }
}

/// Every character of `s` is an ASCII digit.
pub open spec fn all_digits(s: Seq<char>) -> bool {
    forall|i: int| 0 <= i < s.len() ==> is_digit(#[trigger] s[i])
}

/// What parsing `s` as a `u64` gives: an optional `+`, then at least one
/// digit and nothing else, spelling a number that fits in 64 bits.
pub open spec fn parsed_u64(s: Seq<char>) -> Option<u64> {
    let digits = if s.len() > 0 && s[0] == '+' {
        s.subrange(1, s.len() as int)
    } else {
        s
    };
    if digits.len() > 0 && all_digits(digits) && decimal_value(digits) <= u64::MAX {
        Some(decimal_value(digits) as u64)
    } else {
        None
    }
}

/// The number that `s` parses to, or 0 where it does not parse.
pub open spec fn number_or_zero(s: Seq<char>) -> u64 {
    match parsed_u64(s) {
        Some(n) => n,
        None => 0,
    }
}

/// A longer run of digits never spells a smaller number.
pub proof fn lemma_decimal_value_prefix(s: Seq<char>, k: int)
    requires
        0 <= k <= s.len(),
        all_digits(s),
    ensures
        decimal_value(s.subrange(0, k)) <= decimal_value(s),
    decreases s.len() - k,
{
    if k < s.len() {
        lemma_decimal_value_prefix(s, k + 1);
        let t = s.subrange(0, k + 1);
        assert(t.drop_last() == s.subrange(0, k));
        assert(is_digit(t.last()));
    } else {
        assert(s.subrange(0, k) == s);
    }
}

/// Parses `chars[from..to]` as a `u64` the way `str::parse::<u64>` does.
#[verifier::loop_isolation(false)]
pub fn parse_u64(chars: &Vec<char>, from: usize, to: usize) -> (r: Option<u64>)
    requires
        from <= to <= chars.len(),
    ensures
        r == parsed_u64(chars@.subrange(from as int, to as int)),
{
    let ghost s = chars@.subrange(from as int, to as int);
    let start: usize = if from < to && chars[from] == '+' {
        from + 1
    } else {
        from
    };
    let ghost digits = chars@.subrange(start as int, to as int);
    assert(digits == if s.len() > 0 && s[0] == '+' {
        s.subrange(1, s.len() as int)
    } else {
        s
    });
    if start >= to {
        return None;
    }
    let mut value: u64 = 0;
    let mut i: usize = start;
    while i < to
        invariant
            start <= i <= to <= chars.len(),
            digits == chars@.subrange(start as int, to as int),
            all_digits(digits.subrange(0, i - start)),
            value == decimal_value(digits.subrange(0, i - start)),
        decreases to - i,
    {
        let c = chars[i];
        let ghost next = digits.subrange(0, i - start + 1);
        assert(next.drop_last() == digits.subrange(0, i - start));
        assert(next.last() == c);
        if !digit(c) {
            assert(!is_digit(digits[i - start]));
            return None;
        }
        let d: u64 = (c as u32 - '0' as u32) as u64;
        assert(all_digits(next));
        assert(d == digit_value(c));
        assert(decimal_value(next) == value * 10 + d);
        if value > (u64::MAX - d) / 10 {
            proof {
                if all_digits(digits) {
                    lemma_decimal_value_prefix(digits, i - start + 1);
                }
            }
            return None;
        }
        value = value * 10 + d;
        i = i + 1;
    }
    assert(digits.subrange(0, to - start) == digits);
    Some(value)
}

/// Position of the first `c` in `s` at or after position `i`.
pub open spec fn find_from(s: Seq<char>, c: char, i: int) -> Option<int>
    decreases s.len() - i,
{
    if i < 0 || i >= s.len() {
        None
    } else if s[i] == c {
        Some(i)
    } else {
        find_from(s, c, i + 1)
    }
}

/// Position of the last `c` among the first `n` characters of `s`.
pub open spec fn rfind_before(s: Seq<char>, c: char, n: int) -> Option<int>
    decreases n,
{
    if n <= 0 || n > s.len() {
        None
    } else if s[n - 1] == c {
        Some(n - 1)
    } else {
        rfind_before(s, c, n - 1)
    }
}

/// A position that [`find_from`] reports lies in the text and holds `c`.
pub proof fn lemma_find_from_bounds(s: Seq<char>, c: char, i: int)
    requires
        0 <= i,
    ensures
        find_from(s, c, i) matches Some(p) ==> i <= p < s.len() && s[p] == c,
    decreases s.len() - i,
{
    if i < s.len() && s[i] != c {
        lemma_find_from_bounds(s, c, i + 1);
    }
}

/// A position that [`rfind_before`] reports lies in the text and holds `c`.
pub proof fn lemma_rfind_before_bounds(s: Seq<char>, c: char, n: int)
    ensures
        rfind_before(s, c, n) matches Some(p) ==> 0 <= p < n && p < s.len() && s[p] == c,
    decreases n,
{
    if 0 < n <= s.len() && s[n - 1] != c {
        lemma_rfind_before_bounds(s, c, n - 1);
    }
}

/// Finds the first `c` in `chars`.
pub fn find_char(chars: &Vec<char>, c: char) -> (r: Option<usize>)
    ensures
        r matches Some(p) ==> find_from(chars@, c, 0) == Some(p as int) && p < chars.len()
            && chars@[p as int] == c,
        r is None ==> find_from(chars@, c, 0) is None,
{
    let mut i: usize = 0;
    while i < chars.len()
        invariant
            i <= chars.len(),
            find_from(chars@, c, 0) == find_from(chars@, c, i as int),
        decreases chars.len() - i,
    {
        if chars[i] == c {
            return Some(i);
        }
        i = i + 1;
    }
    None
}

/// Finds the last `c` in `chars`.
pub fn rfind_char(chars: &Vec<char>, c: char) -> (r: Option<usize>)
    ensures
        r matches Some(p) ==> rfind_before(chars@, c, chars@.len() as int) == Some(p as int) && p
            < chars.len() && chars@[p as int] == c,
        r is None ==> rfind_before(chars@, c, chars@.len() as int) is None,
{
    let mut n: usize = chars.len();
    while n > 0
        invariant
            n <= chars.len(),
            rfind_before(chars@, c, chars@.len() as int) == rfind_before(chars@, c, n as int),
        decreases n,
    {
        if chars[n - 1] == c {
            return Some(n - 1);
        }
        n = n - 1;
    }
    None
}

/// Copies `chars[from..to]`.
pub fn slice_of(chars: &Vec<char>, from: usize, to: usize) -> (r: Vec<char>)
    requires
        from <= to <= chars.len(),
    ensures
        r@ == chars@.subrange(from as int, to as int),
{
    let mut r: Vec<char> = Vec::new();
    let mut i: usize = from;
    while i < to
        invariant
            from <= i <= to <= chars.len(),
            r@ == chars@.subrange(from as int, i as int),
        decreases to - i,
    {
        r.push(chars[i]);
        i = i + 1;
        assert(chars@.subrange(from as int, i as int) == chars@.subrange(
            from as int,
            i as int - 1,
        ).push(chars@[i as int - 1]));
    }
    r
}

/// Number of whitespace characters at the start of `s`, from position `i` on.
pub open spec fn leading_space(s: Seq<char>, i: int) -> nat
    decreases s.len() - i,
{
    if 0 <= i < s.len() && is_whitespace(s[i]) {
        1 + leading_space(s, i + 1)
    } else {
        0
    }
}

/// Number of whitespace characters at the end of the first `n` characters of
/// `s`.
pub open spec fn trailing_space(s: Seq<char>, n: int) -> nat
    decreases n,
{
    if 0 < n <= s.len() && is_whitespace(s[n - 1]) {
        1 + trailing_space(s, n - 1)
    } else {
        0
    }
}

/// `s` without the whitespace at its two ends, as `str::trim` gives it.
pub open spec fn trimmed(s: Seq<char>) -> Seq<char> {
    let lead = leading_space(s, 0) as int;
    if lead >= s.len() {
        Seq::empty()
    } else {
        s.subrange(lead, s.len() - trailing_space(s, s.len() as int))
    }
}

/// Removes the whitespace at the two ends of `chars`.
pub fn trim_chars(chars: &Vec<char>) -> (r: Vec<char>)
    ensures
        r@ == trimmed(chars@),
{
    let n = chars.len();
    let mut lo: usize = 0;
    while lo < n && whitespace(chars[lo])
        invariant
            lo <= n,
            n == chars.len(),
            leading_space(chars@, 0) == lo + leading_space(chars@, lo as int),
        decreases n - lo,
    {
        lo = lo + 1;
    }
    if lo >= n {
        return Vec::new();
    }
    let mut hi: usize = n;
    while hi > lo && whitespace(chars[hi - 1])
        invariant
            lo < hi <= n,
            n == chars.len(),
            !is_whitespace(chars@[lo as int]),
            trailing_space(chars@, n as int) == (n - hi) + trailing_space(chars@, hi as int),
        decreases hi,
    {
        hi = hi - 1;
    }
    slice_of(chars, lo, hi)
}

/// The texts of a sequence of strings.
pub open spec fn texts(names: Seq<String>) -> Seq<Seq<char>> {
    names.map_values(|n: String| n@)
}

/// Copies a list of strings.
pub fn duplicate_names(names: &Vec<String>) -> (r: Vec<String>)
    ensures
        texts(r@) == texts(names@),
{
    let mut r: Vec<String> = Vec::new();
    let mut i: usize = 0;
    while i < names.len()
        invariant
            i <= names.len(),
            r@.len() == i,
            forall|j: int| 0 <= j < i ==> r@[j]@ == names@[j]@,
        decreases names.len() - i,
    {
        r.push(names[i].clone());
        i = i + 1;
    }
    assert(texts(r@) =~= texts(names@));
    r
}

/// Whether two lists of strings hold the same texts in the same order.
pub fn same_names(a: &Vec<String>, b: &Vec<String>) -> (r: bool)
    ensures
        r == (texts(a@) == texts(b@)),
{
    if a.len() != b.len() {
        assert(texts(a@).len() != texts(b@).len());
        return false;
    }
    let mut i: usize = 0;
    while i < a.len()
        invariant
            i <= a.len(),
            a.len() == b.len(),
            forall|j: int| 0 <= j < i ==> a@[j]@ == b@[j]@,
        decreases a.len() - i,
    {
        if a[i] != b[i] {
            assert(texts(a@)[i as int] != texts(b@)[i as int]);
            return false;
        }
        i = i + 1;
    }
    assert(texts(a@) =~= texts(b@));
    true
}

/// Number of characters from position `i` on that differ from `c`.
pub open spec fn until_len(s: Seq<char>, c: char, i: int) -> nat
    decreases s.len() - i,
{
    if 0 <= i < s.len() && s[i] != c {
        1 + until_len(s, c, i + 1)
    } else {
        0
    }
}

/// A run up to `c` never reaches past the end of the text.
pub proof fn lemma_until_len_bound(s: Seq<char>, c: char, i: int)
    requires
        0 <= i <= s.len(),
    ensures
        i + until_len(s, c, i) <= s.len(),
    decreases s.len() - i,
{
    if i < s.len() && s[i] != c {
        lemma_until_len_bound(s, c, i + 1);
    }
}

/// The pieces of `s` from position `i` on that the separator `c` parts. A
/// separator at the very end is followed by no piece.
pub open spec fn pieces_from(s: Seq<char>, c: char, i: int) -> Seq<Seq<char>>
    decreases s.len() + 1 - i,
    via pieces_from_decreases
{
    if i < 0 || i >= s.len() {
        Seq::empty()
    } else {
        let e = i + until_len(s, c, i);
        seq![s.subrange(i, e)] + pieces_from(s, c, e + 1)
    }
}

#[via_fn]
proof fn pieces_from_decreases(s: Seq<char>, c: char, i: int) {
    if 0 <= i < s.len() {
        lemma_until_len_bound(s, c, i);
    }
}

/// The lines of a text: its pieces between line feeds.
pub open spec fn lines_of(s: Seq<char>) -> Seq<Seq<char>> {
    pieces_from(s, '\n', 0)
}

/// Cuts `chars` into the pieces that the separator `c` parts.
pub fn split_pieces(chars: &Vec<char>, c: char) -> (r: Vec<Vec<char>>)
    ensures
        r@.map_values(|p: Vec<char>| p@) == pieces_from(chars@, c, 0),
{
    let ghost s = chars@;
    let n = chars.len();
    let mut out: Vec<Vec<char>> = Vec::new();
    let mut i: usize = 0;
    assert(out@.map_values(|p: Vec<char>| p@) + pieces_from(s, c, 0) =~= pieces_from(s, c, 0));
    while i < n
        invariant
            i <= n,
            n == chars.len(),
            s == chars@,
            out@.map_values(|p: Vec<char>| p@) + pieces_from(s, c, i as int) == pieces_from(
                s,
                c,
                0,
            ),
        decreases n - i,
    {
        let ghost before = out@.map_values(|p: Vec<char>| p@);
        let ghost rest = pieces_from(s, c, i as int);
        let mut e: usize = i;
        while e < n && chars[e] != c
            invariant
                i <= e <= n,
                n == chars.len(),
                s == chars@,
                until_len(s, c, i as int) == (e - i) + until_len(s, c, e as int),
            decreases n - e,
        {
            e = e + 1;
        }
        let piece = slice_of(chars, i, e);
        assert(rest == seq![piece@] + pieces_from(s, c, e + 1));
        out.push(piece);
        assert(out@.map_values(|p: Vec<char>| p@) =~= before.push(piece@));
        assert(out@.map_values(|p: Vec<char>| p@) + pieces_from(s, c, e + 1) =~= before + rest);
        if e >= n {
            assert(pieces_from(s, c, e + 1) =~= pieces_from(s, c, n as int));
            i = n;
        } else {
            i = e + 1;
        }
    }
    assert(pieces_from(s, c, i as int) =~= Seq::empty());
    assert(out@.map_values(|p: Vec<char>| p@) + pieces_from(s, c, i as int) =~= out@.map_values(
        |p: Vec<char>| p@,
    ));
    out
}

/// Number of characters from position `i` on that are no whitespace.
pub open spec fn word_len(s: Seq<char>, i: int) -> nat
    decreases s.len() - i,
{
    if 0 <= i < s.len() && !is_whitespace(s[i]) {
        1 + word_len(s, i + 1)
    } else {
        0
    }
}

/// A word never reaches past the end of the text.
pub proof fn lemma_word_len_bound(s: Seq<char>, i: int)
    requires
        0 <= i <= s.len(),
    ensures
        i + word_len(s, i) <= s.len(),
    decreases s.len() - i,
{
    if i < s.len() && !is_whitespace(s[i]) {
        lemma_word_len_bound(s, i + 1);
    }
}

/// Whitespace never reaches past the end of the text.
pub proof fn lemma_leading_space_bound(s: Seq<char>, i: int)
    requires
        0 <= i <= s.len(),
    ensures
        i + leading_space(s, i) <= s.len(),
    decreases s.len() - i,
{
    if i < s.len() && is_whitespace(s[i]) {
        lemma_leading_space_bound(s, i + 1);
    }
}

/// The words of `s` from position `i` on: the runs of characters that are no
/// whitespace, as `str::split_whitespace` gives them.
pub open spec fn words_from(s: Seq<char>, i: int) -> Seq<Seq<char>>
    decreases s.len() - i,
    via words_from_decreases
{
    if i < 0 || i >= s.len() {
        Seq::empty()
    } else {
        let j = i + leading_space(s, i);
        if j >= s.len() {
            Seq::empty()
        } else {
            let k = j + word_len(s, j);
            seq![s.subrange(j, k)] + words_from(s, k)
        }
    }
}

#[via_fn]
proof fn words_from_decreases(s: Seq<char>, i: int) {
    if 0 <= i < s.len() {
        lemma_leading_space_bound(s, i);
        let j = i + leading_space(s, i);
        if j < s.len() {
            lemma_word_len_bound(s, j);
            assert(!is_whitespace(s[j])) by {
                lemma_leading_space_stops(s, i);
            }
        }
    }
}

/// Where the whitespace from `i` on ends before the end of the text, a
/// character that is no whitespace stands.
pub proof fn lemma_leading_space_stops(s: Seq<char>, i: int)
    requires
        0 <= i <= s.len(),
    ensures
        i + leading_space(s, i) < s.len() ==> !is_whitespace(s[i + leading_space(s, i)]),
    decreases s.len() - i,
{
    if i < s.len() && is_whitespace(s[i]) {
        lemma_leading_space_stops(s, i + 1);
    }
}

/// The words of a text.
pub open spec fn words_of(s: Seq<char>) -> Seq<Seq<char>> {
    words_from(s, 0)
}

/// Cuts `chars` into its words.
pub fn split_words(chars: &Vec<char>) -> (r: Vec<Vec<char>>)
    ensures
        r@.map_values(|p: Vec<char>| p@) == words_of(chars@),
{
    let ghost s = chars@;
    let n = chars.len();
    let mut out: Vec<Vec<char>> = Vec::new();
    let mut i: usize = 0;
    assert(out@.map_values(|p: Vec<char>| p@) + words_from(s, 0) =~= words_from(s, 0));
    while i < n
        invariant
            i <= n,
            n == chars.len(),
            s == chars@,
            out@.map_values(|p: Vec<char>| p@) + words_from(s, i as int) == words_of(s),
        decreases n - i,
    {
        let ghost before = out@.map_values(|p: Vec<char>| p@);
        let ghost rest = words_from(s, i as int);
        let mut j: usize = i;
        while j < n && whitespace(chars[j])
            invariant
                i <= j <= n,
                n == chars.len(),
                s == chars@,
                leading_space(s, i as int) == (j - i) + leading_space(s, j as int),
            decreases n - j,
        {
            j = j + 1;
        }
        if j >= n {
            assert(rest =~= Seq::empty());
            i = n;
            assert(words_from(s, n as int) =~= Seq::empty());
        } else {
            let mut k: usize = j;
            while k < n && !whitespace(chars[k])
                invariant
                    j <= k <= n,
                    n == chars.len(),
                    s == chars@,
                    word_len(s, j as int) == (k - j) + word_len(s, k as int),
                decreases n - k,
            {
                k = k + 1;
            }
            let word = slice_of(chars, j, k);
            assert(rest == seq![word@] + words_from(s, k as int));
            out.push(word);
            assert(out@.map_values(|p: Vec<char>| p@) =~= before.push(word@));
            assert(out@.map_values(|p: Vec<char>| p@) + words_from(s, k as int) =~= before + rest);
            i = k;
        }
    }
    assert(words_from(s, i as int) =~= Seq::empty());
    assert(out@.map_values(|p: Vec<char>| p@) + words_from(s, i as int) =~= out@.map_values(
        |p: Vec<char>| p@,
    ));
    out
}

/// `pattern` stands in `s` at position `i`.
pub open spec fn occurs_at(s: Seq<char>, pattern: Seq<char>, i: int) -> bool {
    0 <= i && i + pattern.len() <= s.len() && s.subrange(i, i + pattern.len()) == pattern
}

/// Position of the first occurrence of `pattern` in `s` at or after `i`.
pub open spec fn find_text_from(s: Seq<char>, pattern: Seq<char>, i: int) -> Option<int>
    decreases s.len() + 1 - i,
{
    if i < 0 || i + pattern.len() > s.len() {
        None
    } else if occurs_at(s, pattern, i) {
        Some(i)
    } else {
        find_text_from(s, pattern, i + 1)
    }
}

/// Position of the first occurrence of `pattern` in `s`.
pub open spec fn find_text(s: Seq<char>, pattern: Seq<char>) -> Option<int> {
    find_text_from(s, pattern, 0)
}

/// A position that [`find_text_from`] reports holds the pattern.
pub proof fn lemma_find_text_from(s: Seq<char>, pattern: Seq<char>, i: int)
    requires
        0 <= i,
    ensures
        find_text_from(s, pattern, i) matches Some(p) ==> i <= p && occurs_at(s, pattern, p),
    decreases s.len() + 1 - i,
{
    if i + pattern.len() <= s.len() && !occurs_at(s, pattern, i) {
        lemma_find_text_from(s, pattern, i + 1);
    }
}

/// Whether `pattern` stands in `chars` at position `i`.
fn matches_at(chars: &Vec<char>, pattern: &Vec<char>, i: usize) -> (r: bool)
    requires
        i + pattern.len() <= chars.len(),
    ensures
        r == occurs_at(chars@, pattern@, i as int),
{
    let mut k: usize = 0;
    while k < pattern.len()
        invariant
            k <= pattern.len(),
            i + pattern.len() <= chars.len(),
            forall|j: int| 0 <= j < k ==> chars@[i + j] == pattern@[j],
        decreases pattern.len() - k,
    {
        if chars[i + k] != pattern[k] {
            assert(chars@.subrange(i as int, i + pattern.len())[k as int] != pattern@[k as int]);
            return false;
        }
        k = k + 1;
    }
    assert(chars@.subrange(i as int, i + pattern.len()) =~= pattern@);
    true
}

/// Finds the first occurrence of `pattern` in `chars` at or after `start`.
pub fn find_pattern_from(chars: &Vec<char>, pattern: &Vec<char>, start: usize) -> (r: Option<
    usize,
>)
    ensures
        match r {
            Some(p) => find_text_from(chars@, pattern@, start as int) == Some(p as int) && start
                <= p && p + pattern.len() <= chars.len(),
            None => find_text_from(chars@, pattern@, start as int) is None,
        },
{
    if pattern.len() > chars.len() || start > chars.len() - pattern.len() {
        return None;
    }
    let last = chars.len() - pattern.len();
    let mut i: usize = start;
    loop
        invariant
            start <= i <= last,
            last == chars.len() - pattern.len(),
            find_text_from(chars@, pattern@, start as int) == find_text_from(
                chars@,
                pattern@,
                i as int,
            ),
        decreases last - i,
    {
        if matches_at(chars, pattern, i) {
            return Some(i);
        }
        if i == last {
            return None;
        }
        i = i + 1;
    }
}

/// Finds the first occurrence of `pattern` in `chars`.
pub fn find_pattern(chars: &Vec<char>, pattern: &Vec<char>) -> (r: Option<usize>)
    ensures
        match r {
            Some(p) => find_text(chars@, pattern@) == Some(p as int) && p + pattern.len()
                <= chars.len(),
            None => find_text(chars@, pattern@) is None,
        },
{
    find_pattern_from(chars, pattern, 0)
}

/// The parts of `s` from position `i` on that the separator `sep` parts, as
/// `str::split` gives them: what follows the last separator is a part too,
/// even where it is empty.
pub open spec fn parts_from(s: Seq<char>, sep: Seq<char>, i: int) -> Seq<Seq<char>>
    decreases s.len() + 1 - i,
    via parts_from_decreases
{
    if i < 0 || i > s.len() {
        Seq::empty()
    } else {
        match find_text_from(s, sep, i) {
            Some(p) => if sep.len() > 0 {
                seq![s.subrange(i, p)] + parts_from(s, sep, p + sep.len())
            } else {
                seq![s.subrange(i, s.len() as int)]
            },
            None => seq![s.subrange(i, s.len() as int)],
        }
    }
}

#[via_fn]
proof fn parts_from_decreases(s: Seq<char>, sep: Seq<char>, i: int) {
    if 0 <= i <= s.len() {
        lemma_find_text_from(s, sep, i);
    }
}

/// The parts of a text that the separator `sep` parts.
pub open spec fn parts_of(s: Seq<char>, sep: Seq<char>) -> Seq<Seq<char>> {
    parts_from(s, sep, 0)
}

/// Cuts `chars` into the parts that the separator `sep` parts.
pub fn split_parts(chars: &Vec<char>, sep: &Vec<char>) -> (r: Vec<Vec<char>>)
    requires
        sep.len() > 0,
    ensures
        r@.map_values(|p: Vec<char>| p@) == parts_of(chars@, sep@),
{
    let ghost s = chars@;
    let n = chars.len();
    let mut out: Vec<Vec<char>> = Vec::new();
    let mut i: usize = 0;
    assert(out@.map_values(|p: Vec<char>| p@) + parts_from(s, sep@, 0) =~= parts_from(
        s,
        sep@,
        0,
    ));
    loop
        invariant
            i <= n,
            n == chars.len(),
            s == chars@,
            sep.len() > 0,
            out@.map_values(|p: Vec<char>| p@) + parts_from(s, sep@, i as int) == parts_of(
                s,
                sep@,
            ),
        decreases n - i,
    {
        let ghost before = out@.map_values(|p: Vec<char>| p@);
        let ghost rest = parts_from(s, sep@, i as int);
        match find_pattern_from(chars, sep, i) {
            Some(p) => {
                let part = slice_of(chars, i, p);
                out.push(part);
                assert(out@.map_values(|p: Vec<char>| p@) =~= before.push(part@));
                assert(out@.map_values(|p: Vec<char>| p@) + parts_from(s, sep@, p + sep.len())
                    =~= before + rest);
                i = p + sep.len();
            },
            None => {
                let part = slice_of(chars, i, n);
                out.push(part);
                assert(out@.map_values(|p: Vec<char>| p@) =~= before.push(part@));
                assert(out@.map_values(|p: Vec<char>| p@) =~= before + rest);
                return out;
            },
        }
    }
}

/// Whether the text is empty or all whitespace.
pub open spec fn is_blank(s: Seq<char>) -> bool {
    trimmed(s).len() == 0
}

/// The character of the digit `d`.
pub open spec fn digit_char(d: int) -> char {
    if d == 0 {
        '0'
    } else if d == 1 {
        '1'
    } else if d == 2 {
        '2'
    } else if d == 3 {
        '3'
    } else if d == 4 {
        '4'
    } else if d == 5 {
        '5'
    } else if d == 6 {
        '6'
    } else if d == 7 {
        '7'
    } else if d == 8 {
        '8'
    } else {
        '9'
    }
}

/// The decimal digits of `n`, without leading zeros.
pub open spec fn decimal_text(n: nat) -> Seq<char>
    decreases n,
{
    if n < 10 {
        seq![digit_char(n as int)]
    } else {
        decimal_text(n / 10).push(digit_char((n % 10) as int))
    }
}

/// The character of a digit.
fn char_of_digit(d: u64) -> (c: char)
    requires
        d < 10,
    ensures
        c == digit_char(d as int),
{
    if d == 0 {
        '0'
    } else if d == 1 {
        '1'
    } else if d == 2 {
        '2'
    } else if d == 3 {
        '3'
    } else if d == 4 {
        '4'
    } else if d == 5 {
        '5'
    } else if d == 6 {
        '6'
    } else if d == 7 {
        '7'
    } else if d == 8 {
        '8'
    } else {
        '9'
    }
}

/// Writes `n` in decimal digits.
pub fn decimal_string(n: u64) -> (s: String)
    ensures
        s@ == decimal_text(n as nat),
    decreases n,
{
    if n < 10 {
        let mut s = String::new();
        push_char(&mut s, char_of_digit(n));
        assert(s@ =~= seq![digit_char(n as int)]);
        s
    } else {
        let mut s = decimal_string(n / 10);
        push_char(&mut s, char_of_digit(n % 10));
        s
    }
}

/// What the first `n` names of a list are written as: each in double
/// quotes, with `, ` between them.
pub open spec fn quoted_names(names: Seq<Seq<char>>, n: int) -> Seq<char>
    decreases n,
{
    if n <= 0 || n > names.len() {
        Seq::empty()
    } else if n == 1 {
        "\""@ + names[0] + "\""@
    } else {
        quoted_names(names, n - 1) + ", "@ + "\""@ + names[n - 1] + "\""@
    }
}

/// What a list of names is written as: the quoted names in square brackets.
pub open spec fn names_text(names: Seq<Seq<char>>) -> Seq<char> {
    "["@ + quoted_names(names, names.len() as int) + "]"@
}

/// Writes a list of names.
pub fn names_string(names: &Vec<String>) -> (s: String)
    ensures
        s@ == names_text(texts(names@)),
{
    let mut s = "[".to_string();
    let ghost list = texts(names@);
    let mut i: usize = 0;
    assert("["@ + quoted_names(list, 0) =~= "["@);
    while i < names.len()
        invariant
            i <= names.len(),
            list == texts(names@),
            s@ == "["@ + quoted_names(list, i as int),
        decreases names.len() - i,
    {
        assert(list[i as int] == names@[i as int]@);
        let ghost before = s@;
        if i > 0 {
            s.append(", ");
        }
        s.append("\"");
        s.append(names[i].as_str());
        s.append("\"");
        assert(s@ =~= "["@ + quoted_names(list, i + 1));
        i = i + 1;
    }
    s.append("]");
    s
}

} // verus!
