//! Debian package versions and their order.
//!
//! A version is `[epoch:]upstream[-revision]`. Epochs are compared as
//! numbers; the upstream part and the revision are cut into alternating runs
//! of non-digits and digits and compared run by run.

use crate::order::{chains, order_is_total, ConsistentOrder, VersionOrder};
use crate::text::{
    alphabetic, chars_of, compare_char, compare_u64, digit, find_char, find_from, int_order,
    is_alphabetic, is_digit, number_or_zero,
    parse_u64, rfind_before, rfind_char, slice_of, string_of, trim_chars, trimmed, Sign,
};
use core::cmp::Ordering;
use vstd::prelude::*;

verus! {

/// A Debian version, kept as the text it was written as.
#[derive(Clone, Debug, PartialEq, Eq, Hash)]
pub struct DebianVersion(pub String);

impl View for DebianVersion {
    type V = Seq<char>;

    open spec fn view(&self) -> Seq<char> {
        self.0@
    }
}

/// One run of a version component.
#[derive(Clone, Debug, PartialEq, Eq)]
pub enum Token {
    /// A run of digits, by its value. A run too long for 64 bits counts as 0.
    Num(u64),
    /// A run of other characters.
    Str(String),
}

/// What a [`Token`] stands for.
pub enum TokenModel {
    Num(u64),
    Str(Seq<char>),
}

impl View for Token {
    type V = TokenModel;

    open spec fn view(&self) -> TokenModel {
        match self {
            Token::Num(n) => TokenModel::Num(*n),
            Token::Str(s) => TokenModel::Str(s@),
        }
    }
}

/// The models of a sequence of tokens.
pub open spec fn token_models(tokens: Seq<Token>) -> Seq<TokenModel> {
    tokens.map_values(|t: Token| t@)
}

/// The three parts of a version.
pub struct Parts {
    pub epoch: u64,
    pub upstream: Seq<char>,
    pub revision: Seq<char>,
}

/// What follows the epoch: the text after the first `:`, or all of it.
pub open spec fn after_epoch(s: Seq<char>) -> Seq<char> {
    match find_from(s, ':', 0) {
        Some(p) => s.subrange(p + 1, s.len() as int),
        None => s,
    }
}

/// The parts of a version: whitespace at the ends is dropped; the epoch is
/// the number before the first `:` (0 where there is none or it is no
/// number); the revision follows the last `-` (`"0"` where there is none).
pub open spec fn version_parts(v: Seq<char>) -> Parts {
    let s = trimmed(v);
    let epoch = match find_from(s, ':', 0) {
        Some(p) => number_or_zero(s.subrange(0, p)),
        None => 0,
    };
    let rest = after_epoch(s);
    match rfind_before(rest, '-', rest.len() as int) {
        Some(p) => Parts {
            epoch,
            upstream: rest.subrange(0, p),
            revision: rest.subrange(p + 1, rest.len() as int),
        },
        None => Parts { epoch, upstream: rest, revision: "0"@ },
    }
}

/// Splits a version into epoch, upstream part and revision.
pub fn split(version: &DebianVersion) -> (r: (u64, String, String))
    ensures
        r.0 == version_parts(version@).epoch,
        r.1@ == version_parts(version@).upstream,
        r.2@ == version_parts(version@).revision,
{
    let raw = chars_of(version.0.as_str());
    let s = trim_chars(&raw);
    let (epoch, rest) = match find_char(&s, ':') {
        Some(pos) => {
            let epoch = match parse_u64(&s, 0, pos) {
                Some(n) => n,
                None => 0,
            };
            (epoch, slice_of(&s, pos + 1, s.len()))
        },
        None => {
            assert(s@.subrange(0, s@.len() as int) == s@);
            (0, slice_of(&s, 0, s.len()))
        },
    };
    assert(rest@ == after_epoch(s@));
    match rfind_char(&rest, '-') {
        Some(pos) => {
            let upstream = string_of(&rest, 0, pos);
            let revision = string_of(&rest, pos + 1, rest.len());
            (epoch, upstream, revision)
        },
        None => {
            assert(rest@.subrange(0, rest@.len() as int) == rest@);
            let upstream = string_of(&rest, 0, rest.len());
            (epoch, upstream, "0".to_string())
        },
    }
}

/// Number of characters from position `j` on that are digits (`digits`) or
/// are not (`!digits`).
pub open spec fn run_len(s: Seq<char>, j: int, digits: bool) -> nat
    decreases s.len() - j,
{
    if j < 0 || j >= s.len() || is_digit(s[j]) != digits {
        0
    } else {
        1 + run_len(s, j + 1, digits)
    }
}

/// A run never reaches past the end of the text.
pub proof fn lemma_run_len_bound(s: Seq<char>, j: int, digits: bool)
    requires
        0 <= j <= s.len(),
    ensures
        j + run_len(s, j, digits) <= s.len(),
    decreases s.len() - j,
{
    if j < s.len() && is_digit(s[j]) == digits {
        lemma_run_len_bound(s, j + 1, digits);
    }
}

/// The token for the run `text`.
pub open spec fn run_token(text: Seq<char>, digits: bool) -> TokenModel {
    if digits {
        TokenModel::Num(number_or_zero(text))
    } else {
        TokenModel::Str(text)
    }
}

/// The runs of `s` from position `i` on.
pub open spec fn runs_from(s: Seq<char>, i: int) -> Seq<TokenModel>
    decreases s.len() - i,
    via runs_from_decreases
{
    if i < 0 || i >= s.len() {
        Seq::empty()
    } else {
        let digits = is_digit(s[i]);
        let j = i + 1 + run_len(s, i + 1, digits);
        seq![run_token(s.subrange(i, j), digits)] + runs_from(s, j)
    }
}

#[via_fn]
proof fn runs_from_decreases(s: Seq<char>, i: int) {
    if 0 <= i < s.len() {
        lemma_run_len_bound(s, i + 1, is_digit(s[i]));
    }
}

/// The tokens of a version component: its runs, with an empty text run put
/// in front where the component starts with a digit, so that text and number
/// alternate from the first token on.
pub open spec fn component_tokens(s: Seq<char>) -> Seq<TokenModel> {
    if s.len() > 0 && is_digit(s[0]) {
        seq![TokenModel::Str(Seq::empty())] + runs_from(s, 0)
    } else {
        runs_from(s, 0)
    }
}

/// Cuts a version component (the upstream part or the revision) into
/// alternating tokens.
pub fn tokenize(version: &str) -> (tokens: Vec<Token>)
    ensures
        token_models(tokens@) == component_tokens(version@),
{
    let chars = chars_of(version);
    let ghost s = chars@;
    let n = chars.len();
    let mut tokens: Vec<Token> = Vec::new();
    if n > 0 && digit(chars[0]) {
        tokens.push(Token::Str(String::new()));
    }
    let ghost head = token_models(tokens@);
    assert(head + runs_from(s, 0) =~= component_tokens(s));
    let mut i: usize = 0;
    while i < n
        invariant
            i <= n,
            n == chars.len(),
            s == chars@,
            token_models(tokens@) + runs_from(s, i as int) == component_tokens(s),
        decreases n - i,
    {
        let ghost before = token_models(tokens@);
        let ghost rest = runs_from(s, i as int);
        let digits = digit(chars[i]);
        let mut j: usize = i + 1;
        while j < n && digit(chars[j]) == digits
            invariant
                i < j <= n,
                n == chars.len(),
                s == chars@,
                run_len(s, i + 1, digits) == (j - (i + 1)) + run_len(s, j as int, digits),
            decreases n - j,
        {
            j = j + 1;
        }
        let token = if digits {
            let value = match parse_u64(&chars, i, j) {
                Some(v) => v,
                None => 0,
            };
            Token::Num(value)
        } else {
            Token::Str(string_of(&chars, i, j))
        };
        assert(rest == seq![token@] + runs_from(s, j as int));
        tokens.push(token);
        assert(token_models(tokens@) =~= before.push(token@));
        assert(token_models(tokens@) + runs_from(s, j as int) =~= before + rest);
        i = j;
    }
    assert(runs_from(s, i as int) =~= Seq::empty());
    assert(token_models(tokens@) + runs_from(s, i as int) =~= token_models(tokens@));
    tokens
}

/// How two differing characters of text runs compare: `~` is below
/// everything, letters are below other characters, and otherwise the code
/// point decides.
pub open spec fn char_order(c1: char, c2: char) -> Sign {
    if c1 == '~' {
        Sign::Less
    } else if c2 == '~' {
        Sign::Greater
    } else if is_alphabetic(c1) != is_alphabetic(c2) {
        if is_alphabetic(c1) {
            Sign::Less
        } else {
            Sign::Greater
        }
    } else {
        int_order(c1 as int, c2 as int)
    }
}

/// How two text runs compare from position `i` on. A run that has ended is
/// above one that goes on with `~` and below one that goes on with anything
/// else.
pub open spec fn text_order_from(a: Seq<char>, b: Seq<char>, i: int) -> Sign
    decreases a.len() + b.len() - i,
{
    if i < 0 || (i >= a.len() && i >= b.len()) {
        Sign::Equal
    } else if i >= a.len() {
        if b[i] == '~' {
            Sign::Greater
        } else {
            Sign::Less
        }
    } else if i >= b.len() {
        if a[i] == '~' {
            Sign::Less
        } else {
            Sign::Greater
        }
    } else if a[i] == b[i] {
        text_order_from(a, b, i + 1)
    } else {
        char_order(a[i], b[i])
    }
}

/// How two text runs compare.
pub open spec fn text_order(a: Seq<char>, b: Seq<char>) -> Sign {
    text_order_from(a, b, 0)
}

/// Compares two text runs.
#[verifier::loop_isolation(false)]
pub fn compare_str_token(a: &str, b: &str) -> (r: Sign)
    ensures
        r == text_order(a@, b@),
{
    let x = chars_of(a);
    let y = chars_of(b);
    let mut i: usize = 0;
    loop
        invariant
            i <= x.len() || i <= y.len(),
            text_order(x@, y@) == text_order_from(x@, y@, i as int),
        decreases x.len() + y.len() - i,
    {
        if i >= x.len() && i >= y.len() {
            return Sign::Equal;
        } else if i >= x.len() {
            if y[i] == '~' {
                return Sign::Greater;
            } else {
                return Sign::Less;
            }
        } else if i >= y.len() {
            if x[i] == '~' {
                return Sign::Less;
            } else {
                return Sign::Greater;
            }
        }
        let c1 = x[i];
        let c2 = y[i];
        if c1 != c2 {
            if c1 == '~' {
                return Sign::Less;
            } else if c2 == '~' {
                return Sign::Greater;
            }
            let letter1 = alphabetic(c1);
            let letter2 = alphabetic(c2);
            if letter1 != letter2 {
                if letter1 {
                    return Sign::Less;
                } else {
                    return Sign::Greater;
                }
            }
            return compare_char(c1, c2);
        }
        i = i + 1;
    }
}

/// How two tokens compare: numbers by value, text runs by [`text_order`],
/// and a number is above a text run.
pub open spec fn token_order(a: TokenModel, b: TokenModel) -> Sign {
    match (a, b) {
        (TokenModel::Num(x), TokenModel::Num(y)) => int_order(x as int, y as int),
        (TokenModel::Str(x), TokenModel::Str(y)) => text_order(x, y),
        (TokenModel::Num(_), TokenModel::Str(_)) => Sign::Greater,
        (TokenModel::Str(_), TokenModel::Num(_)) => Sign::Less,
    }
}

/// Compares two tokens.
pub fn compare_tokens(a: &Token, b: &Token) -> (r: Sign)
    ensures
        r == token_order(a@, b@),
{
    match (a, b) {
        (Token::Num(n1), Token::Num(n2)) => compare_u64(*n1, *n2),
        (Token::Str(s1), Token::Str(s2)) => compare_str_token(s1.as_str(), s2.as_str()),
        (Token::Num(_), Token::Str(_)) => Sign::Greater,
        (Token::Str(_), Token::Num(_)) => Sign::Less,
    }
}

/// The token is a text run that starts with `~`.
pub open spec fn is_tilde_token(t: TokenModel) -> bool {
    t matches TokenModel::Str(s) && s.len() > 0 && s[0] == '~'
}

/// How two token sequences compare from position `i` on. A sequence that has
/// ended is above one that goes on with a `~` run and below any other.
pub open spec fn tokens_order_from(a: Seq<TokenModel>, b: Seq<TokenModel>, i: int) -> Sign
    decreases a.len() + b.len() - i,
{
    if i < 0 || (i >= a.len() && i >= b.len()) {
        Sign::Equal
    } else if i >= a.len() {
        if is_tilde_token(b[i]) {
            Sign::Greater
        } else {
            Sign::Less
        }
    } else if i >= b.len() {
        if is_tilde_token(a[i]) {
            Sign::Less
        } else {
            Sign::Greater
        }
    } else {
        token_order(a[i], b[i]).or_next(tokens_order_from(a, b, i + 1))
    }
}

/// How two token sequences compare.
pub open spec fn tokens_order(a: Seq<TokenModel>, b: Seq<TokenModel>) -> Sign {
    tokens_order_from(a, b, 0)
}

/// Whether a token is a text run that starts with `~`.
fn tilde_token(t: &Token) -> (r: bool)
    ensures
        r == is_tilde_token(t@),
{
    match t {
        Token::Str(s) => {
            let c = chars_of(s.as_str());
            c.len() > 0 && c[0] == '~'
        },
        Token::Num(_) => false,
    }
}

/// Compares two token sequences position by position. Gives `None` where
/// they do not differ.
pub fn compare_token_vecs(tokens1: &Vec<Token>, tokens2: &Vec<Token>) -> (r: Option<Sign>)
    ensures
        r is None <==> tokens_order(token_models(tokens1@), token_models(tokens2@)) == Sign::Equal,
        r matches Some(o) ==> o == tokens_order(token_models(tokens1@), token_models(tokens2@)),
{
    let ghost a = token_models(tokens1@);
    let ghost b = token_models(tokens2@);
    let mut i: usize = 0;
    loop
        invariant
            i <= tokens1.len() || i <= tokens2.len(),
            a == token_models(tokens1@),
            b == token_models(tokens2@),
            tokens_order(a, b) == tokens_order_from(a, b, i as int),
        decreases tokens1.len() + tokens2.len() - i,
    {
        if i >= tokens1.len() && i >= tokens2.len() {
            return None;
        } else if i >= tokens1.len() {
            if tilde_token(&tokens2[i]) {
                return Some(Sign::Greater);
            } else {
                return Some(Sign::Less);
            }
        } else if i >= tokens2.len() {
            if tilde_token(&tokens1[i]) {
                return Some(Sign::Less);
            } else {
                return Some(Sign::Greater);
            }
        }
        let o = compare_tokens(&tokens1[i], &tokens2[i]);
        if o != Sign::Equal {
            return Some(o);
        }
        i = i + 1;
    }
}

/// The order of Debian versions: by epoch, then by upstream part, then by
/// revision.
pub open spec fn debian_order(a: Seq<char>, b: Seq<char>) -> Sign {
    let x = version_parts(a);
    let y = version_parts(b);
    int_order(x.epoch as int, y.epoch as int).or_next(
        tokens_order(component_tokens(x.upstream), component_tokens(y.upstream)).or_next(
            tokens_order(component_tokens(x.revision), component_tokens(y.revision)),
        ),
    )
}

impl DebianVersion {
    /// Compares two versions in the order of Debian versions.
    pub fn compare(&self, other: &DebianVersion) -> (r: Sign)
        ensures
            r == debian_order(self@, other@),
    {
        let (epoch1, upstream1, revision1) = split(self);
        let (epoch2, upstream2, revision2) = split(other);
        let by_epoch = compare_u64(epoch1, epoch2);
        if by_epoch != Sign::Equal {
            return by_epoch;
        }
        let tokens1 = tokenize(upstream1.as_str());
        let tokens2 = tokenize(upstream2.as_str());
        match compare_token_vecs(&tokens1, &tokens2) {
            None => {},
            Some(o) => {
                return o;
            },
        }
        let tokens1 = tokenize(revision1.as_str());
        let tokens2 = tokenize(revision2.as_str());
        match compare_token_vecs(&tokens1, &tokens2) {
            None => {},
            Some(o) => {
                return o;
            },
        }
        Sign::Equal
    }

    /// The comparison as a standard `Ordering`.
    pub fn cmp(&self, other: &DebianVersion) -> (r: Ordering)
        ensures
            r == debian_order(self@, other@).ordering(),
    {
        self.compare(other).to_ordering()
    }

    /// Reads a version. Every text is a version.
    pub fn from_str(s: &str) -> (r: Result<DebianVersion, String>)
        ensures
            r matches Ok(v) && v@ == s@,
    {
        Ok(DebianVersion(s.to_string()))
    }

    /// The text of the version.
    pub fn to_string(&self) -> (s: String)
        ensures
            s@ == self@,
    {
        self.0.clone()
    }
}

impl PartialOrd for DebianVersion {
    fn partial_cmp(&self, other: &Self) -> (r: Option<Ordering>) {
        Some(self.compare(other).to_ordering())
    }
}

impl vstd::std_specs::cmp::PartialOrdSpecImpl for DebianVersion {
    open spec fn obeys_partial_cmp_spec() -> bool {
        true
    }

    open spec fn partial_cmp_spec(&self, other: &Self) -> Option<Ordering> {
        Some(debian_order(self@, other@).ordering())
    }
}

impl VersionOrder for DebianVersion {
    open spec fn text(&self) -> Seq<char> {
        self@
    }

    open spec fn order(a: Seq<char>, b: Seq<char>) -> Sign {
        debian_order(a, b)
    }

    fn compare(&self, other: &Self) -> (r: Sign) {
        DebianVersion::compare(self, other)
    }

    fn duplicate(&self) -> (r: Self) {
        DebianVersion(self.0.clone())
    }

    fn same(&self, other: &Self) -> (r: bool) {
        self.0 == other.0
    }

    fn show(&self) -> (s: String) {
        self.0.clone()
    }
}

impl ConsistentOrder for DebianVersion {
    proof fn lemma_order_flips(a: Seq<char>, b: Seq<char>) {
        lemma_debian_order_total(a, b);
    }
}

/// Two text runs compared the other way round give the opposite result.
pub proof fn lemma_text_order_flip(a: Seq<char>, b: Seq<char>, i: int)
    ensures
        text_order_from(b, a, i) == text_order_from(a, b, i).flip(),
    decreases a.len() + b.len() - i,
{
    if 0 <= i && i < a.len() && i < b.len() && a[i] == b[i] {
        lemma_text_order_flip(a, b, i + 1);
    }
}

/// Two tokens compared the other way round give the opposite result.
pub proof fn lemma_token_order_flip(a: TokenModel, b: TokenModel)
    ensures
        token_order(b, a) == token_order(a, b).flip(),
{
    match (a, b) {
        (TokenModel::Str(x), TokenModel::Str(y)) => {
            lemma_text_order_flip(x, y, 0);
        },
        _ => {},
    }
}

/// Two token sequences compared the other way round give the opposite
/// result.
pub proof fn lemma_tokens_order_flip(a: Seq<TokenModel>, b: Seq<TokenModel>, i: int)
    ensures
        tokens_order_from(b, a, i) == tokens_order_from(a, b, i).flip(),
    decreases a.len() + b.len() - i,
{
    if 0 <= i && i < a.len() && i < b.len() {
        lemma_token_order_flip(a[i], b[i]);
        lemma_tokens_order_flip(a, b, i + 1);
    }
}

/// For any two Debian versions exactly one of `a < b`, `a = b` and `a > b`
/// holds: the comparison gives one of three answers, and asking the other way
/// round gives the opposite one.
pub proof fn lemma_debian_order_total(a: Seq<char>, b: Seq<char>)
    ensures
        debian_order(b, a) == debian_order(a, b).flip(),
        debian_order(a, a) == Sign::Equal,
{
    let x = version_parts(a);
    let y = version_parts(b);
    lemma_tokens_order_flip(component_tokens(x.upstream), component_tokens(y.upstream), 0);
    lemma_tokens_order_flip(component_tokens(x.revision), component_tokens(y.revision), 0);
    lemma_tokens_order_flip(component_tokens(x.upstream), component_tokens(x.upstream), 0);
    lemma_tokens_order_flip(component_tokens(x.revision), component_tokens(x.revision), 0);
}

/// The order of text runs runs along chains.
pub proof fn lemma_text_order_transitive(a: Seq<char>, b: Seq<char>, c: Seq<char>, i: int)
    requires
        0 <= i,
    ensures
        chains(text_order_from(a, b, i), text_order_from(b, c, i), text_order_from(a, c, i)),
    decreases a.len() + b.len() + c.len() - i,
{
    if i < a.len() && i < b.len() && i < c.len() && a[i] == b[i] && b[i] == c[i] {
        lemma_text_order_transitive(a, b, c, i + 1);
    }
}

/// The order of tokens runs along chains.
pub proof fn lemma_token_order_transitive(a: TokenModel, b: TokenModel, c: TokenModel)
    ensures
        chains(token_order(a, b), token_order(b, c), token_order(a, c)),
{
    match (a, b, c) {
        (TokenModel::Str(x), TokenModel::Str(y), TokenModel::Str(z)) => {
            lemma_text_order_transitive(x, y, z, 0);
        },
        _ => {},
    }
}

/// A text run that starts with `~` is below every token that does not.
pub proof fn lemma_tilde_is_lowest(a: TokenModel, b: TokenModel)
    requires
        is_tilde_token(a),
        !is_tilde_token(b),
    ensures
        token_order(a, b) == Sign::Less,
        token_order(b, a) == Sign::Greater,
{
}

/// The order of token sequences runs along chains.
pub proof fn lemma_tokens_order_transitive(
    a: Seq<TokenModel>,
    b: Seq<TokenModel>,
    c: Seq<TokenModel>,
    i: int,
)
    requires
        0 <= i,
    ensures
        chains(
            tokens_order_from(a, b, i),
            tokens_order_from(b, c, i),
            tokens_order_from(a, c, i),
        ),
    decreases a.len() + b.len() + c.len() - i,
{
    if i < a.len() && i < b.len() && i < c.len() {
        lemma_token_order_transitive(a[i], b[i], c[i]);
        if token_order(a[i], b[i]) == Sign::Equal && token_order(b[i], c[i]) == Sign::Equal {
            lemma_tokens_order_transitive(a, b, c, i + 1);
        }
    } else {
        if i < a.len() && i < b.len() {
            if is_tilde_token(a[i]) != is_tilde_token(b[i]) {
                if is_tilde_token(a[i]) {
                    lemma_tilde_is_lowest(a[i], b[i]);
                } else {
                    lemma_tilde_is_lowest(b[i], a[i]);
                }
            }
        }
        if i < b.len() && i < c.len() {
            if is_tilde_token(b[i]) != is_tilde_token(c[i]) {
                if is_tilde_token(b[i]) {
                    lemma_tilde_is_lowest(b[i], c[i]);
                } else {
                    lemma_tilde_is_lowest(c[i], b[i]);
                }
            }
        }
        if i < a.len() && i < c.len() {
            if is_tilde_token(a[i]) != is_tilde_token(c[i]) {
                if is_tilde_token(a[i]) {
                    lemma_tilde_is_lowest(a[i], c[i]);
                } else {
                    lemma_tilde_is_lowest(c[i], a[i]);
                }
            }
        }
    }
}

/// The order of Debian versions is a total order: every two versions are
/// comparable, consistently in both directions and along chains.
pub proof fn lemma_debian_order_is_total()
    ensures
        order_is_total::<DebianVersion>(),
{
    reveal(order_is_total);
    assert forall|a: Seq<char>, b: Seq<char>| #[trigger]
        DebianVersion::order(a, b) == DebianVersion::order(b, a).flip() by {
        lemma_debian_order_total(b, a);
    }
    assert forall|a: Seq<char>, b: Seq<char>, c: Seq<char>|
        #![trigger DebianVersion::order(a, b), DebianVersion::order(b, c)]
        DebianVersion::order(a, b) != Sign::Greater && DebianVersion::order(b, c)
            != Sign::Greater implies {
        &&& DebianVersion::order(a, c) != Sign::Greater
        &&& (DebianVersion::order(a, b) == Sign::Less || DebianVersion::order(b, c)
            == Sign::Less) ==> DebianVersion::order(a, c) == Sign::Less
    } by {
        let x = version_parts(a);
        let y = version_parts(b);
        let z = version_parts(c);
        lemma_tokens_order_transitive(
            component_tokens(x.upstream),
            component_tokens(y.upstream),
            component_tokens(z.upstream),
            0,
        );
        lemma_tokens_order_transitive(
            component_tokens(x.revision),
            component_tokens(y.revision),
            component_tokens(z.revision),
            0,
        );
    }
}

impl crate::order::TotalOrder for DebianVersion {
    proof fn lemma_order_is_total() {
        lemma_debian_order_is_total();
    }
}

} // verus!
