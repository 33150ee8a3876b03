//! Alpine package versions and their order.
//!
//! A version is cut into tokens: runs of digits, runs of other characters,
//! the suffixes that follow `_`, and the revision mark `-r`. Two versions are
//! compared token by token.

use crate::text::{
    all_digits, alphabetic, chars_of, compare_lex, compare_u64, digit, int_order, is_alphabetic,
    is_digit, lemma_lex_order_flip, lemma_lex_order_transitive, lex_order, number_or_zero,
    parse_u64, string_of, Sign,
};
use crate::order::{chains, order_is_total, ConsistentOrder, VersionOrder};
use core::cmp::Ordering;
use vstd::prelude::*;

verus! {

/// An Alpine version, kept as the text it was written as.
#[derive(Clone, Debug, PartialEq, Eq, Hash)]
pub struct AlpineVersion(pub String);

impl View for AlpineVersion {
    type V = Seq<char>;

    open spec fn view(&self) -> Seq<char> {
        self.0@
    }
}

/// The suffixes that may follow `_` in a version, from the earliest
/// pre-release to the latest post-release. `Release` stands for no suffix.
#[derive(Clone, Copy, Debug, PartialEq, Eq, Structural)]
pub enum SuffixType {
    Alpha,
    Beta,
    Pre,
    Rc,
    Release,
    Patch,
    Rev,
    Git,
    Svn,
    Cvs,
    Hg,
}

impl SuffixType {
    /// Position of the suffix in the order of suffixes.
    pub open spec fn rank(self) -> int {
        match self {
            SuffixType::Alpha => 0,
            SuffixType::Beta => 1,
            SuffixType::Pre => 2,
            SuffixType::Rc => 3,
            SuffixType::Release => 4,
            SuffixType::Patch => 5,
            SuffixType::Rev => 6,
            SuffixType::Git => 7,
            SuffixType::Svn => 8,
            SuffixType::Cvs => 9,
            SuffixType::Hg => 10,
        }
    }

    /// A pre-release suffix sorts before the version without it.
    pub open spec fn is_pre_release(self) -> bool {
        self.rank() < SuffixType::Release.rank()
    }

    /// Exec counterpart of [`SuffixType::rank`].
    pub fn position(self) -> (r: u64)
        ensures
            r == self.rank(),
    {
        match self {
            SuffixType::Alpha => 0,
            SuffixType::Beta => 1,
            SuffixType::Pre => 2,
            SuffixType::Rc => 3,
            SuffixType::Release => 4,
            SuffixType::Patch => 5,
            SuffixType::Rev => 6,
            SuffixType::Git => 7,
            SuffixType::Svn => 8,
            SuffixType::Cvs => 9,
            SuffixType::Hg => 10,
        }
    }

    /// Exec counterpart of [`SuffixType::is_pre_release`].
    pub fn pre_release(self) -> (r: bool)
        ensures
            r == self.is_pre_release(),
    {
        self.position() < 4
    }
}

/// One token of an Alpine version.
#[derive(Clone, Debug, PartialEq, Eq)]
pub enum Token {
    /// A run of ASCII digits.
    Num(String),
    /// A run of other characters, the revision mark `-r`, or an unknown
    /// suffix together with its `_`.
    Str(String),
    /// A known suffix.
    Suffix(SuffixType),
}

/// What a [`Token`] stands for.
pub enum TokenModel {
    Num(Seq<char>),
    Str(Seq<char>),
    Suffix(SuffixType),
}

impl View for Token {
    type V = TokenModel;

    open spec fn view(&self) -> TokenModel {
        match self {
            Token::Num(s) => TokenModel::Num(s@),
            Token::Str(s) => TokenModel::Str(s@),
            Token::Suffix(t) => TokenModel::Suffix(*t),
        }
    }
}

/// The models of a sequence of tokens.
pub open spec fn token_models(tokens: Seq<Token>) -> Seq<TokenModel> {
    tokens.map_values(|t: Token| t@)
}

/// The revision mark `-r` stands at position `i` of `s`.
pub open spec fn revision_mark(s: Seq<char>, i: int) -> bool {
    0 <= i && i + 1 < s.len() && s[i] == '-' && s[i + 1] == 'r'
}

/// Number of characters from position `j` on that continue a run of digits
/// (`digits`) or of other characters (`!digits`). A run ends at the end of
/// the text, at `_`, at a revision mark, and where the kind of character
/// changes.
pub open spec fn run_len(s: Seq<char>, j: int, digits: bool) -> nat
    decreases s.len() - j,
{
    if j < 0 || j >= s.len() || s[j] == '_' || revision_mark(s, j) || is_digit(s[j]) != digits {
        0
    } else {
        1 + run_len(s, j + 1, digits)
    }
}

/// Number of alphabetic characters from position `j` on.
pub open spec fn letters_len(s: Seq<char>, j: int) -> nat
    decreases s.len() - j,
{
    if 0 <= j < s.len() && is_alphabetic(s[j]) {
        1 + letters_len(s, j + 1)
    } else {
        0
    }
}

/// The token for the letters `name` that followed a `_`.
pub open spec fn suffix_token(name: Seq<char>) -> TokenModel {
    if name == "alpha"@ {
        TokenModel::Suffix(SuffixType::Alpha)
    } else if name == "beta"@ {
        TokenModel::Suffix(SuffixType::Beta)
    } else if name == "pre"@ {
        TokenModel::Suffix(SuffixType::Pre)
    } else if name == "rc"@ {
        TokenModel::Suffix(SuffixType::Rc)
    } else if name == "p"@ {
        TokenModel::Suffix(SuffixType::Patch)
    } else if name == "r"@ {
        TokenModel::Suffix(SuffixType::Rev)
    } else if name == "git"@ {
        TokenModel::Suffix(SuffixType::Git)
    } else if name == "svn"@ {
        TokenModel::Suffix(SuffixType::Svn)
    } else if name == "cvs"@ {
        TokenModel::Suffix(SuffixType::Cvs)
    } else if name == "hg"@ {
        TokenModel::Suffix(SuffixType::Hg)
    } else {
        TokenModel::Str(seq!['_'] + name)
    }
}

/// A run never reaches past the end of the text.
pub proof fn lemma_run_len_bound(s: Seq<char>, j: int, digits: bool)
    requires
        0 <= j <= s.len(),
    ensures
        j + run_len(s, j, digits) <= s.len(),
    decreases s.len() - j,
{
    if !(j >= s.len() || s[j] == '_' || revision_mark(s, j) || is_digit(s[j]) != digits) {
        lemma_run_len_bound(s, j + 1, digits);
    }
}

/// A run of letters never reaches past the end of the text.
pub proof fn lemma_letters_len_bound(s: Seq<char>, j: int)
    requires
        0 <= j <= s.len(),
    ensures
        j + letters_len(s, j) <= s.len(),
    decreases s.len() - j,
{
    if j < s.len() && is_alphabetic(s[j]) {
        lemma_letters_len_bound(s, j + 1);
    }
}

/// The tokens of `s` from position `i` on.
pub open spec fn tokens_from(s: Seq<char>, i: int) -> Seq<TokenModel>
    decreases s.len() - i,
    via tokens_from_decreases
{
    if i < 0 || i >= s.len() {
        Seq::empty()
    } else if s[i] == '_' {
        let j = i + 1 + letters_len(s, i + 1);
        seq![suffix_token(s.subrange(i + 1, j))] + tokens_from(s, j)
    } else if revision_mark(s, i) {
        seq![TokenModel::Str("-r"@)] + tokens_from(s, i + 2)
    } else {
        let j = i + 1 + run_len(s, i + 1, is_digit(s[i]));
        let text = s.subrange(i, j);
        let token = if is_digit(s[i]) {
            TokenModel::Num(text)
        } else {
            TokenModel::Str(text)
        };
        seq![token] + tokens_from(s, j)
    }
}

#[via_fn]
proof fn tokens_from_decreases(s: Seq<char>, i: int) {
    if 0 <= i < s.len() {
        lemma_letters_len_bound(s, i + 1);
        lemma_run_len_bound(s, i + 1, is_digit(s[i]));
    }
}

/// The tokens of a version.
pub open spec fn alpine_tokens(s: Seq<char>) -> Seq<TokenModel> {
    tokens_from(s, 0)
}

/// Builds the token for the letters `chars[from..to]` that followed a `_`.
fn make_suffix_token(chars: &Vec<char>, from: usize, to: usize) -> (t: Token)
    requires
        1 <= from <= to <= chars.len(),
        chars@[from - 1] == '_',
    ensures
        t@ == suffix_token(chars@.subrange(from as int, to as int)),
{
    let name = string_of(chars, from, to);
    if name == "alpha".to_string() {
        Token::Suffix(SuffixType::Alpha)
    } else if name == "beta".to_string() {
        Token::Suffix(SuffixType::Beta)
    } else if name == "pre".to_string() {
        Token::Suffix(SuffixType::Pre)
    } else if name == "rc".to_string() {
        Token::Suffix(SuffixType::Rc)
    } else if name == "p".to_string() {
        Token::Suffix(SuffixType::Patch)
    } else if name == "r".to_string() {
        Token::Suffix(SuffixType::Rev)
    } else if name == "git".to_string() {
        Token::Suffix(SuffixType::Git)
    } else if name == "svn".to_string() {
        Token::Suffix(SuffixType::Svn)
    } else if name == "cvs".to_string() {
        Token::Suffix(SuffixType::Cvs)
    } else if name == "hg".to_string() {
        Token::Suffix(SuffixType::Hg)
    } else {
        let text = string_of(chars, from - 1, to);
        assert(chars@.subrange(from - 1, to as int) =~= seq!['_'] + chars@.subrange(
            from as int,
            to as int,
        ));
        Token::Str(text)
    }
}

/// Cuts a version into its tokens.
pub fn tokenize(version: &str) -> (tokens: Vec<Token>)
    ensures
        token_models(tokens@) == alpine_tokens(version@),
{
    let chars = chars_of(version);
    let ghost s = chars@;
    let n = chars.len();
    let mut tokens: Vec<Token> = Vec::new();
    let mut i: usize = 0;
    assert(token_models(tokens@) + tokens_from(s, 0) =~= tokens_from(s, 0));
    while i < n
        invariant
            i <= n,
            n == chars.len(),
            s == chars@,
            token_models(tokens@) + tokens_from(s, i as int) == tokens_from(s, 0),
        decreases n - i,
    {
        let ghost before = token_models(tokens@);
        let ghost rest = tokens_from(s, i as int);
        let token: Token;
        let next: usize;
        if chars[i] == '_' {
            let mut j: usize = i + 1;
            while j < n && alphabetic(chars[j])
                invariant
                    i < j <= n,
                    n == chars.len(),
                    s == chars@,
                    letters_len(s, i + 1) == (j - (i + 1)) + letters_len(s, j as int),
                decreases n - j,
            {
                j = j + 1;
            }
            token = make_suffix_token(&chars, i + 1, j);
            next = j;
        } else if chars[i] == '-' && i + 1 < n && chars[i + 1] == 'r' {
            token = Token::Str("-r".to_string());
            next = i + 2;
        } else {
            let digits = digit(chars[i]);
            let mut j: usize = i + 1;
            while j < n && chars[j] != '_' && !(chars[j] == '-' && j + 1 < n && chars[j + 1] == 'r')
                && digit(chars[j]) == digits
                invariant
                    i < j <= n,
                    n == chars.len(),
                    s == chars@,
                    run_len(s, i + 1, digits) == (j - (i + 1)) + run_len(s, j as int, digits),
                decreases n - j,
            {
                j = j + 1;
            }
            let text = string_of(&chars, i, j);
            token = if digits {
                Token::Num(text)
            } else {
                Token::Str(text)
            };
            next = j;
        }
        assert(rest == seq![token@] + tokens_from(s, next as int));
        tokens.push(token);
        assert(token_models(tokens@) =~= before.push(token@));
        assert(token_models(tokens@) + tokens_from(s, next as int) =~= before + rest);
        i = next;
    }
    assert(tokens_from(s, i as int) =~= Seq::empty());
    assert(token_models(tokens@) + tokens_from(s, i as int) =~= token_models(tokens@));
    tokens
}

/// The digits `s` start with a zero.
pub open spec fn leading_zero(s: Seq<char>) -> bool {
    s.len() > 0 && s[0] == '0'
}

/// How two tokens at the same position compare. Numbers are compared by
/// value, except that past the first token a number written with a leading
/// zero makes the two compare as text.
pub open spec fn token_order(a: TokenModel, b: TokenModel, first: bool) -> Sign {
    match (a, b) {
        (TokenModel::Num(x), TokenModel::Num(y)) => {
            if !first && (leading_zero(x) || leading_zero(y)) {
                lex_order(x, y)
            } else {
                int_order(number_or_zero(x) as int, number_or_zero(y) as int)
            }
        },
        (TokenModel::Str(x), TokenModel::Str(y)) => lex_order(x, y),
        (TokenModel::Suffix(x), TokenModel::Suffix(y)) => int_order(x.rank(), y.rank()),
        (TokenModel::Suffix(x), _) => Sign::Less,
        (_, TokenModel::Suffix(y)) => Sign::Greater,
        (TokenModel::Num(_), TokenModel::Str(_)) => Sign::Greater,
        (TokenModel::Str(_), TokenModel::Num(_)) => Sign::Less,
    }
}

/// The token is a pre-release suffix.
pub open spec fn is_pre_release_token(t: TokenModel) -> bool {
    t matches TokenModel::Suffix(x) && x.is_pre_release()
}

/// How two token sequences compare from position `i` on. Where one sequence
/// has ended, it is the greater one if the other goes on with a pre-release
/// suffix, and the smaller one otherwise.
pub open spec fn tokens_order_from(a: Seq<TokenModel>, b: Seq<TokenModel>, i: int) -> Sign
    decreases a.len() + b.len() - i,
{
    if i < 0 || (i >= a.len() && i >= b.len()) {
        Sign::Equal
    } else if i >= a.len() {
        if is_pre_release_token(b[i]) {
            Sign::Greater
        } else {
            Sign::Less
        }
    } else if i >= b.len() {
        if is_pre_release_token(a[i]) {
            Sign::Less
        } else {
            Sign::Greater
        }
    } else {
        token_order(a[i], b[i], i == 0).or_next(tokens_order_from(a, b, i + 1))
    }
}

/// The order of Alpine versions. The empty version is below every other.
pub open spec fn alpine_order(a: Seq<char>, b: Seq<char>) -> Sign {
    if a.len() == 0 && b.len() == 0 {
        Sign::Equal
    } else if a.len() == 0 {
        Sign::Less
    } else if b.len() == 0 {
        Sign::Greater
    } else {
        tokens_order_from(alpine_tokens(a), alpine_tokens(b), 0)
    }
}

/// Whether a run of digits starts with a zero.
fn starts_with_zero(digits: &Vec<char>) -> (r: bool)
    ensures
        r == leading_zero(digits@),
{
    digits.len() > 0 && digits[0] == '0'
}

/// Compares two tokens that stand at the same position.
pub fn compare_tokens(a: &Token, b: &Token, first: bool) -> (r: Sign)
    ensures
        r == token_order(a@, b@, first),
{
    match (a, b) {
        (Token::Num(x), Token::Num(y)) => {
            let xs = chars_of(x.as_str());
            let ys = chars_of(y.as_str());
            if !first && (starts_with_zero(&xs) || starts_with_zero(&ys)) {
                compare_lex(&xs, &ys)
            } else {
                assert(xs@.subrange(0, xs@.len() as int) == xs@);
                assert(ys@.subrange(0, ys@.len() as int) == ys@);
                let n1 = match parse_u64(&xs, 0, xs.len()) {
                    Some(n) => n,
                    None => 0,
                };
                let n2 = match parse_u64(&ys, 0, ys.len()) {
                    Some(n) => n,
                    None => 0,
                };
                compare_u64(n1, n2)
            }
        },
        (Token::Str(x), Token::Str(y)) => {
            let xs = chars_of(x.as_str());
            let ys = chars_of(y.as_str());
            compare_lex(&xs, &ys)
        },
        (Token::Suffix(x), Token::Suffix(y)) => compare_u64(x.position(), y.position()),
        (Token::Suffix(_), _) => Sign::Less,
        (_, Token::Suffix(_)) => Sign::Greater,
        (Token::Num(_), Token::Str(_)) => Sign::Greater,
        (Token::Str(_), Token::Num(_)) => Sign::Less,
    }
}

/// Whether a token is a pre-release suffix.
fn pre_release_token(t: &Token) -> (r: bool)
    ensures
        r == is_pre_release_token(t@),
{
    match t {
        Token::Suffix(x) => x.pre_release(),
        _ => false,
    }
}

impl AlpineVersion {
    /// Compares two versions in the order of Alpine versions.
    #[verifier::loop_isolation(false)]
    pub fn compare(&self, other: &AlpineVersion) -> (r: Sign)
        ensures
            r == alpine_order(self@, other@),
    {
        let a_empty = self.0.as_str().unicode_len() == 0;
        let b_empty = other.0.as_str().unicode_len() == 0;
        if a_empty && b_empty {
            return Sign::Equal;
        }
        if a_empty {
            return Sign::Less;
        }
        if b_empty {
            return Sign::Greater;
        }
        let ta = tokenize(self.0.as_str());
        let tb = tokenize(other.0.as_str());
        let ghost ma = token_models(ta@);
        let ghost mb = token_models(tb@);
        let mut i: usize = 0;
        loop
            invariant
                i <= ta.len() || i <= tb.len(),
                ma == token_models(ta@),
                mb == token_models(tb@),
                tokens_order_from(ma, mb, 0) == tokens_order_from(ma, mb, i as int),
            decreases ta.len() + tb.len() - i,
        {
            if i >= ta.len() && i >= tb.len() {
                return Sign::Equal;
            } else if i >= ta.len() {
                if pre_release_token(&tb[i]) {
                    return Sign::Greater;
                } else {
                    return Sign::Less;
                }
            } else if i >= tb.len() {
                if pre_release_token(&ta[i]) {
                    return Sign::Less;
                } else {
                    return Sign::Greater;
                }
            }
            let o = compare_tokens(&ta[i], &tb[i], i == 0);
            if o != Sign::Equal {
                return o;
            }
            i = i + 1;
        }
    }

    /// The comparison as a standard `Ordering`.
    pub fn cmp(&self, other: &AlpineVersion) -> (r: Ordering)
        ensures
            r == alpine_order(self@, other@).ordering(),
    {
        self.compare(other).to_ordering()
    }

    /// Reads a version. Every text is a version.
    pub fn from_str(s: &str) -> (r: Result<AlpineVersion, String>)
        ensures
            r matches Ok(v) && v@ == s@,
    {
        Ok(AlpineVersion(s.to_string()))
    }

    /// The text of the version.
    pub fn to_string(&self) -> (s: String)
        ensures
            s@ == self@,
    {
        self.0.clone()
    }
}

impl PartialOrd for AlpineVersion {
    fn partial_cmp(&self, other: &Self) -> (r: Option<Ordering>) {
        Some(self.compare(other).to_ordering())
    }
}

impl vstd::std_specs::cmp::PartialOrdSpecImpl for AlpineVersion {
    open spec fn obeys_partial_cmp_spec() -> bool {
        true
    }

    open spec fn partial_cmp_spec(&self, other: &Self) -> Option<Ordering> {
        Some(alpine_order(self@, other@).ordering())
    }
}

impl VersionOrder for AlpineVersion {
    open spec fn text(&self) -> Seq<char> {
        self@
    }

    open spec fn order(a: Seq<char>, b: Seq<char>) -> Sign {
        alpine_order(a, b)
    }

    fn compare(&self, other: &Self) -> (r: Sign) {
        AlpineVersion::compare(self, other)
    }

    fn duplicate(&self) -> (r: Self) {
        AlpineVersion(self.0.clone())
    }

    fn same(&self, other: &Self) -> (r: bool) {
        self.0 == other.0
    }

    fn show(&self) -> (s: String) {
        self.0.clone()
    }
}

impl ConsistentOrder for AlpineVersion {
    proof fn lemma_order_flips(a: Seq<char>, b: Seq<char>) {
        lemma_alpine_order_total(a, b);
    }
}

/// Two tokens compared the other way round give the opposite result.
pub proof fn lemma_token_order_flip(a: TokenModel, b: TokenModel, first: bool)
    ensures
        token_order(b, a, first) == token_order(a, b, first).flip(),
{
    match (a, b) {
        (TokenModel::Num(x), TokenModel::Num(y)) => {
            lemma_lex_order_flip(x, y, 0);
        },
        (TokenModel::Str(x), TokenModel::Str(y)) => {
            lemma_lex_order_flip(x, y, 0);
        },
        _ => {},
    }
}

/// Two token sequences compared the other way round give the opposite
/// result.
pub proof fn lemma_tokens_order_flip(a: Seq<TokenModel>, b: Seq<TokenModel>, i: int)
    ensures
        tokens_order_from(b, a, i) == tokens_order_from(a, b, i).flip(),
    decreases a.len() + b.len() - i,
{
    if 0 <= i && i < a.len() && i < b.len() {
        lemma_token_order_flip(a[i], b[i], i == 0);
        lemma_tokens_order_flip(a, b, i + 1);
    }
}

/// For any two Alpine versions exactly one of `a < b`, `a = b` and `a > b`
/// holds: the comparison gives one of three answers, and asking the other way
/// round gives the opposite one.
pub proof fn lemma_alpine_order_total(a: Seq<char>, b: Seq<char>)
    ensures
        alpine_order(b, a) == alpine_order(a, b).flip(),
        alpine_order(a, a) == Sign::Equal,
{
    lemma_tokens_order_flip(alpine_tokens(a), alpine_tokens(b), 0);
    lemma_tokens_order_flip(alpine_tokens(a), alpine_tokens(a), 0);
}

/// A number token holds at least one digit and nothing but digits.
pub open spec fn well_formed(t: TokenModel) -> bool {
    t matches TokenModel::Num(x) ==> x.len() > 0 && all_digits(x)
}

/// Every token of the sequence is well formed.
pub open spec fn all_well_formed(tokens: Seq<TokenModel>) -> bool {
    forall|k: int| 0 <= k < tokens.len() ==> well_formed(#[trigger] tokens[k])
}

/// The characters of a run are all digits, or none of them is.
pub proof fn lemma_run_is_uniform(s: Seq<char>, j: int, digits: bool)
    requires
        0 <= j <= s.len(),
    ensures
        forall|k: int| j <= k < j + run_len(s, j, digits) ==> is_digit(#[trigger] s[k]) == digits,
    decreases s.len() - j,
{
    if !(j >= s.len() || s[j] == '_' || revision_mark(s, j) || is_digit(s[j]) != digits) {
        lemma_run_is_uniform(s, j + 1, digits);
    }
}

/// The tokens of a version are well formed.
pub proof fn lemma_tokens_well_formed(s: Seq<char>, i: int)
    requires
        0 <= i,
    ensures
        all_well_formed(tokens_from(s, i)),
    decreases s.len() - i,
{
    if i < s.len() {
        lemma_letters_len_bound(s, i + 1);
        lemma_run_len_bound(s, i + 1, is_digit(s[i]));
        let (first, next) = if s[i] == '_' {
            let j = i + 1 + letters_len(s, i + 1);
            (suffix_token(s.subrange(i + 1, j)), j)
        } else if revision_mark(s, i) {
            (TokenModel::Str("-r"@), i + 2)
        } else {
            let j = i + 1 + run_len(s, i + 1, is_digit(s[i]));
            let text = s.subrange(i, j);
            (
                if is_digit(s[i]) {
                    TokenModel::Num(text)
                } else {
                    TokenModel::Str(text)
                },
                j,
            )
        };
        lemma_tokens_well_formed(s, next);
        let rest = tokens_from(s, next);
        assert(tokens_from(s, i) == seq![first] + rest);
        if !(s[i] == '_') && !revision_mark(s, i) && is_digit(s[i]) {
            lemma_run_is_uniform(s, i + 1, true);
            let text = s.subrange(i, next);
            assert forall|k: int| 0 <= k < text.len() implies is_digit(#[trigger] text[k]) by {
                assert(text[k] == s[i + k]);
            }
        }
        assert forall|k: int| 0 <= k < tokens_from(s, i).len() implies well_formed(
            #[trigger] tokens_from(s, i)[k],
        ) by {
            if k > 0 {
                assert(tokens_from(s, i)[k] == rest[k - 1]);
            }
        }
    }
}

/// A number written with a leading zero is, as a text, below every number
/// written without.
pub proof fn lemma_leading_zero_is_lower(x: Seq<char>, y: Seq<char>)
    requires
        leading_zero(x),
        y.len() > 0,
        all_digits(y),
        !leading_zero(y),
    ensures
        lex_order(x, y) == Sign::Less,
        lex_order(y, x) == Sign::Greater,
{
    assert(is_digit(y[0]));
}

/// The order of well-formed tokens at one position runs along chains.
pub proof fn lemma_token_order_transitive(
    a: TokenModel,
    b: TokenModel,
    c: TokenModel,
    first: bool,
)
    requires
        well_formed(a),
        well_formed(b),
        well_formed(c),
    ensures
        chains(token_order(a, b, first), token_order(b, c, first), token_order(a, c, first)),
{
    match (a, b, c) {
        (TokenModel::Str(x), TokenModel::Str(y), TokenModel::Str(z)) => {
            lemma_lex_order_transitive(x, y, z, 0);
        },
        (TokenModel::Num(x), TokenModel::Num(y), TokenModel::Num(z)) => {
            lemma_lex_order_transitive(x, y, z, 0);
            if !first {
                if leading_zero(x) && !leading_zero(y) {
                    lemma_leading_zero_is_lower(x, y);
                }
                if leading_zero(y) && !leading_zero(x) {
                    lemma_leading_zero_is_lower(y, x);
                }
                if leading_zero(y) && !leading_zero(z) {
                    lemma_leading_zero_is_lower(y, z);
                }
                if leading_zero(z) && !leading_zero(y) {
                    lemma_leading_zero_is_lower(z, y);
                }
                if leading_zero(x) && !leading_zero(z) {
                    lemma_leading_zero_is_lower(x, z);
                }
                if leading_zero(z) && !leading_zero(x) {
                    lemma_leading_zero_is_lower(z, x);
                }
            }
        },
        _ => {},
    }
}

/// A pre-release suffix is below every token that is none.
pub proof fn lemma_pre_release_is_lowest(a: TokenModel, b: TokenModel, first: bool)
    requires
        is_pre_release_token(a),
        !is_pre_release_token(b),
    ensures
        token_order(a, b, first) == Sign::Less,
        token_order(b, a, first) == Sign::Greater,
{
}

/// The order of sequences of well-formed tokens runs along chains.
pub proof fn lemma_tokens_order_transitive(
    a: Seq<TokenModel>,
    b: Seq<TokenModel>,
    c: Seq<TokenModel>,
    i: int,
)
    requires
        0 <= i,
        all_well_formed(a),
        all_well_formed(b),
        all_well_formed(c),
    ensures
        chains(
            tokens_order_from(a, b, i),
            tokens_order_from(b, c, i),
            tokens_order_from(a, c, i),
        ),
    decreases a.len() + b.len() + c.len() - i,
{
    if i < a.len() && i < b.len() && i < c.len() {
        lemma_token_order_transitive(a[i], b[i], c[i], i == 0);
        if token_order(a[i], b[i], i == 0) == Sign::Equal && token_order(b[i], c[i], i == 0)
            == Sign::Equal {
            lemma_tokens_order_transitive(a, b, c, i + 1);
        }
    } else {
        if i < a.len() && i < b.len() {
            if is_pre_release_token(a[i]) != is_pre_release_token(b[i]) {
                if is_pre_release_token(a[i]) {
                    lemma_pre_release_is_lowest(a[i], b[i], i == 0);
                } else {
                    lemma_pre_release_is_lowest(b[i], a[i], i == 0);
                }
            }
        }
        if i < b.len() && i < c.len() {
            if is_pre_release_token(b[i]) != is_pre_release_token(c[i]) {
                if is_pre_release_token(b[i]) {
                    lemma_pre_release_is_lowest(b[i], c[i], i == 0);
                } else {
                    lemma_pre_release_is_lowest(c[i], b[i], i == 0);
                }
            }
        }
        if i < a.len() && i < c.len() {
            if is_pre_release_token(a[i]) != is_pre_release_token(c[i]) {
                if is_pre_release_token(a[i]) {
                    lemma_pre_release_is_lowest(a[i], c[i], i == 0);
                } else {
                    lemma_pre_release_is_lowest(c[i], a[i], i == 0);
                }
            }
        }
    }
}

/// The order of Alpine versions is a total order: every two versions are
/// comparable, consistently in both directions and along chains.
pub proof fn lemma_alpine_order_is_total()
    ensures
        order_is_total::<AlpineVersion>(),
{
    reveal(order_is_total);
    assert forall|a: Seq<char>, b: Seq<char>| #[trigger]
        AlpineVersion::order(a, b) == AlpineVersion::order(b, a).flip() by {
        lemma_alpine_order_total(b, a);
    }
    assert forall|a: Seq<char>, b: Seq<char>, c: Seq<char>|
        #![trigger AlpineVersion::order(a, b), AlpineVersion::order(b, c)]
        AlpineVersion::order(a, b) != Sign::Greater && AlpineVersion::order(b, c)
            != Sign::Greater implies {
        &&& AlpineVersion::order(a, c) != Sign::Greater
        &&& (AlpineVersion::order(a, b) == Sign::Less || AlpineVersion::order(b, c)
            == Sign::Less) ==> AlpineVersion::order(a, c) == Sign::Less
    } by {
        lemma_tokens_well_formed(a, 0);
        lemma_tokens_well_formed(b, 0);
        lemma_tokens_well_formed(c, 0);
        lemma_tokens_order_transitive(alpine_tokens(a), alpine_tokens(b), alpine_tokens(c), 0);
    }
}

impl crate::order::TotalOrder for AlpineVersion {
    proof fn lemma_order_is_total() {
        lemma_alpine_order_is_total();
    }
}

} // verus!
