//! OPAM package versions and their order.
//!
//! A version is cut into alternating runs of non-digits and digits. Text runs
//! compare character by character, with `~` below the end of the run; digit
//! runs compare by value, and by their spelling where the values tie.

use crate::debian::version::{
    compare_str_token, lemma_run_len_bound, lemma_text_order_flip, lemma_text_order_transitive,
    run_len, text_order,
};
use crate::order::{chains, order_is_total, ConsistentOrder, VersionOrder};
use crate::text::{
    chars_of, compare_lex, compare_u64, digit, int_order, is_digit, lemma_lex_order_flip,
    lemma_lex_order_transitive, lex_order, number_or_zero, parse_u64, string_of, Sign,
};
use core::cmp::Ordering;
use vstd::prelude::*;

verus! {

/// An OPAM version, kept as the text it was written as. The values of OPAM
/// variables are versions too.
#[derive(Clone, Debug, PartialEq, Eq, Hash)]
pub struct OpamVersion(pub String);

impl View for OpamVersion {
    type V = Seq<char>;

    open spec fn view(&self) -> Seq<char> {
        self.0@
    }
}

/// One run of a version.
#[derive(Clone, Debug, PartialEq, Eq)]
pub enum Token {
    /// A run of digits, as written.
    Num(String),
    /// A run of other characters.
    Str(String),
}

/// What a [`Token`] stands for.
pub enum TokenModel {
    Num(Seq<char>),
    Str(Seq<char>),
}

impl View for Token {
    type V = TokenModel;

    open spec fn view(&self) -> TokenModel {
        match self {
            Token::Num(s) => TokenModel::Num(s@),
            Token::Str(s) => TokenModel::Str(s@),
        }
    }
}

/// The models of a sequence of tokens.
pub open spec fn token_models(tokens: Seq<Token>) -> Seq<TokenModel> {
    tokens.map_values(|t: Token| t@)
}

/// The token for the run `text`.
pub open spec fn run_token(text: Seq<char>, digits: bool) -> TokenModel {
    if digits {
        TokenModel::Num(text)
    } else {
        TokenModel::Str(text)
    }
}

/// The runs of `s` from position `i` on.
pub open spec fn runs_from(s: Seq<char>, i: int) -> Seq<TokenModel>
    decreases s.len() - i,
    via runs_from_decreases
{
    if i < 0 || i >= s.len() {
        Seq::empty()
    } else {
        let digits = is_digit(s[i]);
        let j = i + 1 + run_len(s, i + 1, digits);
        seq![run_token(s.subrange(i, j), digits)] + runs_from(s, j)
    }
}

#[via_fn]
proof fn runs_from_decreases(s: Seq<char>, i: int) {
    if 0 <= i < s.len() {
        lemma_run_len_bound(s, i + 1, is_digit(s[i]));
    }
}

/// The tokens of a version: its runs, with an empty text run put in front
/// where the version starts with a digit.
pub open spec fn opam_tokens(s: Seq<char>) -> Seq<TokenModel> {
    if s.len() > 0 && is_digit(s[0]) {
        seq![TokenModel::Str(Seq::empty())] + runs_from(s, 0)
    } else {
        runs_from(s, 0)
    }
}

/// Cuts a version into alternating tokens.
pub fn tokenize(version: &str) -> (tokens: Vec<Token>)
    ensures
        token_models(tokens@) == opam_tokens(version@),
{
    let chars = chars_of(version);
    let ghost s = chars@;
    let n = chars.len();
    let mut tokens: Vec<Token> = Vec::new();
    if n > 0 && digit(chars[0]) {
        tokens.push(Token::Str(String::new()));
    }
    assert(token_models(tokens@) + runs_from(s, 0) =~= opam_tokens(s));
    let mut i: usize = 0;
    while i < n
        invariant
            i <= n,
            n == chars.len(),
            s == chars@,
            token_models(tokens@) + runs_from(s, i as int) == opam_tokens(s),
        decreases n - i,
    {
        let ghost before = token_models(tokens@);
        let ghost rest = runs_from(s, i as int);
        let digits = digit(chars[i]);
        let mut j: usize = i + 1;
        while j < n && digit(chars[j]) == digits
            invariant
                i < j <= n,
                n == chars.len(),
                s == chars@,
                run_len(s, i + 1, digits) == (j - (i + 1)) + run_len(s, j as int, digits),
            decreases n - j,
        {
            j = j + 1;
        }
        let text = string_of(&chars, i, j);
        let token = if digits {
            Token::Num(text)
        } else {
            Token::Str(text)
        };
        assert(rest == seq![token@] + runs_from(s, j as int));
        tokens.push(token);
        assert(token_models(tokens@) =~= before.push(token@));
        assert(token_models(tokens@) + runs_from(s, j as int) =~= before + rest);
        i = j;
    }
    assert(runs_from(s, i as int) =~= Seq::empty());
    assert(token_models(tokens@) + runs_from(s, i as int) =~= token_models(tokens@));
    tokens
}

/// How two digit runs compare: by value, leading zeros ignored; where the
/// values tie, by spelling. A run too long for 64 bits counts as 0.
pub open spec fn number_order(x: Seq<char>, y: Seq<char>) -> Sign {
    int_order(number_or_zero(x) as int, number_or_zero(y) as int).or_next(lex_order(x, y))
}

/// How two tokens compare. A number is above a text run.
pub open spec fn token_order(a: TokenModel, b: TokenModel) -> Sign {
    match (a, b) {
        (TokenModel::Num(x), TokenModel::Num(y)) => number_order(x, y),
        (TokenModel::Str(x), TokenModel::Str(y)) => text_order(x, y),
        (TokenModel::Num(_), TokenModel::Str(_)) => Sign::Greater,
        (TokenModel::Str(_), TokenModel::Num(_)) => Sign::Less,
    }
}

/// Compares two tokens.
pub fn compare_tokens(a: &Token, b: &Token) -> (r: Sign)
    ensures
        r == token_order(a@, b@),
{
    match (a, b) {
        (Token::Num(x), Token::Num(y)) => {
            let xs = chars_of(x.as_str());
            let ys = chars_of(y.as_str());
            assert(xs@.subrange(0, xs@.len() as int) == xs@);
            assert(ys@.subrange(0, ys@.len() as int) == ys@);
            let n1 = match parse_u64(&xs, 0, xs.len()) {
                Some(n) => n,
                None => 0,
            };
            let n2 = match parse_u64(&ys, 0, ys.len()) {
                Some(n) => n,
                None => 0,
            };
            let by_value = compare_u64(n1, n2);
            if by_value != Sign::Equal {
                by_value
            } else {
                compare_lex(&xs, &ys)
            }
        },
        (Token::Str(x), Token::Str(y)) => compare_str_token(x.as_str(), y.as_str()),
        (Token::Num(_), Token::Str(_)) => Sign::Greater,
        (Token::Str(_), Token::Num(_)) => Sign::Less,
    }
}

/// The token is a text run that starts with `~`.
pub open spec fn is_tilde_token(t: TokenModel) -> bool {
    t matches TokenModel::Str(s) && s.len() > 0 && s[0] == '~'
}

/// How two token sequences compare from position `i` on. A sequence that has
/// ended is above one that goes on with a `~` run and below any other.
pub open spec fn tokens_order_from(a: Seq<TokenModel>, b: Seq<TokenModel>, i: int) -> Sign
    decreases a.len() + b.len() - i,
{
    if i < 0 || (i >= a.len() && i >= b.len()) {
        Sign::Equal
    } else if i >= a.len() {
        if is_tilde_token(b[i]) {
            Sign::Greater
        } else {
            Sign::Less
        }
    } else if i >= b.len() {
        if is_tilde_token(a[i]) {
            Sign::Less
        } else {
            Sign::Greater
        }
    } else {
        token_order(a[i], b[i]).or_next(tokens_order_from(a, b, i + 1))
    }
}

/// The order of OPAM versions.
pub open spec fn opam_order(a: Seq<char>, b: Seq<char>) -> Sign {
    tokens_order_from(opam_tokens(a), opam_tokens(b), 0)
}

/// Whether a token is a text run that starts with `~`.
fn tilde_token(t: &Token) -> (r: bool)
    ensures
        r == is_tilde_token(t@),
{
    match t {
        Token::Str(s) => {
            let c = chars_of(s.as_str());
            c.len() > 0 && c[0] == '~'
        },
        Token::Num(_) => false,
    }
}

impl OpamVersion {
    /// Compares two versions in the order of OPAM versions.
    #[verifier::loop_isolation(false)]
    pub fn compare(&self, other: &OpamVersion) -> (r: Sign)
        ensures
            r == opam_order(self@, other@),
    {
        let ta = tokenize(self.0.as_str());
        let tb = tokenize(other.0.as_str());
        let ghost a = token_models(ta@);
        let ghost b = token_models(tb@);
        let mut i: usize = 0;
        loop
            invariant
                i <= ta.len() || i <= tb.len(),
                tokens_order_from(a, b, 0) == tokens_order_from(a, b, i as int),
            decreases ta.len() + tb.len() - i,
        {
            if i >= ta.len() && i >= tb.len() {
                return Sign::Equal;
            } else if i >= ta.len() {
                if tilde_token(&tb[i]) {
                    return Sign::Greater;
                } else {
                    return Sign::Less;
                }
            } else if i >= tb.len() {
                if tilde_token(&ta[i]) {
                    return Sign::Less;
                } else {
                    return Sign::Greater;
                }
            }
            let o = compare_tokens(&ta[i], &tb[i]);
            if o != Sign::Equal {
                return o;
            }
            i = i + 1;
        }
    }

    /// The comparison as a standard `Ordering`.
    pub fn cmp(&self, other: &OpamVersion) -> (r: Ordering)
        ensures
            r == opam_order(self@, other@).ordering(),
    {
        self.compare(other).to_ordering()
    }

    /// Reads a version. Every text is a version.
    pub fn from_str(s: &str) -> (r: Result<OpamVersion, String>)
        ensures
            r matches Ok(v) && v@ == s@,
    {
        Ok(OpamVersion(s.to_string()))
    }

    /// The text of the version.
    pub fn to_string(&self) -> (s: String)
        ensures
            s@ == self@,
    {
        self.0.clone()
    }
}

impl PartialOrd for OpamVersion {
    fn partial_cmp(&self, other: &Self) -> (r: Option<Ordering>) {
        Some(self.compare(other).to_ordering())
    }
}

impl vstd::std_specs::cmp::PartialOrdSpecImpl for OpamVersion {
    open spec fn obeys_partial_cmp_spec() -> bool {
        true
    }

    open spec fn partial_cmp_spec(&self, other: &Self) -> Option<Ordering> {
        Some(opam_order(self@, other@).ordering())
    }
}

impl VersionOrder for OpamVersion {
    open spec fn text(&self) -> Seq<char> {
        self@
    }

    open spec fn order(a: Seq<char>, b: Seq<char>) -> Sign {
        opam_order(a, b)
    }

    fn compare(&self, other: &Self) -> (r: Sign) {
        OpamVersion::compare(self, other)
    }

    fn duplicate(&self) -> (r: Self) {
        OpamVersion(self.0.clone())
    }

    fn same(&self, other: &Self) -> (r: bool) {
        self.0 == other.0
    }

    fn show(&self) -> (s: String) {
        self.0.clone()
    }
}

impl ConsistentOrder for OpamVersion {
    proof fn lemma_order_flips(a: Seq<char>, b: Seq<char>) {
        lemma_opam_order_total(a, b);
    }
}

/// Two tokens compared the other way round give the opposite result.
pub proof fn lemma_token_order_flip(a: TokenModel, b: TokenModel)
    ensures
        token_order(b, a) == token_order(a, b).flip(),
{
    match (a, b) {
        (TokenModel::Num(x), TokenModel::Num(y)) => {
            lemma_lex_order_flip(x, y, 0);
        },
        (TokenModel::Str(x), TokenModel::Str(y)) => {
            lemma_text_order_flip(x, y, 0);
        },
        _ => {},
    }
}

/// Two token sequences compared the other way round give the opposite
/// result.
pub proof fn lemma_tokens_order_flip(a: Seq<TokenModel>, b: Seq<TokenModel>, i: int)
    ensures
        tokens_order_from(b, a, i) == tokens_order_from(a, b, i).flip(),
    decreases a.len() + b.len() - i,
{
    if 0 <= i && i < a.len() && i < b.len() {
        lemma_token_order_flip(a[i], b[i]);
        lemma_tokens_order_flip(a, b, i + 1);
    }
}

/// For any two OPAM versions exactly one of `a < b`, `a = b` and `a > b`
/// holds: the comparison gives one of three answers, and asking the other way
/// round gives the opposite one.
pub proof fn lemma_opam_order_total(a: Seq<char>, b: Seq<char>)
    ensures
        opam_order(b, a) == opam_order(a, b).flip(),
        opam_order(a, a) == Sign::Equal,
{
    lemma_tokens_order_flip(opam_tokens(a), opam_tokens(b), 0);
    lemma_tokens_order_flip(opam_tokens(a), opam_tokens(a), 0);
}

/// The order of tokens runs along chains.
pub proof fn lemma_token_order_transitive(a: TokenModel, b: TokenModel, c: TokenModel)
    ensures
        chains(token_order(a, b), token_order(b, c), token_order(a, c)),
{
    match (a, b, c) {
        (TokenModel::Str(x), TokenModel::Str(y), TokenModel::Str(z)) => {
            lemma_text_order_transitive(x, y, z, 0);
        },
        (TokenModel::Num(x), TokenModel::Num(y), TokenModel::Num(z)) => {
            lemma_lex_order_transitive(x, y, z, 0);
        },
        _ => {},
    }
}

/// A text run that starts with `~` is below every token that does not.
pub proof fn lemma_tilde_is_lowest(a: TokenModel, b: TokenModel)
    requires
        is_tilde_token(a),
        !is_tilde_token(b),
    ensures
        token_order(a, b) == Sign::Less,
        token_order(b, a) == Sign::Greater,
{
}

/// The order of token sequences runs along chains.
pub proof fn lemma_tokens_order_transitive(
    a: Seq<TokenModel>,
    b: Seq<TokenModel>,
    c: Seq<TokenModel>,
    i: int,
)
    requires
        0 <= i,
    ensures
        chains(
            tokens_order_from(a, b, i),
            tokens_order_from(b, c, i),
            tokens_order_from(a, c, i),
        ),
    decreases a.len() + b.len() + c.len() - i,
{
    if i < a.len() && i < b.len() && i < c.len() {
        lemma_token_order_transitive(a[i], b[i], c[i]);
        if token_order(a[i], b[i]) == Sign::Equal && token_order(b[i], c[i]) == Sign::Equal {
            lemma_tokens_order_transitive(a, b, c, i + 1);
        }
    } else {
        if i < a.len() && i < b.len() {
            if is_tilde_token(a[i]) != is_tilde_token(b[i]) {
                if is_tilde_token(a[i]) {
                    lemma_tilde_is_lowest(a[i], b[i]);
                } else {
                    lemma_tilde_is_lowest(b[i], a[i]);
                }
            }
        }
        if i < b.len() && i < c.len() {
            if is_tilde_token(b[i]) != is_tilde_token(c[i]) {
                if is_tilde_token(b[i]) {
                    lemma_tilde_is_lowest(b[i], c[i]);
                } else {
                    lemma_tilde_is_lowest(c[i], b[i]);
                }
            }
        }
        if i < a.len() && i < c.len() {
            if is_tilde_token(a[i]) != is_tilde_token(c[i]) {
                if is_tilde_token(a[i]) {
                    lemma_tilde_is_lowest(a[i], c[i]);
                } else {
                    lemma_tilde_is_lowest(c[i], a[i]);
                }
            }
        }
    }
}

/// The order of OPAM versions is a total order: every two versions are
/// comparable, consistently in both directions and along chains.
pub proof fn lemma_opam_order_is_total()
    ensures
        order_is_total::<OpamVersion>(),
{
    reveal(order_is_total);
    assert forall|a: Seq<char>, b: Seq<char>| #[trigger]
        OpamVersion::order(a, b) == OpamVersion::order(b, a).flip() by {
        lemma_opam_order_total(b, a);
    }
    assert forall|a: Seq<char>, b: Seq<char>, c: Seq<char>|
        #![trigger OpamVersion::order(a, b), OpamVersion::order(b, c)]
        OpamVersion::order(a, b) != Sign::Greater && OpamVersion::order(b, c)
            != Sign::Greater implies {
        &&& OpamVersion::order(a, c) != Sign::Greater
        &&& (OpamVersion::order(a, b) == Sign::Less || OpamVersion::order(b, c) == Sign::Less)
            ==> OpamVersion::order(a, c) == Sign::Less
    } by {
        lemma_tokens_order_transitive(opam_tokens(a), opam_tokens(b), opam_tokens(c), 0);
    }
}

impl crate::order::TotalOrder for OpamVersion {
    proof fn lemma_order_is_total() {
        lemma_opam_order_is_total();
    }
}

} // verus!
