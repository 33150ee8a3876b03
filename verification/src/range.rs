//! Sets of versions of one ecosystem, held as lists of intervals.
//!
//! A range is a list of segments; a segment has a lower and an upper bound; a
//! version lies in the range when it lies in one of the segments. The
//! operations are defined on the lists themselves, and the lemmas of this
//! module say what they mean for membership wherever the ecosystem's
//! comparison is a total order.

use crate::canonical::{
    apart, lemma_complement_valid, lemma_intersection_valid, lemma_simple_ranges_valid,
    lemma_union_valid, valid,
};
use crate::constraints::Copied;
use crate::order::{order_is_total, VersionOrder};
use crate::text::Sign;
use vstd::prelude::*;
use vstd::string::StringExecFns;

verus! {

/// One end of a segment.
#[derive(Debug, PartialEq, Eq, Hash)]
pub enum Bound<V> {
    Unbounded,
    Included(V),
    Excluded(V),
}

/// What a [`Bound`] stands for.
pub enum BoundModel {
    Unbounded,
    Included(Seq<char>),
    Excluded(Seq<char>),
}

/// A set of versions between two bounds.
#[derive(Debug, PartialEq, Eq, Hash)]
pub struct Segment<V> {
    pub lower: Bound<V>,
    pub upper: Bound<V>,
}

/// What a [`Segment`] stands for.
pub struct SegmentModel {
    pub lower: BoundModel,
    pub upper: BoundModel,
}

/// A set of versions: the union of its segments.
#[derive(Debug, PartialEq, Eq, Hash)]
pub struct Range<V> {
    pub segments: Vec<Segment<V>>,
}

impl<V: VersionOrder> View for Bound<V> {
    type V = BoundModel;

    open spec fn view(&self) -> BoundModel {
        match self {
            Bound::Unbounded => BoundModel::Unbounded,
            Bound::Included(v) => BoundModel::Included(v.text()),
            Bound::Excluded(v) => BoundModel::Excluded(v.text()),
        }
    }
}

impl<V: VersionOrder> View for Segment<V> {
    type V = SegmentModel;

    open spec fn view(&self) -> SegmentModel {
        SegmentModel { lower: self.lower@, upper: self.upper@ }
    }
}

/// The models of a sequence of segments.
pub open spec fn segment_models<V: VersionOrder>(s: Seq<Segment<V>>) -> Seq<SegmentModel> {
    s.map_values(|g: Segment<V>| g@)
}

impl<V: VersionOrder> View for Range<V> {
    type V = Seq<SegmentModel>;

    open spec fn view(&self) -> Seq<SegmentModel> {
        segment_models(self.segments@)
    }
}

/// `v` is not below the lower bound `b`.
pub open spec fn lower_admits<V: VersionOrder>(b: BoundModel, v: Seq<char>) -> bool {
    match b {
        BoundModel::Unbounded => true,
        BoundModel::Included(x) => V::order(v, x) != Sign::Less,
        BoundModel::Excluded(x) => V::order(v, x) == Sign::Greater,
    }
}

/// `v` is not above the upper bound `b`.
pub open spec fn upper_admits<V: VersionOrder>(b: BoundModel, v: Seq<char>) -> bool {
    match b {
        BoundModel::Unbounded => true,
        BoundModel::Included(x) => V::order(v, x) != Sign::Greater,
        BoundModel::Excluded(x) => V::order(v, x) == Sign::Less,
    }
}

/// `v` lies in the segment.
pub open spec fn segment_contains<V: VersionOrder>(s: SegmentModel, v: Seq<char>) -> bool {
    lower_admits::<V>(s.lower, v) && upper_admits::<V>(s.upper, v)
}

/// `v` lies in one of the segments.
pub open spec fn range_contains<V: VersionOrder>(r: Seq<SegmentModel>, v: Seq<char>) -> bool {
    exists|i: int| 0 <= i < r.len() && segment_contains::<V>(#[trigger] r[i], v)
}

/// The range without versions.
pub open spec fn empty_range() -> Seq<SegmentModel> {
    Seq::empty()
}

/// The range of all versions.
pub open spec fn full_range() -> Seq<SegmentModel> {
    seq![SegmentModel { lower: BoundModel::Unbounded, upper: BoundModel::Unbounded }]
}

/// The range that holds `v` and what compares equal to it.
pub open spec fn singleton_range(v: Seq<char>) -> Seq<SegmentModel> {
    seq![SegmentModel { lower: BoundModel::Included(v), upper: BoundModel::Included(v) }]
}

/// The range of the versions `>= v`.
pub open spec fn higher_range(v: Seq<char>) -> Seq<SegmentModel> {
    seq![SegmentModel { lower: BoundModel::Included(v), upper: BoundModel::Unbounded }]
}

/// The range of the versions `> v`.
pub open spec fn strictly_higher_range(v: Seq<char>) -> Seq<SegmentModel> {
    seq![SegmentModel { lower: BoundModel::Excluded(v), upper: BoundModel::Unbounded }]
}

/// The range of the versions `<= v`.
pub open spec fn lower_range(v: Seq<char>) -> Seq<SegmentModel> {
    seq![SegmentModel { lower: BoundModel::Unbounded, upper: BoundModel::Included(v) }]
}

/// The range of the versions `< v`.
pub open spec fn strictly_lower_range(v: Seq<char>) -> Seq<SegmentModel> {
    seq![SegmentModel { lower: BoundModel::Unbounded, upper: BoundModel::Excluded(v) }]
}

/// The stricter of two lower bounds.
pub open spec fn tighter_lower<V: VersionOrder>(a: BoundModel, b: BoundModel) -> BoundModel {
    match (a, b) {
        (BoundModel::Unbounded, _) => b,
        (_, BoundModel::Unbounded) => a,
        (BoundModel::Included(p), BoundModel::Included(q)) => if V::order(p, q) == Sign::Less {
            b
        } else {
            a
        },
        (BoundModel::Included(p), BoundModel::Excluded(q)) => if V::order(p, q) == Sign::Greater {
            a
        } else {
            b
        },
        (BoundModel::Excluded(p), BoundModel::Included(q)) => if V::order(p, q) == Sign::Less {
            b
        } else {
            a
        },
        (BoundModel::Excluded(p), BoundModel::Excluded(q)) => if V::order(p, q) == Sign::Less {
            b
        } else {
            a
        },
    }
}

/// The stricter of two upper bounds.
pub open spec fn tighter_upper<V: VersionOrder>(a: BoundModel, b: BoundModel) -> BoundModel {
    match (a, b) {
        (BoundModel::Unbounded, _) => b,
        (_, BoundModel::Unbounded) => a,
        (BoundModel::Included(p), BoundModel::Included(q)) => if V::order(p, q)
            == Sign::Greater {
            b
        } else {
            a
        },
        (BoundModel::Included(p), BoundModel::Excluded(q)) => if V::order(p, q) == Sign::Less {
            a
        } else {
            b
        },
        (BoundModel::Excluded(p), BoundModel::Included(q)) => if V::order(p, q)
            == Sign::Greater {
            b
        } else {
            a
        },
        (BoundModel::Excluded(p), BoundModel::Excluded(q)) => if V::order(p, q)
            == Sign::Greater {
            b
        } else {
            a
        },
    }
}

/// What two segments have in common, as a pair of bounds that may leave no
/// room between them.
pub open spec fn meet<V: VersionOrder>(s: SegmentModel, t: SegmentModel) -> SegmentModel {
    SegmentModel {
        lower: tighter_lower::<V>(s.lower, t.lower),
        upper: tighter_upper::<V>(s.upper, t.upper),
    }
}

/// The bounds of the segment leave room: the lower one is below the upper
/// one, or they meet in a version that both include.
pub open spec fn has_room<V: VersionOrder>(s: SegmentModel) -> bool {
    match (s.lower, s.upper) {
        (BoundModel::Unbounded, _) => true,
        (_, BoundModel::Unbounded) => true,
        (BoundModel::Included(p), BoundModel::Included(q)) => V::order(p, q) != Sign::Greater,
        (BoundModel::Included(p), BoundModel::Excluded(q)) => V::order(p, q) == Sign::Less,
        (BoundModel::Excluded(p), BoundModel::Included(q)) => V::order(p, q) == Sign::Less,
        (BoundModel::Excluded(p), BoundModel::Excluded(q)) => V::order(p, q) == Sign::Less,
    }
}

/// What the segment `s` has in common with each of the segments `b[j..]`.
pub open spec fn meet_each<V: VersionOrder>(
    s: SegmentModel,
    b: Seq<SegmentModel>,
    j: int,
) -> Seq<SegmentModel>
    decreases b.len() - j,
{
    if j < 0 || j >= b.len() {
        Seq::empty()
    } else if has_room::<V>(meet::<V>(s, b[j])) {
        seq![meet::<V>(s, b[j])] + meet_each::<V>(s, b, j + 1)
    } else {
        meet_each::<V>(s, b, j + 1)
    }
}

/// What the segments `a[i..]` have in common with the range `b`.
pub open spec fn intersection_from<V: VersionOrder>(
    a: Seq<SegmentModel>,
    b: Seq<SegmentModel>,
    i: int,
) -> Seq<SegmentModel>
    decreases a.len() - i,
{
    if i < 0 || i >= a.len() {
        Seq::empty()
    } else {
        meet_each::<V>(a[i], b, 0) + intersection_from::<V>(a, b, i + 1)
    }
}

/// The intersection of two ranges: what each segment of the one has in common
/// with each segment of the other.
pub open spec fn range_intersection<V: VersionOrder>(
    a: Seq<SegmentModel>,
    b: Seq<SegmentModel>,
) -> Seq<SegmentModel> {
    intersection_from::<V>(a, b, 0)
}

/// The bound that admits from the other side exactly what `b` refuses.
pub open spec fn opposite(b: BoundModel) -> BoundModel {
    match b {
        BoundModel::Unbounded => BoundModel::Unbounded,
        BoundModel::Included(x) => BoundModel::Excluded(x),
        BoundModel::Excluded(x) => BoundModel::Included(x),
    }
}

/// The versions outside one segment: those below its lower bound and those
/// above its upper bound.
pub open spec fn outside(s: SegmentModel) -> Seq<SegmentModel> {
    let below = if s.lower is Unbounded {
        Seq::empty()
    } else {
        seq![SegmentModel { lower: BoundModel::Unbounded, upper: opposite(s.lower) }]
    };
    let above = if s.upper is Unbounded {
        Seq::empty()
    } else {
        seq![SegmentModel { lower: opposite(s.upper), upper: BoundModel::Unbounded }]
    };
    below + above
}

/// The versions outside each of the first `n` segments of `a`.
pub open spec fn complement_upto<V: VersionOrder>(a: Seq<SegmentModel>, n: int) -> Seq<
    SegmentModel,
>
    decreases n,
{
    if n <= 0 || n > a.len() {
        full_range()
    } else {
        range_intersection::<V>(complement_upto::<V>(a, n - 1), outside(a[n - 1]))
    }
}

/// The complement of a range: the versions outside each of its segments.
pub open spec fn range_complement<V: VersionOrder>(a: Seq<SegmentModel>) -> Seq<SegmentModel> {
    complement_upto::<V>(a, a.len() as int)
}

/// The union of two ranges: the complement of what their complements have in
/// common.
pub open spec fn range_union<V: VersionOrder>(
    a: Seq<SegmentModel>,
    b: Seq<SegmentModel>,
) -> Seq<SegmentModel> {
    range_complement::<V>(
        range_intersection::<V>(range_complement::<V>(a), range_complement::<V>(b)),
    )
}

/// What a total order gives for three versions.
pub proof fn lemma_order_facts<V: VersionOrder>(a: Seq<char>, b: Seq<char>, c: Seq<char>)
    requires
        order_is_total::<V>(),
    ensures
        V::order(a, b) == V::order(b, a).flip(),
        V::order(b, c) == V::order(c, b).flip(),
        V::order(a, c) == V::order(c, a).flip(),
        V::order(a, a) == Sign::Equal,
        V::order(a, b) != Sign::Greater && V::order(b, c) != Sign::Greater ==> V::order(a, c)
            != Sign::Greater,
        V::order(a, b) == Sign::Less && V::order(b, c) != Sign::Greater ==> V::order(a, c)
            == Sign::Less,
        V::order(a, b) != Sign::Greater && V::order(b, c) == Sign::Less ==> V::order(a, c)
            == Sign::Less,
        V::order(a, b) != Sign::Less && V::order(b, c) != Sign::Less ==> V::order(a, c)
            != Sign::Less,
        V::order(a, b) == Sign::Greater && V::order(b, c) != Sign::Less ==> V::order(a, c)
            == Sign::Greater,
        V::order(a, b) != Sign::Less && V::order(b, c) == Sign::Greater ==> V::order(a, c)
            == Sign::Greater,
{
    reveal(order_is_total);
    assert(V::order(a, a) == V::order(a, a).flip());
    let ab = V::order(a, b);
    let bc = V::order(b, c);
    let cb = V::order(c, b);
    let ba = V::order(b, a);
    let ca = V::order(c, a);
    let ac = V::order(a, c);
    assert(ab == ba.flip());
    assert(bc == cb.flip());
    assert(ac == ca.flip());
    if ab != Sign::Greater && bc != Sign::Greater {
        assert(V::order(a, b) != Sign::Greater && V::order(b, c) != Sign::Greater);
    }
    if ab != Sign::Less && bc != Sign::Less {
        assert(V::order(c, b) != Sign::Greater && V::order(b, a) != Sign::Greater);
    }
}

/// A version lies in a one-segment range when it lies in the segment.
pub proof fn lemma_contains_one<V: VersionOrder>(s: SegmentModel, v: Seq<char>)
    ensures
        range_contains::<V>(seq![s], v) <==> segment_contains::<V>(s, v),
{
    if segment_contains::<V>(s, v) {
        assert(segment_contains::<V>(seq![s][0], v));
    }
}

/// A version lies in two lists of segments put together when it lies in one
/// of them.
pub proof fn lemma_contains_concat<V: VersionOrder>(
    x: Seq<SegmentModel>,
    y: Seq<SegmentModel>,
    v: Seq<char>,
)
    ensures
        range_contains::<V>(x + y, v) <==> range_contains::<V>(x, v) || range_contains::<V>(y, v),
{
    if range_contains::<V>(x + y, v) {
        let i = choose|i: int| 0 <= i < (x + y).len() && segment_contains::<V>(#[trigger] (x + y)[i], v);
        if i < x.len() {
            assert(segment_contains::<V>(x[i], v));
        } else {
            assert(segment_contains::<V>(y[i - x.len()], v));
        }
    }
    if range_contains::<V>(x, v) {
        let i = choose|i: int| 0 <= i < x.len() && segment_contains::<V>(#[trigger] x[i], v);
        assert(segment_contains::<V>((x + y)[i], v));
    }
    if range_contains::<V>(y, v) {
        let i = choose|i: int| 0 <= i < y.len() && segment_contains::<V>(#[trigger] y[i], v);
        assert(segment_contains::<V>((x + y)[x.len() + i], v));
    }
}

/// The stricter of two lower bounds admits what both admit.
pub proof fn lemma_tighter_lower<V: VersionOrder>(a: BoundModel, b: BoundModel, v: Seq<char>)
    requires
        order_is_total::<V>(),
    ensures
        lower_admits::<V>(tighter_lower::<V>(a, b), v) <==> lower_admits::<V>(a, v)
            && lower_admits::<V>(b, v),
{
    match (a, b) {
        (BoundModel::Unbounded, _) => {},
        (_, BoundModel::Unbounded) => {},
        (BoundModel::Included(p), BoundModel::Included(q))
        | (BoundModel::Included(p), BoundModel::Excluded(q))
        | (BoundModel::Excluded(p), BoundModel::Included(q))
        | (BoundModel::Excluded(p), BoundModel::Excluded(q)) => {
            lemma_order_facts::<V>(v, p, q);
            lemma_order_facts::<V>(v, q, p);
        },
    }
}

/// The stricter of two upper bounds admits what both admit.
pub proof fn lemma_tighter_upper<V: VersionOrder>(a: BoundModel, b: BoundModel, v: Seq<char>)
    requires
        order_is_total::<V>(),
    ensures
        upper_admits::<V>(tighter_upper::<V>(a, b), v) <==> upper_admits::<V>(a, v)
            && upper_admits::<V>(b, v),
{
    match (a, b) {
        (BoundModel::Unbounded, _) => {},
        (_, BoundModel::Unbounded) => {},
        (BoundModel::Included(p), BoundModel::Included(q))
        | (BoundModel::Included(p), BoundModel::Excluded(q))
        | (BoundModel::Excluded(p), BoundModel::Included(q))
        | (BoundModel::Excluded(p), BoundModel::Excluded(q)) => {
            lemma_order_facts::<V>(v, p, q);
            lemma_order_facts::<V>(v, q, p);
        },
    }
}

/// A version lies in what two segments have in common when it lies in both.
pub proof fn lemma_meet<V: VersionOrder>(s: SegmentModel, t: SegmentModel, v: Seq<char>)
    requires
        order_is_total::<V>(),
    ensures
        segment_contains::<V>(meet::<V>(s, t), v) <==> segment_contains::<V>(s, v)
            && segment_contains::<V>(t, v),
{
    lemma_tighter_lower::<V>(s.lower, t.lower, v);
    lemma_tighter_upper::<V>(s.upper, t.upper, v);
}

/// No version lies between bounds that leave no room.
pub proof fn lemma_no_room<V: VersionOrder>(s: SegmentModel, v: Seq<char>)
    requires
        order_is_total::<V>(),
        !has_room::<V>(s),
    ensures
        !segment_contains::<V>(s, v),
{
    match (s.lower, s.upper) {
        (BoundModel::Included(p), BoundModel::Included(q))
        | (BoundModel::Included(p), BoundModel::Excluded(q))
        | (BoundModel::Excluded(p), BoundModel::Included(q))
        | (BoundModel::Excluded(p), BoundModel::Excluded(q)) => {
            lemma_order_facts::<V>(p, v, q);
        },
        _ => {},
    }
}

/// The tail of a non-empty list of segments, split at its head.
proof fn lemma_tail_split(b: Seq<SegmentModel>, j: int)
    requires
        0 <= j < b.len(),
    ensures
        b.subrange(j, b.len() as int) == seq![b[j]] + b.subrange(j + 1, b.len() as int),
{
    assert(b.subrange(j, b.len() as int) =~= seq![b[j]] + b.subrange(j + 1, b.len() as int));
}

/// A version lies in [`meet_each`] when it lies in the segment and in one of
/// the segments it was held against.
pub proof fn lemma_meet_each<V: VersionOrder>(
    s: SegmentModel,
    b: Seq<SegmentModel>,
    j: int,
    v: Seq<char>,
)
    requires
        order_is_total::<V>(),
        0 <= j <= b.len(),
    ensures
        range_contains::<V>(meet_each::<V>(s, b, j), v) <==> segment_contains::<V>(s, v)
            && range_contains::<V>(b.subrange(j, b.len() as int), v),
    decreases b.len() - j,
{
    if j >= b.len() {
        assert(b.subrange(j, b.len() as int) =~= Seq::empty());
    } else {
        let m = meet::<V>(s, b[j]);
        let rest = meet_each::<V>(s, b, j + 1);
        lemma_meet_each::<V>(s, b, j + 1, v);
        lemma_meet::<V>(s, b[j], v);
        lemma_tail_split(b, j);
        lemma_contains_concat::<V>(seq![b[j]], b.subrange(j + 1, b.len() as int), v);
        lemma_contains_one::<V>(b[j], v);
        if has_room::<V>(m) {
            lemma_contains_concat::<V>(seq![m], rest, v);
            lemma_contains_one::<V>(m, v);
        } else {
            lemma_no_room::<V>(m, v);
        }
    }
}

/// A version lies in [`intersection_from`] when it lies in one of the
/// segments `a[i..]` and in `b`.
pub proof fn lemma_intersection_from<V: VersionOrder>(
    a: Seq<SegmentModel>,
    b: Seq<SegmentModel>,
    i: int,
    v: Seq<char>,
)
    requires
        order_is_total::<V>(),
        0 <= i <= a.len(),
    ensures
        range_contains::<V>(intersection_from::<V>(a, b, i), v) <==> range_contains::<V>(
            a.subrange(i, a.len() as int),
            v,
        ) && range_contains::<V>(b, v),
    decreases a.len() - i,
{
    if i >= a.len() {
        assert(a.subrange(i, a.len() as int) =~= Seq::empty());
    } else {
        lemma_intersection_from::<V>(a, b, i + 1, v);
        lemma_meet_each::<V>(a[i], b, 0, v);
        assert(b.subrange(0, b.len() as int) =~= b);
        lemma_tail_split(a, i);
        lemma_contains_concat::<V>(seq![a[i]], a.subrange(i + 1, a.len() as int), v);
        lemma_contains_one::<V>(a[i], v);
        lemma_contains_concat::<V>(
            meet_each::<V>(a[i], b, 0),
            intersection_from::<V>(a, b, i + 1),
            v,
        );
    }
}

/// A version lies in the intersection of two ranges exactly when it lies in
/// both.
pub proof fn lemma_intersection<V: VersionOrder>(
    a: Seq<SegmentModel>,
    b: Seq<SegmentModel>,
    v: Seq<char>,
)
    requires
        order_is_total::<V>(),
    ensures
        range_contains::<V>(range_intersection::<V>(a, b), v) <==> range_contains::<V>(a, v)
            && range_contains::<V>(b, v),
{
    lemma_intersection_from::<V>(a, b, 0, v);
    assert(a.subrange(0, a.len() as int) =~= a);
}

/// A version lies outside a segment exactly when it does not lie in it.
pub proof fn lemma_outside<V: VersionOrder>(s: SegmentModel, v: Seq<char>)
    ensures
        range_contains::<V>(outside(s), v) <==> !segment_contains::<V>(s, v),
{
    let below = if s.lower is Unbounded {
        Seq::empty()
    } else {
        seq![SegmentModel { lower: BoundModel::Unbounded, upper: opposite(s.lower) }]
    };
    let above = if s.upper is Unbounded {
        Seq::empty()
    } else {
        seq![SegmentModel { lower: opposite(s.upper), upper: BoundModel::Unbounded }]
    };
    lemma_contains_concat::<V>(below, above, v);
    if !(s.lower is Unbounded) {
        lemma_contains_one::<V>(below[0], v);
    }
    if !(s.upper is Unbounded) {
        lemma_contains_one::<V>(above[0], v);
    }
}

/// A version lies in [`complement_upto`] when it lies in none of the first
/// `n` segments.
pub proof fn lemma_complement_upto<V: VersionOrder>(a: Seq<SegmentModel>, n: int, v: Seq<char>)
    requires
        order_is_total::<V>(),
        0 <= n <= a.len(),
    ensures
        range_contains::<V>(complement_upto::<V>(a, n), v) <==> !range_contains::<V>(
            a.subrange(0, n),
            v,
        ),
    decreases n,
{
    if n == 0 {
        assert(a.subrange(0, 0) =~= Seq::empty());
        lemma_contains_one::<V>(full_range()[0], v);
    } else {
        lemma_complement_upto::<V>(a, n - 1, v);
        lemma_intersection::<V>(complement_upto::<V>(a, n - 1), outside(a[n - 1]), v);
        lemma_outside::<V>(a[n - 1], v);
        assert(a.subrange(0, n) =~= a.subrange(0, n - 1) + seq![a[n - 1]]);
        lemma_contains_concat::<V>(a.subrange(0, n - 1), seq![a[n - 1]], v);
        lemma_contains_one::<V>(a[n - 1], v);
    }
}

/// A version lies in the complement of a range exactly when it does not lie
/// in the range.
pub proof fn lemma_complement<V: VersionOrder>(a: Seq<SegmentModel>, v: Seq<char>)
    requires
        order_is_total::<V>(),
    ensures
        range_contains::<V>(range_complement::<V>(a), v) <==> !range_contains::<V>(a, v),
{
    lemma_complement_upto::<V>(a, a.len() as int, v);
    assert(a.subrange(0, a.len() as int) =~= a);
}

/// A version lies in the union of two ranges exactly when it lies in one of
/// them.
pub proof fn lemma_union<V: VersionOrder>(
    a: Seq<SegmentModel>,
    b: Seq<SegmentModel>,
    v: Seq<char>,
)
    requires
        order_is_total::<V>(),
    ensures
        range_contains::<V>(range_union::<V>(a, b), v) <==> range_contains::<V>(a, v)
            || range_contains::<V>(b, v),
{
    let ca = range_complement::<V>(a);
    let cb = range_complement::<V>(b);
    lemma_complement::<V>(a, v);
    lemma_complement::<V>(b, v);
    lemma_intersection::<V>(ca, cb, v);
    lemma_complement::<V>(range_intersection::<V>(ca, cb), v);
}

impl<V: VersionOrder> Bound<V> {
    /// A copy of the bound.
    pub fn duplicate(&self) -> (r: Bound<V>)
        ensures
            r@ == self@,
    {
        match self {
            Bound::Unbounded => Bound::Unbounded,
            Bound::Included(v) => Bound::Included(v.duplicate()),
            Bound::Excluded(v) => Bound::Excluded(v.duplicate()),
        }
    }

    /// Whether two bounds are of the same kind and at the same version.
    pub fn same(&self, other: &Bound<V>) -> (r: bool)
        ensures
            r == (self@ == other@),
    {
        match (self, other) {
            (Bound::Unbounded, Bound::Unbounded) => true,
            (Bound::Included(p), Bound::Included(q)) => p.same(q),
            (Bound::Excluded(p), Bound::Excluded(q)) => p.same(q),
            _ => false,
        }
    }

    /// Whether `v` is not below this lower bound.
    pub fn admits_from_below(&self, v: &V) -> (r: bool)
        ensures
            r == lower_admits::<V>(self@, v.text()),
    {
        match self {
            Bound::Unbounded => true,
            Bound::Included(x) => v.compare(x) != Sign::Less,
            Bound::Excluded(x) => v.compare(x) == Sign::Greater,
        }
    }

    /// Whether `v` is not above this upper bound.
    pub fn admits_from_above(&self, v: &V) -> (r: bool)
        ensures
            r == upper_admits::<V>(self@, v.text()),
    {
        match self {
            Bound::Unbounded => true,
            Bound::Included(x) => v.compare(x) != Sign::Greater,
            Bound::Excluded(x) => v.compare(x) == Sign::Less,
        }
    }

    /// Whether this upper bound lies apart below the lower bound `lo`.
    pub fn ends_apart_from(&self, lo: &Bound<V>) -> (r: bool)
        ensures
            r == apart::<V>(self@, lo@),
    {
        match (self, lo) {
            (Bound::Unbounded, _) => false,
            (_, Bound::Unbounded) => false,
            (Bound::Included(p), Bound::Included(q)) => p.compare(q) == Sign::Less,
            (Bound::Included(p), Bound::Excluded(q)) => p.compare(q) == Sign::Less,
            (Bound::Excluded(p), Bound::Included(q)) => p.compare(q) == Sign::Less,
            (Bound::Excluded(p), Bound::Excluded(q)) => p.compare(q) != Sign::Greater,
        }
    }

    /// The bound that admits from the other side what this one refuses.
    pub fn opposite(&self) -> (r: Bound<V>)
        ensures
            r@ == opposite(self@),
    {
        match self {
            Bound::Unbounded => Bound::Unbounded,
            Bound::Included(v) => Bound::Excluded(v.duplicate()),
            Bound::Excluded(v) => Bound::Included(v.duplicate()),
        }
    }

    /// The stricter of two lower bounds.
    pub fn tighter_lower(&self, other: &Bound<V>) -> (r: Bound<V>)
        ensures
            r@ == tighter_lower::<V>(self@, other@),
    {
        match (self, other) {
            (Bound::Unbounded, _) => other.duplicate(),
            (_, Bound::Unbounded) => self.duplicate(),
            (Bound::Included(p), Bound::Included(q)) => if p.compare(q) == Sign::Less {
                other.duplicate()
            } else {
                self.duplicate()
            },
            (Bound::Included(p), Bound::Excluded(q)) => if p.compare(q) == Sign::Greater {
                self.duplicate()
            } else {
                other.duplicate()
            },
            (Bound::Excluded(p), Bound::Included(q)) => if p.compare(q) == Sign::Less {
                other.duplicate()
            } else {
                self.duplicate()
            },
            (Bound::Excluded(p), Bound::Excluded(q)) => if p.compare(q) == Sign::Less {
                other.duplicate()
            } else {
                self.duplicate()
            },
        }
    }

    /// The stricter of two upper bounds.
    pub fn tighter_upper(&self, other: &Bound<V>) -> (r: Bound<V>)
        ensures
            r@ == tighter_upper::<V>(self@, other@),
    {
        match (self, other) {
            (Bound::Unbounded, _) => other.duplicate(),
            (_, Bound::Unbounded) => self.duplicate(),
            (Bound::Included(p), Bound::Included(q)) => if p.compare(q) == Sign::Greater {
                other.duplicate()
            } else {
                self.duplicate()
            },
            (Bound::Included(p), Bound::Excluded(q)) => if p.compare(q) == Sign::Less {
                self.duplicate()
            } else {
                other.duplicate()
            },
            (Bound::Excluded(p), Bound::Included(q)) => if p.compare(q) == Sign::Greater {
                other.duplicate()
            } else {
                self.duplicate()
            },
            (Bound::Excluded(p), Bound::Excluded(q)) => if p.compare(q) == Sign::Greater {
                other.duplicate()
            } else {
                self.duplicate()
            },
        }
    }
}

impl<V: VersionOrder> Segment<V> {
    /// A copy of the segment.
    pub fn duplicate(&self) -> (r: Segment<V>)
        ensures
            r@ == self@,
    {
        Segment { lower: self.lower.duplicate(), upper: self.upper.duplicate() }
    }

    /// Whether two segments have the same bounds.
    pub fn same(&self, other: &Segment<V>) -> (r: bool)
        ensures
            r == (self@ == other@),
    {
        self.lower.same(&other.lower) && self.upper.same(&other.upper)
    }

    /// Whether `v` lies in the segment.
    pub fn contains(&self, v: &V) -> (r: bool)
        ensures
            r == segment_contains::<V>(self@, v.text()),
    {
        self.lower.admits_from_below(v) && self.upper.admits_from_above(v)
    }

    /// What two segments have in common.
    pub fn meet(&self, other: &Segment<V>) -> (r: Segment<V>)
        ensures
            r@ == meet::<V>(self@, other@),
    {
        Segment {
            lower: self.lower.tighter_lower(&other.lower),
            upper: self.upper.tighter_upper(&other.upper),
        }
    }

    /// Whether the bounds leave room between them.
    pub fn has_room(&self) -> (r: bool)
        ensures
            r == has_room::<V>(self@),
    {
        match (&self.lower, &self.upper) {
            (Bound::Unbounded, _) => true,
            (_, Bound::Unbounded) => true,
            (Bound::Included(p), Bound::Included(q)) => p.compare(q) != Sign::Greater,
            (Bound::Included(p), Bound::Excluded(q)) => p.compare(q) == Sign::Less,
            (Bound::Excluded(p), Bound::Included(q)) => p.compare(q) == Sign::Less,
            (Bound::Excluded(p), Bound::Excluded(q)) => p.compare(q) == Sign::Less,
        }
    }
}

/// The one version that a range holds, where it is written as a single
/// segment that includes both of its ends and they compare equal.
pub open spec fn singleton_of<V: VersionOrder>(r: Seq<SegmentModel>) -> Option<Seq<char>> {
    if r.len() == 1 {
        match (r[0].lower, r[0].upper) {
            (BoundModel::Included(p), BoundModel::Included(q)) => if V::order(p, q)
                == Sign::Equal {
                Some(p)
            } else {
                None
            },
            _ => None,
        }
    } else {
        None
    }
}

impl<V: VersionOrder> Range<V> {
    /// The range without versions.
    pub fn empty() -> (r: Range<V>)
        ensures
            r@ == empty_range(),
            order_is_total::<V>() ==> valid::<V>(r@),
    {
        proof {
            if order_is_total::<V>() {
                lemma_simple_ranges_valid::<V>(Seq::empty());
            }
        }
        let r = Range { segments: Vec::new() };
        assert(r@ =~= empty_range());
        r
    }

    /// A range of one segment.
    fn of_segment(segment: Segment<V>) -> (r: Range<V>)
        ensures
            r@ == seq![segment@],
    {
        let mut segments: Vec<Segment<V>> = Vec::new();
        segments.push(segment);
        let r = Range { segments };
        assert(r@ =~= seq![segment@]);
        r
    }

    /// The range of all versions.
    pub fn full() -> (r: Range<V>)
        ensures
            r@ == full_range(),
            order_is_total::<V>() ==> valid::<V>(r@),
    {
        proof {
            if order_is_total::<V>() {
                lemma_simple_ranges_valid::<V>(Seq::empty());
            }
        }
        Range::of_segment(Segment { lower: Bound::Unbounded, upper: Bound::Unbounded })
    }

    /// The range that holds `v` and what compares equal to it.
    pub fn singleton(v: V) -> (r: Range<V>)
        ensures
            r@ == singleton_range(v.text()),
            order_is_total::<V>() ==> valid::<V>(r@),
    {
        proof {
            if order_is_total::<V>() {
                lemma_simple_ranges_valid::<V>(v.text());
            }
        }
        let w = v.duplicate();
        Range::of_segment(Segment { lower: Bound::Included(v), upper: Bound::Included(w) })
    }

    /// The range of the versions `>= v`.
    pub fn higher_than(v: V) -> (r: Range<V>)
        ensures
            r@ == higher_range(v.text()),
            order_is_total::<V>() ==> valid::<V>(r@),
    {
        proof {
            if order_is_total::<V>() {
                lemma_simple_ranges_valid::<V>(v.text());
            }
        }
        Range::of_segment(Segment { lower: Bound::Included(v), upper: Bound::Unbounded })
    }

    /// The range of the versions `> v`.
    pub fn strictly_higher_than(v: V) -> (r: Range<V>)
        ensures
            r@ == strictly_higher_range(v.text()),
            order_is_total::<V>() ==> valid::<V>(r@),
    {
        proof {
            if order_is_total::<V>() {
                lemma_simple_ranges_valid::<V>(v.text());
            }
        }
        Range::of_segment(Segment { lower: Bound::Excluded(v), upper: Bound::Unbounded })
    }

    /// The range of the versions `<= v`.
    pub fn lower_than(v: V) -> (r: Range<V>)
        ensures
            r@ == lower_range(v.text()),
            order_is_total::<V>() ==> valid::<V>(r@),
    {
        proof {
            if order_is_total::<V>() {
                lemma_simple_ranges_valid::<V>(v.text());
            }
        }
        Range::of_segment(Segment { lower: Bound::Unbounded, upper: Bound::Included(v) })
    }

    /// The range of the versions `< v`.
    pub fn strictly_lower_than(v: V) -> (r: Range<V>)
        ensures
            r@ == strictly_lower_range(v.text()),
            order_is_total::<V>() ==> valid::<V>(r@),
    {
        proof {
            if order_is_total::<V>() {
                lemma_simple_ranges_valid::<V>(v.text());
            }
        }
        Range::of_segment(Segment { lower: Bound::Unbounded, upper: Bound::Excluded(v) })
    }

    /// Whether the range has no segment.
    pub fn is_empty(&self) -> (r: bool)
        ensures
            r == (self@ == empty_range()),
    {
        let r = self.segments.len() == 0;
        assert(r == (self@ =~= empty_range()));
        r
    }

    /// Whether `v` lies in the range.
    pub fn contains(&self, v: &V) -> (r: bool)
        ensures
            r == range_contains::<V>(self@, v.text()),
    {
        let mut i: usize = 0;
        while i < self.segments.len()
            invariant
                i <= self.segments.len(),
                forall|k: int| 0 <= k < i ==> !segment_contains::<V>(#[trigger] self@[k], v.text()),
            decreases self.segments.len() - i,
        {
            if self.segments[i].contains(v) {
                assert(segment_contains::<V>(self@[i as int], v.text()));
                return true;
            }
            i = i + 1;
        }
        false
    }

    /// The version that the range is made of, where it is written as one
    /// segment from a version to itself.
    pub fn as_singleton(&self) -> (r: Option<&V>)
        ensures
            r is Some <==> singleton_of::<V>(self@) is Some,
            r matches Some(v) ==> singleton_of::<V>(self@) == Some(v.text()),
    {
        if self.segments.len() != 1 {
            return None;
        }
        assert(self@[0] == self.segments@[0]@);
        match (&self.segments[0].lower, &self.segments[0].upper) {
            (Bound::Included(p), Bound::Included(q)) => {
                if p.compare(q) == Sign::Equal {
                    Some(p)
                } else {
                    None
                }
            },
            _ => None,
        }
    }

    /// What the segment `s` has in common with each segment of the range, in
    /// their order, put at the end of `out`.
    fn meet_each_into(&self, s: &Segment<V>, out: &mut Vec<Segment<V>>)
        ensures
            segment_models(final(out)@) == segment_models(old(out)@) + meet_each::<V>(
                s@,
                self@,
                0,
            ),
    {
        let ghost start = segment_models(out@);
        let mut j: usize = 0;
        assert(start + meet_each::<V>(s@, self@, 0) =~= segment_models(out@) + meet_each::<V>(
            s@,
            self@,
            0,
        ));
        while j < self.segments.len()
            invariant
                j <= self.segments.len(),
                segment_models(out@) + meet_each::<V>(s@, self@, j as int) == start
                    + meet_each::<V>(s@, self@, 0),
            decreases self.segments.len() - j,
        {
            let ghost before = segment_models(out@);
            let ghost rest = meet_each::<V>(s@, self@, j as int);
            assert(self@[j as int] == self.segments@[j as int]@);
            let m = s.meet(&self.segments[j]);
            if m.has_room() {
                out.push(m);
                assert(segment_models(out@) =~= before.push(m@));
                assert(segment_models(out@) + meet_each::<V>(s@, self@, j + 1) =~= before + rest);
            }
            j = j + 1;
        }
        assert(meet_each::<V>(s@, self@, j as int) =~= Seq::empty());
        assert(segment_models(out@) + meet_each::<V>(s@, self@, j as int) =~= segment_models(
            out@,
        ));
    }

    /// The intersection of two ranges.
    pub fn intersection(&self, other: &Range<V>) -> (r: Range<V>)
        ensures
            r@ == range_intersection::<V>(self@, other@),
            order_is_total::<V>() && valid::<V>(self@) && valid::<V>(other@) ==> valid::<V>(r@),
            order_is_total::<V>() ==> forall|v: Seq<char>| #[trigger]
                range_contains::<V>(r@, v) <==> range_contains::<V>(self@, v)
                    && range_contains::<V>(other@, v),
    {
        let mut out: Vec<Segment<V>> = Vec::new();
        let mut i: usize = 0;
        assert(segment_models(out@) + intersection_from::<V>(self@, other@, 0)
            =~= intersection_from::<V>(self@, other@, 0));
        while i < self.segments.len()
            invariant
                i <= self.segments.len(),
                segment_models(out@) + intersection_from::<V>(self@, other@, i as int)
                    == intersection_from::<V>(self@, other@, 0),
            decreases self.segments.len() - i,
        {
            let ghost before = segment_models(out@);
            assert(self@[i as int] == self.segments@[i as int]@);
            other.meet_each_into(&self.segments[i], &mut out);
            assert(segment_models(out@) + intersection_from::<V>(self@, other@, i + 1) =~= before
                + intersection_from::<V>(self@, other@, i as int));
            i = i + 1;
        }
        assert(intersection_from::<V>(self@, other@, i as int) =~= Seq::empty());
        assert(segment_models(out@) + intersection_from::<V>(self@, other@, i as int)
            =~= segment_models(out@));
        let r = Range { segments: out };
        proof {
            if order_is_total::<V>() {
                assert forall|v: Seq<char>| #[trigger]
                    range_contains::<V>(r@, v) <==> range_contains::<V>(self@, v)
                        && range_contains::<V>(other@, v) by {
                    lemma_intersection::<V>(self@, other@, v);
                }
                if valid::<V>(self@) && valid::<V>(other@) {
                    lemma_intersection_valid::<V>(self@, other@);
                }
            }
        }
        r
    }

    /// The versions outside one segment.
    fn outside_of(s: &Segment<V>) -> (r: Range<V>)
        ensures
            r@ == outside(s@),
    {
        let mut out: Vec<Segment<V>> = Vec::new();
        match &s.lower {
            Bound::Unbounded => {},
            _ => {
                out.push(Segment { lower: Bound::Unbounded, upper: s.lower.opposite() });
            },
        }
        match &s.upper {
            Bound::Unbounded => {},
            _ => {
                out.push(Segment { lower: s.upper.opposite(), upper: Bound::Unbounded });
            },
        }
        let r = Range { segments: out };
        assert(r@ =~= outside(s@));
        r
    }

    /// The complement of the range.
    pub fn complement(&self) -> (r: Range<V>)
        ensures
            r@ == range_complement::<V>(self@),
            order_is_total::<V>() && valid::<V>(self@) ==> valid::<V>(r@),
            order_is_total::<V>() ==> forall|v: Seq<char>| #[trigger]
                range_contains::<V>(r@, v) <==> !range_contains::<V>(self@, v),
    {
        let mut acc: Range<V> = Range::full();
        let mut n: usize = 0;
        while n < self.segments.len()
            invariant
                n <= self.segments.len(),
                acc@ == complement_upto::<V>(self@, n as int),
            decreases self.segments.len() - n,
        {
            assert(self@[n as int] == self.segments@[n as int]@);
            let out = Range::outside_of(&self.segments[n]);
            acc = acc.intersection(&out);
            n = n + 1;
        }
        proof {
            if order_is_total::<V>() {
                assert forall|v: Seq<char>| #[trigger]
                    range_contains::<V>(acc@, v) <==> !range_contains::<V>(self@, v) by {
                    lemma_complement::<V>(self@, v);
                }
                if valid::<V>(self@) {
                    lemma_complement_valid::<V>(self@);
                }
            }
        }
        acc
    }

    /// The union of two ranges.
    pub fn union(&self, other: &Range<V>) -> (r: Range<V>)
        ensures
            r@ == range_union::<V>(self@, other@),
            order_is_total::<V>() && valid::<V>(self@) && valid::<V>(other@) ==> valid::<V>(r@),
            order_is_total::<V>() ==> forall|v: Seq<char>| #[trigger]
                range_contains::<V>(r@, v) <==> range_contains::<V>(self@, v)
                    || range_contains::<V>(other@, v),
    {
        let a = self.complement();
        let b = other.complement();
        let r = a.intersection(&b).complement();
        proof {
            if order_is_total::<V>() {
                assert forall|v: Seq<char>| #[trigger]
                    range_contains::<V>(r@, v) <==> range_contains::<V>(self@, v)
                        || range_contains::<V>(other@, v) by {
                    lemma_union::<V>(self@, other@, v);
                }
                if valid::<V>(self@) && valid::<V>(other@) {
                    lemma_union_valid::<V>(self@, other@);
                }
            }
        }
        r
    }

    /// Whether the two ranges have no segment in common. Where this holds
    /// and the order is total, no version lies in both.
    pub fn is_disjoint(&self, other: &Range<V>) -> (r: bool)
        ensures
            r == (range_intersection::<V>(self@, other@) == empty_range()),
            r && order_is_total::<V>() ==> forall|v: Seq<char>|
                !(#[trigger] range_contains::<V>(self@, v) && range_contains::<V>(other@, v)),
    {
        let common = self.intersection(other);
        let r = common.is_empty();
        proof {
            if r && order_is_total::<V>() {
                assert forall|v: Seq<char>|
                    !(#[trigger] range_contains::<V>(self@, v) && range_contains::<V>(
                        other@,
                        v,
                    )) by {
                    lemma_intersection::<V>(self@, other@, v);
                }
            }
        }
        r
    }

    /// Whether the range is written in order: every segment leaves room, and
    /// every segment ends apart from where each later segment begins.
    #[verifier::loop_isolation(false)]
    pub fn is_valid(&self) -> (r: bool)
        ensures
            r == valid::<V>(self@),
    {
        reveal(valid);
        let n = self.segments.len();
        let mut i: usize = 0;
        while i < n
            invariant
                i <= n,
                n == self.segments.len(),
                forall|k: int| 0 <= k < i ==> has_room::<V>(#[trigger] self@[k]),
                forall|k: int, m: int|
                    0 <= k < m < n && k < i ==> apart::<V>(
                        (#[trigger] self@[k]).upper,
                        (#[trigger] self@[m]).lower,
                    ),
            decreases n - i,
        {
            assert(self@[i as int] == self.segments@[i as int]@);
            if !self.segments[i].has_room() {
                return false;
            }
            let mut j: usize = i + 1;
            while j < n
                invariant
                    i < j <= n,
                    n == self.segments.len(),
                    forall|m: int|
                        i < m < j ==> apart::<V>(self@[i as int].upper, (#[trigger] self@[m]).lower),
                decreases n - j,
            {
                assert(self@[i as int] == self.segments@[i as int]@);
                assert(self@[j as int] == self.segments@[j as int]@);
                if !self.segments[i].upper.ends_apart_from(&self.segments[j].lower) {
                    return false;
                }
                j = j + 1;
            }
            i = i + 1;
        }
        true
    }

    /// Whether two ranges are written with the same segments.
    pub fn same(&self, other: &Range<V>) -> (r: bool)
        ensures
            r == (self@ == other@),
    {
        if self.segments.len() != other.segments.len() {
            assert(self@.len() != other@.len());
            return false;
        }
        let mut i: usize = 0;
        while i < self.segments.len()
            invariant
                i <= self.segments.len(),
                self.segments.len() == other.segments.len(),
                forall|j: int| 0 <= j < i ==> self@[j] == other@[j],
            decreases self.segments.len() - i,
        {
            assert(self@[i as int] == self.segments@[i as int]@);
            assert(other@[i as int] == other.segments@[i as int]@);
            if !self.segments[i].same(&other.segments[i]) {
                return false;
            }
            i = i + 1;
        }
        assert(self@ =~= other@);
        true
    }

    /// Whether every segment of this range is a segment of what it has in
    /// common with `other`, in the same order. Where this holds and the
    /// order is total, every version of this range lies in `other`.
    pub fn subset_of(&self, other: &Range<V>) -> (r: bool)
        ensures
            r == (self@ == range_intersection::<V>(self@, other@)),
            r && order_is_total::<V>() ==> forall|v: Seq<char>| #[trigger]
                range_contains::<V>(self@, v) ==> range_contains::<V>(other@, v),
    {
        let common = self.intersection(other);
        let r = self.same(&common);
        proof {
            if r && order_is_total::<V>() {
                assert forall|v: Seq<char>| #[trigger]
                    range_contains::<V>(self@, v) implies range_contains::<V>(other@, v) by {
                    lemma_intersection::<V>(self@, other@, v);
                }
            }
        }
        r
    }

    /// A copy of the range.
    pub fn duplicate(&self) -> (r: Range<V>)
        ensures
            r@ == self@,
    {
        let mut out: Vec<Segment<V>> = Vec::new();
        let mut i: usize = 0;
        while i < self.segments.len()
            invariant
                i <= self.segments.len(),
                segment_models(out@) == self@.subrange(0, i as int),
            decreases self.segments.len() - i,
        {
            let ghost before = segment_models(out@);
            let g = self.segments[i].duplicate();
            out.push(g);
            assert(segment_models(out@) =~= before.push(g@));
            assert(self@[i as int] == self.segments@[i as int]@);
            assert(self@.subrange(0, i + 1) =~= self@.subrange(0, i as int).push(self@[i as int]));
            i = i + 1;
        }
        assert(self@.subrange(0, i as int) =~= self@);
        Range { segments: out }
    }
}

/// What a segment is written as: `*` for all versions, the version for a
/// segment from a version to itself, and else its bounds with `>`, `>=`,
/// `<` and `<=`, a comma between the two.
pub open spec fn segment_text(s: SegmentModel) -> Seq<char> {
    match (s.lower, s.upper) {
        (BoundModel::Unbounded, BoundModel::Unbounded) => "*"@,
        (BoundModel::Unbounded, BoundModel::Included(v)) => "<="@ + v,
        (BoundModel::Unbounded, BoundModel::Excluded(v)) => "<"@ + v,
        (BoundModel::Included(v), BoundModel::Unbounded) => ">="@ + v,
        (BoundModel::Included(v), BoundModel::Included(b)) => if v == b {
            v
        } else {
            ">="@ + v + ", <="@ + b
        },
        (BoundModel::Included(v), BoundModel::Excluded(b)) => ">="@ + v + ", <"@ + b,
        (BoundModel::Excluded(v), BoundModel::Unbounded) => ">"@ + v,
        (BoundModel::Excluded(v), BoundModel::Included(b)) => ">"@ + v + ", <="@ + b,
        (BoundModel::Excluded(v), BoundModel::Excluded(b)) => ">"@ + v + ", <"@ + b,
    }
}

/// What the first `n` segments of a range are written as: the segments with
/// ` | ` between them.
pub open spec fn segments_text(r: Seq<SegmentModel>, n: int) -> Seq<char>
    decreases n,
{
    if n <= 0 || n > r.len() {
        Seq::empty()
    } else if n == 1 {
        segment_text(r[0])
    } else {
        segments_text(r, n - 1) + " | "@ + segment_text(r[n - 1])
    }
}

/// What a range is written as; the range without versions is written `∅`.
pub open spec fn range_text(r: Seq<SegmentModel>) -> Seq<char> {
    if r.len() == 0 {
        "∅"@
    } else {
        segments_text(r, r.len() as int)
    }
}

impl<V: VersionOrder> Segment<V> {
    /// What the segment is written as.
    pub fn to_string(&self) -> (s: String)
        ensures
            s@ == segment_text(self@),
    {
        match (&self.lower, &self.upper) {
            (Bound::Unbounded, Bound::Unbounded) => "*".to_string(),
            (Bound::Unbounded, Bound::Included(v)) => {
                let mut s = "<=".to_string();
                s.append(v.show().as_str());
                s
            },
            (Bound::Unbounded, Bound::Excluded(v)) => {
                let mut s = "<".to_string();
                s.append(v.show().as_str());
                s
            },
            (Bound::Included(v), Bound::Unbounded) => {
                let mut s = ">=".to_string();
                s.append(v.show().as_str());
                s
            },
            (Bound::Included(v), Bound::Included(b)) => {
                if v.same(b) {
                    v.show()
                } else {
                    let mut s = ">=".to_string();
                    s.append(v.show().as_str());
                    s.append(", <=");
                    s.append(b.show().as_str());
                    s
                }
            },
            (Bound::Included(v), Bound::Excluded(b)) => {
                let mut s = ">=".to_string();
                s.append(v.show().as_str());
                s.append(", <");
                s.append(b.show().as_str());
                s
            },
            (Bound::Excluded(v), Bound::Unbounded) => {
                let mut s = ">".to_string();
                s.append(v.show().as_str());
                s
            },
            (Bound::Excluded(v), Bound::Included(b)) => {
                let mut s = ">".to_string();
                s.append(v.show().as_str());
                s.append(", <=");
                s.append(b.show().as_str());
                s
            },
            (Bound::Excluded(v), Bound::Excluded(b)) => {
                let mut s = ">".to_string();
                s.append(v.show().as_str());
                s.append(", <");
                s.append(b.show().as_str());
                s
            },
        }
    }
}

impl<V: VersionOrder> Range<V> {
    /// What the range is written as.
    pub fn to_string(&self) -> (s: String)
        ensures
            s@ == range_text(self@),
    {
        if self.segments.len() == 0 {
            return "∅".to_string();
        }
        assert(self@[0] == self.segments@[0]@);
        let mut s = self.segments[0].to_string();
        let mut i: usize = 1;
        while i < self.segments.len()
            invariant
                1 <= i <= self.segments.len(),
                s@ == segments_text(self@, i as int),
            decreases self.segments.len() - i,
        {
            assert(self@[i as int] == self.segments@[i as int]@);
            s.append(" | ");
            s.append(self.segments[i].to_string().as_str());
            i = i + 1;
        }
        s
    }
}

impl<V: VersionOrder> Clone for Bound<V> {
    fn clone(&self) -> (r: Self)
        ensures
            r@ == self@,
    {
        self.duplicate()
    }
}

impl<V: VersionOrder> Clone for Segment<V> {
    fn clone(&self) -> (r: Self)
        ensures
            r@ == self@,
    {
        self.duplicate()
    }
}

impl<V: VersionOrder> Copied for Range<V> {
    fn copied(&self) -> (r: Self) {
        self.duplicate()
    }
}

impl<V: VersionOrder> Clone for Range<V> {
    fn clone(&self) -> (r: Self)
        ensures
            r@ == self@,
    {
        self.duplicate()
    }
}

/// Intersecting a range with itself leaves its members unchanged.
pub proof fn law_intersection_idempotent<V: VersionOrder>(a: Seq<SegmentModel>, v: Seq<char>)
    requires
        order_is_total::<V>(),
    ensures
        range_contains::<V>(range_intersection::<V>(a, a), v) == range_contains::<V>(a, v),
{
    lemma_intersection::<V>(a, a, v);
}

/// A range and its complement have no member in common, and together they
/// hold every version.
pub proof fn law_complement<V: VersionOrder>(a: Seq<SegmentModel>, v: Seq<char>)
    requires
        order_is_total::<V>(),
    ensures
        !range_contains::<V>(range_intersection::<V>(a, range_complement::<V>(a)), v),
        range_contains::<V>(range_union::<V>(a, range_complement::<V>(a)), v),
        range_contains::<V>(full_range(), v),
        !range_contains::<V>(empty_range(), v),
{
    lemma_complement::<V>(a, v);
    lemma_intersection::<V>(a, range_complement::<V>(a), v);
    lemma_union::<V>(a, range_complement::<V>(a), v);
    lemma_contains_one::<V>(full_range()[0], v);
}

/// Intersection distributes over union:
/// `(a ∩ b) ∪ (a ∩ c)` and `a ∩ (b ∪ c)` have the same members.
pub proof fn law_distributive<V: VersionOrder>(
    a: Seq<SegmentModel>,
    b: Seq<SegmentModel>,
    c: Seq<SegmentModel>,
    v: Seq<char>,
)
    requires
        order_is_total::<V>(),
    ensures
        range_contains::<V>(
            range_union::<V>(range_intersection::<V>(a, b), range_intersection::<V>(a, c)),
            v,
        ) == range_contains::<V>(range_intersection::<V>(a, range_union::<V>(b, c)), v),
{
    lemma_intersection::<V>(a, b, v);
    lemma_intersection::<V>(a, c, v);
    lemma_union::<V>(range_intersection::<V>(a, b), range_intersection::<V>(a, c), v);
    lemma_union::<V>(b, c, v);
    lemma_intersection::<V>(a, range_union::<V>(b, c), v);
}

/// A version lies in `a ∩ b` exactly when it lies in `a` and in `b`.
pub proof fn law_intersection_members<V: VersionOrder>(
    a: Seq<SegmentModel>,
    b: Seq<SegmentModel>,
    v: Seq<char>,
)
    requires
        order_is_total::<V>(),
    ensures
        range_contains::<V>(range_intersection::<V>(a, b), v) == (range_contains::<V>(a, v)
            && range_contains::<V>(b, v)),
{
    lemma_intersection::<V>(a, b, v);
}

/// The singleton of `x` holds exactly the versions that compare equal to
/// `x`; the half-lines hold what lies on their side of `x`.
pub proof fn law_simple_ranges<V: VersionOrder>(x: Seq<char>, v: Seq<char>)
    ensures
        range_contains::<V>(singleton_range(x), v) == (V::order(v, x) == Sign::Equal),
        range_contains::<V>(higher_range(x), v) == (V::order(v, x) != Sign::Less),
        range_contains::<V>(strictly_higher_range(x), v) == (V::order(v, x) == Sign::Greater),
        range_contains::<V>(lower_range(x), v) == (V::order(v, x) != Sign::Greater),
        range_contains::<V>(strictly_lower_range(x), v) == (V::order(v, x) == Sign::Less),
{
    lemma_contains_one::<V>(singleton_range(x)[0], v);
    lemma_contains_one::<V>(higher_range(x)[0], v);
    lemma_contains_one::<V>(strictly_higher_range(x)[0], v);
    lemma_contains_one::<V>(lower_range(x)[0], v);
    lemma_contains_one::<V>(strictly_lower_range(x)[0], v);
}

} // verus!
