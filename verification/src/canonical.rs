//! Ranges that are written in order: every segment leaves room, and the
//! segments follow each other from the lowest to the highest with versions
//! left out between them. The operations on ranges keep this form wherever
//! the ecosystem's comparison is a total order, and on ranges of this form
//! the laws of sets hold of the ranges as they are written.

use crate::order::{order_is_total, VersionOrder};
use crate::range::{
    complement_upto, empty_range, full_range, has_room, higher_range, intersection_from,
    lemma_order_facts, lower_range, meet, meet_each, opposite, outside, range_complement,
    range_intersection, range_union, singleton_range, strictly_higher_range,
    strictly_lower_range, tighter_lower, tighter_upper, BoundModel, SegmentModel,
};
use crate::text::Sign;
use vstd::prelude::*;

verus! {

/// The upper bound `hi` of one segment lies below the lower bound `lo` of
/// another, and they do not touch: a version lies between them, or the one
/// version at which they meet belongs to neither.
pub open spec fn apart<V: VersionOrder>(hi: BoundModel, lo: BoundModel) -> bool {
    match (hi, lo) {
        (BoundModel::Unbounded, _) => false,
        (_, BoundModel::Unbounded) => false,
        (BoundModel::Included(p), BoundModel::Included(q)) => V::order(p, q) == Sign::Less,
        (BoundModel::Included(p), BoundModel::Excluded(q)) => V::order(p, q) == Sign::Less,
        (BoundModel::Excluded(p), BoundModel::Included(q)) => V::order(p, q) == Sign::Less,
        (BoundModel::Excluded(p), BoundModel::Excluded(q)) => V::order(p, q) != Sign::Greater,
    }
}

/// Every segment of the first list ends apart from where any segment of the
/// second begins.
pub open spec fn all_apart<V: VersionOrder>(x: Seq<SegmentModel>, y: Seq<SegmentModel>) -> bool {
    forall|i: int, j: int|
        0 <= i < x.len() && 0 <= j < y.len() ==> apart::<V>(
            (#[trigger] x[i]).upper,
            (#[trigger] y[j]).lower,
        )
}

/// The range is written in order: every segment leaves room, and every
/// segment ends apart from where each later segment begins.
#[verifier::opaque]
pub open spec fn valid<V: VersionOrder>(r: Seq<SegmentModel>) -> bool {
    &&& forall|i: int| 0 <= i < r.len() ==> has_room::<V>(#[trigger] r[i])
    &&& forall|i: int, j: int|
        0 <= i < j < r.len() ==> apart::<V>((#[trigger] r[i]).upper, (#[trigger] r[j]).lower)
}

/// The version that a bound names.
pub open spec fn bound_version(b: BoundModel) -> Seq<char> {
    match b {
        BoundModel::Unbounded => Seq::empty(),
        BoundModel::Included(v) => v,
        BoundModel::Excluded(v) => v,
    }
}

/// Making an upper bound stricter keeps it apart from what it was apart
/// from.
pub proof fn lemma_tighter_upper_apart<V: VersionOrder>(
    x: BoundModel,
    y: BoundModel,
    lo: BoundModel,
)
    requires
        order_is_total::<V>(),
        apart::<V>(x, lo),
    ensures
        apart::<V>(tighter_upper::<V>(x, y), lo),
        apart::<V>(tighter_upper::<V>(y, x), lo),
{
    lemma_order_facts::<V>(bound_version(y), bound_version(x), bound_version(lo));
    lemma_order_facts::<V>(bound_version(x), bound_version(y), bound_version(lo));
}

/// Making a lower bound stricter keeps it apart from what it was apart from.
pub proof fn lemma_tighter_lower_apart<V: VersionOrder>(
    hi: BoundModel,
    x: BoundModel,
    y: BoundModel,
)
    requires
        order_is_total::<V>(),
        apart::<V>(hi, x),
    ensures
        apart::<V>(hi, tighter_lower::<V>(x, y)),
        apart::<V>(hi, tighter_lower::<V>(y, x)),
{
    lemma_order_facts::<V>(bound_version(hi), bound_version(x), bound_version(y));
    lemma_order_facts::<V>(bound_version(hi), bound_version(y), bound_version(x));
}

/// Bounds that lie apart the wrong way round leave no room.
pub proof fn lemma_apart_no_room<V: VersionOrder>(hi: BoundModel, lo: BoundModel)
    requires
        order_is_total::<V>(),
        apart::<V>(hi, lo),
    ensures
        !has_room::<V>(SegmentModel { lower: lo, upper: hi }),
{
    lemma_order_facts::<V>(bound_version(hi), bound_version(lo), bound_version(hi));
}

/// Two segments of which one ends apart from where the other begins have
/// nothing in common.
pub proof fn lemma_apart_segments<V: VersionOrder>(s: SegmentModel, t: SegmentModel)
    requires
        order_is_total::<V>(),
        apart::<V>(s.upper, t.lower),
    ensures
        !has_room::<V>(meet::<V>(s, t)),
        !has_room::<V>(meet::<V>(t, s)),
{
    lemma_tighter_upper_apart::<V>(s.upper, t.upper, t.lower);
    lemma_tighter_lower_apart::<V>(tighter_upper::<V>(s.upper, t.upper), t.lower, s.lower);
    lemma_tighter_lower_apart::<V>(tighter_upper::<V>(t.upper, s.upper), t.lower, s.lower);
    lemma_apart_no_room::<V>(
        tighter_upper::<V>(s.upper, t.upper),
        tighter_lower::<V>(s.lower, t.lower),
    );
    lemma_apart_no_room::<V>(
        tighter_upper::<V>(t.upper, s.upper),
        tighter_lower::<V>(t.lower, s.lower),
    );
}

/// Two lists written in order, of which the first lies apart before the
/// second, make one list written in order.
pub proof fn lemma_valid_concat<V: VersionOrder>(x: Seq<SegmentModel>, y: Seq<SegmentModel>)
    requires
        valid::<V>(x),
        valid::<V>(y),
        all_apart::<V>(x, y),
    ensures
        valid::<V>(x + y),
{
    reveal(valid);
    let r = x + y;
    assert forall|i: int| 0 <= i < r.len() implies has_room::<V>(#[trigger] r[i]) by {
        if i < x.len() {
            assert(r[i] == x[i]);
        } else {
            assert(r[i] == y[i - x.len()]);
        }
    }
    assert forall|i: int, j: int| 0 <= i < j < r.len() implies apart::<V>(
        (#[trigger] r[i]).upper,
        (#[trigger] r[j]).lower,
    ) by {
        if j < x.len() {
            assert(r[i] == x[i] && r[j] == x[j]);
        } else if i < x.len() {
            assert(r[i] == x[i] && r[j] == y[j - x.len()]);
        } else {
            assert(r[i] == y[i - x.len()] && r[j] == y[j - x.len()]);
        }
    }
}

/// What a segment has in common with segments that all begin apart after
/// `hi` begins apart after `hi`.
pub proof fn lemma_meet_each_after<V: VersionOrder>(
    s: SegmentModel,
    b: Seq<SegmentModel>,
    j: int,
    hi: BoundModel,
)
    requires
        order_is_total::<V>(),
        0 <= j,
        forall|k: int| j <= k < b.len() ==> apart::<V>(hi, (#[trigger] b[k]).lower),
    ensures
        forall|k: int|
            0 <= k < meet_each::<V>(s, b, j).len() ==> apart::<V>(
                hi,
                (#[trigger] meet_each::<V>(s, b, j)[k]).lower,
            ),
    decreases b.len() - j,
{
    if j < b.len() {
        lemma_meet_each_after::<V>(s, b, j + 1, hi);
        let rest = meet_each::<V>(s, b, j + 1);
        let m = meet::<V>(s, b[j]);
        lemma_tighter_lower_apart::<V>(hi, b[j].lower, s.lower);
        let all = meet_each::<V>(s, b, j);
        assert forall|k: int| 0 <= k < all.len() implies apart::<V>(hi, (#[trigger] all[k]).lower) by {
            if has_room::<V>(m) {
                if k > 0 {
                    assert(all[k] == rest[k - 1]);
                }
            }
        }
    }
}

/// What a segment that ends apart before `lo` has in common with other
/// segments ends apart before `lo`.
pub proof fn lemma_meet_each_before<V: VersionOrder>(
    s: SegmentModel,
    b: Seq<SegmentModel>,
    j: int,
    lo: BoundModel,
)
    requires
        order_is_total::<V>(),
        0 <= j,
        apart::<V>(s.upper, lo),
    ensures
        forall|k: int|
            0 <= k < meet_each::<V>(s, b, j).len() ==> apart::<V>(
                (#[trigger] meet_each::<V>(s, b, j)[k]).upper,
                lo,
            ),
    decreases b.len() - j,
{
    if j < b.len() {
        lemma_meet_each_before::<V>(s, b, j + 1, lo);
        let rest = meet_each::<V>(s, b, j + 1);
        let m = meet::<V>(s, b[j]);
        lemma_tighter_upper_apart::<V>(s.upper, b[j].upper, lo);
        let all = meet_each::<V>(s, b, j);
        assert forall|k: int| 0 <= k < all.len() implies apart::<V>((#[trigger] all[k]).upper, lo) by {
            if has_room::<V>(m) {
                if k > 0 {
                    assert(all[k] == rest[k - 1]);
                }
            }
        }
    }
}

/// What a segment has in common with the segments of a range written in
/// order is written in order.
pub proof fn lemma_meet_each_valid<V: VersionOrder>(s: SegmentModel, b: Seq<SegmentModel>, j: int)
    requires
        order_is_total::<V>(),
        valid::<V>(b),
        0 <= j,
    ensures
        valid::<V>(meet_each::<V>(s, b, j)),
    decreases b.len() - j,
{
    reveal(valid);
    if j < b.len() {
        lemma_meet_each_valid::<V>(s, b, j + 1);
        let rest = meet_each::<V>(s, b, j + 1);
        let m = meet::<V>(s, b[j]);
        if has_room::<V>(m) {
            assert forall|k: int| j + 1 <= k < b.len() implies apart::<V>(
                m.upper,
                (#[trigger] b[k]).lower,
            ) by {
                lemma_tighter_upper_apart::<V>(b[j].upper, s.upper, b[k].lower);
            }
            lemma_meet_each_after::<V>(s, b, j + 1, m.upper);
            assert(all_apart::<V>(seq![m], rest));
            lemma_valid_concat::<V>(seq![m], rest);
        }
    }
}

/// What segments that all begin apart after `hi` have in common with a range
/// begins apart after `hi`.
pub proof fn lemma_intersection_after<V: VersionOrder>(
    a: Seq<SegmentModel>,
    b: Seq<SegmentModel>,
    i: int,
    hi: BoundModel,
)
    requires
        order_is_total::<V>(),
        0 <= i,
        forall|k: int| i <= k < a.len() ==> apart::<V>(hi, (#[trigger] a[k]).lower),
    ensures
        forall|k: int|
            0 <= k < intersection_from::<V>(a, b, i).len() ==> apart::<V>(
                hi,
                (#[trigger] intersection_from::<V>(a, b, i)[k]).lower,
            ),
    decreases a.len() - i,
{
    if i < a.len() {
        lemma_intersection_after::<V>(a, b, i + 1, hi);
        let first = meet_each::<V>(a[i], b, 0);
        let rest = intersection_from::<V>(a, b, i + 1);
        lemma_lower_of_meets::<V>(a[i], b, 0, hi);
        let all = intersection_from::<V>(a, b, i);
        assert forall|k: int| 0 <= k < all.len() implies apart::<V>(hi, (#[trigger] all[k]).lower) by {
            if k < first.len() {
                assert(all[k] == first[k]);
            } else {
                assert(all[k] == rest[k - first.len()]);
            }
        }
    }
}

/// What a segment that begins apart after `hi` has in common with other
/// segments begins apart after `hi`.
pub proof fn lemma_lower_of_meets<V: VersionOrder>(
    s: SegmentModel,
    b: Seq<SegmentModel>,
    j: int,
    hi: BoundModel,
)
    requires
        order_is_total::<V>(),
        0 <= j,
        apart::<V>(hi, s.lower),
    ensures
        forall|k: int|
            0 <= k < meet_each::<V>(s, b, j).len() ==> apart::<V>(
                hi,
                (#[trigger] meet_each::<V>(s, b, j)[k]).lower,
            ),
    decreases b.len() - j,
{
    if j < b.len() {
        lemma_lower_of_meets::<V>(s, b, j + 1, hi);
        let rest = meet_each::<V>(s, b, j + 1);
        let m = meet::<V>(s, b[j]);
        lemma_tighter_lower_apart::<V>(hi, s.lower, b[j].lower);
        let all = meet_each::<V>(s, b, j);
        assert forall|k: int| 0 <= k < all.len() implies apart::<V>(hi, (#[trigger] all[k]).lower) by {
            if has_room::<V>(m) {
                if k > 0 {
                    assert(all[k] == rest[k - 1]);
                }
            }
        }
    }
}

/// What the segments `a[i..]` of a range written in order have in common
/// with a range written in order is written in order.
pub proof fn lemma_intersection_from_valid<V: VersionOrder>(
    a: Seq<SegmentModel>,
    b: Seq<SegmentModel>,
    i: int,
)
    requires
        order_is_total::<V>(),
        valid::<V>(a),
        valid::<V>(b),
        0 <= i,
    ensures
        valid::<V>(intersection_from::<V>(a, b, i)),
    decreases a.len() - i,
{
    reveal(valid);
    if i < a.len() {
        lemma_intersection_from_valid::<V>(a, b, i + 1);
        lemma_meet_each_valid::<V>(a[i], b, 0);
        let first = meet_each::<V>(a[i], b, 0);
        let rest = intersection_from::<V>(a, b, i + 1);
        assert forall|p: int, q: int| 0 <= p < first.len() && 0 <= q < rest.len() implies apart::<
            V,
        >((#[trigger] first[p]).upper, (#[trigger] rest[q]).lower) by {
            assert forall|k: int| i + 1 <= k < a.len() implies apart::<V>(
                first[p].upper,
                (#[trigger] a[k]).lower,
            ) by {
                lemma_meet_each_before::<V>(a[i], b, 0, a[k].lower);
            }
            lemma_intersection_after::<V>(a, b, i + 1, first[p].upper);
        }
        lemma_valid_concat::<V>(first, rest);
    }
}

/// The intersection of two ranges written in order is written in order.
pub proof fn lemma_intersection_valid<V: VersionOrder>(a: Seq<SegmentModel>, b: Seq<SegmentModel>)
    requires
        order_is_total::<V>(),
        valid::<V>(a),
        valid::<V>(b),
    ensures
        valid::<V>(range_intersection::<V>(a, b)),
{
    lemma_intersection_from_valid::<V>(a, b, 0);
}

/// The versions outside a segment that leaves room are written in order.
pub proof fn lemma_outside_valid<V: VersionOrder>(s: SegmentModel)
    requires
        order_is_total::<V>(),
        has_room::<V>(s),
    ensures
        valid::<V>(outside(s)),
{
    reveal(valid);
    lemma_order_facts::<V>(
        bound_version(s.lower),
        bound_version(s.upper),
        bound_version(s.lower),
    );
    let below = if s.lower is Unbounded {
        Seq::empty()
    } else {
        seq![SegmentModel { lower: BoundModel::Unbounded, upper: opposite(s.lower) }]
    };
    let above = if s.upper is Unbounded {
        Seq::empty()
    } else {
        seq![SegmentModel { lower: opposite(s.upper), upper: BoundModel::Unbounded }]
    };
    assert(valid::<V>(below));
    assert(valid::<V>(above));
    assert(all_apart::<V>(below, above));
    lemma_valid_concat::<V>(below, above);
}

/// The versions outside each of the first `n` segments of a range whose
/// segments leave room are written in order.
pub proof fn lemma_complement_upto_valid<V: VersionOrder>(a: Seq<SegmentModel>, n: int)
    requires
        order_is_total::<V>(),
        forall|i: int| 0 <= i < a.len() ==> has_room::<V>(#[trigger] a[i]),
    ensures
        valid::<V>(complement_upto::<V>(a, n)),
    decreases n,
{
    reveal(valid);
    if n <= 0 || n > a.len() {
        assert(valid::<V>(full_range()));
    } else {
        lemma_complement_upto_valid::<V>(a, n - 1);
        lemma_outside_valid::<V>(a[n - 1]);
        lemma_intersection_valid::<V>(complement_upto::<V>(a, n - 1), outside(a[n - 1]));
    }
}

/// The complement of a range written in order is written in order.
pub proof fn lemma_complement_valid<V: VersionOrder>(a: Seq<SegmentModel>)
    requires
        order_is_total::<V>(),
        valid::<V>(a),
    ensures
        valid::<V>(range_complement::<V>(a)),
{
    reveal(valid);
    lemma_complement_upto_valid::<V>(a, a.len() as int);
}

/// The union of two ranges written in order is written in order.
pub proof fn lemma_union_valid<V: VersionOrder>(a: Seq<SegmentModel>, b: Seq<SegmentModel>)
    requires
        order_is_total::<V>(),
        valid::<V>(a),
        valid::<V>(b),
    ensures
        valid::<V>(range_union::<V>(a, b)),
{
    lemma_complement_valid::<V>(a);
    lemma_complement_valid::<V>(b);
    lemma_intersection_valid::<V>(range_complement::<V>(a), range_complement::<V>(b));
    lemma_complement_valid::<V>(
        range_intersection::<V>(range_complement::<V>(a), range_complement::<V>(b)),
    );
}

/// The empty range, the full range, the range of one version and the
/// half-lines are written in order.
pub proof fn lemma_simple_ranges_valid<V: VersionOrder>(v: Seq<char>)
    requires
        order_is_total::<V>(),
    ensures
        valid::<V>(empty_range()),
        valid::<V>(full_range()),
        valid::<V>(singleton_range(v)),
        valid::<V>(higher_range(v)),
        valid::<V>(strictly_higher_range(v)),
        valid::<V>(lower_range(v)),
        valid::<V>(strictly_lower_range(v)),
{
    reveal(valid);
    lemma_order_facts::<V>(v, v, v);
}

/// What a segment of a range written in order has in common with the
/// segments of the same range from position `j` on: itself, where it is
/// among them, and nothing else.
pub proof fn lemma_meet_each_self<V: VersionOrder>(a: Seq<SegmentModel>, i: int, j: int)
    requires
        order_is_total::<V>(),
        valid::<V>(a),
        0 <= i < a.len(),
        0 <= j,
    ensures
        meet_each::<V>(a[i], a, j) == if j <= i {
            seq![a[i]]
        } else {
            Seq::<SegmentModel>::empty()
        },
    decreases a.len() - j,
{
    reveal(valid);
    if j < a.len() {
        lemma_meet_each_self::<V>(a, i, j + 1);
        let rest = meet_each::<V>(a[i], a, j + 1);
        if j == i {
            lemma_order_facts::<V>(
                bound_version(a[i].lower),
                bound_version(a[i].upper),
                bound_version(a[i].lower),
            );
            assert(meet::<V>(a[i], a[i]) == a[i]);
            assert(seq![a[i]] + rest =~= seq![a[i]]);
        } else if j < i {
            lemma_apart_segments::<V>(a[j], a[i]);
        } else {
            lemma_apart_segments::<V>(a[i], a[j]);
        }
    }
}

/// What the segments `a[i..]` of a range written in order have in common
/// with the range are those segments.
pub proof fn lemma_intersection_from_self<V: VersionOrder>(a: Seq<SegmentModel>, i: int)
    requires
        order_is_total::<V>(),
        valid::<V>(a),
        0 <= i <= a.len(),
    ensures
        intersection_from::<V>(a, a, i) == a.subrange(i, a.len() as int),
    decreases a.len() - i,
{
    reveal(valid);
    if i < a.len() {
        lemma_intersection_from_self::<V>(a, i + 1);
        lemma_meet_each_self::<V>(a, i, 0);
        assert(seq![a[i]] + a.subrange(i + 1, a.len() as int) =~= a.subrange(i, a.len() as int));
    } else {
        assert(a.subrange(i, a.len() as int) =~= Seq::<SegmentModel>::empty());
    }
}

/// The intersection of a range written in order with itself is the range, as
/// it is written.
pub proof fn law_intersection_with_itself<V: VersionOrder>(a: Seq<SegmentModel>)
    requires
        order_is_total::<V>(),
        valid::<V>(a),
    ensures
        range_intersection::<V>(a, a) == a,
{
    lemma_intersection_from_self::<V>(a, 0);
    assert(a.subrange(0, a.len() as int) =~= a);
}

/// The upper bound `hi` lies at or below the lower bound `lo` with no
/// version admitted by both: it lies below, or the two meet in a version
/// that one of them leaves out.
pub open spec fn before<V: VersionOrder>(hi: BoundModel, lo: BoundModel) -> bool {
    match (hi, lo) {
        (BoundModel::Unbounded, _) => false,
        (_, BoundModel::Unbounded) => false,
        (BoundModel::Included(p), BoundModel::Included(q)) => V::order(p, q) == Sign::Less,
        (BoundModel::Included(p), BoundModel::Excluded(q)) => V::order(p, q) != Sign::Greater,
        (BoundModel::Excluded(p), BoundModel::Included(q)) => V::order(p, q) != Sign::Greater,
        (BoundModel::Excluded(p), BoundModel::Excluded(q)) => V::order(p, q) != Sign::Greater,
    }
}

/// The two segments are written so that they share no version: one of them
/// ends before the other begins.
pub open spec fn avoids<V: VersionOrder>(s: SegmentModel, t: SegmentModel) -> bool {
    before::<V>(s.upper, t.lower) || before::<V>(t.upper, s.lower)
}

/// Every segment of the list avoids `t`.
pub open spec fn all_avoid<V: VersionOrder>(r: Seq<SegmentModel>, t: SegmentModel) -> bool {
    forall|k: int| 0 <= k < r.len() ==> avoids::<V>(#[trigger] r[k], t)
}

/// Making an upper bound stricter keeps it before what it was before.
pub proof fn lemma_tighter_upper_before<V: VersionOrder>(
    x: BoundModel,
    y: BoundModel,
    lo: BoundModel,
)
    requires
        order_is_total::<V>(),
        before::<V>(x, lo),
    ensures
        before::<V>(tighter_upper::<V>(x, y), lo),
        before::<V>(tighter_upper::<V>(y, x), lo),
{
    lemma_order_facts::<V>(bound_version(y), bound_version(x), bound_version(lo));
    lemma_order_facts::<V>(bound_version(x), bound_version(y), bound_version(lo));
}

/// Making a lower bound stricter keeps what was before it before it.
pub proof fn lemma_tighter_lower_before<V: VersionOrder>(
    hi: BoundModel,
    x: BoundModel,
    y: BoundModel,
)
    requires
        order_is_total::<V>(),
        before::<V>(hi, x),
    ensures
        before::<V>(hi, tighter_lower::<V>(x, y)),
        before::<V>(hi, tighter_lower::<V>(y, x)),
{
    lemma_order_facts::<V>(bound_version(hi), bound_version(x), bound_version(y));
    lemma_order_facts::<V>(bound_version(hi), bound_version(y), bound_version(x));
}

/// An upper bound that lies before a lower bound leaves no room above it.
pub proof fn lemma_before_no_room<V: VersionOrder>(hi: BoundModel, lo: BoundModel)
    requires
        order_is_total::<V>(),
        before::<V>(hi, lo),
    ensures
        !has_room::<V>(SegmentModel { lower: lo, upper: hi }),
{
    lemma_order_facts::<V>(bound_version(hi), bound_version(lo), bound_version(hi));
}

/// What a segment has in common with another avoids what either of the two
/// avoids.
pub proof fn lemma_meet_avoids<V: VersionOrder>(s: SegmentModel, w: SegmentModel, t: SegmentModel)
    requires
        order_is_total::<V>(),
        avoids::<V>(s, t),
    ensures
        avoids::<V>(meet::<V>(s, w), t),
        avoids::<V>(meet::<V>(w, s), t),
{
    if before::<V>(s.upper, t.lower) {
        lemma_tighter_upper_before::<V>(s.upper, w.upper, t.lower);
    } else {
        lemma_tighter_lower_before::<V>(t.upper, s.lower, w.lower);
    }
}

/// Segments that avoid each other have nothing in common.
pub proof fn lemma_avoids_no_room<V: VersionOrder>(s: SegmentModel, t: SegmentModel)
    requires
        order_is_total::<V>(),
        avoids::<V>(s, t),
    ensures
        !has_room::<V>(meet::<V>(s, t)),
        !has_room::<V>(meet::<V>(t, s)),
{
    if before::<V>(s.upper, t.lower) {
        lemma_before_segments::<V>(s, t);
    } else {
        lemma_before_segments::<V>(t, s);
    }
}

/// Two segments of which one ends before the other begins have nothing in
/// common.
pub proof fn lemma_before_segments<V: VersionOrder>(s: SegmentModel, t: SegmentModel)
    requires
        order_is_total::<V>(),
        before::<V>(s.upper, t.lower),
    ensures
        !has_room::<V>(meet::<V>(s, t)),
        !has_room::<V>(meet::<V>(t, s)),
{
    lemma_tighter_upper_before::<V>(s.upper, t.upper, t.lower);
    lemma_tighter_lower_before::<V>(tighter_upper::<V>(s.upper, t.upper), t.lower, s.lower);
    lemma_tighter_lower_before::<V>(tighter_upper::<V>(t.upper, s.upper), t.lower, s.lower);
    lemma_before_no_room::<V>(
        tighter_upper::<V>(s.upper, t.upper),
        tighter_lower::<V>(s.lower, t.lower),
    );
    lemma_before_no_room::<V>(
        tighter_upper::<V>(t.upper, s.upper),
        tighter_lower::<V>(t.lower, s.lower),
    );
}

/// What a segment that avoids `t` has in common with other segments avoids
/// `t`.
pub proof fn lemma_meet_each_avoids_left<V: VersionOrder>(
    s: SegmentModel,
    b: Seq<SegmentModel>,
    j: int,
    t: SegmentModel,
)
    requires
        order_is_total::<V>(),
        0 <= j,
        avoids::<V>(s, t),
    ensures
        all_avoid::<V>(meet_each::<V>(s, b, j), t),
    decreases b.len() - j,
{
    if j < b.len() {
        lemma_meet_each_avoids_left::<V>(s, b, j + 1, t);
        let rest = meet_each::<V>(s, b, j + 1);
        let m = meet::<V>(s, b[j]);
        lemma_meet_avoids::<V>(s, b[j], t);
        let all = meet_each::<V>(s, b, j);
        assert forall|k: int| 0 <= k < all.len() implies avoids::<V>(#[trigger] all[k], t) by {
            if has_room::<V>(m) {
                if k > 0 {
                    assert(all[k] == rest[k - 1]);
                }
            }
        }
    }
}

/// What a segment has in common with segments that avoid `t` avoids `t`.
pub proof fn lemma_meet_each_avoids_right<V: VersionOrder>(
    s: SegmentModel,
    b: Seq<SegmentModel>,
    j: int,
    t: SegmentModel,
)
    requires
        order_is_total::<V>(),
        0 <= j,
        all_avoid::<V>(b, t),
    ensures
        all_avoid::<V>(meet_each::<V>(s, b, j), t),
    decreases b.len() - j,
{
    if j < b.len() {
        lemma_meet_each_avoids_right::<V>(s, b, j + 1, t);
        let rest = meet_each::<V>(s, b, j + 1);
        let m = meet::<V>(s, b[j]);
        assert(avoids::<V>(b[j], t));
        lemma_meet_avoids::<V>(b[j], s, t);
        let all = meet_each::<V>(s, b, j);
        assert forall|k: int| 0 <= k < all.len() implies avoids::<V>(#[trigger] all[k], t) by {
            if has_room::<V>(m) {
                if k > 0 {
                    assert(all[k] == rest[k - 1]);
                }
            }
        }
    }
}

/// The intersection of two ranges avoids what every segment of one of them
/// avoids.
pub proof fn lemma_intersection_avoids<V: VersionOrder>(
    a: Seq<SegmentModel>,
    b: Seq<SegmentModel>,
    i: int,
    t: SegmentModel,
)
    requires
        order_is_total::<V>(),
        0 <= i,
        all_avoid::<V>(a, t) || all_avoid::<V>(b, t),
    ensures
        all_avoid::<V>(intersection_from::<V>(a, b, i), t),
    decreases a.len() - i,
{
    if i < a.len() {
        lemma_intersection_avoids::<V>(a, b, i + 1, t);
        let first = meet_each::<V>(a[i], b, 0);
        let rest = intersection_from::<V>(a, b, i + 1);
        if all_avoid::<V>(a, t) {
            assert(avoids::<V>(a[i], t));
            lemma_meet_each_avoids_left::<V>(a[i], b, 0, t);
        } else {
            lemma_meet_each_avoids_right::<V>(a[i], b, 0, t);
        }
        let all = intersection_from::<V>(a, b, i);
        assert forall|k: int| 0 <= k < all.len() implies avoids::<V>(#[trigger] all[k], t) by {
            if k < first.len() {
                assert(all[k] == first[k]);
            } else {
                assert(all[k] == rest[k - first.len()]);
            }
        }
    }
}

/// Every segment of what lies outside a segment avoids the segment.
pub proof fn lemma_outside_avoids<V: VersionOrder>(s: SegmentModel)
    requires
        order_is_total::<V>(),
    ensures
        all_avoid::<V>(outside(s), s),
{
    lemma_order_facts::<V>(
        bound_version(s.lower),
        bound_version(s.lower),
        bound_version(s.lower),
    );
    lemma_order_facts::<V>(
        bound_version(s.upper),
        bound_version(s.upper),
        bound_version(s.upper),
    );
}

/// Every segment of the versions outside the first `n` segments of a range
/// avoids each of those segments.
pub proof fn lemma_complement_upto_avoids<V: VersionOrder>(a: Seq<SegmentModel>, n: int, i: int)
    requires
        order_is_total::<V>(),
        0 <= i < n <= a.len(),
    ensures
        all_avoid::<V>(complement_upto::<V>(a, n), a[i]),
    decreases n,
{
    let before_last = complement_upto::<V>(a, n - 1);
    if i < n - 1 {
        lemma_complement_upto_avoids::<V>(a, n - 1, i);
    } else {
        lemma_outside_avoids::<V>(a[n - 1]);
    }
    lemma_intersection_avoids::<V>(before_last, outside(a[n - 1]), 0, a[i]);
}

/// What a segment has in common with segments that all avoid it is nothing.
pub proof fn lemma_meet_each_nothing<V: VersionOrder>(s: SegmentModel, b: Seq<SegmentModel>, j: int)
    requires
        order_is_total::<V>(),
        0 <= j,
        all_avoid::<V>(b, s),
    ensures
        meet_each::<V>(s, b, j) == Seq::<SegmentModel>::empty(),
    decreases b.len() - j,
{
    if j < b.len() {
        lemma_meet_each_nothing::<V>(s, b, j + 1);
        assert(avoids::<V>(b[j], s));
        lemma_avoids_no_room::<V>(b[j], s);
    }
}

/// What the segments `a[i..]` have in common with the complement of the
/// range is nothing.
pub proof fn lemma_nothing_in_common<V: VersionOrder>(a: Seq<SegmentModel>, i: int)
    requires
        order_is_total::<V>(),
        0 <= i,
    ensures
        intersection_from::<V>(a, range_complement::<V>(a), i) == Seq::<SegmentModel>::empty(),
    decreases a.len() - i,
{
    if i < a.len() {
        lemma_nothing_in_common::<V>(a, i + 1);
        lemma_complement_upto_avoids::<V>(a, a.len() as int, i);
        lemma_meet_each_nothing::<V>(a[i], range_complement::<V>(a), 0);
        assert(Seq::<SegmentModel>::empty() + Seq::<SegmentModel>::empty() =~= Seq::<
            SegmentModel,
        >::empty());
    }
}

/// A range and its complement have nothing in common, and their union is
/// the full range, as the ranges are written.
pub proof fn law_complement_written<V: VersionOrder>(a: Seq<SegmentModel>)
    requires
        order_is_total::<V>(),
    ensures
        range_intersection::<V>(a, range_complement::<V>(a)) == empty_range(),
        range_union::<V>(a, range_complement::<V>(a)) == full_range(),
{
    lemma_nothing_in_common::<V>(a, 0);
    let c = range_complement::<V>(a);
    lemma_nothing_in_common::<V>(c, 0);
    assert(range_intersection::<V>(c, range_complement::<V>(c)) == empty_range());
    assert(range_complement::<V>(empty_range()) == full_range());
}

} // verus!
