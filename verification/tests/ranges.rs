use babel_solver::alpine::version::AlpineVersion;
use babel_solver::debian::version::DebianVersion;
use babel_solver::opam::parse::{negate_relop, relop_to_range, RelOp};
use babel_solver::opam::version::OpamVersion;
use babel_solver::range::{Bound, Range, Segment};

fn v(s: &str) -> OpamVersion {
    OpamVersion(s.to_string())
}

fn between(lo: &str, hi: &str) -> Range<OpamVersion> {
    // [lo, hi)
    Range::higher_than(v(lo)).intersection(&Range::strictly_lower_than(v(hi)))
}

const SAMPLES: [&str; 12] = [
    "0", "0.9", "1", "1.0", "1.5", "2", "2.0", "2.5", "3", "3.1", "4", "10",
];

fn members(r: &Range<OpamVersion>) -> Vec<bool> {
    SAMPLES.iter().map(|s| r.contains(&v(s))).collect()
}

#[test]
fn range_simple_ranges() {
    assert!(members(&Range::empty()).iter().all(|m| !m));
    assert!(members(&Range::full()).iter().all(|m| *m));
    assert!(Range::<OpamVersion>::empty().is_empty());
    assert!(!Range::<OpamVersion>::full().is_empty());

    let one = Range::singleton(v("2"));
    assert!(one.contains(&v("2")));
    assert!(!one.contains(&v("2.0")));
    assert_eq!(one.as_singleton(), Some(&v("2")));
    assert_eq!(Range::<OpamVersion>::full().as_singleton(), None);
    assert_eq!(between("1", "3").as_singleton(), None);

    assert!(Range::higher_than(v("2")).contains(&v("2")));
    assert!(!Range::strictly_higher_than(v("2")).contains(&v("2")));
    assert!(Range::strictly_higher_than(v("2")).contains(&v("2.0")));
    assert!(Range::lower_than(v("2")).contains(&v("2")));
    assert!(!Range::strictly_lower_than(v("2")).contains(&v("2")));
    assert!(Range::strictly_lower_than(v("2")).contains(&v("1.5")));
}

#[test]
fn range_intersection_is_written_by_its_bounds() {
    let r = between("1", "3");
    assert_eq!(
        r.segments,
        vec![Segment { lower: Bound::Included(v("1")), upper: Bound::Excluded(v("3")) }]
    );
    assert_eq!(
        members(&r),
        vec![false, false, true, true, true, true, true, true, false, false, false, false]
    );
    // Bounds that leave no room give the empty range.
    assert!(between("3", "1").is_empty());
    assert!(Range::strictly_higher_than(v("2"))
        .intersection(&Range::lower_than(v("2")))
        .is_empty());
    assert_eq!(
        Range::higher_than(v("2")).intersection(&Range::lower_than(v("2"))),
        Range::singleton(v("2"))
    );
    // The full range changes nothing.
    assert_eq!(r.intersection(&Range::full()), r);
    assert_eq!(Range::full().intersection(&r), r);
}

#[test]
fn range_complement_and_union() {
    let r = between("1", "3");
    let c = r.complement();
    assert_eq!(
        c.segments,
        vec![
            Segment { lower: Bound::Unbounded, upper: Bound::Excluded(v("1")) },
            Segment { lower: Bound::Included(v("3")), upper: Bound::Unbounded },
        ]
    );
    assert_eq!(c.complement(), r);
    assert_eq!(Range::<OpamVersion>::full().complement(), Range::empty());
    assert_eq!(Range::<OpamVersion>::empty().complement(), Range::full());

    let u = between("1", "2").union(&between("3", "4"));
    assert_eq!(
        members(&u),
        vec![false, false, true, true, true, false, false, false, true, true, false, false]
    );
    // Ranges that touch are merged.
    assert_eq!(between("1", "2").union(&between("2", "3")), between("1", "3"));
    assert_eq!(r.union(&r.complement()), Range::full());
}

#[test]
fn range_set_algebra_on_samples() {
    let ranges = vec![
        Range::empty(),
        Range::full(),
        Range::singleton(v("2")),
        between("1", "3"),
        between("2", "10"),
        Range::strictly_higher_than(v("2.5")),
        Range::lower_than(v("1.5")),
        between("0", "1").union(&between("3", "4")),
        Range::singleton(v("2")).complement(),
    ];
    for a in ranges.iter() {
        let ma = members(a);
        // a ∩ a has the members of a.
        assert_eq!(members(&a.intersection(a)), ma);
        // a ∪ ¬a holds everything, a ∩ ¬a nothing.
        assert!(members(&a.union(&a.complement())).iter().all(|m| *m));
        assert!(members(&a.intersection(&a.complement())).iter().all(|m| !m));
        assert!(a.is_disjoint(&a.complement()));
        assert!(a.subset_of(a));
        assert!(a.same(&a.duplicate()));
        for b in ranges.iter() {
            let mb = members(b);
            let both: Vec<bool> = ma.iter().zip(mb.iter()).map(|(x, y)| *x && *y).collect();
            let either: Vec<bool> = ma.iter().zip(mb.iter()).map(|(x, y)| *x || *y).collect();
            assert_eq!(members(&a.intersection(b)), both);
            assert_eq!(members(&a.union(b)), either);
            if a.is_disjoint(b) {
                assert!(both.iter().all(|m| !m));
            }
            if a.subset_of(b) {
                assert!(ma.iter().zip(mb.iter()).all(|(x, y)| !*x || *y));
            }
            for c in ranges.iter() {
                let left = a.intersection(b).union(&a.intersection(c));
                let right = a.intersection(&b.union(c));
                assert_eq!(members(&left), members(&right));
            }
        }
    }
}

#[test]
fn range_is_written_with_its_bounds() {
    assert_eq!(Range::<OpamVersion>::empty().to_string(), "∅");
    assert_eq!(Range::<OpamVersion>::full().to_string(), "*");
    assert_eq!(Range::singleton(v("2")).to_string(), "2");
    assert_eq!(Range::higher_than(v("2")).to_string(), ">=2");
    assert_eq!(Range::strictly_higher_than(v("2")).to_string(), ">2");
    assert_eq!(Range::lower_than(v("2")).to_string(), "<=2");
    assert_eq!(Range::strictly_lower_than(v("2")).to_string(), "<2");
    assert_eq!(between("1", "3").to_string(), ">=1, <3");
    assert_eq!(between("1", "3").complement().to_string(), "<1 | >=3");
    assert_eq!(
        Range::strictly_higher_than(v("1"))
            .intersection(&Range::lower_than(v("3")))
            .to_string(),
        ">1, <=3"
    );
}

#[test]
fn range_relational_operators() {
    let samples = ["1", "2", "3"];
    let at = |op: RelOp| -> Vec<bool> {
        let r = relop_to_range(&op, v("2"));
        samples.iter().map(|s| r.contains(&v(s))).collect()
    };
    assert_eq!(at(RelOp::Eq), vec![false, true, false]);
    assert_eq!(at(RelOp::Neq), vec![true, false, true]);
    assert_eq!(at(RelOp::Lt), vec![true, false, false]);
    assert_eq!(at(RelOp::Leq), vec![true, true, false]);
    assert_eq!(at(RelOp::Gt), vec![false, false, true]);
    assert_eq!(at(RelOp::Geq), vec![false, true, true]);
    for op in [RelOp::Eq, RelOp::Neq, RelOp::Lt, RelOp::Leq, RelOp::Gt, RelOp::Geq].iter() {
        assert_eq!(negate_relop(negate_relop(*op)), *op);
        let negated: Vec<bool> = at(*op).iter().map(|m| !m).collect();
        assert_eq!(at(negate_relop(*op)), negated);
    }
    assert_eq!(negate_relop(RelOp::Eq), RelOp::Neq);
    assert_eq!(negate_relop(RelOp::Lt), RelOp::Geq);
    assert_eq!(negate_relop(RelOp::Leq), RelOp::Gt);
    assert_eq!(RelOp::Neq.to_string(), "!=");
}

#[test]
fn range_follows_the_order_of_its_ecosystem() {
    let d = |s: &str| DebianVersion(s.to_string());
    let r = Range::higher_than(d("1.0")).intersection(&Range::strictly_lower_than(d("1:0.1")));
    assert!(r.contains(&d("1.0")));
    assert!(r.contains(&d("9.9")));
    assert!(!r.contains(&d("1.0~rc1")));
    assert!(!r.contains(&d("1:0.1")));
    let a = |s: &str| AlpineVersion(s.to_string());
    let r = Range::higher_than(a("1.0")).intersection(&Range::strictly_lower_than(a("1.1")));
    assert!(r.contains(&a("1.0_p1")));
    assert!(r.contains(&a("1.0-r3")));
    assert!(!r.contains(&a("1.0_rc1")));
    assert!(!r.contains(&a("1.1")));
    assert!(r.contains(&a("1.1_alpha")));
}

#[test]
fn ranges_stay_written_in_order() {
    let ranges = vec![
        Range::empty(),
        Range::full(),
        Range::singleton(v("2")),
        between("1", "3"),
        between("2", "10"),
        Range::strictly_higher_than(v("2.5")),
        Range::lower_than(v("1.5")),
        between("0", "1").union(&between("3", "4")),
        Range::singleton(v("2")).complement(),
    ];
    for a in ranges.iter() {
        assert!(a.is_valid());
        assert!(a.complement().is_valid());
        // The intersection of a range with itself is the range as it is written.
        assert!(a.intersection(a).same(a));
        assert_eq!(a.intersection(a), *a);
        for b in ranges.iter() {
            assert!(a.intersection(b).is_valid());
            assert!(a.union(b).is_valid());
        }
    }
    // A range written with a repeated segment, or out of order, is not in order.
    let repeated = Range {
        segments: vec![
            Segment { lower: Bound::Included(v("1")), upper: Bound::Included(v("2")) },
            Segment { lower: Bound::Included(v("1")), upper: Bound::Included(v("2")) },
        ],
    };
    assert!(!repeated.is_valid());
    let touching = Range {
        segments: vec![
            Segment { lower: Bound::Included(v("1")), upper: Bound::Excluded(v("2")) },
            Segment { lower: Bound::Included(v("2")), upper: Bound::Unbounded },
        ],
    };
    assert!(!touching.is_valid());
    let no_room = Range {
        segments: vec![Segment { lower: Bound::Included(v("2")), upper: Bound::Excluded(v("1")) }],
    };
    assert!(!no_room.is_valid());
    let apart = Range {
        segments: vec![
            Segment { lower: Bound::Unbounded, upper: Bound::Excluded(v("2")) },
            Segment { lower: Bound::Excluded(v("2")), upper: Bound::Unbounded },
        ],
    };
    assert!(apart.is_valid());
}
