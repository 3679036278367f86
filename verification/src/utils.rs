//! The quadratic slice intersection the authorization check is built on.

use vstd::prelude::*;

use crate::action_kind::ActionKind;

verus! {

/// The matches the inner loop of `dumb_intersection` collects for one
/// left-hand element: one copy of `a` per equal element of `bb`.
pub open spec fn spec_matches_of(a: ActionKind, bb: Seq<ActionKind>) -> Seq<ActionKind>
    decreases bb.len(),
{
    if bb.len() == 0 {
        Seq::empty()
    } else {
        spec_matches_of(a, bb.drop_last()) + (if bb.last() == a {
            seq![a]
        } else {
            Seq::empty()
        })
    }
}

/// What the double loop of `dumb_intersection` produces.
pub open spec fn spec_intersection(aa: Seq<ActionKind>, bb: Seq<ActionKind>) -> Seq<ActionKind>
    decreases aa.len(),
{
    if aa.len() == 0 {
        Seq::empty()
    } else {
        spec_intersection(aa.drop_last(), bb) + spec_matches_of(aa.last(), bb)
    }
}

proof fn lemma_matches_contains_one(a: ActionKind, bb: Seq<ActionKind>, k: ActionKind)
    ensures
        spec_matches_of(a, bb).contains(k) <==> (k == a && bb.contains(k)),
    decreases bb.len(),
{
    if bb.len() == 0 {
    } else {
        lemma_matches_contains_one(a, bb.drop_last(), k);
        let m1 = spec_matches_of(a, bb.drop_last());
        let t = if bb.last() == a {
            seq![a]
        } else {
            Seq::<ActionKind>::empty()
        };
        let m = m1 + t;
        if m.contains(k) {
            let i = choose|i: int| 0 <= i < m.len() && m[i] == k;
            if i < m1.len() {
                assert(m1[i] == k);
                assert(bb.drop_last().contains(k)) by {
                    assert(m1.contains(k));
                }
                let j = choose|j: int| 0 <= j < bb.drop_last().len() && bb.drop_last()[j] == k;
                assert(bb[j] == k);
            } else {
                assert(t[i - m1.len()] == k);
                assert(bb.last() == k);
                assert(bb[bb.len() - 1] == k);
            }
        }
        if k == a && bb.contains(k) {
            let j = choose|j: int| 0 <= j < bb.len() && bb[j] == k;
            if j < bb.len() - 1 {
                assert(bb.drop_last()[j] == k);
                assert(bb.drop_last().contains(k));
                assert(m1.contains(k));
                let i = choose|i: int| 0 <= i < m1.len() && m1[i] == k;
                assert(m[i] == k);
            } else {
                assert(bb.last() == k);
                assert(m[m1.len() as int] == k);
            }
            assert(m.contains(k));
        }
    }
}

proof fn lemma_intersection_contains_one(aa: Seq<ActionKind>, bb: Seq<ActionKind>, k: ActionKind)
    ensures
        spec_intersection(aa, bb).contains(k) <==> (aa.contains(k) && bb.contains(k)),
    decreases aa.len(),
{
    if aa.len() == 0 {
    } else {
        lemma_intersection_contains_one(aa.drop_last(), bb, k);
        lemma_matches_contains_one(aa.last(), bb, k);
        let r1 = spec_intersection(aa.drop_last(), bb);
        let t = spec_matches_of(aa.last(), bb);
        let r = r1 + t;
        if r.contains(k) {
            let i = choose|i: int| 0 <= i < r.len() && r[i] == k;
            if i < r1.len() {
                assert(r1[i] == k);
                assert(r1.contains(k));
                let j = choose|j: int| 0 <= j < aa.drop_last().len() && aa.drop_last()[j] == k;
                assert(aa[j] == k);
            } else {
                assert(t[i - r1.len()] == k);
                assert(t.contains(k));
                assert(aa[aa.len() - 1] == k);
            }
            assert(aa.contains(k) && bb.contains(k));
        }
        if aa.contains(k) && bb.contains(k) {
            let j = choose|j: int| 0 <= j < aa.len() && aa[j] == k;
            if j < aa.len() - 1 {
                assert(aa.drop_last()[j] == k);
                assert(aa.drop_last().contains(k));
                assert(r1.contains(k));
                let i = choose|i: int| 0 <= i < r1.len() && r1[i] == k;
                assert(r[i] == k);
            } else {
                assert(aa.last() == k);
                assert(t.contains(k));
                let i = choose|i: int| 0 <= i < t.len() && t[i] == k;
                assert(r[r1.len() as int + i] == k);
            }
            assert(r.contains(k));
        }
    }
}

/// Membership in the intersection is exactly joint membership.
pub proof fn lemma_intersection_contains(aa: Seq<ActionKind>, bb: Seq<ActionKind>)
    ensures
        forall|k: ActionKind| #[trigger]
            spec_intersection(aa, bb).contains(k) <==> (aa.contains(k) && bb.contains(k)),
{
    assert forall|k: ActionKind| #[trigger]
        spec_intersection(aa, bb).contains(k) <==> (aa.contains(k) && bb.contains(k)) by {
        lemma_intersection_contains_one(aa, bb, k);
    }
}

/// Collects, in order, one copy of an element of `aa` for every equal
/// element of `bb`: with duplicate-free inputs, the intersection.
pub fn dumb_intersection(aa: &[ActionKind], bb: &[ActionKind]) -> (r: Vec<ActionKind>)
    ensures
        r@ == spec_intersection(aa@, bb@),
        forall|k: ActionKind| #[trigger] r@.contains(k) <==> (aa@.contains(k) && bb@.contains(k)),
{
    let mut res: Vec<ActionKind> = Vec::new();
    let mut i: usize = 0;
    proof {
        assert(aa@.take(0) =~= Seq::<ActionKind>::empty());
        assert(res@ =~= spec_intersection(aa@.take(0), bb@));
    }
    while i < aa.len()
        invariant
            i <= aa@.len(),
            res@ == spec_intersection(aa@.take(i as int), bb@),
        decreases aa@.len() - i,
    {
        let a = aa[i];
        let mut j: usize = 0;
        proof {
            assert(bb@.take(0) =~= Seq::<ActionKind>::empty());
            assert(res@ + spec_matches_of(a, bb@.take(0)) =~= res@);
        }
        let ghost res0 = res@;
        while j < bb.len()
            invariant
                j <= bb@.len(),
                res@ == res0 + spec_matches_of(a, bb@.take(j as int)),
            decreases bb@.len() - j,
        {
            proof {
                assert(bb@.take(j + 1).drop_last() =~= bb@.take(j as int));
                assert(bb@.take(j + 1).last() == bb@[j as int]);
            }
            if a == bb[j] {
                res.push(a);
                proof {
                    assert(res@ =~= res0 + spec_matches_of(a, bb@.take(j + 1)));
                }
            } else {
                proof {
                    assert(res@ =~= res0 + spec_matches_of(a, bb@.take(j + 1)));
                }
            }
            j += 1;
        }
        proof {
            assert(bb@.take(bb@.len() as int) =~= bb@);
            assert(aa@.take(i + 1).drop_last() =~= aa@.take(i as int));
            assert(aa@.take(i + 1).last() == aa@[i as int]);
            assert(res@ =~= spec_intersection(aa@.take(i + 1), bb@));
        }
        i += 1;
    }
    proof {
        assert(aa@.take(aa@.len() as int) =~= aa@);
        lemma_intersection_contains(aa@, bb@);
    }
    res
}

} // verus!
