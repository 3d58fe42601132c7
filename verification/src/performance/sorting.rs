//! Sorting of response-time samples.

use vstd::prelude::*;
use vstd::relations::*;
use vstd::seq_lib::*;

verus! {

/// The usual order of the natural numbers.
pub open spec fn leq() -> spec_fn(nat, nat) -> bool {
    |a: nat, b: nat| a <= b
}

/// The elements of `s` as natural numbers.
pub open spec fn nats(s: Seq<u128>) -> Seq<nat> {
    Seq::new(s.len(), |i: int| s[i] as nat)
}

/// The samples in ascending order.
pub open spec fn sorted_samples(s: Seq<nat>) -> Seq<nat> {
    s.sort_by(leq())
}

/// `a <= b` is a total order.
pub proof fn lemma_leq_total()
    ensures
        total_ordering(leq()),
{
    let r = leq();
    assert(reflexive(r));
    assert(antisymmetric(r));
    assert(transitive(r));
    assert(strongly_connected(r));
}

/// A sorted arrangement of a sequence is its sorted form.
pub proof fn lemma_sorted_is_sort(s: Seq<nat>, t: Seq<nat>)
    requires
        sorted_by(t, leq()),
        t.to_multiset() =~= s.to_multiset(),
    ensures
        t == sorted_samples(s),
{
    lemma_leq_total();
    s.lemma_sort_by_ensures(leq());
    lemma_sorted_unique(t, s.sort_by(leq()), leq());
}

/// The elements of two adjoining parts of a sequence are, together, those
/// of the two parts in one.
proof fn lemma_split_multiset(s: Seq<nat>, lo: int, mid: int, hi: int)
    requires
        0 <= lo <= mid <= hi <= s.len(),
    ensures
        s.subrange(lo, hi).to_multiset() =~= s.subrange(lo, mid).to_multiset().add(
            s.subrange(mid, hi).to_multiset(),
        ),
{
    assert(s.subrange(lo, hi) =~= s.subrange(lo, mid) + s.subrange(mid, hi));
    lemma_multiset_commutative(s.subrange(lo, mid), s.subrange(mid, hi));
}

/// Merges two ascending vectors into one.
fn merge(a: &Vec<u128>, b: &Vec<u128>) -> (r: Vec<u128>)
    requires
        sorted_by(nats(a@), leq()),
        sorted_by(nats(b@), leq()),
        a.len() + b.len() <= usize::MAX,
    ensures
        sorted_by(nats(r@), leq()),
        nats(r@).to_multiset() =~= nats(a@).to_multiset().add(nats(b@).to_multiset()),
        r.len() == a.len() + b.len(),
{
    broadcast use group_to_multiset_ensures;
    broadcast use vstd::multiset::group_multiset_axioms;

    let mut r: Vec<u128> = Vec::new();
    let mut i: usize = 0;
    let mut j: usize = 0;
    proof {
        assert(nats(r@) =~= Seq::<nat>::empty());
        assert(nats(a@).take(0) =~= Seq::<nat>::empty());
        assert(nats(b@).take(0) =~= Seq::<nat>::empty());
    }
    while i < a.len() || j < b.len()
        invariant
            i <= a.len(),
            j <= b.len(),
            r.len() == i + j,
            a.len() + b.len() <= usize::MAX,
            sorted_by(nats(a@), leq()),
            sorted_by(nats(b@), leq()),
            sorted_by(nats(r@), leq()),
            forall|k: int| 0 <= k < r.len() && i < a.len() ==> r@[k] <= a@[i as int],
            forall|k: int| 0 <= k < r.len() && j < b.len() ==> r@[k] <= b@[j as int],
            nats(r@).to_multiset() =~= nats(a@).take(i as int).to_multiset().add(
                nats(b@).take(j as int).to_multiset(),
            ),
        decreases a.len() - i + b.len() - j,
    {
        let ghost before = r@;
        let from_a: bool = j >= b.len() || (i < a.len() && a[i] <= b[j]);
        if from_a {
            let x: u128 = a[i];
            r.push(x);
            proof {
                let prefix = nats(a@).take(i as int);
                let other = nats(b@).take(j as int);
                assert(nats(a@).take(i + 1) =~= prefix.push(x as nat));
                assert(nats(r@) =~= nats(before).push(x as nat));
                prefix.to_multiset_ensures();
                nats(before).to_multiset_ensures();
                assert(nats(r@).to_multiset() =~= nats(before).to_multiset().insert(x as nat));
                assert(prefix.push(x as nat).to_multiset() =~= prefix.to_multiset().insert(
                    x as nat,
                ));
                assert(nats(r@).to_multiset() =~= nats(a@).take(i + 1).to_multiset().add(
                    other.to_multiset(),
                ));
                assert forall|k: int| 0 <= k < r.len() && i + 1 < a.len() implies r@[k] <= a@[i
                    + 1] by {
                    assert(leq()(nats(a@)[i as int], nats(a@)[i + 1]));
                }
            }
            i += 1;
        } else {
            let x: u128 = b[j];
            r.push(x);
            proof {
                let prefix = nats(b@).take(j as int);
                let other = nats(a@).take(i as int);
                assert(nats(b@).take(j + 1) =~= prefix.push(x as nat));
                assert(nats(r@) =~= nats(before).push(x as nat));
                prefix.to_multiset_ensures();
                nats(before).to_multiset_ensures();
                assert(nats(r@).to_multiset() =~= nats(before).to_multiset().insert(x as nat));
                assert(prefix.push(x as nat).to_multiset() =~= prefix.to_multiset().insert(
                    x as nat,
                ));
                assert(nats(r@).to_multiset() =~= other.to_multiset().add(
                    nats(b@).take(j + 1).to_multiset(),
                ));
                assert forall|k: int| 0 <= k < r.len() && j + 1 < b.len() implies r@[k] <= b@[j
                    + 1] by {
                    assert(leq()(nats(b@)[j as int], nats(b@)[j + 1]));
                }
            }
            j += 1;
        }
        proof {
            assert forall|p: int, q: int| 0 <= p < q < r@.len() implies #[trigger] leq()(
                nats(r@)[p],
                nats(r@)[q],
            ) by {
                if q < before.len() {
                    assert(leq()(nats(before)[p], nats(before)[q]));
                }
            }
        }
    }
    proof {
        assert(nats(a@).take(a.len() as int) =~= nats(a@));
        assert(nats(b@).take(b.len() as int) =~= nats(b@));
    }
    r
}

/// The elements `v[lo..hi]` in ascending order.
fn sorted_range(v: &Vec<u128>, lo: usize, hi: usize) -> (r: Vec<u128>)
    requires
        lo <= hi <= v.len(),
    ensures
        sorted_by(nats(r@), leq()),
        nats(r@).to_multiset() =~= nats(v@).subrange(lo as int, hi as int).to_multiset(),
        r.len() == hi - lo,
    decreases hi - lo,
{
    broadcast use group_to_multiset_ensures;

    if hi - lo <= 1 {
        let mut r: Vec<u128> = Vec::new();
        if hi > lo {
            r.push(v[lo]);
        }
        proof {
            assert(nats(r@) =~= nats(v@).subrange(lo as int, hi as int));
        }
        r
    } else {
        let mid: usize = lo + (hi - lo) / 2;
        let left = sorted_range(v, lo, mid);
        let right = sorted_range(v, mid, hi);
        proof {
            lemma_split_multiset(nats(v@), lo as int, mid as int, hi as int);
        }
        merge(&left, &right)
    }
}

/// The elements of `v` in ascending order.
pub fn sorted_copy(v: &Vec<u128>) -> (r: Vec<u128>)
    ensures
        nats(r@) == sorted_samples(nats(v@)),
        r.len() == v.len(),
{
    let r = sorted_range(v, 0, v.len());
    proof {
        assert(nats(v@).subrange(0, v.len() as int) =~= nats(v@));
        lemma_sorted_is_sort(nats(v@), nats(r@));
    }
    r
}

} // verus!
