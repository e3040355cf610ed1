//! Sorting indices by an order on what they stand for.
use vstd::prelude::*;
use vstd::relations::*;
use vstd::seq_lib::*;

verus! {

/// A total order on indices.
pub trait Order {
    /// The indices that can be compared.
    spec fn valid(&self, i: int) -> bool;

    /// `i` comes before `j`, or is `j`.
    spec fn leq(&self, i: int, j: int) -> bool;

    /// The order is total.
    proof fn lemma_total(&self)
        ensures
            total_ordering(|i: int, j: int| self.leq(i, j)),
    ;

    /// Tells whether `i` comes before `j`, or is `j`.
    fn at_most(&self, i: usize, j: usize) -> (r: bool)
        requires
            self.valid(i as int),
            self.valid(j as int),
        ensures
            r == self.leq(i as int, j as int),
    ;
}

/// The indices of a list as integers.
pub open spec fn ints(v: Seq<usize>) -> Seq<int> {
    Seq::new(v.len(), |i: int| v[i] as int)
}

/// The numbers below `n`.
pub open spec fn below(n: nat) -> Seq<int> {
    Seq::new(n, |i: int| i)
}

/// The numbers below `n`.
pub fn indices(n: usize) -> (r: Vec<usize>)
    ensures
        ints(r@) == below(n as nat),
        r@.len() == n,
        forall|k: int| 0 <= k < n ==> r@[k] == k,
{
    let mut r: Vec<usize> = Vec::new();
    let mut i: usize = 0;
    while i < n
        invariant
            i <= n,
            r.len() == i,
            forall|k: int| 0 <= k < i ==> r@[k] == k,
        decreases n - i,
    {
        r.push(i);
        i += 1;
    }
    assert(ints(r@) =~= below(n as nat));
    r
}

/// Sorts indices. The result is the one sorted rearrangement there is.
pub fn sort<O: Order>(o: &O, v: &Vec<usize>) -> (r: Vec<usize>)
    requires
        forall|k: int| 0 <= k < v.len() ==> #[trigger] o.valid(v[k] as int),
    ensures
        ints(r@) == ints(v@).sort_by(|i: int, j: int| o.leq(i, j)),
{
    let ghost leq = |i: int, j: int| o.leq(i, j);
    let mut out: Vec<usize> = Vec::new();
    let mut n: usize = 0;
    proof {
        o.lemma_total();
        assert(ints(v@).take(0) =~= ints(out@));
    }
    while n < v.len()
        invariant
            n <= v.len(),
            leq == (|i: int, j: int| o.leq(i, j)),
            total_ordering(leq),
            forall|k: int| 0 <= k < v.len() ==> #[trigger] o.valid(v[k] as int),
            forall|k: int| 0 <= k < out.len() ==> #[trigger] o.valid(out[k] as int),
            sorted_by(ints(out@), leq),
            ints(out@).to_multiset() == ints(v@).take(n as int).to_multiset(),
        decreases v.len() - n,
    {
        let x: usize = v[n];
        assert(o.valid(v[n as int] as int));
        let ghost s = ints(out@);
        let mut lo: usize = 0;
        let mut hi: usize = out.len();
        while lo < hi
            invariant
                lo <= hi <= out.len(),
                leq == (|i: int, j: int| o.leq(i, j)),
                total_ordering(leq),
                s == ints(out@),
                sorted_by(s, leq),
                o.valid(x as int),
                forall|k: int| 0 <= k < out.len() ==> #[trigger] o.valid(out[k] as int),
                forall|k: int| 0 <= k < lo ==> leq(#[trigger] s[k], x as int),
                forall|k: int| hi <= k < s.len() ==> !leq(#[trigger] s[k], x as int),
            decreases hi - lo,
        {
            let mid: usize = lo + (hi - lo) / 2;
            assert(o.valid(out[mid as int] as int));
            assert(s[mid as int] == out[mid as int]);
            if o.at_most(out[mid], x) {
                assert forall|k: int| 0 <= k < mid + 1 implies leq(#[trigger] s[k], x as int) by {
                    if k < mid {
                        assert(leq(s[k], s[mid as int]));
                        assert(leq(s[mid as int], x as int));
                    }
                }
                lo = mid + 1;
            } else {
                assert forall|k: int| mid <= k < s.len() implies !leq(#[trigger] s[k], x as int) by {
                    if k > mid && leq(s[k], x as int) {
                        assert(leq(s[mid as int], s[k]));
                        assert(leq(s[mid as int], x as int));
                    }
                }
                hi = mid;
            }
        }
        out.insert(lo, x);
        proof {
            let t = ints(out@);
            assert(t =~= s.insert(lo as int, x as int));
            to_multiset_insert(s, lo as int, x as int);
            assert(ints(v@).take(n + 1) =~= ints(v@).take(n as int).push(x as int));
            to_multiset_build(ints(v@).take(n as int), x as int);
            assert forall|i: int, j: int| 0 <= i < j < t.len() implies #[trigger] leq(t[i], t[j]) by {
                let i0 = if i < lo {
                    i
                } else {
                    i - 1
                };
                let j0 = if j < lo {
                    j
                } else {
                    j - 1
                };
                if i != lo && j != lo {
                    assert(leq(s[i0], s[j0]));
                } else if j == lo {
                    assert(leq(s[i], x as int));
                } else {
                    assert(!leq(s[j0], x as int));
                    assert(leq(x as int, s[j0]) || leq(s[j0], x as int));
                }
            }
            assert forall|k: int| 0 <= k < out.len() implies #[trigger] o.valid(out[k] as int) by {
                if k < lo {
                    assert(o.valid(s[k]));
                } else if k > lo {
                    assert(o.valid(s[k - 1]));
                }
            }
        }
        n += 1;
    }
    proof {
        assert(ints(v@).take(n as int) =~= ints(v@));
        ints(v@).lemma_sort_by_ensures(leq);
        lemma_sorted_unique(ints(out@), ints(v@).sort_by(leq), leq);
    }
    out
}

/// The numbers below `n` that are kept: each once, and in order.
pub proof fn lemma_kept(n: nat, keep: spec_fn(int) -> bool)
    ensures
        below(n).filter(keep).no_duplicates(),
        forall|i: int| #[trigger] below(n).filter(keep).contains(i) <==> 0 <= i < n && keep(i),
        forall|k: int, l: int|
            0 <= k < l < below(n).filter(keep).len() ==> (#[trigger] below(n).filter(keep)[k])
                < #[trigger] below(n).filter(keep)[l],
    decreases n,
{
    reveal(Seq::filter);
    let kept = below(n).filter(keep);
    if n == 0 {
        assert(below(n) =~= Seq::empty());
    } else {
        let m = (n - 1) as nat;
        let before = below(m).filter(keep);
        assert(below(n).drop_last() =~= below(m));
        lemma_kept(m, keep);
        assert(kept == if keep(m as int) {
            before.push(m as int)
        } else {
            before
        });
        assert forall|i: int| #[trigger] kept.contains(i) <==> 0 <= i < n && keep(i) by {
            if keep(m as int) {
                if kept.contains(i) {
                    let k = choose|k: int| 0 <= k < kept.len() && kept[k] == i;
                    if k < before.len() {
                        assert(before.contains(before[k]));
                    }
                }
                if 0 <= i < n && keep(i) {
                    if i < m {
                        assert(before.contains(i));
                        let k = choose|k: int| 0 <= k < before.len() && before[k] == i;
                        assert(kept[k] == i);
                    } else {
                        assert(kept[kept.len() - 1] == i);
                    }
                }
            } else {
                assert(before.contains(i) <==> 0 <= i < m && keep(i));
            }
        }
        assert forall|k: int, l: int| 0 <= k < l < kept.len() implies (#[trigger] kept[k]) < #[trigger] kept[l] by {
            assert(before.contains(before[k]));
        }
    }
}

/// Sorting distinct numbers rearranges them.
pub proof fn lemma_rearranged(s: Seq<int>, leq: spec_fn(int, int) -> bool)
    requires
        total_ordering(leq),
        s.no_duplicates(),
    ensures
        s.sort_by(leq).len() == s.len(),
        s.sort_by(leq).no_duplicates(),
        forall|x: int| s.contains(x) <==> #[trigger] s.sort_by(leq).contains(x),
        forall|k: int, l: int|
            0 <= k < l < s.len() ==> leq(
                #[trigger] s.sort_by(leq)[k],
                #[trigger] s.sort_by(leq)[l],
            ),
{
    broadcast use group_to_multiset_ensures;

    s.lemma_sort_by_ensures(leq);
    let t = s.sort_by(leq);
    assert(t.len() == t.to_multiset().len());
    s.lemma_multiset_has_no_duplicates();
    t.lemma_multiset_has_no_duplicates_conv();
    assert forall|x: int| s.contains(x) <==> #[trigger] t.contains(x) by {
        assert(s.contains(x) <==> s.to_multiset().count(x) > 0);
        assert(t.contains(x) <==> t.to_multiset().count(x) > 0);
    }
    assert forall|k: int, l: int| 0 <= k < l < s.len() implies leq(
        #[trigger] t[k],
        #[trigger] t[l],
    ) by {
        assert(leq(t[k], t[l]));
    }
}

} // verus!
