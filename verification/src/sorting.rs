//! Stable sorting by keys of text.

use crate::text::{
    earlier, lemma_earlier_irreflexive, lemma_earlier_total, lemma_earlier_transitive, precedes,
};
use vstd::prelude::*;

verus! {

/// What something is sorted by: those that come last are behind all others,
/// and within either the first text decides, then the second.
#[derive(Debug)]
pub struct SortKey {
    pub last: bool,
    pub first: String,
    pub second: String,
}

/// One key comes before another.
pub open spec fn key_before(a: SortKey, b: SortKey) -> bool {
    if a.last != b.last {
        b.last
    } else if a.first@ != b.first@ {
        earlier(a.first@, b.first@)
    } else {
        earlier(a.second@, b.second@)
    }
}

/// Two keys are the same.
pub open spec fn key_same(a: SortKey, b: SortKey) -> bool {
    a.last == b.last && a.first@ == b.first@ && a.second@ == b.second@
}

/// The order of the places of keys: by the keys, and by place where these are
/// the same.
pub open spec fn place_before(keys: Seq<SortKey>, i: int, j: int) -> bool {
    key_before(keys[i], keys[j]) || (key_same(keys[i], keys[j]) && i < j)
}

/// The places from `lo` to `hi`, each once, in order.
pub open spec fn is_order(keys: Seq<SortKey>, r: Seq<usize>, lo: int, hi: int) -> bool {
    &&& r.len() == hi - lo
    &&& forall|i: int| 0 <= i < r.len() ==> lo <= #[trigger] r[i] < hi
    &&& forall|i: int, j: int|
        0 <= i < j < r.len() ==> place_before(keys, #[trigger] r[i] as int, #[trigger] r[j] as int)
    &&& forall|k: usize| lo <= k < hi ==> #[trigger] r.contains(k)
}

proof fn lemma_key_total(a: SortKey, b: SortKey)
    ensures
        key_before(a, b) || key_same(a, b) || key_before(b, a),
{
    lemma_earlier_total(a.first@, b.first@);
    lemma_earlier_total(a.second@, b.second@);
}

proof fn lemma_place_transitive(keys: Seq<SortKey>, i: int, j: int, k: int)
    requires
        place_before(keys, i, j),
        place_before(keys, j, k),
    ensures
        place_before(keys, i, k),
{
    let a = keys[i];
    let b = keys[j];
    let c = keys[k];
    if key_before(a, b) && key_before(b, c) {
        if a.last == b.last && b.last == c.last {
            if a.first@ != b.first@ && b.first@ != c.first@ {
                lemma_earlier_transitive(a.first@, b.first@, c.first@);
                if a.first@ == c.first@ {
                    lemma_earlier_irreflexive(a.first@);
                }
            } else if a.first@ == b.first@ && b.first@ == c.first@ {
                lemma_earlier_transitive(a.second@, b.second@, c.second@);
            }
        }
    }
}

/// Whether one key comes before another.
pub fn is_key_before(a: &SortKey, b: &SortKey) -> (r: bool)
    ensures
        r == key_before(*a, *b),
{
    if a.last != b.last {
        return b.last;
    }
    if precedes(a.first.as_str(), b.first.as_str()) {
        proof {
            if a.first@ == b.first@ {
                lemma_earlier_irreflexive(a.first@);
            }
        }
        return true;
    }
    if precedes(b.first.as_str(), a.first.as_str()) {
        proof {
            if a.first@ == b.first@ {
                lemma_earlier_irreflexive(a.first@);
            }
        }
        return false;
    }
    proof {
        lemma_earlier_total(a.first@, b.first@);
    }
    precedes(a.second.as_str(), b.second.as_str())
}

fn merge(keys: &Vec<SortKey>, a: Vec<usize>, b: Vec<usize>, lo: usize, mid: usize, hi: usize) -> (r:
    Vec<usize>)
    requires
        lo <= mid <= hi <= keys@.len(),
        is_order(keys@, a@, lo as int, mid as int),
        is_order(keys@, b@, mid as int, hi as int),
    ensures
        is_order(keys@, r@, lo as int, hi as int),
{
    let mut r: Vec<usize> = Vec::new();
    let mut i: usize = 0;
    let mut j: usize = 0;
    while i < a.len() || j < b.len()
        invariant
            lo <= mid <= hi <= keys@.len(),
            is_order(keys@, a@, lo as int, mid as int),
            is_order(keys@, b@, mid as int, hi as int),
            i <= a@.len(),
            j <= b@.len(),
            r@.len() == i + j,
            forall|x: int| 0 <= x < r@.len() ==> lo <= #[trigger] r@[x] < hi,
            forall|x: int, y: int|
                0 <= x < y < r@.len() ==> place_before(
                    keys@,
                    #[trigger] r@[x] as int,
                    #[trigger] r@[y] as int,
                ),
            forall|x: int|
                0 <= x < r@.len() && i < a@.len() ==> place_before(
                    keys@,
                    #[trigger] r@[x] as int,
                    a@[i as int] as int,
                ),
            forall|x: int|
                0 <= x < r@.len() && j < b@.len() ==> place_before(
                    keys@,
                    #[trigger] r@[x] as int,
                    b@[j as int] as int,
                ),
            forall|x: int| 0 <= x < i ==> r@.contains(#[trigger] a@[x]),
            forall|x: int| 0 <= x < j ==> r@.contains(#[trigger] b@[x]),
        decreases a@.len() - i + b@.len() - j,
    {
        let left = if i >= a.len() {
            false
        } else if j >= b.len() {
            true
        } else {
            !is_key_before(&keys[b[j]], &keys[a[i]])
        };
        let ghost before = r@;
        let ghost oi = i;
        let ghost oj = j;
        proof {
            if i < a@.len() && j < b@.len() {
                lemma_key_total(keys@[a@[i as int] as int], keys@[b@[j as int] as int]);
                assert(a@[i as int] < b@[j as int]);
                if left {
                    assert(place_before(keys@, a@[i as int] as int, b@[j as int] as int));
                } else {
                    assert(place_before(keys@, b@[j as int] as int, a@[i as int] as int));
                }
            }
        }
        if left {
            r.push(a[i]);
            i += 1;
        } else {
            r.push(b[j]);
            j += 1;
        }
        proof {
            let x = r@.last();
            assert(r@ == before.push(x));
            assert(r@[before.len() as int] == x);
            assert forall|p: int| 0 <= p < oi implies r@.contains(#[trigger] a@[p]) by {
                let q = choose|q: int| 0 <= q < before.len() && before[q] == a@[p];
                assert(r@[q] == a@[p]);
            }
            assert forall|p: int| 0 <= p < oj implies r@.contains(#[trigger] b@[p]) by {
                let q = choose|q: int| 0 <= q < before.len() && before[q] == b@[p];
                assert(r@[q] == b@[p]);
            }
            assert forall|p: int|
                0 <= p < r@.len() && i < a@.len() implies place_before(
                keys@,
                #[trigger] r@[p] as int,
                a@[i as int] as int,
            ) by {
                if p == before.len() {
                    if left {
                        assert(place_before(keys@, a@[oi as int] as int, a@[i as int] as int));
                    }
                } else if left {
                    assert(before[p] == r@[p]);
                    assert(place_before(keys@, before[p] as int, a@[oi as int] as int));
                    lemma_place_transitive(
                        keys@,
                        r@[p] as int,
                        a@[oi as int] as int,
                        a@[i as int] as int,
                    );
                } else {
                    assert(before[p] == r@[p]);
                }
            }
            assert forall|p: int|
                0 <= p < r@.len() && j < b@.len() implies place_before(
                keys@,
                #[trigger] r@[p] as int,
                b@[j as int] as int,
            ) by {
                if p == before.len() {
                    if !left {
                        assert(place_before(keys@, b@[oj as int] as int, b@[j as int] as int));
                    }
                } else if !left {
                    assert(before[p] == r@[p]);
                    assert(place_before(keys@, before[p] as int, b@[oj as int] as int));
                    lemma_place_transitive(
                        keys@,
                        r@[p] as int,
                        b@[oj as int] as int,
                        b@[j as int] as int,
                    );
                } else {
                    assert(before[p] == r@[p]);
                }
            }
        }
    }
    proof {
        assert forall|k: usize| lo <= k < hi implies #[trigger] r@.contains(k) by {
            if k < mid {
                assert(a@.contains(k));
                let x = choose|x: int| 0 <= x < a@.len() && a@[x] == k;
                assert(r@.contains(a@[x]));
            } else {
                assert(b@.contains(k));
                let x = choose|x: int| 0 <= x < b@.len() && b@[x] == k;
                assert(r@.contains(b@[x]));
            }
        }
    }
    r
}

fn sort_range(keys: &Vec<SortKey>, lo: usize, hi: usize) -> (r: Vec<usize>)
    requires
        lo <= hi <= keys@.len(),
    ensures
        is_order(keys@, r@, lo as int, hi as int),
    decreases hi - lo,
{
    if hi - lo == 0 {
        return Vec::new();
    }
    if hi - lo == 1 {
        let mut r: Vec<usize> = Vec::new();
        r.push(lo);
        assert(r@[0] == lo);
        return r;
    }
    let mid: usize = lo + (hi - lo) / 2;
    let a = sort_range(keys, lo, mid);
    let b = sort_range(keys, mid, hi);
    merge(keys, a, b, lo, mid, hi)
}

/// The places of keys in their order.
pub fn order(keys: &Vec<SortKey>) -> (r: Vec<usize>)
    ensures
        is_order(keys@, r@, 0, keys@.len() as int),
{
    sort_range(keys, 0, keys.len())
}

/// There is one order only: sorting gives a definite result.
pub proof fn lemma_order_unique(keys: Seq<SortKey>, r: Seq<usize>, s: Seq<usize>, n: int)
    requires
        is_order(keys, r, 0, n),
        is_order(keys, s, 0, n),
    ensures
        r == s,
{
    assert forall|i: int| 0 <= i < r.len() implies r[i] == s[i] by {
        lemma_order_agrees(keys, r, s, n, i);
    }
    assert(r =~= s);
}

proof fn lemma_order_agrees(keys: Seq<SortKey>, r: Seq<usize>, s: Seq<usize>, n: int, i: int)
    requires
        is_order(keys, r, 0, n),
        is_order(keys, s, 0, n),
        0 <= i < n,
    ensures
        r[i] == s[i],
    decreases i,
{
    if r[i] != s[i] {
        assert(s.contains(r[i]));
        let p = choose|p: int| 0 <= p < s.len() && s[p] == r[i];
        assert(r.contains(s[i]));
        let q = choose|q: int| 0 <= q < r.len() && r[q] == s[i];
        if p < i {
            lemma_order_agrees(keys, r, s, n, p);
            assert(place_before(keys, r[p] as int, r[i] as int));
            lemma_place_irreflexive(keys, r[i] as int);
        }
        if q < i {
            lemma_order_agrees(keys, r, s, n, q);
            assert(place_before(keys, s[q] as int, s[i] as int));
            lemma_place_irreflexive(keys, s[i] as int);
        }
        assert(p > i && q > i);
        assert(place_before(keys, s[i] as int, s[p] as int));
        assert(place_before(keys, r[i] as int, r[q] as int));
        lemma_place_transitive(keys, r[i] as int, s[i] as int, r[i] as int);
        lemma_place_irreflexive(keys, r[i] as int);
    }
}

proof fn lemma_place_irreflexive(keys: Seq<SortKey>, i: int)
    ensures
        !place_before(keys, i, i),
{
    lemma_earlier_irreflexive(keys[i].second@);
}

} // verus!
