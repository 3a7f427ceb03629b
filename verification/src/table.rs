//! Tables by number.

use std::collections::HashMap;
use vstd::prelude::*;
use vstd::std_specs::iter::IteratorSpec;

verus! {

/// A table of values by number.
pub struct Table<V> {
    rows: HashMap<u64, V>,
}

impl<V> View for Table<V> {
    type V = Map<u64, V>;

    closed spec fn view(&self) -> Map<u64, V> {
        self.rows@
    }
}

impl<V> Table<V> {
    /// An empty table.
    pub fn new() -> (r: Self)
        ensures
            r@ == Map::<u64, V>::empty(),
    {
        Table { rows: HashMap::new() }
    }

    /// The value under a number.
    pub fn get(&self, k: u64) -> (r: Option<&V>)
        ensures
            match r {
                Some(v) => self@.contains_key(k) && self@[k] == *v,
                None => !self@.contains_key(k),
            },
    {
        broadcast use vstd::std_specs::hash::group_hash_axioms;

        self.rows.get(&k)
    }

    /// Whether there is a value under a number.
    pub fn contains(&self, k: u64) -> (r: bool)
        ensures
            r == self@.contains_key(k),
    {
        broadcast use vstd::std_specs::hash::group_hash_axioms;

        self.rows.contains_key(&k)
    }

    /// Puts a value under a number, and gives the one that stood there.
    pub fn insert(&mut self, k: u64, v: V) -> (r: Option<V>)
        ensures
            final(self)@ == old(self)@.insert(k, v),
            match r {
                Some(w) => old(self)@.contains_key(k) && old(self)@[k] == w,
                None => !old(self)@.contains_key(k),
            },
    {
        broadcast use vstd::std_specs::hash::group_hash_axioms;

        self.rows.insert(k, v)
    }

    /// Takes the value under a number out.
    pub fn remove(&mut self, k: u64) -> (r: Option<V>)
        ensures
            final(self)@ == old(self)@.remove(k),
            match r {
                Some(w) => old(self)@.contains_key(k) && old(self)@[k] == w,
                None => !old(self)@.contains_key(k),
            },
    {
        broadcast use vstd::std_specs::hash::group_hash_axioms;

        let r = self.rows.remove(&k);
        assert(self@ =~= old(self)@.remove(k));
        r
    }

    /// The numbers under which there are values, in some order.
    pub fn keys(&self) -> (r: Vec<u64>)
        ensures
            r@.no_duplicates(),
            forall|k: u64| r@.contains(k) <==> #[trigger] self@.contains_key(k),
    {
        broadcast use vstd::std_specs::hash::group_hash_axioms;

        let mut r: Vec<u64> = Vec::new();
        for k in it: self.rows.keys()
            invariant
                it.seq().unref().to_set() == self.rows@.dom(),
                it.seq().no_duplicates(),
                r@.len() == it.index(),
                forall|j: int| 0 <= j < r@.len() ==> r@[j] == *it.seq()[j],
        {
            r.push(*k);
        }
        proof {
            let keys = vstd::std_specs::hash::spec_keys_iter(&self.rows).remaining();
            assert(r@ =~= keys.unref());
            assert(r@.no_duplicates()) by {
                assert forall|i: int, j: int|
                    0 <= i < r@.len() && 0 <= j < r@.len() && i != j implies r@[i] != r@[j] by {
                    assert(*keys[i] == r@[i] && *keys[j] == r@[j]);
                    assert(keys[i] != keys[j]);
                }
            }
            assert forall|k: u64| r@.contains(k) <==> #[trigger] self@.contains_key(k) by {
                assert(keys.unref().to_set().contains(k) == r@.contains(k));
            }
        }
        r
    }

    /// A number whose value answers yes, if there is one.
    pub fn find<F: Fn(&V) -> bool>(&self, f: F, Ghost(p): Ghost<spec_fn(V) -> bool>) -> (r: Option<
        u64,
    >)
        requires
            forall|v: &V| #[trigger] f.requires((v,)),
            forall|v: &V, b: bool| #[trigger] f.ensures((v,), b) ==> b == p(*v),
        ensures
            match r {
                Some(k) => self@.contains_key(k) && p(self@[k]),
                None => forall|k: u64| #[trigger] self@.contains_key(k) ==> !p(self@[k]),
            },
    {
        let keys = self.keys();
        let mut i: usize = 0;
        while i < keys.len()
            invariant
                i <= keys@.len(),
                forall|v: &V| #[trigger] f.requires((v,)),
                forall|v: &V, b: bool| #[trigger] f.ensures((v,), b) ==> b == p(*v),
                forall|k: u64| keys@.contains(k) <==> #[trigger] self@.contains_key(k),
                forall|j: int| 0 <= j < i ==> !p(self@[#[trigger] keys@[j]]),
            decreases keys@.len() - i,
        {
            assert(keys@.contains(keys@[i as int]));
            match self.get(keys[i]) {
                Some(v) => if f(v) {
                    return Some(keys[i]);
                },
                None => {},
            }
            i += 1;
        }
        proof {
            assert forall|k: u64| #[trigger] self@.contains_key(k) implies !p(self@[k]) by {
                assert(keys@.contains(k));
                let j = choose|j: int| 0 <= j < keys@.len() && keys@[j] == k;
                assert(!p(self@[keys@[j]]));
            }
        }
        None
    }

    /// Changes every value.
    pub fn change<F: Fn(V) -> V>(&mut self, f: F, Ghost(g): Ghost<spec_fn(V) -> V>)
        requires
            forall|v: V| #[trigger] f.requires((v,)),
            forall|v: V, w: V| #[trigger] f.ensures((v,), w) ==> w == g(v),
        ensures
            final(self)@ == old(self)@.map_values(g),
    {
        let ghost start = self@;
        let keys = self.keys();
        let mut i: usize = 0;
        while i < keys.len()
            invariant
                i <= keys@.len(),
                keys@.no_duplicates(),
                forall|v: V| #[trigger] f.requires((v,)),
                forall|v: V, w: V| #[trigger] f.ensures((v,), w) ==> w == g(v),
                forall|k: u64| keys@.contains(k) <==> #[trigger] start.contains_key(k),
                self@.dom() == start.dom(),
                forall|j: int| 0 <= j < i ==> self@[#[trigger] keys@[j]] == g(start[keys@[j]]),
                forall|j: int| i <= j < keys@.len() ==> self@[#[trigger] keys@[j]] == start[keys@[j]],
            decreases keys@.len() - i,
        {
            let k: u64 = keys[i];
            let ghost before = self@;
            proof {
                assert(keys@.contains(k));
                assert(before.dom().contains(k));
                assert(before[keys@[i as int]] == start[keys@[i as int]]);
            }
            match self.remove(k) {
                Some(v) => {
                    let w = f(v);
                    let _ = self.insert(k, w);
                },
                None => {},
            }
            proof {
                assert(self@ =~= before.insert(k, g(start[k])));
                assert(self@.dom() =~= start.dom());
                assert forall|j: int| 0 <= j < i + 1 implies self@[#[trigger] keys@[j]] == g(
                    start[keys@[j]],
                ) by {
                    if j < i {
                        assert(keys@[j] != keys@[i as int]);
                        assert(before[keys@[j]] == g(start[keys@[j]]));
                    }
                }
                assert forall|j: int| i + 1 <= j < keys@.len() implies self@[#[trigger] keys@[j]]
                    == start[keys@[j]] by {
                    assert(keys@[j] != keys@[i as int]);
                    assert(before[keys@[j]] == start[keys@[j]]);
                }
            }
            i += 1;
        }
        proof {
            assert forall|k: u64| #[trigger] start.contains_key(k) implies self@[k] == g(start[k]) by {
                assert(keys@.contains(k));
                let j = choose|j: int| 0 <= j < keys@.len() && keys@[j] == k;
                assert(self@[keys@[j]] == g(start[keys@[j]]));
            }
            assert(self@ =~= start.map_values(g));
        }
    }
}

} // verus!
