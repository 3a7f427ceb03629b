//! Collections keyed by text, kept in lexicographic order of their keys.

use crate::text::{
    earlier, lemma_earlier_irreflexive, lemma_earlier_total, lemma_earlier_transitive, precedes,
    same_text,
};
use vstd::prelude::*;

verus! {

/// The entries of `m` that satisfy `p`.
pub open spec fn kept<A>(
    m: Map<Seq<char>, A>,
    p: spec_fn(Seq<char>, A) -> bool,
) -> Map<Seq<char>, A> {
    Map::new(|k: Seq<char>| m.contains_key(k) && p(k, m[k]), |k: Seq<char>| m[k])
}

/// A map from texts that walks its keys in order.
#[derive(Debug)]
pub struct StringMap<V> {
    entries: Vec<(String, V)>,
}

impl<V: View> View for StringMap<V> {
    type V = Map<Seq<char>, V::V>;

    closed spec fn view(&self) -> Map<Seq<char>, V::V> {
        Map::new(
            |k: Seq<char>| exists|i: int| 0 <= i < self.entries@.len() && #[trigger] self.key_at(i) == k,
            |k: Seq<char>|
                self.entries@[choose|i: int|
                    0 <= i < self.entries@.len() && #[trigger] self.key_at(i) == k].1@,
        )
    }
}

impl<V: View> StringMap<V> {
    closed spec fn key_at(&self, i: int) -> Seq<char> {
        self.entries@[i].0@
    }

    /// The keys stand in order, each once.
    pub closed spec fn wf(&self) -> bool {
        forall|i: int, j: int|
            0 <= i < j < self.entries@.len() ==> earlier(
                #[trigger] self.key_at(i),
                #[trigger] self.key_at(j),
            )
    }

    proof fn lemma_at(&self, i: int)
        requires
            self.wf(),
            0 <= i < self.entries@.len(),
        ensures
            self@.contains_key(self.key_at(i)),
            self@[self.key_at(i)] == self.entries@[i].1@,
    {
        let k = self.key_at(i);
        let j = choose|j: int| 0 <= j < self.entries@.len() && #[trigger] self.key_at(j) == k;
        lemma_earlier_irreflexive(k);
        assert(i == j) by {
            if i < j {
                assert(earlier(self.key_at(i), self.key_at(j)));
            } else if j < i {
                assert(earlier(self.key_at(j), self.key_at(i)));
            }
        }
    }

    proof fn lemma_domain(&self)
        requires
            self.wf(),
        ensures
            self@.dom() == Seq::new(self.entries@.len(), |i: int| self.key_at(i)).to_set(),
            self@.dom().finite(),
            self@.dom().len() == self.entries@.len(),
    {
        let keys = Seq::new(self.entries@.len(), |i: int| self.key_at(i));
        assert forall|i: int, j: int| 0 <= i < keys.len() && 0 <= j < keys.len() && i != j implies keys[i]
            != keys[j] by {
            lemma_earlier_irreflexive(keys[i]);
            if i < j {
                assert(earlier(self.key_at(i), self.key_at(j)));
            } else {
                assert(earlier(self.key_at(j), self.key_at(i)));
            }
        }
        assert(keys.no_duplicates());
        keys.unique_seq_to_set();
        assert forall|k: Seq<char>| self@.dom().contains(k) implies keys.to_set().contains(k) by {
            let i = choose|i: int| 0 <= i < self.entries@.len() && #[trigger] self.key_at(i) == k;
            assert(keys[i] == k);
        }
        assert forall|k: Seq<char>| keys.to_set().contains(k) implies self@.dom().contains(k) by {
            let i = choose|i: int| 0 <= i < keys.len() && keys[i] == k;
            assert(self.key_at(i) == k);
        }
        assert(self@.dom() =~= keys.to_set());
    }

    /// The empty map.
    pub fn new() -> (r: Self)
        ensures
            r.wf(),
            r@ == Map::<Seq<char>, V::V>::empty(),
    {
        let r = StringMap { entries: Vec::new() };
        assert(r@ =~= Map::<Seq<char>, V::V>::empty());
        r
    }

    /// The number of entries.
    pub fn len(&self) -> (r: usize)
        requires
            self.wf(),
        ensures
            self@.dom().finite(),
            r == self@.dom().len(),
    {
        proof {
            self.lemma_domain();
        }
        self.entries.len()
    }

    fn find(&self, key: &str) -> (r: Option<usize>)
        requires
            self.wf(),
        ensures
            match r {
                Some(i) => i < self.entries@.len() && self.key_at(i as int) == key@,
                None => !self@.contains_key(key@),
            },
    {
        let mut i: usize = 0;
        while i < self.entries.len()
            invariant
                i <= self.entries@.len(),
                forall|j: int| 0 <= j < i ==> #[trigger] self.key_at(j) != key@,
            decreases self.entries@.len() - i,
        {
            if same_text(self.entries[i].0.as_str(), key) {
                return Some(i);
            }
            assert(self.key_at(i as int) != key@);
            i += 1;
        }
        None
    }

    /// Whether there is an entry under `key`.
    pub fn contains_key(&self, key: &str) -> (r: bool)
        requires
            self.wf(),
        ensures
            r == self@.contains_key(key@),
    {
        match self.find(key) {
            Some(i) => {
                proof {
                    self.lemma_at(i as int);
                }
                true
            },
            None => false,
        }
    }

    /// The value under `key`.
    pub fn get(&self, key: &str) -> (r: Option<&V>)
        requires
            self.wf(),
        ensures
            match r {
                Some(v) => self@.contains_key(key@) && self@[key@] == v@,
                None => !self@.contains_key(key@),
            },
    {
        match self.find(key) {
            Some(i) => {
                proof {
                    self.lemma_at(i as int);
                }
                Some(&self.entries[i].1)
            },
            None => None,
        }
    }

    /// Puts a value under `key`, in place of the one that stood there.
    pub fn insert(&mut self, key: String, value: V)
        requires
            old(self).wf(),
        ensures
            final(self).wf(),
            final(self)@ == old(self)@.insert(key@, value@),
    {
        self.remove(key.as_str());
        let ghost before = *self;
        let ghost k = key@;
        let ghost v = value@;
        let mut at: usize = 0;
        while at < self.entries.len() && precedes(self.entries[at].0.as_str(), key.as_str())
            invariant
                *self == before,
                self.wf(),
                k == key@,
                at <= self.entries@.len(),
                forall|i: int| 0 <= i < at ==> earlier(#[trigger] self.key_at(i), k),
            decreases self.entries@.len() - at,
        {
            assert(earlier(self.key_at(at as int), k));
            at += 1;
        }
        self.entries.insert(at, (key, value));
        proof {
            let after = *self;
            assert(after.entries@ == before.entries@.insert(at as int, after.entries@[at as int]));
            assert forall|i: int|
                0 <= i < after.entries@.len() implies #[trigger] after.key_at(i) == (if i < at {
                before.key_at(i)
            } else if i == at {
                k
            } else {
                before.key_at(i - 1)
            }) by {}
            assert forall|i: int| at <= i < before.entries@.len() implies earlier(
                k,
                #[trigger] before.key_at(i),
            ) by {
                lemma_earlier_total(k, before.key_at(at as int));
                before.lemma_at(at as int);
                assert(before.key_at(at as int) != k);
                if i > at {
                    assert(earlier(before.key_at(at as int), before.key_at(i)));
                    lemma_earlier_transitive(k, before.key_at(at as int), before.key_at(i));
                }
            }
            assert forall|i: int, j: int| 0 <= i < j < after.entries@.len() implies earlier(
                #[trigger] after.key_at(i),
                #[trigger] after.key_at(j),
            ) by {
                let a = if i < at {
                    i
                } else {
                    i - 1
                };
                let b = if j < at {
                    j
                } else {
                    j - 1
                };
                if i != at && j != at {
                    assert(earlier(before.key_at(a), before.key_at(b)));
                }
            }
            assert(after.wf());
            assert forall|q: Seq<char>| #[trigger]
                after@.contains_key(q) == before@.insert(k, v).contains_key(q) by {
                if after@.contains_key(q) {
                    let i = choose|i: int|
                        0 <= i < after.entries@.len() && #[trigger] after.key_at(i) == q;
                    if i < at {
                        before.lemma_at(i);
                    } else if i > at {
                        before.lemma_at(i - 1);
                    }
                }
                if before@.contains_key(q) {
                    let i = choose|i: int|
                        0 <= i < before.entries@.len() && #[trigger] before.key_at(i) == q;
                    if i < at {
                        assert(after.key_at(i) == q);
                    } else {
                        assert(after.key_at(i + 1) == q);
                    }
                }
                if q == k {
                    assert(after.key_at(at as int) == q);
                }
            }
            assert forall|q: Seq<char>| #[trigger] after@.contains_key(q) implies after@[q]
                == before@.insert(k, v)[q] by {
                let i = choose|i: int|
                    0 <= i < after.entries@.len() && #[trigger] after.key_at(i) == q;
                after.lemma_at(i);
                if i < at {
                    before.lemma_at(i);
                } else if i > at {
                    before.lemma_at(i - 1);
                }
            }
            assert(after@ =~= before@.insert(k, v));
            assert(before@.insert(k, v) =~= old(self)@.insert(k, v));
        }
    }

    fn remove_at(&mut self, at: usize)
        requires
            old(self).wf(),
            at < old(self).entries@.len(),
        ensures
            final(self).wf(),
            final(self).entries@ == old(self).entries@.remove(at as int),
            final(self)@ == old(self)@.remove(old(self).key_at(at as int)),
    {
        let ghost before = *self;
        let ghost k = self.key_at(at as int);
        let _ = self.entries.remove(at);
        proof {
            let after = *self;
            assert forall|i: int| 0 <= i < after.entries@.len() implies #[trigger] after.key_at(i)
                == before.key_at(
                if i < at {
                    i
                } else {
                    i + 1
                },
            ) by {}
            assert forall|i: int, j: int| 0 <= i < j < after.entries@.len() implies earlier(
                #[trigger] after.key_at(i),
                #[trigger] after.key_at(j),
            ) by {
                let a = if i < at {
                    i
                } else {
                    i + 1
                };
                let b = if j < at {
                    j
                } else {
                    j + 1
                };
                assert(earlier(before.key_at(a), before.key_at(b)));
            }
            assert(after.wf());
            assert forall|q: Seq<char>| #[trigger]
                after@.contains_key(q) == before@.remove(k).contains_key(q) by {
                if after@.contains_key(q) {
                    let i = choose|i: int|
                        0 <= i < after.entries@.len() && #[trigger] after.key_at(i) == q;
                    let j = if i < at {
                        i
                    } else {
                        i + 1
                    };
                    before.lemma_at(j);
                    lemma_earlier_irreflexive(k);
                    if j < at {
                        assert(earlier(before.key_at(j), before.key_at(at as int)));
                    } else {
                        assert(earlier(before.key_at(at as int), before.key_at(j)));
                    }
                }
                if before@.remove(k).contains_key(q) {
                    let i = choose|i: int|
                        0 <= i < before.entries@.len() && #[trigger] before.key_at(i) == q;
                    if i < at {
                        assert(after.key_at(i) == q);
                    } else {
                        assert(i != at);
                        assert(after.key_at(i - 1) == q);
                    }
                }
            }
            assert forall|q: Seq<char>| #[trigger] after@.contains_key(q) implies after@[q]
                == before@.remove(k)[q] by {
                let i = choose|i: int|
                    0 <= i < after.entries@.len() && #[trigger] after.key_at(i) == q;
                after.lemma_at(i);
                before.lemma_at(
                    if i < at {
                        i
                    } else {
                        i + 1
                    },
                );
            }
            assert(after@ =~= before@.remove(k));
        }
    }

    /// Takes the entry under `key` out, if there is one.
    pub fn remove(&mut self, key: &str)
        requires
            old(self).wf(),
        ensures
            final(self).wf(),
            final(self)@ == old(self)@.remove(key@),
    {
        match self.find(key) {
            Some(i) => self.remove_at(i),
            None => {
                assert(self@.remove(key@) =~= self@);
            },
        }
    }

    /// Keeps the entries for which `keep` answers yes.
    pub fn retain<F: Fn(&String, &V) -> bool>(
        &mut self,
        keep: F,
        Ghost(p): Ghost<spec_fn(Seq<char>, V::V) -> bool>,
    )
        requires
            old(self).wf(),
            forall|k: &String, v: &V| #[trigger] keep.requires((k, v)),
            forall|k: &String, v: &V, b: bool| #[trigger]
                keep.ensures((k, v), b) ==> b == p(k@, v@),
        ensures
            final(self).wf(),
            final(self)@ == kept(old(self)@, p),
    {
        let ghost before = self@;
        let mut i: usize = 0;
        while i < self.entries.len()
            invariant
                self.wf(),
                i <= self.entries@.len(),
                forall|k: &String, v: &V| #[trigger] keep.requires((k, v)),
                forall|k: &String, v: &V, b: bool| #[trigger]
                    keep.ensures((k, v), b) ==> b == p(k@, v@),
                forall|j: int|
                    0 <= j < i ==> p(#[trigger] self.key_at(j), self.entries@[j].1@),
                kept(self@, p) == kept(before, p),
            decreases self.entries@.len() - i,
        {
            let ghost now = *self;
            if keep(&self.entries[i].0, &self.entries[i].1) {
                assert(p(self.key_at(i as int), self.entries@[i as int].1@));
                i += 1;
            } else {
                proof {
                    self.lemma_at(i as int);
                }
                self.remove_at(i);
                proof {
                    assert forall|j: int| 0 <= j < i implies p(
                        #[trigger] self.key_at(j),
                        self.entries@[j].1@,
                    ) by {
                        assert(p(now.key_at(j), now.entries@[j].1@));
                    }
                    assert(kept(self@, p) =~= kept(now@, p));
                }
            }
        }
        proof {
            assert forall|k: Seq<char>| #[trigger] self@.contains_key(k) implies p(k, self@[k]) by {
                let j = choose|j: int|
                    0 <= j < self.entries@.len() && #[trigger] self.key_at(j) == k;
                self.lemma_at(j);
            }
            assert(kept(self@, p) =~= self@);
        }
    }

    /// The keys in order.
    pub fn keys(&self) -> (r: Vec<String>)
        requires
            self.wf(),
        ensures
            forall|i: int, j: int| 0 <= i < j < r@.len() ==> earlier(#[trigger] r@[i]@, #[trigger] r@[j]@),
            forall|k: Seq<char>| #[trigger]
                self@.contains_key(k) <==> exists|i: int| 0 <= i < r@.len() && #[trigger] r@[i]@ == k,
    {
        let mut r: Vec<String> = Vec::new();
        let mut i: usize = 0;
        while i < self.entries.len()
            invariant
                i <= self.entries@.len(),
                r@.len() == i,
                forall|j: int| 0 <= j < i ==> (#[trigger] r@[j])@ == self.key_at(j),
            decreases self.entries@.len() - i,
        {
            r.push(self.entries[i].0.clone());
            i += 1;
        }
        proof {
            assert forall|a: int, b: int| 0 <= a < b < r@.len() implies earlier(
                #[trigger] r@[a]@,
                #[trigger] r@[b]@,
            ) by {
                assert(earlier(self.key_at(a), self.key_at(b)));
            }
            assert forall|k: Seq<char>| #[trigger] self@.contains_key(k) implies exists|j: int|
                0 <= j < r@.len() && #[trigger] r@[j]@ == k by {
                let j = choose|j: int|
                    0 <= j < self.entries@.len() && #[trigger] self.key_at(j) == k;
                assert(r@[j]@ == k);
            }
            assert forall|k: Seq<char>| (exists|j: int| 0 <= j < r@.len() && #[trigger] r@[j]@ == k) implies #[trigger] self@.contains_key(
            k) by {
                let j = choose|j: int| 0 <= j < r@.len() && #[trigger] r@[j]@ == k;
                assert(self.key_at(j) == k);
            }
        }
        r
    }
}

/// A set of texts that walks its members in order.
#[derive(Debug)]
pub struct StringSet {
    members: StringMap<u8>,
}

impl View for StringSet {
    type V = Set<Seq<char>>;

    closed spec fn view(&self) -> Set<Seq<char>> {
        self.members@.dom()
    }
}

impl StringSet {
    /// The members stand in order, each once.
    pub closed spec fn wf(&self) -> bool {
        self.members.wf()
    }

    /// The empty set.
    pub fn new() -> (r: Self)
        ensures
            r.wf(),
            r@ == Set::<Seq<char>>::empty(),
    {
        let r = StringSet { members: StringMap::new() };
        assert(r@ =~= Set::<Seq<char>>::empty());
        r
    }

    /// The number of members.
    pub fn len(&self) -> (r: usize)
        requires
            self.wf(),
        ensures
            self@.finite(),
            r == self@.len(),
    {
        self.members.len()
    }

    /// Whether `name` is a member.
    pub fn contains(&self, name: &str) -> (r: bool)
        requires
            self.wf(),
        ensures
            r == self@.contains(name@),
    {
        self.members.contains_key(name)
    }

    /// Makes `name` a member.
    pub fn insert(&mut self, name: String)
        requires
            old(self).wf(),
        ensures
            final(self).wf(),
            final(self)@ == old(self)@.insert(name@),
    {
        let ghost n = name@;
        self.members.insert(name, 0);
        assert(self@ =~= old(self)@.insert(n));
    }

    /// Takes `name` out, if it is a member.
    pub fn remove(&mut self, name: &str)
        requires
            old(self).wf(),
        ensures
            final(self).wf(),
            final(self)@ == old(self)@.remove(name@),
    {
        self.members.remove(name);
        assert(self@ =~= old(self)@.remove(name@));
    }

    /// The members in order.
    pub fn list(&self) -> (r: Vec<String>)
        requires
            self.wf(),
        ensures
            forall|i: int, j: int| 0 <= i < j < r@.len() ==> earlier(#[trigger] r@[i]@, #[trigger] r@[j]@),
            forall|k: Seq<char>| #[trigger]
                self@.contains(k) <==> exists|i: int| 0 <= i < r@.len() && #[trigger] r@[i]@ == k,
    {
        let r = self.members.keys();
        proof {
            assert forall|k: Seq<char>| #[trigger] self@.contains(k) <==> exists|i: int|
                0 <= i < r@.len() && #[trigger] r@[i]@ == k by {
                assert(self@.contains(k) == self.members@.contains_key(k));
            }
        }
        r
    }
}

} // verus!
