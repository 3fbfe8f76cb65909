//! An insertion-ordered header map with unique keys.

use vstd::prelude::*;
use crate::http_core::str_eq;

verus! {

/// The headers of an HTTP message: a text-to-text mapping whose keys stay
/// unique and which remembers the order in which keys were first inserted,
/// so that serialization is deterministic.
#[derive(Debug)]
pub struct HeaderMap {
    entries: Vec<(String, String)>,
}

impl View for HeaderMap {
    type V = Seq<(Seq<char>, Seq<char>)>;

    closed spec fn view(&self) -> Seq<(Seq<char>, Seq<char>)> {
        self.entries@.map(|i: int, e: (String, String)| (e.0@, e.1@))
    }
}

impl HeaderMap {
    /// The map's invariant: no two entries share a key.
    pub open spec fn wf(self) -> bool {
        forall|p: int, q: int| 0 <= p < q < self@.len() ==> self@[p].0 != self@[q].0
    }

    /// Whether some entry holds the key `k`.
    pub open spec fn spec_contains_key(self, k: Seq<char>) -> bool {
        exists|p: int| 0 <= p < self@.len() && self@[p].0 == k
    }

    /// The position of the entry holding the key `k`; meaningful when the
    /// key is present and the map is well formed.
    pub open spec fn spec_index_of(self, k: Seq<char>) -> int {
        choose|p: int| 0 <= p < self@.len() && self@[p].0 == k
    }

    /// The value stored under the key `k`; meaningful when the key is
    /// present and the map is well formed.
    pub open spec fn spec_value_of(self, k: Seq<char>) -> Seq<char> {
        self@[self.spec_index_of(k)].1
    }

    /// An empty map.
    pub fn new() -> (r: HeaderMap)
        ensures
            r@ == Seq::<(Seq<char>, Seq<char>)>::empty(),
            r.wf(),
    {
        let r = HeaderMap { entries: Vec::new() };
        proof {
            assert(r@ =~= Seq::<(Seq<char>, Seq<char>)>::empty());
        }
        r
    }

    /// How many entries the map holds.
    pub fn len(&self) -> (r: usize)
        ensures
            r == self@.len(),
    {
        self.entries.len()
    }

    /// The key of the entry at position `i`.
    pub fn key_at(&self, i: usize) -> (r: &String)
        requires
            i < self@.len(),
        ensures
            r@ == self@[i as int].0,
    {
        &self.entries[i].0
    }

    /// The value of the entry at position `i`.
    pub fn value_at(&self, i: usize) -> (r: &String)
        requires
            i < self@.len(),
        ensures
            r@ == self@[i as int].1,
    {
        &self.entries[i].1
    }

    fn position_of(&self, key: &str) -> (r: Option<usize>)
        ensures
            r matches Some(p) ==> (p < self@.len() && self@[p as int].0 == key@),
            r is None ==> !self.spec_contains_key(key@),
    {
        let n = self.entries.len();
        let mut i: usize = 0;
        while i < n
            invariant
                i <= n,
                n == self@.len(),
                n == self.entries@.len(),
                forall|q: int| 0 <= q < i ==> self@[q].0 != key@,
            decreases n - i,
        {
            if str_eq(self.entries[i].0.as_str(), key) {
                return Some(i);
            }
            i = i + 1;
        }
        None
    }

    /// Looks the key up; yields the stored value exactly when some entry
    /// holds the key.
    pub fn get(&self, key: &str) -> (r: Option<&String>)
        requires
            self.wf(),
        ensures
            r is Some <==> self.spec_contains_key(key@),
            r matches Some(v) ==> v@ == self.spec_value_of(key@),
    {
        match self.position_of(key) {
            Some(p) => {
                proof {
                    let q = self.spec_index_of(key@);
                    assert(0 <= q < self@.len() && self@[q].0 == key@);
                    assert(q == p as int);
                }
                Some(self.value_at(p))
            },
            None => None,
        }
    }

    /// Stores `value` under `key`: an entry already holding the key has its
    /// value replaced in place, otherwise a new entry is appended.
    pub fn insert(&mut self, key: String, value: String)
        requires
            old(self).wf(),
        ensures
            final(self).wf(),
            old(self).spec_contains_key(key@) ==> final(self)@ == old(self)@.update(
                old(self).spec_index_of(key@),
                (key@, value@),
            ),
            !old(self).spec_contains_key(key@) ==> final(self)@ == old(self)@.push(
                (key@, value@),
            ),
    {
        match self.position_of(key.as_str()) {
            Some(p) => {
                proof {
                    let q = self.spec_index_of(key@);
                    assert(0 <= q < self@.len() && self@[q].0 == key@);
                    assert(q == p as int);
                }
                self.entries.remove(p);
                self.entries.insert(p, (key, value));
                proof {
                    assert(self@ =~= old(self)@.update(p as int, (key@, value@)));
                }
            },
            None => {
                self.entries.push((key, value));
                proof {
                    assert(self@ =~= old(self)@.push((key@, value@)));
                    assert forall|p: int, q: int| 0 <= p < q < self@.len() implies self@[p].0
                        != self@[q].0 by {
                        if q == self@.len() - 1 {
                            assert(!old(self).spec_contains_key(key@));
                            assert(old(self)@[p].0 != key@);
                        }
                    }
                }
            },
        }
    }
}

} // verus!
