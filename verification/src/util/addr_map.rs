//! A map from addresses.

use crate::net::SocketAddr;
use crate::util::addr_index::AddrIndex;
use vstd::prelude::*;

verus! {

/// A map from addresses to values: a list of entries, and a table of where each address stands
/// in it. Its view is the map.
#[derive(Debug)]
pub struct AddrMap<V> {
    entries: Vec<(SocketAddr, V)>,
    index: AddrIndex,
}

impl<V> View for AddrMap<V> {
    type V = Map<SocketAddr, V>;

    closed spec fn view(&self) -> Map<SocketAddr, V> {
        Map::new(
            |k: SocketAddr| self.keys().contains(k),
            |k: SocketAddr| self.entries@[self.keys().index_of(k)].1,
        )
    }
}

impl<V> AddrMap<V> {
    /// The addresses in the order in which they are kept.
    pub closed spec fn keys(&self) -> Seq<SocketAddr> {
        self.entries@.map_values(|e: (SocketAddr, V)| e.0)
    }

    /// No address occurs twice, and the table tells where each one stands.
    pub closed spec fn wf(&self) -> bool {
        &&& self.keys().no_duplicates()
        &&& self.indexed()
    }

    /// The table tells where each address stands.
    closed spec fn indexed(&self) -> bool {
        &&& forall|j: int|
            0 <= j < self.entries@.len() ==> self.index@.contains_key(
                (#[trigger] self.entries@[j]).0,
            ) && self.index@[self.entries@[j].0] == j
        &&& forall|k: SocketAddr| #[trigger]
            self.index@.contains_key(k) ==> self.index@[k] < self.entries@.len()
                && self.entries@[self.index@[k] as int].0 == k
    }

    /// What is kept at `i` is what the map holds.
    proof fn holds_at(&self, i: int)
        requires
            self.wf(),
            0 <= i < self.entries@.len(),
        ensures
            self.keys()[i] == self.entries@[i].0,
            self@.contains_key(self.entries@[i].0),
            self@[self.entries@[i].0] == self.entries@[i].1,
    {
        let k = self.entries@[i].0;
        assert(self.keys()[i] == k);
        assert(self.keys().contains(k));
        let j = self.keys().index_of(k);
        assert(self.keys()[j] == k);
    }

    /// What the map holds is kept somewhere.
    proof fn kept(&self, k: SocketAddr) -> (i: int)
        requires
            self.wf(),
            self@.contains_key(k),
        ensures
            0 <= i < self.entries@.len(),
            self.entries@[i] == (k, self@[k]),
    {
        let i = self.keys().index_of(k);
        assert(self.keys()[i] == k);
        i
    }

    /// The addresses are those of the map, each once.
    pub proof fn keys_are_domain(&self)
        requires
            self.wf(),
        ensures
            self.keys().no_duplicates(),
            self.keys().to_set() == self@.dom(),
            self@.dom().finite(),
            self@.dom().len() == self.keys().len(),
    {
        assert(self.keys().to_set() =~= self@.dom());
        self.keys().unique_seq_to_set();
        vstd::seq_lib::seq_to_set_is_finite(self.keys());
    }

    /// A map without entries.
    pub fn new() -> (m: AddrMap<V>)
        ensures
            m.wf(),
            m@ == Map::<SocketAddr, V>::empty(),
    {
        let m = AddrMap { entries: Vec::new(), index: AddrIndex::new() };
        assert(m@ =~= Map::<SocketAddr, V>::empty());
        m
    }

    /// The number of entries.
    pub fn len(&self) -> (n: usize)
        requires
            self.wf(),
        ensures
            n == self@.dom().len(),
            n == self.keys().len(),
            self@.dom().finite(),
    {
        proof {
            self.keys_are_domain();
        }
        self.entries.len()
    }

    /// The entry at `i`.
    pub fn entry(&self, i: usize) -> (e: (SocketAddr, &V))
        requires
            self.wf(),
            i < self.keys().len(),
        ensures
            e.0 == self.keys()[i as int],
            self@.contains_key(e.0),
            *e.1 == self@[e.0],
    {
        proof {
            self.holds_at(i as int);
        }
        (self.entries[i].0, &self.entries[i].1)
    }

    /// Where `k` is kept.
    fn position(&self, k: SocketAddr) -> (p: Option<usize>)
        requires
            self.wf(),
        ensures
            match p {
                Some(i) => i < self.entries@.len() && self.entries@[i as int].0 == k
                    && self@.contains_key(k),
                None => !self@.contains_key(k),
            },
    {
        let p = self.index.get(k);
        proof {
            if let Some(i) = p {
                self.holds_at(i as int);
            } else if self@.contains_key(k) {
                let j = self.kept(k);
                assert(self.index@.contains_key(self.entries@[j].0));
            }
        }
        p
    }

    /// Whether there is an entry for `k`.
    pub fn contains_key(&self, k: SocketAddr) -> (b: bool)
        requires
            self.wf(),
        ensures
            b == self@.contains_key(k),
    {
        self.position(k).is_some()
    }

    /// The value of `k`.
    pub fn get(&self, k: SocketAddr) -> (v: Option<&V>)
        requires
            self.wf(),
        ensures
            match v {
                Some(v) => self@.contains_key(k) && *v == self@[k],
                None => !self@.contains_key(k),
            },
    {
        match self.position(k) {
            Some(i) => {
                proof {
                    self.holds_at(i as int);
                }
                Some(&self.entries[i].1)
            },
            None => None,
        }
    }

    /// The value of `k`, to be changed in place.
    pub fn get_mut(&mut self, k: SocketAddr) -> (v: Option<&mut V>)
        requires
            old(self).wf(),
        ensures
            final(self).wf(),
            match v {
                Some(v) => old(self)@.contains_key(k) && *v == old(self)@[k] && final(self)@ == old(
                    self,
                )@.insert(k, *final(v)),
                None => !old(self)@.contains_key(k) && final(self)@ == old(self)@,
            },
    {
        match self.position(k) {
            Some(i) => {
                let ghost before = *self;
                proof {
                    self.holds_at(i as int);
                    assert forall|after: AddrMap<V>, v: V|
                        #![trigger after.entries, before@.insert(k, v)]
                        after.entries@ == before.entries@.update(i as int, (k, v)) && after.index
                            == before.index implies after.wf() && after@ == before@.insert(
                        k,
                        v,
                    ) by {
                        before.same_but_one(after, i as int, k, v);
                    }
                    assert forall|after: AddrMap<V>|
                        after.index == before.index && after.entries@.len() == before.entries@.len()
                            && (forall|j: int|
                            0 <= j < after.entries@.len() ==> (#[trigger] after.entries@[j]).0
                                == before.entries@[j].0) implies #[trigger] after.wf() by {
                        assert(after.keys() =~= before.keys());
                        before.same_places(after);
                    }
                }
                Some(&mut self.entries[i].1)
            },
            None => None,
        }
    }

    /// Gives `k` the value `v`.
    pub fn insert(&mut self, k: SocketAddr, v: V)
        requires
            old(self).wf(),
        ensures
            final(self).wf(),
            final(self)@ == old(self)@.insert(k, v),
    {
        let ghost before = *self;
        match self.position(k) {
            Some(i) => {
                self.entries.set(i, (k, v));
                proof {
                    assert(self.keys() =~= before.keys());
                    before.same_but_one(*self, i as int, k, v);
                }
            },
            None => {
                let n: usize = self.entries.len();
                self.entries.push((k, v));
                self.index.insert(k, n);
                proof {
                    before.extended(*self, k, v);
                }
            },
        }
    }

    /// The table fits any list with the same addresses in the same places.
    proof fn same_places(self, after: AddrMap<V>)
        requires
            self.indexed(),
            after.index == self.index,
            after.entries@.len() == self.entries@.len(),
            forall|j: int|
                0 <= j < after.entries@.len() ==> (#[trigger] after.entries@[j]).0
                    == self.entries@[j].0,
        ensures
            after.indexed(),
    {
        assert forall|j: int| 0 <= j < after.entries@.len() implies after.index@.contains_key(
            (#[trigger] after.entries@[j]).0,
        ) && after.index@[after.entries@[j].0] == j by {
            assert(self.index@.contains_key(self.entries@[j].0));
        }
    }

    /// Replacing the value at `i` replaces the value of its address.
    proof fn same_but_one(self, after: AddrMap<V>, i: int, k: SocketAddr, v: V)
        requires
            self.wf(),
            0 <= i < self.entries@.len(),
            self.entries@[i].0 == k,
            after.entries@ == self.entries@.update(i, (k, v)),
            after.index == self.index,
        ensures
            after.wf(),
            after@ == self@.insert(k, v),
    {
        assert(after.keys() =~= self.keys());
        self.same_places(after);
        assert forall|x: SocketAddr| after@.contains_key(x) implies #[trigger] after@[x]
            == self@.insert(k, v)[x] by {
            let j = after.kept(x);
            self.holds_at(j);
            after.holds_at(i);
        }
        self.holds_at(i);
        assert(after@ =~= self@.insert(k, v));
    }

    /// Adding an entry adds it to the map.
    proof fn extended(self, after: AddrMap<V>, k: SocketAddr, v: V)
        requires
            self.wf(),
            !self@.contains_key(k),
            after.entries@ == self.entries@.push((k, v)),
            self.entries@.len() <= usize::MAX,
            after.index@ == self.index@.insert(k, self.entries@.len() as usize),
        ensures
            after.wf(),
            after@ == self@.insert(k, v),
    {
        let n = self.entries@.len() as int;
        assert(after.keys() =~= self.keys().push(k));
        assert(!self.keys().contains(k));
        assert forall|j: int| 0 <= j < after.entries@.len() implies after.index@.contains_key(
            (#[trigger] after.entries@[j]).0,
        ) && after.index@[after.entries@[j].0] == j by {
            if j < n {
                self.holds_at(j);
                assert(self.index@.contains_key(self.entries@[j].0));
            }
        }
        assert(after.wf());
        assert forall|x: SocketAddr| after@.contains_key(x) == #[trigger] self@.insert(
            k,
            v,
        ).contains_key(x) by {
            if after@.contains_key(x) {
                let j = after.kept(x);
                if j < n {
                    self.holds_at(j);
                }
            }
            if self@.contains_key(x) {
                let j = self.kept(x);
                after.holds_at(j);
            }
            after.holds_at(n);
        }
        assert forall|x: SocketAddr| after@.contains_key(x) implies #[trigger] after@[x]
            == self@.insert(k, v)[x] by {
            let j = after.kept(x);
            if j < n {
                self.holds_at(j);
                assert(x != k);
            }
        }
        assert(after@ =~= self@.insert(k, v));
    }

    /// Takes out the entry for `k`.
    pub fn remove(&mut self, k: SocketAddr) -> (v: Option<V>)
        requires
            old(self).wf(),
        ensures
            final(self).wf(),
            final(self)@ == old(self)@.remove(k),
            match v {
                Some(v) => old(self)@.contains_key(k) && v == old(self)@[k],
                None => !old(self)@.contains_key(k),
            },
    {
        let ghost before = *self;
        match self.position(k) {
            Some(i) => {
                let (_, v) = self.entries.swap_remove(i);
                self.index.remove(k);
                if i < self.entries.len() {
                    let moved: SocketAddr = self.entries[i].0;
                    self.index.insert(moved, i);
                }
                proof {
                    before.holds_at(i as int);
                    before.shrunk(*self, i as int, k);
                }
                Some(v)
            },
            None => {
                assert(self@.remove(k) =~= self@);
                None
            },
        }
    }

    /// Taking out what is kept at `i`, with the last entry put in its place, takes its address
    /// out of the map.
    proof fn shrunk(self, after: AddrMap<V>, i: int, k: SocketAddr)
        requires
            self.wf(),
            0 <= i < self.entries@.len(),
            self.entries@[i].0 == k,
            after.entries@ == self.entries@.update(i, self.entries@.last()).drop_last(),
            after.index@ == if i < self.entries@.len() - 1 {
                self.index@.remove(k).insert(self.entries@.last().0, i as usize)
            } else {
                self.index@.remove(k)
            },
        ensures
            after.wf(),
            after@ == self@.remove(k),
    {
        let n = self.entries@.len() - 1;
        // Where what is kept at `j` was kept before.
        let was = |j: int|
            if j == i {
                n
            } else {
                j
            };
        assert forall|j: int| 0 <= j < n implies #[trigger] after.entries@[j] == self.entries@[was(
            j,
        )] && after.keys()[j] == self.keys()[was(j)] && self.keys()[was(j)] != k by {
            assert(self.keys()[was(j)] != self.keys()[i]);
        }
        assert(after.keys().no_duplicates()) by {
            assert forall|a: int, b: int| 0 <= a < n && 0 <= b < n && a != b implies
                after.keys()[a] != after.keys()[b] by {
                assert(after.entries@[a] == self.entries@[was(a)]);
                assert(after.entries@[b] == self.entries@[was(b)]);
                assert(self.keys()[was(a)] != self.keys()[was(b)]);
            }
        }
        assert forall|j: int| 0 <= j < after.entries@.len() implies after.index@.contains_key(
            (#[trigger] after.entries@[j]).0,
        ) && after.index@[after.entries@[j].0] == j by {
            assert(after.entries@[j] == self.entries@[was(j)]);
            assert(self.index@.contains_key(self.entries@[was(j)].0));
            assert(self.keys()[was(j)] != k);
            if j != i && i < n {
                assert(self.keys()[j] != self.keys()[n]);
            }
        }
        assert forall|x: SocketAddr| #[trigger] after.index@.contains_key(x) implies after.index@[x]
            < after.entries@.len() && after.entries@[after.index@[x] as int].0 == x by {
            if x != self.entries@[n].0 {
                assert(self.index@.contains_key(x));
                let j = self.index@[x] as int;
                assert(j != n && j != i);
                assert(after.entries@[j] == self.entries@[was(j)]);
            } else if i < n {
                assert(after.entries@[i] == self.entries@[was(i)]);
            }
        }
        assert(after.wf());
        assert forall|x: SocketAddr| after@.contains_key(x) == #[trigger] self@.remove(
            k,
        ).contains_key(x) by {
            if after@.contains_key(x) {
                let j = after.kept(x);
                assert(after.entries@[j] == self.entries@[was(j)]);
                self.holds_at(was(j));
            }
            if self@.contains_key(x) && x != k {
                let j = self.kept(x);
                if j < n {
                    assert(after.entries@[j] == self.entries@[was(j)]);
                    after.holds_at(j);
                } else {
                    assert(i < n);
                    assert(after.entries@[i] == self.entries@[was(i)]);
                    after.holds_at(i);
                }
            }
        }
        assert forall|x: SocketAddr| after@.contains_key(x) implies #[trigger] after@[x]
            == self@.remove(k)[x] by {
            let j = after.kept(x);
            assert(self@.remove(k).contains_key(x));
            assert(after.entries@[j] == self.entries@[was(j)]);
            self.holds_at(was(j));
        }
        assert(after@ =~= self@.remove(k));
    }

    /// Takes out everything.
    pub fn clear(&mut self)
        ensures
            final(self).wf(),
            final(self)@ == Map::<SocketAddr, V>::empty(),
    {
        self.entries.clear();
        self.index.clear();
        assert(self@ =~= Map::<SocketAddr, V>::empty());
    }
}

} // verus!
