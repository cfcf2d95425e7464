//! A table with one entry for each pair of a client and a server.

use crate::net::IpAddr;
use vstd::prelude::*;

verus! {

/// A client and an FTP server.
#[derive(Clone, Copy, Debug, PartialEq, Eq, Structural)]
pub struct ClientServerPair {
    pub client: IpAddr,
    pub server: IpAddr,
}

/// A table by pairs.
#[derive(Debug)]
pub struct PairTable<T> {
    entries: Vec<(ClientServerPair, T)>,
}

spec fn at<T>(entries: Seq<(ClientServerPair, T)>, i: int, key: ClientServerPair) -> bool {
    0 <= i < entries.len() && entries[i].0 == key
}

spec fn holds<T>(entries: Seq<(ClientServerPair, T)>, key: ClientServerPair) -> bool {
    exists|i: int| at(entries, i, key)
}

spec fn value<T>(entries: Seq<(ClientServerPair, T)>, key: ClientServerPair) -> T {
    entries[choose|i: int| at(entries, i, key)].1
}

spec fn keys<T>(entries: Seq<(ClientServerPair, T)>) -> Seq<ClientServerPair> {
    Seq::new(entries.len(), |i: int| entries[i].0)
}

spec fn distinct<T>(entries: Seq<(ClientServerPair, T)>) -> bool {
    forall|i: int, j: int|
        0 <= i < j < entries.len() ==> (#[trigger] entries[i]).0 != (#[trigger] entries[j]).0
}

impl<T> View for PairTable<T> {
    type V = Map<ClientServerPair, T>;

    closed spec fn view(&self) -> Map<ClientServerPair, T> {
        Map::new(|k: ClientServerPair| holds(self.entries@, k), |k: ClientServerPair|
            value(self.entries@, k))
    }
}

proof fn lemma_at<T>(entries: Seq<(ClientServerPair, T)>, i: int)
    requires
        distinct(entries),
        0 <= i < entries.len(),
    ensures
        holds(entries, entries[i].0),
        value(entries, entries[i].0) == entries[i].1,
{
    let key = entries[i].0;
    assert(at(entries, i, key));
    let j = choose|j: int| at(entries, j, key);
    assert(j == i);
}

proof fn lemma_size<T>(entries: Seq<(ClientServerPair, T)>, map: Map<ClientServerPair, T>)
    requires
        distinct(entries),
        map == Map::new(|k: ClientServerPair| holds(entries, k), |k: ClientServerPair|
            value(entries, k)),
    ensures
        map.dom().finite(),
        map.dom().len() == entries.len(),
{
    let ks = keys(entries);
    assert(ks.no_duplicates());
    ks.unique_seq_to_set();
    assert forall|k: ClientServerPair| #[trigger] map.dom().contains(k) <==> ks.to_set().contains(
        k,
    ) by {
        if holds(entries, k) {
            let i = choose|i: int| at(entries, i, k);
            assert(ks[i] == k);
        }
        if ks.contains(k) {
            let i = choose|i: int| 0 <= i < ks.len() && ks[i] == k;
            assert(at(entries, i, k));
        }
    }
    assert(map.dom() =~= ks.to_set());
    vstd::seq_lib::seq_to_set_is_finite(ks);
}

impl<T> PairTable<T> {
    /// No pair has two entries.
    pub closed spec fn wf(self) -> bool {
        distinct(self.entries@)
    }

    pub fn new() -> (r: PairTable<T>)
        ensures
            r.wf(),
            r@ == Map::<ClientServerPair, T>::empty(),
    {
        let r = PairTable { entries: Vec::new() };
        assert(r@ =~= Map::<ClientServerPair, T>::empty());
        r
    }

    /// The number of entries.
    pub fn len(&self) -> (r: usize)
        requires
            self.wf(),
        ensures
            self@.dom().finite(),
            r == self@.dom().len(),
    {
        proof {
            lemma_size(self.entries@, self@);
        }
        self.entries.len()
    }

    fn find(&self, key: ClientServerPair) -> (r: Option<usize>)
        requires
            self.wf(),
        ensures
            r is Some <==> self@.contains_key(key),
            r matches Some(i) ==> i < self.entries@.len() && self.entries@[i as int].0 == key
                && self@[key] == self.entries@[i as int].1,
    {
        let mut i: usize = 0;
        while i < self.entries.len()
            invariant
                i <= self.entries@.len(),
                self.wf(),
                forall|j: int| 0 <= j < i ==> (#[trigger] self.entries@[j]).0 != key,
            decreases self.entries@.len() - i,
        {
            if self.entries[i].0 == key {
                proof {
                    lemma_at(self.entries@, i as int);
                }
                return Some(i);
            }
            i += 1;
        }
        assert(!holds(self.entries@, key));
        None
    }

    /// The entry of a pair.
    pub fn get(&self, key: ClientServerPair) -> (r: Option<&T>)
        requires
            self.wf(),
        ensures
            r is Some <==> self@.contains_key(key),
            r matches Some(v) ==> *v == self@[key],
    {
        match self.find(key) {
            None => None,
            Some(i) => Some(&self.entries[i].1),
        }
    }

    /// Takes the entry of a pair out of the table.
    pub fn remove(&mut self, key: ClientServerPair) -> (r: Option<T>)
        requires
            old(self).wf(),
        ensures
            final(self).wf(),
            final(self)@ == old(self)@.remove(key),
            r is Some <==> old(self)@.contains_key(key),
            r matches Some(v) ==> v == old(self)@[key],
    {
        let ghost before = self.entries@;
        match self.find(key) {
            None => {
                assert(self@ =~= old(self)@.remove(key));
                None
            },
            Some(i) => {
                let (k, v) = self.entries.swap_remove(i);
                let ghost last = before.len() - 1;
                let ghost after = self.entries@;
                proof {
                    assert forall|j: int| 0 <= j < after.len() implies #[trigger] after[j] == (
                    if j == i {
                        before[last]
                    } else {
                        before[j]
                    }) by {}
                    assert(distinct(after));
                    assert forall|k2: ClientServerPair| #[trigger] holds(after, k2) <==> holds(
                        before,
                        k2,
                    ) && k2 != key by {
                        if holds(after, k2) {
                            let j = choose|j: int| at(after, j, k2);
                            if j == i {
                                assert(at(before, last, k2));
                            } else {
                                assert(at(before, j, k2));
                            }
                        }
                        if holds(before, k2) && k2 != key {
                            let j = choose|j: int| at(before, j, k2);
                            if j == last {
                                assert(at(after, i as int, k2));
                            } else {
                                assert(at(after, j, k2));
                            }
                        }
                    }
                    assert forall|k2: ClientServerPair| #[trigger] holds(after, k2) implies value(
                        after,
                        k2,
                    ) == value(before, k2) by {
                        let j = choose|j: int| at(after, j, k2);
                        lemma_at(after, j);
                        if j == i {
                            lemma_at(before, last);
                        } else {
                            lemma_at(before, j);
                        }
                    }
                    assert(self@ =~= old(self)@.remove(key));
                }
                Some(v)
            },
        }
    }

    /// Puts an entry into the table, in place of the one that the pair had.
    pub fn insert(&mut self, key: ClientServerPair, v: T)
        requires
            old(self).wf(),
        ensures
            final(self).wf(),
            final(self)@ == old(self)@.insert(key, v),
    {
        let _ = self.remove(key);
        let ghost before = self.entries@;
        let ghost gone = self@;
        self.entries.push((key, v));
        proof {
            let after = self.entries@;
            assert forall|j: int| 0 <= j < before.len() implies (#[trigger] after[j]).0 != key by {
                if after[j].0 == key {
                    assert(at(before, j, key));
                    assert(gone.contains_key(key));
                }
            }
            assert(distinct(after));
            assert forall|k2: ClientServerPair| #[trigger] holds(after, k2) <==> holds(before, k2)
                || k2 == key by {
                if holds(after, k2) && k2 != key {
                    let j = choose|j: int| at(after, j, k2);
                    assert(at(before, j, k2));
                }
                if holds(before, k2) {
                    let j = choose|j: int| at(before, j, k2);
                    assert(at(after, j, k2));
                }
                if k2 == key {
                    assert(at(after, before.len() as int, k2));
                }
            }
            assert forall|k2: ClientServerPair| #[trigger] holds(after, k2) implies value(after, k2)
                == (if k2 == key {
                v
            } else {
                value(before, k2)
            }) by {
                let j = choose|j: int| at(after, j, k2);
                lemma_at(after, j);
                if k2 != key {
                    lemma_at(before, j);
                }
            }
            assert(self@ =~= gone.insert(key, v));
            assert(gone.insert(key, v) =~= old(self)@.insert(key, v));
        }
    }

    /// Takes some entry out of the table, if there is any.
    pub fn pop(&mut self) -> (r: Option<(ClientServerPair, T)>)
        requires
            old(self).wf(),
        ensures
            final(self).wf(),
            match r {
                None => old(self)@ == Map::<ClientServerPair, T>::empty() && final(self)@ == old(
                    self,
                )@,
                Some((k, v)) => {
                    &&& old(self)@.contains_key(k)
                    &&& old(self)@[k] == v
                    &&& final(self)@ == old(self)@.remove(k)
                    &&& old(self)@.dom().finite()
                    &&& final(self)@.dom().len() < old(self)@.dom().len()
                },
            },
    {
        proof {
            lemma_size(self.entries@, self@);
        }
        let n: usize = self.entries.len();
        if n == 0 {
            assert(self@ =~= Map::<ClientServerPair, T>::empty());
            return None;
        }
        let key = self.entries[n - 1].0;
        proof {
            lemma_at(self.entries@, n - 1);
        }
        match self.remove(key) {
            Some(v) => Some((key, v)),
            None => None,
        }
    }
}

} // verus!
