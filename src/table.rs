//! The connection table: at most one connection per key, created on first
//! sight of the key.

use vstd::prelude::*;
use crate::connection::{Connection, OutgoingSegment, replies_match, step};
use crate::endpoint::ConnectionKey;
use crate::wire::{Ipv4Fields, TcpFields};

verus! {

pub struct ConnectionTable {
    entries: Vec<(ConnectionKey, Connection)>,
}

impl ConnectionTable {
    /// No key appears twice.
    pub closed spec fn wf(&self) -> bool {
        forall|i: int, j: int|
            0 <= i < self.entries@.len() && 0 <= j < self.entries@.len() && i != j
                ==> self.entries@[i].0 != self.entries@[j].0
    }

    pub closed spec fn has_key_at(&self, k: ConnectionKey, i: int) -> bool {
        0 <= i < self.entries@.len() && self.entries@[i].0 == k
    }

    /// The connections held, by key.
    pub closed spec fn view(&self) -> Map<ConnectionKey, Connection> {
        Map::new(
            |k: ConnectionKey| exists|i: int| self.has_key_at(k, i),
            |k: ConnectionKey| self.entries@[choose|i: int| self.has_key_at(k, i)].1,
        )
    }

    proof fn lemma_entry(&self, i: int)
        requires
            self.wf(),
            0 <= i < self.entries@.len(),
        ensures
            self@.contains_key(self.entries@[i].0),
            self@[self.entries@[i].0] == self.entries@[i].1,
    {
        let k = self.entries@[i].0;
        assert(self.has_key_at(k, i));
        let j = choose|j: int| self.has_key_at(k, j);
        assert(j == i);
    }

    /// Storing `(key, c)` at index `i`, over the entry that holds `key` or
    /// after the last entry when none does, stores `c` under `key`.
    proof fn lemma_store(prev: &ConnectionTable, next: &ConnectionTable, key: ConnectionKey, c: Connection, i: int)
        requires
            prev.wf(),
            0 <= i <= prev.entries@.len(),
            i < prev.entries@.len() ==> prev.has_key_at(key, i) && next.entries@ == prev.entries@.update(
                i,
                (key, c),
            ),
            i == prev.entries@.len() ==> (forall|j: int| !prev.has_key_at(key, j)) && next.entries@
                == prev.entries@.push((key, c)),
        ensures
            next.wf(),
            next@ == prev@.insert(key, c),
    {
        assert forall|a: int, b: int|
            0 <= a < next.entries@.len() && 0 <= b < next.entries@.len() && a != b
                implies next.entries@[a].0 != next.entries@[b].0 by {
            if a == i {
                assert(!prev.has_key_at(key, b));
            } else if b == i {
                assert(!prev.has_key_at(key, a));
            }
        }
        assert forall|k: ConnectionKey|
            #![auto]
            next@.contains_key(k) == prev@.insert(key, c).contains_key(k) by {
            if next@.contains_key(k) {
                let j = choose|j: int| next.has_key_at(k, j);
                if k != key {
                    assert(prev.has_key_at(k, j));
                }
            }
            if prev@.contains_key(k) && k != key {
                let j = choose|j: int| prev.has_key_at(k, j);
                assert(next.has_key_at(k, j));
            }
            if k == key {
                assert(next.has_key_at(k, i));
            }
        }
        assert forall|k: ConnectionKey| #![auto] next@.contains_key(k) implies next@[k] == prev@.insert(
            key,
            c,
        )[k] by {
            let j = choose|j: int| next.has_key_at(k, j);
            next.lemma_entry(j);
            if j != i {
                prev.lemma_entry(j);
            }
        }
        assert(next@ =~= prev@.insert(key, c));
    }

    pub fn new() -> (r: ConnectionTable)
        ensures
            r.wf(),
            r@ == Map::<ConnectionKey, Connection>::empty(),
    {
        let r = ConnectionTable { entries: Vec::new() };
        assert(r@ =~= Map::<ConnectionKey, Connection>::empty());
        r
    }

    fn find(&self, key: &ConnectionKey) -> (r: Option<usize>)
        ensures
            match r {
                Some(i) => self.has_key_at(*key, i as int),
                None => forall|i: int| !self.has_key_at(*key, i),
            },
    {
        let mut i: usize = 0;
        while i < self.entries.len()
            invariant
                0 <= i <= self.entries@.len(),
                forall|j: int| 0 <= j < i ==> !self.has_key_at(*key, j),
            decreases self.entries@.len() - i,
        {
            if self.entries[i].0 == *key {
                return Some(i);
            }
            i = i + 1;
        }
        None
    }

    /// The connection held under `key`, if any.
    pub fn get(&self, key: &ConnectionKey) -> (r: Option<Connection>)
        requires
            self.wf(),
        ensures
            r == (if self@.contains_key(*key) { Some(self@[*key]) } else { None }),
    {
        match self.find(key) {
            Some(i) => {
                proof {
                    self.lemma_entry(i as int);
                }
                Some(self.entries[i].1)
            },
            None => None,
        }
    }

    /// Whether a connection is held under `key`.
    pub fn contains(&self, key: &ConnectionKey) -> (r: bool)
        requires
            self.wf(),
        ensures
            r == self@.contains_key(*key),
    {
        self.get(key).is_some()
    }

    /// Stores `c` under `key`, replacing the connection held there if any.
    pub fn insert(&mut self, key: ConnectionKey, c: Connection)
        requires
            old(self).wf(),
        ensures
            final(self).wf(),
            final(self)@ == old(self)@.insert(key, c),
    {
        let ghost prev = *self;
        match self.find(&key) {
            Some(i) => {
                self.entries.set(i, (key, c));
                proof {
                    ConnectionTable::lemma_store(&prev, self, key, c, i as int);
                }
            },
            None => {
                self.entries.push((key, c));
                proof {
                    ConnectionTable::lemma_store(&prev, self, key, c, prev.entries@.len() as int);
                }
            },
        }
    }

    /// The connection under `key`, created in `Listen` if the key is new.
    pub fn get_or_create(&mut self, key: ConnectionKey) -> (r: Connection)
        requires
            old(self).wf(),
        ensures
            final(self).wf(),
            final(self)@ == (if old(self)@.contains_key(key) { old(self)@ } else { old(self)@.insert(
                key,
                Connection::fresh(),
            ) }),
            r == final(self)@[key],
    {
        match self.get(&key) {
            Some(c) => c,
            None => {
                let c = Connection::new();
                self.insert(key, c);
                c
            },
        }
    }

    /// Removes the connection under `key`, if any.
    pub fn remove(&mut self, key: &ConnectionKey)
        requires
            old(self).wf(),
        ensures
            final(self).wf(),
            final(self)@ == old(self)@.remove(*key),
    {
        let ghost prev = *self;
        match self.find(key) {
            Some(i) => {
                self.entries.swap_remove(i);
                proof {
                    let n = prev.entries@.len() as int - 1;
                    // entry j of the new table is entry src(j) of the old one
                    assert forall|j: int| 0 <= j < self.entries@.len() implies self.entries@[j] == prev.entries@[
                        if j == i { n } else { j }] by {}
                    assert forall|k: ConnectionKey|
                        #![auto]
                        self@.contains_key(k) == prev@.remove(*key).contains_key(k) by {
                        if self@.contains_key(k) {
                            let j = choose|j: int| self.has_key_at(k, j);
                            let s = if j == i { n } else { j };
                            assert(prev.has_key_at(k, s));
                            assert(k != *key);
                        }
                        if prev@.contains_key(k) && k != *key {
                            let j = choose|j: int| prev.has_key_at(k, j);
                            assert(j != i);
                            if j == n {
                                assert(self.has_key_at(k, i as int));
                            } else {
                                assert(self.has_key_at(k, j));
                            }
                        }
                    }
                    assert forall|k: ConnectionKey| #![auto] self@.contains_key(k) implies self@[k]
                        == prev@.remove(*key)[k] by {
                        let j = choose|j: int| self.has_key_at(k, j);
                        self.lemma_entry(j);
                        prev.lemma_entry(if j == i { n } else { j });
                    }
                    assert(self@ =~= prev@.remove(*key));
                }
            },
            None => {
                proof {
                    assert(self@ =~= prev@.remove(*key));
                }
            },
        }
    }

    /// Hands a segment to the connection under `key`, creating it first if
    /// the key is new, and returns the replies.
    pub fn handle_segment(&mut self, key: ConnectionKey, ip: &Ipv4Fields, tcp: &TcpFields, payload: &[u8], isn: u32) -> (out: Vec<OutgoingSegment>)
        requires
            old(self).wf(),
        ensures
            final(self).wf(),
            ({
                let c = if old(self)@.contains_key(key) { old(self)@[key] } else { Connection::fresh() };
                let (next, reply) = step(c, *tcp, payload@.len(), isn);
                final(self)@ == old(self)@.insert(key, next) && replies_match(out@, *ip, *tcp, reply)
            }),
    {
        let mut c = self.get_or_create(key);
        let out = c.handle_packet(ip, tcp, payload, isn);
        self.insert(key, c);
        proof {
            assert(self@ =~= old(self)@.insert(key, c));
        }
        out
    }
}

} // verus!
