//! The session table: session handles by transport and peer address.
use vstd::prelude::*;

use crate::transport::{PeerAddress, SessionKey, TransportProtocol};

verus! {

/// A table from session keys to values, at most one value per key.
pub struct Sessions<V> {
    entries: Vec<(SessionKey, V)>,
    contents: Ghost<Map<SessionKey, V>>,
}

impl<V> View for Sessions<V> {
    type V = Map<SessionKey, V>;

    closed spec fn view(&self) -> Map<SessionKey, V> {
        self.contents@
    }
}

impl<V> Sessions<V> {
    /// The table's entries hold each key once, and hold exactly the view.
    pub closed spec fn wf(&self) -> bool {
        &&& forall|i: int, j: int|
            0 <= i < j < self.entries@.len() ==> (#[trigger] self.entries@[i]).0
                != (#[trigger] self.entries@[j]).0
        &&& forall|i: int|
            0 <= i < self.entries@.len() ==> self.contents@.contains_key(
                (#[trigger] self.entries@[i]).0,
            ) && self.contents@[self.entries@[i].0] == self.entries@[i].1
        &&& forall|k: SessionKey|
            #[trigger] self.contents@.contains_key(k) ==> exists|i: int|
                0 <= i < self.entries@.len() && (#[trigger] self.entries@[i]).0 == k
    }

    /// The number of entries of the table.
    pub closed spec fn size(&self) -> nat {
        self.entries@.len()
    }

    pub fn new() -> (r: Sessions<V>)
        ensures
            r.wf(),
            r@ == Map::<SessionKey, V>::empty(),
    {
        Sessions { entries: Vec::new(), contents: Ghost(Map::empty()) }
    }

    fn find(&self, key: &SessionKey) -> (r: Option<usize>)
        requires
            self.wf(),
        ensures
            match r {
                Some(i) => i < self.entries@.len() && self.entries@[i as int].0 == *key,
                None => !self@.contains_key(*key),
            },
    {
        let mut i: usize = 0;
        while i < self.entries.len()
            invariant
                i <= self.entries@.len(),
                forall|j: int| 0 <= j < i ==> (#[trigger] self.entries@[j]).0 != *key,
            decreases self.entries@.len() - i,
        {
            if self.entries[i].0 == *key {
                return Some(i);
            }
            i = i + 1;
        }
        None
    }

    /// A key of the table whose transport is `transport`, if there is one.
    pub fn find_transport(&self, transport: TransportProtocol) -> (r: Option<SessionKey>)
        requires
            self.wf(),
        ensures
            match r {
                Some(k) => self@.contains_key(k) && k.transport == transport,
                None => forall|k: SessionKey| #[trigger]
                    self@.contains_key(k) ==> k.transport != transport,
            },
    {
        let mut i: usize = 0;
        while i < self.entries.len()
            invariant
                self.wf(),
                i <= self.entries@.len(),
                forall|j: int| 0 <= j < i ==> (#[trigger] self.entries@[j]).0.transport != transport,
            decreases self.entries@.len() - i,
        {
            if self.entries[i].0.transport == transport {
                return Some(self.entries[i].0);
            }
            i = i + 1;
        }
        None
    }

    /// The value stored under `(protocol, address)`, if any.
    pub fn get(&self, protocol: &TransportProtocol, address: &PeerAddress) -> (r: Option<&V>)
        requires
            self.wf(),
        ensures
            match r {
                Some(v) => self@.contains_key(SessionKey { transport: *protocol, address: *address })
                    && *v == self@[SessionKey { transport: *protocol, address: *address }],
                None => !self@.contains_key(SessionKey { transport: *protocol, address: *address }),
            },
    {
        let key = SessionKey { transport: *protocol, address: *address };
        match self.find(&key) {
            Some(i) => Some(&self.entries[i].1),
            None => None,
        }
    }

    /// Takes the value stored under `(protocol, address)` out of the table;
    /// a key that is not there is tolerated.
    pub fn remove(&mut self, protocol: &TransportProtocol, address: &PeerAddress) -> (r: Option<V>)
        requires
            old(self).wf(),
        ensures
            final(self).wf(),
            final(self)@ == old(self)@.remove(SessionKey { transport: *protocol, address: *address }),
            r is Some ==> final(self).size() + 1 == old(self).size(),
            match r {
                Some(v) => old(self)@.contains_key(
                    SessionKey { transport: *protocol, address: *address },
                ) && v == old(self)@[SessionKey { transport: *protocol, address: *address }],
                None => !old(self)@.contains_key(
                    SessionKey { transport: *protocol, address: *address },
                ),
            },
    {
        let key = SessionKey { transport: *protocol, address: *address };
        match self.find(&key) {
            None => {
                assert(self.contents@.remove(key) =~= self.contents@);
                None
            },
            Some(i) => {
                let ghost old_entries = self.entries@;
                let ghost old_contents = self.contents@;
                let entry = self.entries.swap_remove(i);
                self.contents = Ghost(old_contents.remove(key));
                let ghost n = self.entries@.len();
                assert forall|j: int| 0 <= j < n implies #[trigger] self.entries@[j] == (if j
                    == i {
                    old_entries[n as int]
                } else {
                    old_entries[j]
                }) by {}
                assert forall|j: int| 0 <= j < n implies (#[trigger] self.entries@[j]).0 != key by {
                    if j == i {
                        assert(old_entries[n as int].0 != old_entries[i as int].0);
                    } else {
                        if j < i {
                            assert(old_entries[j].0 != old_entries[i as int].0);
                        } else {
                            assert(old_entries[i as int].0 != old_entries[j].0);
                        }
                    }
                }
                assert forall|a: int, b: int|
                    0 <= a < b < n implies (#[trigger] self.entries@[a]).0
                    != (#[trigger] self.entries@[b]).0 by {
                    if a == i {
                        assert(old_entries[a].0 != old_entries[n as int].0);
                    } else if b == i {
                        assert(old_entries[a].0 != old_entries[n as int].0);
                    } else {
                        assert(old_entries[a].0 != old_entries[b].0);
                    }
                }
                assert forall|k: SessionKey| #[trigger]
                    self.contents@.contains_key(k) implies exists|j: int|
                    0 <= j < n && (#[trigger] self.entries@[j]).0 == k by {
                    let j = choose|j: int| 0 <= j < old_entries.len() && old_entries[j].0 == k;
                    if j == i {
                        assert(false);
                    } else if j == n {
                        assert(self.entries@[i as int].0 == k);
                    } else {
                        assert(self.entries@[j].0 == k);
                    }
                }
                Some(entry.1)
            },
        }
    }

    /// Stores `session` under `(transport, address)`, in place of any value
    /// stored there before.
    pub fn add(&mut self, transport: TransportProtocol, address: PeerAddress, session: V)
        requires
            old(self).wf(),
        ensures
            final(self).wf(),
            final(self)@ == old(self)@.insert(SessionKey { transport, address }, session),
    {
        let key = SessionKey { transport, address };
        let _ = self.remove(&transport, &address);
        let ghost mid_entries = self.entries@;
        let ghost mid_contents = self.contents@;
        self.entries.push((key, session));
        self.contents = Ghost(mid_contents.insert(key, session));
        assert forall|j: int| 0 <= j < mid_entries.len() implies (#[trigger] mid_entries[j]).0
            != key by {
            assert(mid_contents.contains_key(mid_entries[j].0));
        }
        assert forall|k: SessionKey| #[trigger]
            self.contents@.contains_key(k) implies exists|j: int|
            0 <= j < self.entries@.len() && (#[trigger] self.entries@[j]).0 == k by {
            if k == key {
                assert(self.entries@[mid_entries.len() as int].0 == k);
            } else {
                let j = choose|j: int| 0 <= j < mid_entries.len() && mid_entries[j].0 == k;
                assert(self.entries@[j].0 == k);
            }
        }
    }
}

} // verus!
