//! The table of live connections that each end of the tunnel keeps, keyed by
//! user id, and what a frame from the tunnel does to it.
//!
//! The server keeps one user connection per user id, the client one local
//! stream per user id. A close frame drops the entry (the caller then cancels
//! the connection it gets back); a data frame goes to the entry of its user
//! when there is one.

use crate::wire::TunnelMessage;
use std::collections::HashMap;
use vstd::prelude::*;

verus! {

/// What a frame from the tunnel asks of a connection table.
pub enum Dispatch<V> {
    /// A close frame for a known user: its connection, now out of the table.
    Closed(V),
    /// A close frame for a user that has no entry: nothing to do.
    Ignored(u64),
    /// A data frame for a known user: its payload goes to that connection.
    Deliver(u64),
    /// A data frame for a user that has no entry.
    Unknown(u64),
}

/// Live connections by user id.
pub struct ConnTable<V> {
    conns: HashMap<u64, V>,
}

/// `HashMap::get_mut`: the value stored under `id`, to be changed in place.
#[verifier::external_body]
fn hash_map_get_mut<V>(m: &mut HashMap<u64, V>, id: u64) -> (r: Option<&mut V>)
    ensures
        r is Some <==> old(m)@.contains_key(id),
        r matches Some(v) ==> *v == old(m)@[id] && final(m)@ == old(m)@.insert(id, *final(v)),
        r is None ==> final(m)@ == old(m)@,
{
    m.get_mut(&id)
}

impl<V> View for ConnTable<V> {
    type V = Map<u64, V>;

    closed spec fn view(&self) -> Map<u64, V> {
        self.conns@
    }
}

impl<V> ConnTable<V> {
    /// An empty table.
    pub fn new() -> (t: ConnTable<V>)
        ensures
            t@ == Map::<u64, V>::empty(),
    {
        ConnTable { conns: HashMap::new() }
    }

    /// Whether `id` has an entry.
    pub fn contains(&self, id: u64) -> (r: bool)
        ensures
            r == self@.contains_key(id),
    {
        self.conns.contains_key(&id)
    }

    /// The number of entries.
    pub fn len(&self) -> (n: usize)
        ensures
            n == self@.len(),
    {
        self.conns.len()
    }

    /// Enters `conn` under `id`, handing back the connection it replaces.
    pub fn insert(&mut self, id: u64, conn: V) -> (replaced: Option<V>)
        ensures
            final(self)@ == old(self)@.insert(id, conn),
            replaced == (if old(self)@.contains_key(id) {
                Some(old(self)@[id])
            } else {
                None
            }),
    {
        self.conns.insert(id, conn)
    }

    /// Takes the entry of `id` out of the table.
    pub fn remove(&mut self, id: u64) -> (removed: Option<V>)
        ensures
            final(self)@ == old(self)@.remove(id),
            removed == (if old(self)@.contains_key(id) {
                Some(old(self)@[id])
            } else {
                None
            }),
    {
        self.conns.remove(&id)
    }

    /// The connection of `id`, to write to it in place.
    pub fn get_mut(&mut self, id: u64) -> (r: Option<&mut V>)
        ensures
            r is Some <==> old(self)@.contains_key(id),
            r matches Some(v) ==> *v == old(self)@[id] && final(self)@ == old(self)@.insert(
                id,
                *final(v),
            ),
            r is None ==> final(self)@ == old(self)@,
    {
        hash_map_get_mut(&mut self.conns, id)
    }

    /// What the frame `msg` from the tunnel does: a close frame takes its
    /// user's entry out, a data frame leaves the table as it is and names the
    /// user it is for.
    pub fn dispatch(&mut self, msg: &TunnelMessage) -> (d: Dispatch<V>)
        ensures
            match *msg {
                TunnelMessage::Close(c) => {
                    &&& final(self)@ == old(self)@.remove(c.user_id)
                    &&& if old(self)@.contains_key(c.user_id) {
                        d == Dispatch::Closed(old(self)@[c.user_id])
                    } else {
                        d == Dispatch::<V>::Ignored(c.user_id)
                    }
                },
                TunnelMessage::Data(m) => {
                    &&& final(self)@ == old(self)@
                    &&& if old(self)@.contains_key(m.user_id) {
                        d == Dispatch::<V>::Deliver(m.user_id)
                    } else {
                        d == Dispatch::<V>::Unknown(m.user_id)
                    }
                },
            },
    {
        match msg {
            TunnelMessage::Close(c) => match self.remove(c.user_id) {
                Some(conn) => Dispatch::Closed(conn),
                None => Dispatch::Ignored(c.user_id),
            },
            TunnelMessage::Data(m) => {
                if self.contains(m.user_id) {
                    Dispatch::Deliver(m.user_id)
                } else {
                    Dispatch::Unknown(m.user_id)
                }
            },
        }
    }

    /// Empties the table, handing back every entry with its user id, each
    /// once, in no stated order.
    pub fn close_all(&mut self) -> (out: Vec<(u64, V)>)
        ensures
            final(self)@ == Map::<u64, V>::empty(),
            out@.len() == old(self)@.len(),
            forall|i: int|
                0 <= i < out@.len() ==> old(self)@.contains_key(#[trigger] out@[i].0) && old(
                    self,
                )@[out@[i].0] == out@[i].1,
            forall|i: int, j: int| 0 <= i < j < out@.len() ==> out@[i].0 != out@[j].0,
            forall|id: u64| #[trigger]
                old(self)@.contains_key(id) ==> exists|i: int| 0 <= i < out@.len() && out@[i].0 == id,
    {
        let ghost start = self.conns@;
        let mut ids: Vec<u64> = Vec::new();
        for id in it: self.conns.keys()
            invariant
                ids@.len() == it.index(),
                forall|i: int| 0 <= i < it.index() ==> ids@[i] == *it.seq()[i],
        {
            ids.push(*id);
        }
        proof {
            assert(ids@ =~= vstd::std_specs::iter::IteratorSpec::remaining(
                &vstd::std_specs::hash::spec_keys_iter(&self.conns),
            ).unref());
        }
        let mut out: Vec<(u64, V)> = Vec::new();
        let n = ids.len();
        let mut k: usize = 0;
        while k < n
            invariant
                k <= n,
                n == ids@.len(),
                ids@.no_duplicates(),
                ids@.to_set() == start.dom(),
                self.conns@ == start.remove_keys(ids@.take(k as int).to_set()),
                out@.len() == k,
                forall|i: int| 0 <= i < k ==> #[trigger] out@[i].0 == ids@[i] && out@[i].1 == start[ids@[i]],
            decreases n - k,
        {
            let id = ids[k];
            let ghost taken = ids@.take(k as int).to_set();
            proof {
                assert(start.dom().contains(id)) by {
                    assert(ids@.contains(id));
                }
                assert(!taken.contains(id)) by {
                    if ids@.take(k as int).contains(id) {
                        let j = choose|j: int| 0 <= j < k && ids@.take(k as int)[j] == id;
                        assert(ids@[j] == ids@[k as int]);
                    }
                }
                assert(self.conns@.contains_key(id));
            }
            let conn = self.conns.remove(&id);
            proof {
                assert(ids@.take(k + 1) =~= ids@.take(k as int).push(id));
                ids@.take(k as int).lemma_push_to_set_commute(id);
                assert(ids@.take(k + 1).to_set() =~= taken.insert(id));
                assert(self.conns@ =~= start.remove_keys(taken.insert(id)));
            }
            match conn {
                Some(c) => {
                    let ghost before = out@;
                    assert(c == start[id]);
                    out.push((id, c));
                    proof {
                        assert forall|i: int| 0 <= i < k + 1 implies #[trigger] out@[i].0 == ids@[i]
                            && out@[i].1 == start[ids@[i]] by {
                            if i == k {
                                assert(out@[i] == (id, c));
                            } else {
                                assert(out@[i] == before[i]);
                                assert(before[i].0 == ids@[i] && before[i].1 == start[ids@[i]]);
                            }
                        }
                    }
                },
                None => {
                    proof {
                        assert(false);
                    }
                },
            }
            k = k + 1;
        }
        proof {
            assert(ids@.take(n as int) =~= ids@);
            assert(self.conns@ =~= Map::<u64, V>::empty());
            assert forall|id: u64| #[trigger]
                start.contains_key(id) implies exists|i: int| 0 <= i < out@.len() && out@[i].0 == id by {
                assert(ids@.to_set().contains(id));
                let i = choose|i: int| 0 <= i < ids@.len() && ids@[i] == id;
                assert(out@[i].0 == id);
            }
            assert forall|i: int, j: int| 0 <= i < j < out@.len() implies out@[i].0 != out@[j].0 by {
                assert(out@[i].0 == ids@[i] && out@[j].0 == ids@[j]);
            }
            ids@.unique_seq_to_set();
        }
        out
    }
}

} // verus!
