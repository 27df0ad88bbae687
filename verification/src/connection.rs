//! Logical connections, per-player view snapshots, and the connection registry.

use std::collections::VecDeque;
use vstd::prelude::*;

verus! {

/// A logical client session, identified by its login key and independent of
/// the underlying socket. A key appears at most once among the live
/// connections of a session.
#[derive(Clone, Debug)]
pub struct Connection {
    pub key: String,
}

/// The per-player render payload produced by one simulation step: the visible
/// sprite identifiers and their positions on a fixed integer grid.
#[derive(Clone, PartialEq, Eq, Debug)]
pub struct ClientView {
    pub sprites: Vec<u64>,
    pub loc: Vec<(i64, i64)>,
}

impl ClientView {
    pub fn new() -> (r: Self)
        ensures
            r.sprites@ == Seq::<u64>::empty(),
            r.loc@ == Seq::<(i64, i64)>::empty(),
    {
        ClientView { sprites: Vec::new(), loc: Vec::new() }
    }

    /// A fresh view with the same contents.
    pub fn duplicate(&self) -> (r: Self)
        ensures
            r.sprites@ == self.sprites@,
            r.loc@ == self.loc@,
    {
        let mut sprites: Vec<u64> = Vec::new();
        let mut i: usize = 0;
        while i < self.sprites.len()
            invariant
                i <= self.sprites@.len(),
                sprites@ == self.sprites@.subrange(0, i as int),
            decreases self.sprites@.len() - i,
        {
            sprites.push(self.sprites[i]);
            proof {
                assert(sprites@ =~= self.sprites@.subrange(0, i + 1));
            }
            i += 1;
        }
        let mut loc: Vec<(i64, i64)> = Vec::new();
        let mut j: usize = 0;
        while j < self.loc.len()
            invariant
                j <= self.loc@.len(),
                loc@ == self.loc@.subrange(0, j as int),
            decreases self.loc@.len() - j,
        {
            loc.push(self.loc[j]);
            proof {
                assert(loc@ =~= self.loc@.subrange(0, j + 1));
            }
            j += 1;
        }
        proof {
            assert(sprites@ =~= self.sprites@);
            assert(loc@ =~= self.loc@);
        }
        ClientView { sprites, loc }
    }
}

/// The views of a sequence of login keys.
pub open spec fn key_views(s: Seq<String>) -> Seq<Seq<char>> {
    s.map_values(|k: String| k@)
}

/// The keys of a sequence of connections, in order.
pub open spec fn connection_keys(s: Seq<Connection>) -> Seq<Seq<char>> {
    s.map_values(|c: Connection| c.key@)
}

/// The live connections of `s` whose key is not `k`, in order.
pub open spec fn without_key(s: Seq<Connection>, k: Seq<char>) -> Seq<Connection>
    decreases s.len(),
{
    if s.len() == 0 {
        Seq::empty()
    } else if s.last().key@ == k {
        without_key(s.drop_last(), k)
    } else {
        without_key(s.drop_last(), k).push(s.last())
    }
}

/// Tracks the currently live connections and, separately, the keys that
/// arrived since the previous tick. The new-arrival queue is drained exactly
/// once per tick and never re-delivered; removal touches the live list only.
#[derive(Clone, Debug)]
pub struct ConnectionCollection {
    pub new_keys: VecDeque<String>,
    pub connections: Vec<Connection>,
}

impl ConnectionCollection {
    /// The keys queued since the previous drain, in arrival order.
    pub open spec fn pending_keys(self) -> Seq<Seq<char>> {
        key_views(self.new_keys@)
    }

    /// The keys of the live connections, in arrival order.
    pub open spec fn live_keys(self) -> Seq<Seq<char>> {
        connection_keys(self.connections@)
    }

    pub fn new() -> (r: Self)
        ensures
            r.connections@ == Seq::<Connection>::empty(),
            r.pending_keys() == Seq::<Seq<char>>::empty(),
    {
        let r = ConnectionCollection { new_keys: VecDeque::new(), connections: Vec::new() };
        proof {
            assert(r.pending_keys() =~= Seq::<Seq<char>>::empty());
        }
        r
    }

    /// The number of live connections.
    pub fn size(&self) -> (n: usize)
        ensures
            n == self.connections@.len(),
    {
        self.connections.len()
    }

    /// Appends `c` to the live list and queues its key as a new arrival.
    pub fn push(&mut self, c: Connection)
        ensures
            final(self).connections@ == old(self).connections@.push(c),
            final(self).pending_keys() == old(self).pending_keys().push(c.key@),
    {
        let key = c.key.clone();
        self.new_keys.push_back(key);
        self.connections.push(c);
        proof {
            assert(final(self).pending_keys() =~= old(self).pending_keys().push(c.key@));
        }
    }

    /// Dequeues the oldest not-yet-delivered new arrival, if any.
    pub fn pop_new_key(&mut self) -> (r: Option<String>)
        ensures
            final(self).connections@ == old(self).connections@,
            match r {
                Some(k) => old(self).pending_keys().len() > 0 && k@ == old(self).pending_keys()[0]
                    && final(self).pending_keys() == old(self).pending_keys().subrange(
                    1,
                    old(self).pending_keys().len() as int,
                ),
                None => old(self).pending_keys().len() == 0 && final(self).pending_keys() == old(
                    self,
                ).pending_keys(),
            },
    {
        let r = self.new_keys.pop_front();
        proof {
            if old(self).new_keys@.len() > 0 {
                assert(final(self).pending_keys() =~= old(self).pending_keys().subrange(
                    1,
                    old(self).pending_keys().len() as int,
                ));
            }
        }
        r
    }

    /// Atomically returns and clears every key queued since the previous
    /// drain, in arrival order. A second drain without an intervening push
    /// returns the empty sequence.
    pub fn pop_new_keys(&mut self) -> (keys: Vec<String>)
        ensures
            final(self).connections@ == old(self).connections@,
            key_views(keys@) == old(self).pending_keys(),
            final(self).pending_keys() == Seq::<Seq<char>>::empty(),
    {
        let mut keys: Vec<String> = Vec::new();
        proof {
            assert(key_views(keys@) + self.pending_keys() =~= old(self).pending_keys());
        }
        loop
            invariant
                self.connections@ == old(self).connections@,
                key_views(keys@) + self.pending_keys() == old(self).pending_keys(),
            decreases self.pending_keys().len(),
        {
            let ghost prev_keys = keys@;
            let ghost prev_pending = self.pending_keys();
            match self.pop_new_key() {
                Some(k) => {
                    keys.push(k);
                    proof {
                        assert(key_views(keys@) =~= key_views(prev_keys).push(k@));
                        assert(key_views(keys@) + self.pending_keys() =~= key_views(prev_keys)
                            + prev_pending);
                    }
                },
                None => {
                    proof {
                        assert(key_views(keys@) + self.pending_keys() =~= key_views(keys@));
                    }
                    return keys;
                },
            }
        }
    }

    /// Deletes the live connection carrying `key`; a no-op if the key is
    /// absent. The new-arrival queue is not touched.
    pub fn remove(&mut self, key: &String)
        ensures
            final(self).connections@ == without_key(old(self).connections@, key@),
            final(self).pending_keys() == old(self).pending_keys(),
    {
        let mut rest: Vec<Connection> = Vec::new();
        core::mem::swap(&mut rest, &mut self.connections);
        let ghost orig = rest@;
        let ghost done = 0int;
        proof {
            assert(orig.subrange(0, 0) =~= Seq::<Connection>::empty());
        }
        while rest.len() > 0
            invariant
                0 <= done <= orig.len(),
                rest@ == orig.subrange(done, orig.len() as int),
                self.connections@ == without_key(orig.subrange(0, done), key@),
                self.pending_keys() == old(self).pending_keys(),
            decreases rest@.len(),
        {
            let ghost prefix = orig.subrange(0, done);
            let c = rest.remove(0);
            proof {
                assert(c == orig[done]);
                assert(rest@ =~= orig.subrange(done + 1, orig.len() as int));
                let prefix2 = orig.subrange(0, done + 1);
                assert(prefix2.drop_last() =~= prefix);
                assert(prefix2.last() == c);
            }
            if c.key == *key {
                proof {
                    assert(self.connections@ == without_key(orig.subrange(0, done + 1), key@));
                }
            } else {
                self.connections.push(c);
                proof {
                    assert(self.connections@ == without_key(orig.subrange(0, done + 1), key@));
                }
            }
            proof {
                done = done + 1;
            }
        }
        proof {
            assert(orig.subrange(0, orig.len() as int) =~= orig);
        }
    }
}

/// The pending new-arrival queue after the arrivals `ks` are pushed, one by
/// one, onto a registry whose queue holds `pending`.
pub open spec fn pending_after_arrivals(pending: Seq<Seq<char>>, ks: Seq<Seq<char>>) -> Seq<
    Seq<char>,
>
    decreases ks.len(),
{
    if ks.len() == 0 {
        pending
    } else {
        pending_after_arrivals(pending, ks.drop_last()).push(ks.last())
    }
}

/// New keys are delivered exactly once, in arrival order: pushing the keys
/// `ks` onto a registry whose pending queue holds `pending` leaves the queue
/// holding `pending + ks`, so the next drain returns each of those keys once,
/// in order, and — the drain leaving the queue empty — a second drain without
/// an intervening push returns the empty sequence.
pub proof fn lemma_new_keys_arrival_order(pending: Seq<Seq<char>>, ks: Seq<Seq<char>>)
    ensures
        pending_after_arrivals(pending, ks) == pending + ks,
    decreases ks.len(),
{
    if ks.len() == 0 {
        assert(pending_after_arrivals(pending, ks) =~= pending + ks);
    } else {
        lemma_new_keys_arrival_order(pending, ks.drop_last());
        assert(pending_after_arrivals(pending, ks) =~= pending + ks);
    }
}

/// Removing a key that no live connection carries is a no-op: the live list —
/// in particular its size — is unchanged.
pub proof fn lemma_remove_absent_is_noop(s: Seq<Connection>, k: Seq<char>)
    requires
        forall|i: int| 0 <= i < s.len() ==> s[i].key@ != k,
    ensures
        without_key(s, k) == s,
    decreases s.len(),
{
    if s.len() > 0 {
        assert(s[s.len() - 1].key@ != k);
        assert forall|i: int| 0 <= i < s.drop_last().len() implies s.drop_last()[i].key@ != k by {
            assert(s.drop_last()[i] == s[i]);
        }
        lemma_remove_absent_is_noop(s.drop_last(), k);
        assert(without_key(s, k) =~= s);
    }
}

} // verus!
