//! The input mailbox: buffered player input between connection workers and
//! the simulation step.

use crate::input::Input;
use crate::keymap::{
    assoc_find, assoc_map, assoc_wf, lemma_assoc_map_contains, lemma_assoc_map_index,
    lemma_assoc_map_push, lemma_assoc_map_remove,
};
use std::collections::VecDeque;
use vstd::prelude::*;

verus! {

/// Maps each connection key to the queue of its pending input events, oldest
/// first. Connection workers append events; the tick coordinator drains the
/// whole mapping at most once per tick, immediately before the simulation
/// step.
pub struct PlayerInputBuffer {
    pub inner: Vec<(String, VecDeque<Input>)>,
}

impl View for PlayerInputBuffer {
    type V = Map<Seq<char>, Seq<Input>>;

    open spec fn view(&self) -> Map<Seq<char>, Seq<Input>> {
        assoc_map(self.inner@)
    }
}

/// The mailbox contents after one event `e` is pushed under key `k`: the
/// event is appended to the key's queue, which is created empty if absent.
pub open spec fn mailbox_push(m: Map<Seq<char>, Seq<Input>>, k: Seq<char>, e: Input) -> Map<
    Seq<char>,
    Seq<Input>,
> {
    let q = if m.contains_key(k) {
        m[k]
    } else {
        Seq::empty()
    };
    m.insert(k, q.push(e))
}

impl PlayerInputBuffer {
    /// No two entries share a key.
    pub open spec fn wf(self) -> bool {
        assoc_wf(self.inner@)
    }

    pub fn new() -> (r: Self)
        ensures
            r.wf(),
            r@ == Map::<Seq<char>, Seq<Input>>::empty(),
    {
        PlayerInputBuffer { inner: Vec::new() }
    }

    /// Appends `input` to `player`'s queue, creating the queue if absent.
    pub fn push_input(&mut self, player: String, input: Input)
        requires
            old(self).wf(),
        ensures
            final(self).wf(),
            final(self)@ == mailbox_push(old(self)@, player@, input),
    {
        let ghost s0 = self.inner@;
        match assoc_find(&self.inner, &player) {
            Some(i) => {
                proof {
                    lemma_assoc_map_index(s0, i as int);
                    lemma_assoc_map_remove(s0, i as int);
                }
                let mut entry = self.inner.remove(i);
                entry.1.push_back(input);
                proof {
                    assert forall|j: int| 0 <= j < self.inner@.len() implies self.inner@[j].0@
                        != entry.0@ by {
                        if j < i {
                            assert(self.inner@[j] == s0[j]);
                        } else {
                            assert(self.inner@[j] == s0[j + 1]);
                        }
                    }
                    lemma_assoc_map_push(self.inner@, entry);
                }
                self.inner.push(entry);
                proof {
                    assert(final(self)@ =~= mailbox_push(old(self)@, player@, input));
                }
            },
            None => {
                proof {
                    lemma_assoc_map_contains(s0, player@);
                }
                let mut q: VecDeque<Input> = VecDeque::new();
                q.push_back(input);
                let entry = (player, q);
                proof {
                    lemma_assoc_map_push(s0, entry);
                }
                self.inner.push(entry);
                proof {
                    assert(final(self)@ =~= mailbox_push(old(self)@, entry.0@, input));
                }
            },
        }
    }

    /// Removes and returns the oldest pending event of `player`'s queue, if
    /// the queue exists and is not empty. An emptied queue stays in place.
    pub fn pop_input(&mut self, player: String) -> (r: Option<Input>)
        requires
            old(self).wf(),
        ensures
            final(self).wf(),
            match r {
                Some(e) => old(self)@.contains_key(player@) && old(self)@[player@].len() > 0 && e
                    == old(self)@[player@][0] && final(self)@ == old(self)@.insert(
                    player@,
                    old(self)@[player@].subrange(1, old(self)@[player@].len() as int),
                ),
                None => (!old(self)@.contains_key(player@) || old(self)@[player@].len() == 0)
                    && final(self)@ == old(self)@,
            },
    {
        let ghost s0 = self.inner@;
        match assoc_find(&self.inner, &player) {
            Some(i) => {
                proof {
                    lemma_assoc_map_index(s0, i as int);
                    lemma_assoc_map_remove(s0, i as int);
                }
                let mut entry = self.inner.remove(i);
                let r = entry.1.pop_front();
                proof {
                    assert forall|j: int| 0 <= j < self.inner@.len() implies self.inner@[j].0@
                        != entry.0@ by {
                        if j < i {
                            assert(self.inner@[j] == s0[j]);
                        } else {
                            assert(self.inner@[j] == s0[j + 1]);
                        }
                    }
                    lemma_assoc_map_push(self.inner@, entry);
                }
                self.inner.push(entry);
                proof {
                    if r is Some {
                        assert(final(self)@ =~= old(self)@.insert(
                            player@,
                            old(self)@[player@].subrange(1, old(self)@[player@].len() as int),
                        ));
                    } else {
                        assert(final(self)@ =~= old(self)@);
                    }
                }
                r
            },
            None => {
                proof {
                    lemma_assoc_map_contains(s0, player@);
                }
                None
            },
        }
    }

    /// Returns the entire current mapping and resets the mailbox to empty, as
    /// a single exchange. Called at most once per tick, by the tick
    /// coordinator, immediately before the simulation step.
    pub fn drain_all(&mut self) -> (r: PlayerInputBuffer)
        requires
            old(self).wf(),
        ensures
            r.wf(),
            r@ == old(self)@,
            final(self).wf(),
            final(self)@ == Map::<Seq<char>, Seq<Input>>::empty(),
    {
        let mut r = PlayerInputBuffer::new();
        core::mem::swap(&mut r, self);
        r
    }
}

/// Appends one decoded input event to a player's queue in the shared mailbox.
pub fn put_buffer(input_buffer: &mut PlayerInputBuffer, player: String, input: Input)
    requires
        old(input_buffer).wf(),
    ensures
        final(input_buffer).wf(),
        final(input_buffer)@ == mailbox_push(old(input_buffer)@, player@, input),
{
    input_buffer.push_input(player, input);
}

/// The mailbox contents after the keyed events `ps` are pushed, in order,
/// into a mailbox holding `m`.
pub open spec fn mailbox_push_all(
    m: Map<Seq<char>, Seq<Input>>,
    ps: Seq<(Seq<char>, Input)>,
) -> Map<Seq<char>, Seq<Input>>
    decreases ps.len(),
{
    if ps.len() == 0 {
        m
    } else {
        mailbox_push(mailbox_push_all(m, ps.drop_last()), ps.last().0, ps.last().1)
    }
}

/// The queue that a drain hands over for key `k`.
pub open spec fn drained_queue(m: Map<Seq<char>, Seq<Input>>, k: Seq<char>) -> Seq<Input> {
    if m.contains_key(k) {
        m[k]
    } else {
        Seq::empty()
    }
}

/// The events of `ps` pushed under key `k`, in push order.
pub open spec fn events_for_key(ps: Seq<(Seq<char>, Input)>, k: Seq<char>) -> Seq<Input>
    decreases ps.len(),
{
    if ps.len() == 0 {
        Seq::empty()
    } else if ps.last().0 == k {
        events_for_key(ps.drop_last(), k).push(ps.last().1)
    } else {
        events_for_key(ps.drop_last(), k)
    }
}

/// Input delivery is exact: after the keyed events `ps` are pushed into a
/// mailbox holding `m`, the queue drained for each key is the queue already
/// held for it followed by precisely the events pushed for it, in push order —
/// each pushed event appears exactly once. A drain leaves the mailbox empty,
/// so no event appears again in a later drain.
pub proof fn lemma_drain_delivers_exactly_once(
    m: Map<Seq<char>, Seq<Input>>,
    ps: Seq<(Seq<char>, Input)>,
    k: Seq<char>,
)
    ensures
        drained_queue(mailbox_push_all(m, ps), k) == drained_queue(m, k) + events_for_key(ps, k),
    decreases ps.len(),
{
    if ps.len() == 0 {
        assert(drained_queue(mailbox_push_all(m, ps), k) =~= drained_queue(m, k) + events_for_key(
            ps,
            k,
        ));
    } else {
        lemma_drain_delivers_exactly_once(m, ps.drop_last(), k);
        assert(drained_queue(mailbox_push_all(m, ps), k) =~= drained_queue(m, k) + events_for_key(
            ps,
            k,
        ));
    }
}

} // verus!
