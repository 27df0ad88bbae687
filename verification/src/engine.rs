//! The tick coordinator: connection bookkeeping, the per-tick hand-off to the
//! simulation step, and the latest-wins fan-out of view snapshots.

use crate::connection::{connection_keys, without_key, ClientView, Connection, ConnectionCollection};
use crate::keymap::{
    assoc_find, assoc_map, assoc_wf, lemma_assoc_map_contains, lemma_assoc_map_index,
    lemma_assoc_map_push, lemma_assoc_map_remove, lemma_assoc_map_update,
};
use crate::outbound::OutboundChannel;
use vstd::prelude::*;

verus! {

/// What the controller hook tells the coordinator to do with the current
/// tick: run it (optionally running the simulation dispatcher), pause, or
/// restart. Connection bookkeeping happens in every case; only a run whose
/// `run_dispatcher` flag is set performs a simulation step.
#[derive(Clone, Copy, PartialEq, Eq, Debug)]
pub enum EngineInstruction {
    Run { run_dispatcher: bool },
    Pause,
    Restart,
}

/// Whether an instruction asks for a simulation step this tick.
pub open spec fn spec_should_run(i: EngineInstruction) -> bool {
    match i {
        EngineInstruction::Run { run_dispatcher } => run_dispatcher,
        _ => false,
    }
}

/// A fresh outbound channel, open and with nothing pending.
pub open spec fn fresh_channel() -> OutboundChannel {
    OutboundChannel { pending: None, disconnected: false }
}

/// The channel table after the announced connections `cs` are registered, in
/// order: each key mapped to a fresh open channel.
pub open spec fn channels_after_register(
    chans: Map<Seq<char>, OutboundChannel>,
    cs: Seq<Connection>,
) -> Map<Seq<char>, OutboundChannel>
    decreases cs.len(),
{
    if cs.len() == 0 {
        chans
    } else {
        channels_after_register(chans, cs.drop_last()).insert(cs.last().key@, fresh_channel())
    }
}

/// One fan-out decision for the snapshot `kv`. A key with an open channel
/// has the snapshot delivered, superseding whatever was pending; a key whose
/// channel is disconnected has its connection torn down — the channel is
/// dropped and the connection leaves the live list; a key with no channel has
/// the snapshot dropped silently.
pub open spec fn fan_step(
    chans: Map<Seq<char>, OutboundChannel>,
    live: Seq<Connection>,
    kv: (String, ClientView),
) -> (Map<Seq<char>, OutboundChannel>, Seq<Connection>) {
    let k = kv.0@;
    if !chans.contains_key(k) {
        (chans, live)
    } else if chans[k].disconnected {
        (chans.remove(k), without_key(live, k))
    } else {
        (chans.insert(k, chans[k].spec_send(kv.1)), live)
    }
}

/// The coordinator state after fanning out the snapshots `vs`, in order.
pub open spec fn fan_result(
    chans: Map<Seq<char>, OutboundChannel>,
    live: Seq<Connection>,
    vs: Seq<(String, ClientView)>,
) -> (Map<Seq<char>, OutboundChannel>, Seq<Connection>)
    decreases vs.len(),
{
    if vs.len() == 0 {
        (chans, live)
    } else {
        let prev = fan_result(chans, live, vs.drop_last());
        fan_step(prev.0, prev.1, vs.last())
    }
}

/// The tick coordinator. It owns the connection registry and, for each live
/// connection, the outbound channel on which that connection's worker
/// receives its view snapshots.
pub struct Engine {
    pub connections: ConnectionCollection,
    pub channels: Vec<(String, OutboundChannel)>,
}

impl Engine {
    /// No two recorded channels share a key.
    pub open spec fn wf(self) -> bool {
        assoc_wf(self.channels@)
    }

    /// The recorded outbound channels, keyed by login key.
    pub open spec fn chan_map(self) -> Map<Seq<char>, OutboundChannel> {
        assoc_map(self.channels@)
    }

    pub fn new() -> (r: Engine)
        ensures
            r.wf(),
            r.connections.connections@ == Seq::<Connection>::empty(),
            r.connections.pending_keys() == Seq::<Seq<char>>::empty(),
            r.chan_map() == Map::<Seq<char>, OutboundChannel>::empty(),
    {
        Engine { connections: ConnectionCollection::new(), channels: Vec::new() }
    }

    /// Whether a channel is recorded under `key`.
    pub fn has_channel(&self, key: &String) -> (r: bool)
        ensures
            r == self.chan_map().contains_key(key@),
    {
        proof {
            lemma_assoc_map_contains(self.channels@, key@);
        }
        match assoc_find(&self.channels, key) {
            Some(_) => true,
            None => false,
        }
    }

    /// Registers one announced connection: appends it to the registry (live
    /// list and new-arrival queue) and records a fresh open outbound channel
    /// under its key, replacing any channel previously recorded there.
    pub fn register_connection(&mut self, c: Connection)
        requires
            old(self).wf(),
        ensures
            final(self).wf(),
            final(self).connections.connections@ == old(self).connections.connections@.push(c),
            final(self).connections.pending_keys() == old(self).connections.pending_keys().push(
                c.key@,
            ),
            final(self).chan_map() == old(self).chan_map().insert(c.key@, fresh_channel()),
    {
        let key = c.key.clone();
        let ch = OutboundChannel::new();
        let ghost s0 = self.channels@;
        match assoc_find(&self.channels, &key) {
            Some(i) => {
                proof {
                    lemma_assoc_map_update(s0, i as int, (key, ch));
                }
                self.channels[i] = (key, ch);
            },
            None => {
                proof {
                    lemma_assoc_map_push(s0, (key, ch));
                }
                self.channels.push((key, ch));
            },
        }
        self.connections.push(c);
    }

    /// Drains this tick's connection announcements into the coordinator, in
    /// arrival order: each announced connection is registered in the registry
    /// and given a fresh open outbound channel.
    pub fn process_announcements(&mut self, announcements: Vec<Connection>)
        requires
            old(self).wf(),
        ensures
            final(self).wf(),
            final(self).connections.connections@ == old(self).connections.connections@
                + announcements@,
            final(self).connections.pending_keys() == old(self).connections.pending_keys()
                + connection_keys(announcements@),
            final(self).chan_map() == channels_after_register(old(self).chan_map(), announcements@),
    {
        let mut rest = announcements;
        let ghost all = rest@;
        let ghost done = 0int;
        proof {
            assert(self.connections.connections@ =~= old(self).connections.connections@
                + all.subrange(0, 0));
            assert(self.connections.pending_keys() =~= old(self).connections.pending_keys()
                + connection_keys(all.subrange(0, 0)));
        }
        while rest.len() > 0
            invariant
                self.wf(),
                0 <= done <= all.len(),
                rest@ == all.subrange(done, all.len() as int),
                self.connections.connections@ == old(self).connections.connections@ + all.subrange(
                    0,
                    done,
                ),
                self.connections.pending_keys() == old(self).connections.pending_keys()
                    + connection_keys(all.subrange(0, done)),
                self.chan_map() == channels_after_register(
                    old(self).chan_map(),
                    all.subrange(0, done),
                ),
            decreases rest@.len(),
        {
            let ghost prefix = all.subrange(0, done);
            let c = rest.remove(0);
            proof {
                assert(c == all[done]);
                assert(rest@ =~= all.subrange(done + 1, all.len() as int));
                assert(all.subrange(0, done + 1).drop_last() =~= prefix);
                assert(all.subrange(0, done + 1).last() == c);
            }
            self.register_connection(c);
            proof {
                assert(connection_keys(prefix.push(c)) =~= connection_keys(prefix).push(c.key@));
                assert(prefix.push(c) =~= all.subrange(0, done + 1));
                assert(self.connections.connections@ =~= old(self).connections.connections@
                    + all.subrange(0, done + 1));
                assert(self.connections.pending_keys() =~= old(self).connections.pending_keys()
                    + connection_keys(all.subrange(0, done + 1)));
                done = done + 1;
            }
        }
        proof {
            assert(all.subrange(0, all.len() as int) =~= all);
        }
    }

    /// Fans this tick's view snapshots out to the outbound channels, in
    /// order. Delivery is attempted per snapshot; a failed send — the
    /// receiving worker is gone — tears that connection down: the channel is
    /// dropped and the connection is removed from the registry. A snapshot
    /// whose key has no channel is dropped silently, which is expected when a
    /// late joiner's view arrives before its registration. The new-arrival
    /// queue is not touched.
    pub fn fan_out(&mut self, views: Vec<(String, ClientView)>)
        requires
            old(self).wf(),
        ensures
            final(self).wf(),
            (final(self).chan_map(), final(self).connections.connections@) == fan_result(
                old(self).chan_map(),
                old(self).connections.connections@,
                views@,
            ),
            final(self).connections.pending_keys() == old(self).connections.pending_keys(),
    {
        let mut rest = views;
        let ghost all = rest@;
        let ghost done = 0int;
        while rest.len() > 0
            invariant
                self.wf(),
                0 <= done <= all.len(),
                rest@ == all.subrange(done, all.len() as int),
                (self.chan_map(), self.connections.connections@) == fan_result(
                    old(self).chan_map(),
                    old(self).connections.connections@,
                    all.subrange(0, done),
                ),
                self.connections.pending_keys() == old(self).connections.pending_keys(),
            decreases rest@.len(),
        {
            let ghost prefix = all.subrange(0, done);
            let kv = rest.remove(0);
            proof {
                assert(kv == all[done]);
                assert(rest@ =~= all.subrange(done + 1, all.len() as int));
                assert(all.subrange(0, done + 1).drop_last() =~= prefix);
                assert(all.subrange(0, done + 1).last() == kv);
            }
            let ghost s0 = self.channels@;
            let ghost chans0 = self.chan_map();
            match assoc_find(&self.channels, &kv.0) {
                Some(i) => {
                    proof {
                        lemma_assoc_map_index(s0, i as int);
                    }
                    let ok = self.channels[i].1.send(kv.1);
                    proof {
                        lemma_assoc_map_update(s0, i as int, self.channels@[i as int]);
                    }
                    if !ok {
                        // The worker is gone: drop the channel and the connection.
                        proof {
                            assert(self.channels@ =~= s0);
                            lemma_assoc_map_remove(s0, i as int);
                        }
                        let removed = self.channels.remove(i);
                        self.connections.remove(&removed.0);
                    }
                },
                None => {
                    proof {
                        lemma_assoc_map_contains(s0, kv.0@);
                    }
                },
            }
            proof {
                done = done + 1;
            }
        }
        proof {
            assert(all.subrange(0, all.len() as int) =~= all);
        }
    }

    /// One coordinator tick. The caller has already drained the pending
    /// connection announcements from the acceptor; they are registered first,
    /// whatever the instruction says. Then, when `instruction` asks for a
    /// simulation step, the registry is handed to `step` — the simulation
    /// step, an external collaborator — by exchange, and `step` returns the
    /// registry together with the view snapshots it produced, keyed by login
    /// key. Finally the snapshots are fanned out as [`Engine::fan_out`]
    /// does; a tick without a step fans out nothing.
    pub fn tick<F: FnOnce(ConnectionCollection) -> (ConnectionCollection, Vec<(String, ClientView)>)>(
        &mut self,
        instruction: EngineInstruction,
        announcements: Vec<Connection>,
        step: F,
    ) -> (ran: bool)
        requires
            old(self).wf(),
            forall|r: ConnectionCollection| #[trigger] call_requires(step, (r,)),
        ensures
            final(self).wf(),
            ran == spec_should_run(instruction),
            !ran ==> final(self).connections.connections@ == old(self).connections.connections@
                + announcements@ && final(self).connections.pending_keys() == old(
                self,
            ).connections.pending_keys() + connection_keys(announcements@) && final(self).chan_map()
                == channels_after_register(old(self).chan_map(), announcements@),
            ran ==> exists|
                mid: ConnectionCollection,
                out: ConnectionCollection,
                views: Vec<(String, ClientView)>,
            |
                {
                    &&& mid.connections@ == old(self).connections.connections@ + announcements@
                    &&& mid.pending_keys() == old(self).connections.pending_keys()
                        + connection_keys(announcements@)
                    &&& #[trigger] call_ensures(step, (mid,), (out, views))
                    &&& (final(self).chan_map(), final(self).connections.connections@)
                        == fan_result(
                        channels_after_register(old(self).chan_map(), announcements@),
                        out.connections@,
                        views@,
                    )
                    &&& final(self).connections.pending_keys() == out.pending_keys()
                },
    {
        self.process_announcements(announcements);
        let ran = match instruction {
            EngineInstruction::Run { run_dispatcher } => run_dispatcher,
            _ => false,
        };
        if ran {
            let mut registry = ConnectionCollection::new();
            core::mem::swap(&mut registry, &mut self.connections);
            let ghost mid = registry;
            let (registry2, views) = step(registry);
            let ghost out = registry2;
            let ghost passed_views = views;
            self.connections = registry2;
            self.fan_out(views);
            proof {
                assert(call_ensures(step, (mid,), (out, passed_views)));
            }
        }
        ran
    }

    /// The worker side of the model: takes the latest snapshot pending for
    /// `key`, leaving none pending. Snapshots superseded before this poll are
    /// never seen.
    pub fn poll_outbound(&mut self, key: &String) -> (r: Option<ClientView>)
        requires
            old(self).wf(),
        ensures
            final(self).wf(),
            final(self).connections == old(self).connections,
            if old(self).chan_map().contains_key(key@) {
                r == old(self).chan_map()[key@].spec_poll().1 && final(self).chan_map() == old(
                    self,
                ).chan_map().insert(key@, old(self).chan_map()[key@].spec_poll().0)
            } else {
                r is None && final(self).chan_map() == old(self).chan_map()
            },
    {
        let ghost s0 = self.channels@;
        match assoc_find(&self.channels, key) {
            Some(i) => {
                proof {
                    lemma_assoc_map_index(s0, i as int);
                }
                let r = self.channels[i].1.poll();
                proof {
                    lemma_assoc_map_update(s0, i as int, self.channels@[i as int]);
                }
                r
            },
            None => {
                proof {
                    lemma_assoc_map_contains(s0, key@);
                }
                None
            },
        }
    }

    /// The worker side of the model: the worker for `key` terminates and
    /// drops the receiving end of its channel. The coordinator learns of it
    /// only when a later send on that channel fails.
    pub fn close_channel(&mut self, key: &String)
        requires
            old(self).wf(),
        ensures
            final(self).wf(),
            final(self).connections == old(self).connections,
            if old(self).chan_map().contains_key(key@) {
                final(self).chan_map() == old(self).chan_map().insert(
                    key@,
                    (OutboundChannel { pending: None::<ClientView>, disconnected: true }),
                )
            } else {
                final(self).chan_map() == old(self).chan_map()
            },
    {
        let ghost s0 = self.channels@;
        match assoc_find(&self.channels, key) {
            Some(i) => {
                proof {
                    lemma_assoc_map_index(s0, i as int);
                }
                self.channels[i].1.close();
                proof {
                    lemma_assoc_map_update(s0, i as int, self.channels@[i as int]);
                }
            },
            None => {
                proof {
                    lemma_assoc_map_contains(s0, key@);
                }
            },
        }
    }
}

/// Outbound delivery is latest-wins through the coordinator too: three
/// snapshots fanned out for one key before its worker polls leave exactly the
/// third pending on that key's channel, the earlier two superseded, and the
/// live list untouched.
pub proof fn lemma_fan_out_latest_wins(
    chans: Map<Seq<char>, OutboundChannel>,
    live: Seq<Connection>,
    k: String,
    v1: ClientView,
    v2: ClientView,
    v3: ClientView,
)
    requires
        chans.contains_key(k@),
        !chans[k@].disconnected,
    ensures
        ({
            let r = fan_result(chans, live, seq![(k, v1), (k, v2), (k, v3)]);
            &&& r.0[k@].pending == Some(v3)
            &&& r.1 == live
        }),
{
    let vs = seq![(k, v1), (k, v2), (k, v3)];
    assert(vs.drop_last() =~= seq![(k, v1), (k, v2)]);
    assert(vs.drop_last().drop_last() =~= seq![(k, v1)]);
    assert(vs.drop_last().drop_last().drop_last() =~= Seq::<(String, ClientView)>::empty());
    reveal_with_fuel(fan_result, 5);
}

} // verus!