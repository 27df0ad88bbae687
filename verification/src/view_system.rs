//! Assigning each connected player its view snapshot.

use crate::connection::{key_views, ClientView, Connection, ConnectionCollection};
use vstd::prelude::*;

verus! {

/// Builds the per-player view map each tick: every live connection — or,
/// when a filter is set, every live connection the filter names — is assigned
/// this tick's view. Camera-based per-player views are not offered.
pub struct ViewSystem {
    use_cameras: bool,
    filter: Vec<String>,
}

impl ViewSystem {
    /// Whether camera-based views were requested.
    pub closed spec fn spec_use_cameras(self) -> bool {
        self.use_cameras
    }

    /// The keys the filter names.
    pub closed spec fn spec_filter(self) -> Seq<Seq<char>> {
        key_views(self.filter@)
    }

    /// Whether a view is sent to the player with key `k`: always, when no
    /// filter is set; otherwise only when the filter names `k`.
    pub open spec fn sends_to(self, k: Seq<char>) -> bool {
        self.spec_filter().len() == 0 || self.spec_filter().contains(k)
    }

    /// The connections among `cs` that the system sends views to, in order.
    pub open spec fn recipients(self, cs: Seq<Connection>) -> Seq<Connection>
        decreases cs.len(),
    {
        if cs.len() == 0 {
            Seq::empty()
        } else if self.sends_to(cs.last().key@) {
            self.recipients(cs.drop_last()).push(cs.last())
        } else {
            self.recipients(cs.drop_last())
        }
    }

    pub fn new(use_cameras: bool, filter: Option<Vec<String>>) -> (r: Self)
        ensures
            r.spec_use_cameras() == use_cameras,
            match filter {
                Some(f) => r.spec_filter() == key_views(f@),
                None => r.spec_filter() == Seq::<Seq<char>>::empty(),
            },
    {
        let r = ViewSystem {
            use_cameras,
            filter: match filter {
                Some(f) => f,
                None => Vec::new(),
            },
        };
        proof {
            if filter is None {
                assert(r.spec_filter() =~= Seq::<Seq<char>>::empty());
            }
        }
        r
    }

    /// Whether the filter names `key`.
    fn filter_names(&self, key: &String) -> (r: bool)
        ensures
            r == self.spec_filter().contains(key@),
    {
        let mut i: usize = 0;
        while i < self.filter.len()
            invariant
                i <= self.filter@.len(),
                forall|j: int| 0 <= j < i ==> self.filter@[j]@ != key@,
            decreases self.filter@.len() - i,
        {
            if self.filter[i] == *key {
                proof {
                    assert(self.spec_filter()[i as int] == key@);
                }
                return true;
            }
            i += 1;
        }
        proof {
            assert forall|j: int| 0 <= j < self.spec_filter().len() implies self.spec_filter()[j]
                != key@ by {
                assert(self.spec_filter()[j] == self.filter@[j]@);
            }
        }
        false
    }

    /// Assigns this tick's view to every live connection the system sends to:
    /// one `(key, view)` pair per recipient, in registry order, each carrying
    /// a fresh copy of `view`.
    pub fn run_views(&self, connections: &ConnectionCollection, view: &ClientView) -> (out: Vec<
        (String, ClientView),
    >)
        requires
            !self.spec_use_cameras(),
        ensures
            out@.len() == self.recipients(connections.connections@).len(),
            forall|t: int|
                0 <= t < out@.len() ==> {
                    &&& (#[trigger] out@[t]).0 == self.recipients(connections.connections@)[t].key
                    &&& out@[t].1.sprites@ == view.sprites@
                    &&& out@[t].1.loc@ == view.loc@
                },
    {
        let ghost cs = connections.connections@;
        let mut out: Vec<(String, ClientView)> = Vec::new();
        let mut i: usize = 0;
        proof {
            assert(cs.subrange(0, 0) =~= Seq::<Connection>::empty());
        }
        while i < connections.connections.len()
            invariant
                i <= cs.len(),
                connections.connections@ == cs,
                out@.len() == self.recipients(cs.subrange(0, i as int)).len(),
                forall|t: int|
                    0 <= t < out@.len() ==> {
                        &&& (#[trigger] out@[t]).0 == self.recipients(cs.subrange(0, i as int))[t].key
                        &&& out@[t].1.sprites@ == view.sprites@
                        &&& out@[t].1.loc@ == view.loc@
                    },
            decreases cs.len() - i,
        {
            let ghost prefix = cs.subrange(0, i as int);
            proof {
                assert(cs.subrange(0, i + 1).drop_last() =~= prefix);
                assert(cs.subrange(0, i + 1).last() == cs[i as int]);
            }
            let c = &connections.connections[i];
            let send = if self.filter.len() == 0 {
                true
            } else {
                self.filter_names(&c.key)
            };
            proof {
                assert(self.spec_filter().len() == self.filter@.len());
                assert(send == self.sends_to(c.key@));
            }
            if send {
                out.push((c.key.clone(), view.duplicate()));
            }
            i += 1;
        }
        proof {
            assert(cs.subrange(0, cs.len() as int) =~= cs);
        }
        out
    }
}

} // verus!
