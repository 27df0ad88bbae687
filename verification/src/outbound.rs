//! Outbound view-snapshot channels with latest-wins delivery.

use crate::connection::ClientView;
use vstd::prelude::*;

verus! {

/// The outbound channel of one live connection. The tick coordinator holds
/// the sending side, the connection's worker the receiving side. At most one
/// not-yet-delivered snapshot is pending at any instant: a newer snapshot
/// supersedes an undelivered older one and is never queued behind it.
///
/// There is no explicit close message: the worker's disappearance is observed
/// by the coordinator only as a failed send.
pub struct OutboundChannel {
    /// The latest snapshot sent and not yet polled, if any.
    pub pending: Option<ClientView>,
    /// Whether the receiving end is gone, i.e. the worker has terminated.
    pub disconnected: bool,
}

impl View for OutboundChannel {
    type V = OutboundChannel;

    open spec fn view(&self) -> OutboundChannel {
        *self
    }
}

impl OutboundChannel {
    /// The channel after a send: on an open channel the snapshot replaces
    /// whatever was pending; on a disconnected channel nothing changes.
    pub open spec fn spec_send(self, v: ClientView) -> OutboundChannel {
        if self.disconnected {
            self
        } else {
            OutboundChannel { pending: Some(v), disconnected: false }
        }
    }

    /// The channel after a poll, and what the poll hands over.
    pub open spec fn spec_poll(self) -> (OutboundChannel, Option<ClientView>) {
        (OutboundChannel { pending: None, disconnected: self.disconnected }, self.pending)
    }

    pub fn new() -> (r: Self)
        ensures
            r == (OutboundChannel { pending: None::<ClientView>, disconnected: false }),
    {
        OutboundChannel { pending: None, disconnected: false }
    }

    /// Coordinator side: offers `v` for delivery, superseding any undelivered
    /// snapshot. Returns whether the receiving end was still there; sending
    /// on a disconnected channel changes nothing and reports failure.
    pub fn send(&mut self, v: ClientView) -> (ok: bool)
        ensures
            ok == !old(self).disconnected,
            *final(self) == old(self).spec_send(v),
    {
        if self.disconnected {
            false
        } else {
            self.pending = Some(v);
            true
        }
    }

    /// Worker side: takes the latest pending snapshot, leaving none pending.
    pub fn poll(&mut self) -> (r: Option<ClientView>)
        ensures
            r == old(self).spec_poll().1,
            *final(self) == old(self).spec_poll().0,
    {
        let mut r = None;
        core::mem::swap(&mut r, &mut self.pending);
        r
    }

    /// Worker side: drops the receiving end. A pending undelivered snapshot
    /// is discarded with it; later sends will fail.
    pub fn close(&mut self)
        ensures
            *final(self) == (OutboundChannel { pending: None::<ClientView>, disconnected: true }),
    {
        self.pending = None;
        self.disconnected = true;
    }

    pub fn is_disconnected(&self) -> (r: bool)
        ensures
            r == self.disconnected,
    {
        self.disconnected
    }
}

/// Outbound delivery is latest-wins: of several snapshots sent on an open
/// channel before the worker polls, the poll hands over only the last one —
/// here three sends, of which the third alone is delivered.
pub proof fn lemma_latest_wins(c: OutboundChannel, v1: ClientView, v2: ClientView, v3: ClientView)
    requires
        !c.disconnected,
    ensures
        c.spec_send(v1).spec_send(v2).spec_send(v3).spec_poll().1 == Some(v3),
{
}

/// Of a backlog of snapshots received in order, the one the worker relays to
/// its socket: the most recently enqueued. The older ones are discarded
/// unsent.
pub fn latest_view(views: Vec<ClientView>) -> (r: Option<ClientView>)
    ensures
        views@.len() == 0 ==> r is None,
        views@.len() > 0 ==> r == Some(views@.last()),
{
    let mut backlog = views;
    backlog.pop()
}

} // verus!
