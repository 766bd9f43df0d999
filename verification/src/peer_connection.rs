//! The peer session: bookkeeping for one direct connection between two
//! services.
//!
//! A session owns one duplex stream and one cooperative pump. The pump's
//! decisions live here as verified transition functions over an explicit
//! session value: which `seq` a fresh request gets, which pending slot an
//! inbound frame belongs to, what a client may conclude from a response
//! frame, and what happens to every pending slot when the session closes.
//! The transport around the pump performs the reads, writes and channel
//! sends these decisions call for.

use vstd::prelude::*;
use crate::errors::BusError;
use crate::messages::{Message, MessageBody, Response, BodyView, ResponseView, Payload};

verus! {

/// What a pending `seq` is waiting for.
///
/// A call slot takes exactly one response and is then closed; a
/// subscription slot stays open for pushes until the session ends or the
/// subscription is cancelled.
#[derive(Clone, Copy, Debug)]
pub enum SlotKind {
    Call,
    Subscription,
}

/// One entry of the pending-call table.
#[derive(Clone, Copy, Debug)]
pub struct PendingEntry {
    pub seq: u64,
    pub kind: SlotKind,
}

/// The session lifecycle.
#[derive(Clone, Copy, PartialEq, Eq, Structural, Debug)]
pub enum Phase {
    /// Created; the first exchange of service names has not completed.
    Handshaking,
    /// Normal traffic.
    Running,
    /// Teardown was requested; pending slots may still complete.
    Draining,
    /// Terminal. Every pending slot has been completed with `Disconnected`.
    Closed,
}

/// What the pump must do with an inbound frame.
#[derive(Clone, Copy, PartialEq, Eq, Structural, Debug)]
pub enum InboundAction {
    /// Deliver the frame into the call slot with this `seq`; the slot is
    /// now closed.
    DeliverCall(u64),
    /// Deliver the frame into the subscription slot with this `seq`; the
    /// slot stays open.
    DeliverPush(u64),
    /// No slot claims the frame: it is a peer-initiated request for the
    /// local dispatcher, to be answered under the incoming `seq`.
    Dispatch,
}

/// The state of one peer session: both endpoint names, the monotonic
/// counter that mints correlation ids, the pending-call table, and the
/// lifecycle phase.
pub struct PeerConnection {
    pub service_name: String,
    pub peer_service_name: String,
    pub next_seq: u64,
    pub pending: Vec<PendingEntry>,
    pub phase: Phase,
}

impl PeerConnection {
    /// Some slot is pending under `s`.
    pub open spec fn spec_has_pending(self, s: u64) -> bool {
        exists|i: int| 0 <= i < self.pending@.len() && self.pending@[i].seq == s
    }

    /// A call slot is pending under `s`.
    pub open spec fn spec_has_pending_call(self, s: u64) -> bool {
        exists|i: int|
            0 <= i < self.pending@.len() && self.pending@[i].seq == s && self.pending@[i].kind
                is Call
    }

    /// A subscription slot is pending under `s`.
    pub open spec fn spec_has_pending_sub(self, s: u64) -> bool {
        exists|i: int|
            0 <= i < self.pending@.len() && self.pending@[i].seq == s && self.pending@[i].kind
                is Subscription
    }

    /// The pending correlation ids, in table order.
    pub open spec fn spec_pending_seqs(self) -> Seq<u64> {
        self.pending@.map_values(|e: PendingEntry| e.seq)
    }

    /// Well-formed session: every pending `seq` was minted by this session's
    /// counter, and no `seq` has two slots — each correlation id has exactly
    /// one interpretation for the session's lifetime.
    pub open spec fn wf(self) -> bool {
        &&& forall|i: int| 0 <= i < self.pending@.len() ==> self.pending@[i].seq < self.next_seq
        &&& forall|i: int, j: int|
            0 <= i < self.pending@.len() && 0 <= j < self.pending@.len() && i != j
                ==> self.pending@[i].seq != self.pending@[j].seq
    }

    /// A fresh session between the two named services, with no traffic yet.
    pub fn new(service_name: String, peer_service_name: String) -> (c: PeerConnection)
        ensures
            c.service_name == service_name,
            c.peer_service_name == peer_service_name,
            c.next_seq == 0,
            c.pending@.len() == 0,
            c.phase == Phase::Handshaking,
            c.wf(),
    {
        PeerConnection {
            service_name,
            peer_service_name,
            next_seq: 0,
            pending: Vec::new(),
            phase: Phase::Handshaking,
        }
    }

    /// The first exchange of service names succeeded: the session carries
    /// traffic from now on.
    pub fn handshake_complete(&mut self)
        requires
            old(self).phase == Phase::Handshaking,
        ensures
            *final(self) == (PeerConnection { phase: Phase::Running, ..*old(self) }),
    {
        self.phase = Phase::Running;
    }

    /// Mint a fresh correlation id. Ids strictly increase over the life of
    /// the session, so a fresh id never collides with a pending one.
    pub fn fresh_seq(&mut self) -> (s: u64)
        requires
            old(self).wf(),
            old(self).next_seq < u64::MAX,
        ensures
            s == old(self).next_seq,
            *final(self) == (PeerConnection { next_seq: (s + 1) as u64, ..*old(self) }),
            final(self).wf(),
            !old(self).spec_has_pending(s),
    {
        let s = self.next_seq;
        self.next_seq = self.next_seq + 1;
        s
    }

    /// Submit an outgoing method call: mint a `seq`, open a call slot under
    /// it, and build the frame to write. On a session that is not running,
    /// nothing changes and the caller gets `Disconnected`, as it would had
    /// the peer gone away.
    pub fn submit_call(&mut self, method: &String, params: Payload) -> (r: Result<
        Message,
        BusError,
    >)
        requires
            old(self).wf(),
            old(self).next_seq < u64::MAX,
        ensures
            final(self).wf(),
            old(self).phase == Phase::Running ==> {
                &&& r matches Ok(msg)
                &&& msg@.seq == old(self).next_seq
                &&& msg@.body == BodyView::MethodCall(
                    old(self).peer_service_name@,
                    method@,
                    params@,
                )
                &&& final(self).pending@ == old(self).pending@.push(
                    PendingEntry { seq: old(self).next_seq, kind: SlotKind::Call },
                )
                &&& final(self).next_seq == old(self).next_seq + 1
                &&& final(self).phase == old(self).phase
                &&& final(self).service_name == old(self).service_name
                &&& final(self).peer_service_name == old(self).peer_service_name
            },
            old(self).phase != Phase::Running ==> r == Err::<Message, BusError>(
                BusError::Disconnected,
            ) && *final(self) == *old(self),
    {
        if !matches!(self.phase, Phase::Running) {
            return Err(BusError::Disconnected);
        }
        let s = self.fresh_seq();
        self.pending.push(PendingEntry { seq: s, kind: SlotKind::Call });
        let msg = Message::new_call(
            s,
            self.peer_service_name.clone(),
            method.clone(),
            params,
        );
        Ok(msg)
    }

    /// Submit a signal subscription: a subscription slot under a fresh
    /// `seq`, and the `Subscribe` frame to write.
    pub fn submit_subscribe(&mut self, signal_name: &String) -> (r: Result<Message, BusError>)
        requires
            old(self).wf(),
            old(self).next_seq < u64::MAX,
        ensures
            final(self).wf(),
            old(self).phase == Phase::Running ==> {
                &&& r matches Ok(msg)
                &&& msg@.seq == old(self).next_seq
                &&& msg@.body == BodyView::Subscribe(signal_name@)
                &&& final(self).pending@ == old(self).pending@.push(
                    PendingEntry { seq: old(self).next_seq, kind: SlotKind::Subscription },
                )
                &&& final(self).next_seq == old(self).next_seq + 1
                &&& final(self).phase == old(self).phase
                &&& final(self).service_name == old(self).service_name
                &&& final(self).peer_service_name == old(self).peer_service_name
            },
            old(self).phase != Phase::Running ==> r == Err::<Message, BusError>(
                BusError::Disconnected,
            ) && *final(self) == *old(self),
    {
        if !matches!(self.phase, Phase::Running) {
            return Err(BusError::Disconnected);
        }
        let s = self.fresh_seq();
        self.pending.push(PendingEntry { seq: s, kind: SlotKind::Subscription });
        Ok(Message::new_subscription(s, signal_name.clone()))
    }

    /// Submit a state watch: a subscription slot under a fresh `seq`, and
    /// the `Watch` frame to write.
    pub fn submit_watch(&mut self, state_name: &String) -> (r: Result<Message, BusError>)
        requires
            old(self).wf(),
            old(self).next_seq < u64::MAX,
        ensures
            final(self).wf(),
            old(self).phase == Phase::Running ==> {
                &&& r matches Ok(msg)
                &&& msg@.seq == old(self).next_seq
                &&& msg@.body == BodyView::Watch(state_name@)
                &&& final(self).pending@ == old(self).pending@.push(
                    PendingEntry { seq: old(self).next_seq, kind: SlotKind::Subscription },
                )
                &&& final(self).next_seq == old(self).next_seq + 1
                &&& final(self).phase == old(self).phase
                &&& final(self).service_name == old(self).service_name
                &&& final(self).peer_service_name == old(self).peer_service_name
            },
            old(self).phase != Phase::Running ==> r == Err::<Message, BusError>(
                BusError::Disconnected,
            ) && *final(self) == *old(self),
    {
        if !matches!(self.phase, Phase::Running) {
            return Err(BusError::Disconnected);
        }
        let s = self.fresh_seq();
        self.pending.push(PendingEntry { seq: s, kind: SlotKind::Subscription });
        Ok(Message::new_watch(s, state_name.clone()))
    }

    /// One inbound step of the pump for a frame carrying `s`, as a relation
    /// between the session before and after: a pending call slot receives
    /// the frame and closes; a pending subscription slot receives it and
    /// stays; a `seq` no slot claims makes the frame a peer request for the
    /// dispatcher. Everything else about the session is untouched.
    pub open spec fn spec_on_inbound(
        pre: PeerConnection,
        s: u64,
        post: PeerConnection,
        a: InboundAction,
    ) -> bool {
        &&& post.service_name == pre.service_name
        &&& post.peer_service_name == pre.peer_service_name
        &&& post.next_seq == pre.next_seq
        &&& post.phase == pre.phase
        &&& if pre.spec_has_pending_call(s) {
            &&& a == InboundAction::DeliverCall(s)
            &&& !post.spec_has_pending(s)
            &&& post.pending@.len() == pre.pending@.len() - 1
            &&& forall|q: u64|
                q != s ==> post.spec_has_pending_call(q) == pre.spec_has_pending_call(q)
                    && post.spec_has_pending_sub(q) == pre.spec_has_pending_sub(q)
        } else if pre.spec_has_pending_sub(s) {
            &&& a == InboundAction::DeliverPush(s)
            &&& post.pending == pre.pending
        } else {
            &&& a == InboundAction::Dispatch
            &&& post.pending == pre.pending
        }
    }

    /// Route one inbound frame by its `seq`, per [`Self::spec_on_inbound`].
    pub fn on_inbound(&mut self, msg: &Message) -> (a: InboundAction)
        requires
            old(self).wf(),
        ensures
            final(self).wf(),
            PeerConnection::spec_on_inbound(*old(self), msg@.seq, *final(self), a),
    {
        let s = msg.seq();
        let ghost pre = *self;
        let mut i: usize = 0;
        while i < self.pending.len()
            invariant
                pre == *old(self),
                pre.wf(),
                *self == pre,
                s == msg@.seq,
                0 <= i <= self.pending@.len(),
                forall|j: int| 0 <= j < i ==> self.pending@[j].seq != s,
            decreases self.pending@.len() - i,
        {
            if self.pending[i].seq == s {
                match self.pending[i].kind {
                    SlotKind::Call => {
                        proof {
                            assert(pre.spec_has_pending_call(s));
                        }
                        self.pending.remove(i);
                        proof {
                            pre.pending@.remove_ensures(i as int);
                            assert forall|k: int|
                                0 <= k < self.pending@.len() implies self.pending@[k].seq
                                != s by {
                                if k < i {
                                    assert(self.pending@[k] == pre.pending@[k]);
                                } else {
                                    assert(self.pending@[k] == pre.pending@[k + 1]);
                                }
                            }
                            assert(!self.spec_has_pending(s));
                            assert forall|q: u64| q != s implies self.spec_has_pending_call(q)
                                == pre.spec_has_pending_call(q) && self.spec_has_pending_sub(q)
                                == pre.spec_has_pending_sub(q) by {
                                if pre.spec_has_pending_call(q) {
                                    let j = choose|j: int|
                                        0 <= j < pre.pending@.len() && pre.pending@[j].seq == q
                                            && pre.pending@[j].kind is Call;
                                    if j < i {
                                        assert(self.pending@[j] == pre.pending@[j]);
                                    } else {
                                        assert(self.pending@[j - 1] == pre.pending@[j]);
                                    }
                                }
                                if pre.spec_has_pending_sub(q) {
                                    let j = choose|j: int|
                                        0 <= j < pre.pending@.len() && pre.pending@[j].seq == q
                                            && pre.pending@[j].kind is Subscription;
                                    if j < i {
                                        assert(self.pending@[j] == pre.pending@[j]);
                                    } else {
                                        assert(self.pending@[j - 1] == pre.pending@[j]);
                                    }
                                }
                                if self.spec_has_pending_call(q) {
                                    let j = choose|j: int|
                                        0 <= j < self.pending@.len() && self.pending@[j].seq == q
                                            && self.pending@[j].kind is Call;
                                    if j < i {
                                        assert(pre.pending@[j] == self.pending@[j]);
                                    } else {
                                        assert(pre.pending@[j + 1] == self.pending@[j]);
                                    }
                                }
                                if self.spec_has_pending_sub(q) {
                                    let j = choose|j: int|
                                        0 <= j < self.pending@.len() && self.pending@[j].seq == q
                                            && self.pending@[j].kind is Subscription;
                                    if j < i {
                                        assert(pre.pending@[j] == self.pending@[j]);
                                    } else {
                                        assert(pre.pending@[j + 1] == self.pending@[j]);
                                    }
                                }
                            }
                            assert forall|x: int|
                                0 <= x < self.pending@.len() implies self.pending@[x].seq
                                < self.next_seq by {
                                if x < i {
                                    assert(self.pending@[x] == pre.pending@[x]);
                                } else {
                                    assert(self.pending@[x] == pre.pending@[x + 1]);
                                }
                            }
                            assert forall|x: int, y: int|
                                0 <= x < self.pending@.len() && 0 <= y < self.pending@.len() && x
                                    != y implies self.pending@[x].seq != self.pending@[y].seq by {
                                let ox = if x < i {
                                    x
                                } else {
                                    x + 1
                                };
                                let oy = if y < i {
                                    y
                                } else {
                                    y + 1
                                };
                                assert(self.pending@[x] == pre.pending@[ox]);
                                assert(self.pending@[y] == pre.pending@[oy]);
                            }
                        }
                        return InboundAction::DeliverCall(s);
                    },
                    SlotKind::Subscription => {
                        proof {
                            assert(pre.spec_has_pending_sub(s));
                            assert(!pre.spec_has_pending_call(s));
                        }
                        return InboundAction::DeliverPush(s);
                    },
                }
            }
            i = i + 1;
        }
        proof {
            assert(!pre.spec_has_pending(s));
        }
        InboundAction::Dispatch
    }

    /// A teardown request — the local shutdown signal or the peer's
    /// `Shutdown` frame. A closed session stays closed; any other drains.
    pub fn on_shutdown(&mut self)
        ensures
            final(self).phase == (if old(self).phase == Phase::Closed {
                Phase::Closed
            } else {
                Phase::Draining
            }),
            final(self).service_name == old(self).service_name,
            final(self).peer_service_name == old(self).peer_service_name,
            final(self).next_seq == old(self).next_seq,
            final(self).pending == old(self).pending,
            old(self).wf() ==> final(self).wf(),
    {
        if !matches!(self.phase, Phase::Closed) {
            self.phase = Phase::Draining;
        }
    }

    /// Whether draining is complete: no slot is waiting any more.
    pub fn drain_complete(&self) -> (r: bool)
        ensures
            r == (self.pending@.len() == 0),
    {
        self.pending.len() == 0
    }

    /// Terminal teardown, on codec error, drain completion or drop: the
    /// session closes and every pending slot — call or subscription — is
    /// taken out of the table. The returned correlation ids, in table
    /// order, are exactly the slots the pump must now complete with
    /// `Disconnected`.
    pub fn close(&mut self) -> (completed: Vec<u64>)
        ensures
            final(self).phase == Phase::Closed,
            final(self).pending@.len() == 0,
            completed@ == old(self).spec_pending_seqs(),
            final(self).service_name == old(self).service_name,
            final(self).peer_service_name == old(self).peer_service_name,
            final(self).next_seq == old(self).next_seq,
            final(self).wf(),
    {
        let mut completed: Vec<u64> = Vec::new();
        let mut i: usize = 0;
        while i < self.pending.len()
            invariant
                0 <= i <= self.pending@.len(),
                completed@ == self.spec_pending_seqs().take(i as int),
            decreases self.pending@.len() - i,
        {
            completed.push(self.pending[i].seq);
            i = i + 1;
        }
        proof {
            assert(completed@ =~= self.spec_pending_seqs());
        }
        self.pending = Vec::new();
        self.phase = Phase::Closed;
        completed
    }
}

/// What the single response frame to a method call means to the caller:
/// a `Return` yields the result payload, an `Error` is handed through
/// exactly, and any other body breaks the exchange.
pub open spec fn spec_call_result(m: crate::messages::MessageView) -> Result<Seq<u8>, BusError> {
    match m.body {
        BodyView::Response(ResponseView::Return(p)) => Ok(p),
        BodyView::Response(ResponseView::Error(e)) => Err(e),
        _ => Err(BusError::InvalidMessage),
    }
}

/// What a caller may conclude from the single response to a method call,
/// per [`spec_call_result`].
pub fn call_response(msg: &Message) -> (r: Result<Payload, BusError>)
    ensures
        (match r {
            Ok(v) => Ok::<Seq<u8>, BusError>(v@),
            Err(e) => Err(e),
        }) == spec_call_result(msg@),
        match msg@.body {
            BodyView::Response(ResponseView::Return(p)) => r matches Ok(v) && v@ == p,
            BodyView::Response(ResponseView::Error(e)) => r == Err::<Payload, BusError>(e),
            _ => r == Err::<Payload, BusError>(BusError::InvalidMessage),
        },
{
    match msg.body() {
        MessageBody::Response(Response::Return(p)) => Ok(p.clone()),
        MessageBody::Response(Response::Error(e)) => Err(*e),
        _ => Err(BusError::InvalidMessage),
    }
}

/// The first frame answering a subscription or a watch, shared by both:
/// an `Error` ends the attempt with exactly that error; any other body is
/// handed on unchanged for the interpretation specific to the exchange —
/// [`subscription_response`] or [`watch_response`].
pub fn make_subscription_call(response: Message) -> (r: Result<Message, BusError>)
    ensures
        match response@.body {
            BodyView::Response(ResponseView::Error(e)) => r == Err::<Message, BusError>(e),
            _ => r matches Ok(m) && m@ == response@,
        },
{
    match response.body() {
        MessageBody::Response(Response::Error(e)) => Err(*e),
        _ => Ok(response),
    }
}

/// What a subscriber may conclude from the acknowledgement of a
/// `Subscribe`: plain success, an exact error, or a broken exchange.
pub fn subscription_response(msg: &Message) -> (r: Result<(), BusError>)
    ensures
        match msg@.body {
            BodyView::Response(ResponseView::Success) => r matches Ok(v),
            BodyView::Response(ResponseView::Error(e)) => r == Err::<(), BusError>(e),
            _ => r == Err::<(), BusError>(BusError::InvalidMessage),
        },
{
    match msg.body() {
        MessageBody::Response(Response::Success) => Ok(()),
        MessageBody::Response(Response::Error(e)) => Err(*e),
        _ => Err(BusError::InvalidMessage),
    }
}

/// What a watcher may conclude from the response to a `Watch`: the state's
/// current value, an exact error, or a broken exchange.
pub fn watch_response(msg: &Message) -> (r: Result<Payload, BusError>)
    ensures
        match msg@.body {
            BodyView::Response(ResponseView::StateChanged(p)) => r matches Ok(v) && v@ == p,
            BodyView::Response(ResponseView::Error(e)) => r == Err::<Payload, BusError>(e),
            _ => r == Err::<Payload, BusError>(BusError::InvalidMessage),
        },
{
    match msg.body() {
        MessageBody::Response(Response::StateChanged(p)) => Ok(p.clone()),
        MessageBody::Response(Response::Error(e)) => Err(*e),
        _ => Err(BusError::InvalidMessage),
    }
}

/// What the subscription delivery task does with one pushed frame: a
/// `Signal` or `StateChanged` body carries the value for the user
/// callback; anything else is dropped as invalid.
pub fn push_payload(msg: &Message) -> (r: Result<Payload, BusError>)
    ensures
        match msg@.body {
            BodyView::Response(ResponseView::Signal(p)) => r matches Ok(v) && v@ == p,
            BodyView::Response(ResponseView::StateChanged(p)) => r matches Ok(v) && v@ == p,
            _ => r == Err::<Payload, BusError>(BusError::InvalidMessage),
        },
{
    match msg.body() {
        MessageBody::Response(Response::Signal(p)) => Ok(p.clone()),
        MessageBody::Response(Response::StateChanged(p)) => Ok(p.clone()),
        _ => Err(BusError::InvalidMessage),
    }
}

/// Call correlation: a frame with `seq == s` while a call slot is pending
/// under `s` is delivered into exactly that slot, and the slot closes; a
/// second frame under the same `s` is not delivered to any slot — exactly
/// one call observes a given correlation id.
pub proof fn lemma_call_correlation(
    pre: PeerConnection,
    mid: PeerConnection,
    post: PeerConnection,
    a1: InboundAction,
    a2: InboundAction,
    s: u64,
)
    requires
        pre.spec_has_pending_call(s),
        PeerConnection::spec_on_inbound(pre, s, mid, a1),
        PeerConnection::spec_on_inbound(mid, s, post, a2),
    ensures
        a1 == InboundAction::DeliverCall(s),
        a2 == InboundAction::Dispatch,
{
    assert(!mid.spec_has_pending(s));
    assert(!mid.spec_has_pending_call(s));
    assert(!mid.spec_has_pending_sub(s));
}

/// Monotonic `seq`: of two correlation ids minted one after the other by
/// the same session, the second is strictly greater — locally generated
/// ids strictly increase.
pub proof fn lemma_seq_monotonic(
    c0: PeerConnection,
    c1: PeerConnection,
    c2: PeerConnection,
    s1: u64,
    s2: u64,
)
    requires
        s1 == c0.next_seq,
        c1.next_seq == s1 + 1,
        s2 == c1.next_seq,
        c2.next_seq == s2 + 1,
    ensures
        s1 < s2,
{
}

/// Closing completes every outstanding slot: after [`PeerConnection::close`],
/// the table is empty, and every `seq` that was pending — an awaited call
/// or a live subscription — is in the completed list, so each caller gets
/// `Disconnected` and each subscription ends.
pub proof fn lemma_close_completes_all(pre: PeerConnection, completed: Seq<u64>, s: u64)
    requires
        completed == pre.spec_pending_seqs(),
        pre.spec_has_pending(s),
    ensures
        completed.contains(s),
{
    let i = choose|i: int| 0 <= i < pre.pending@.len() && pre.pending@[i].seq == s;
    assert(completed[i] == s);
}

} // verus!
