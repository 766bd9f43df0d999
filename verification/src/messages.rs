//! The message model: the envelope every frame carries, the request and
//! response bodies, and the constructors that assign correlation ids.

use vstd::prelude::*;
use crate::errors::BusError;

verus! {

/// An opaque serialized payload, carried through the bus untouched.
pub type Payload = Vec<u8>;

/// The mathematical value of a [`Response`]: payloads as byte sequences,
/// names as character sequences.
pub enum ResponseView {
    Success,
    Return(Seq<u8>),
    Signal(Seq<u8>),
    StateChanged(Seq<u8>),
    Error(BusError),
    Shutdown(Seq<char>),
}

/// The mathematical value of a [`MessageBody`].
pub enum BodyView {
    Register(Seq<char>),
    Connect(Seq<char>),
    MethodCall(Seq<char>, Seq<char>, Seq<u8>),
    Subscribe(Seq<char>),
    Watch(Seq<char>),
    Response(ResponseView),
}

/// The mathematical value of a [`Message`].
pub struct MessageView {
    pub seq: u64,
    pub body: BodyView,
}

/// A response body, sent under the `seq` of the request it answers, or —
/// for signal and state pushes — under the `seq` of the subscription.
#[derive(Clone, Debug)]
pub enum Response {
    /// Generic success.
    Success,
    /// The result of a method call.
    Return(Payload),
    /// A signal emission pushed to a subscriber.
    Signal(Payload),
    /// A state update pushed to a watcher; also the initial value answering
    /// a `Watch`.
    StateChanged(Payload),
    /// A typed failure.
    Error(BusError),
    /// The named peer announces graceful teardown.
    Shutdown(String),
}

/// A request or response body.
#[derive(Clone, Debug)]
pub enum MessageBody {
    /// Client → hub handshake under the given service name.
    Register(String),
    /// Client → hub request to be introduced to the named service.
    Connect(String),
    /// Peer → peer method call: target service, method name, parameters.
    MethodCall(String, String, Payload),
    /// Peer → peer subscription to the named signal.
    Subscribe(String),
    /// Peer → peer watch of the named state.
    Watch(String),
    /// Any response.
    Response(Response),
}

impl View for Response {
    type V = ResponseView;

    open spec fn view(&self) -> ResponseView {
        match self {
            Response::Success => ResponseView::Success,
            Response::Return(p) => ResponseView::Return(p@),
            Response::Signal(p) => ResponseView::Signal(p@),
            Response::StateChanged(p) => ResponseView::StateChanged(p@),
            Response::Error(e) => ResponseView::Error(*e),
            Response::Shutdown(s) => ResponseView::Shutdown(s@),
        }
    }
}

impl View for MessageBody {
    type V = BodyView;

    open spec fn view(&self) -> BodyView {
        match self {
            MessageBody::Register(s) => BodyView::Register(s@),
            MessageBody::Connect(s) => BodyView::Connect(s@),
            MessageBody::MethodCall(t, m, p) => BodyView::MethodCall(t@, m@, p@),
            MessageBody::Subscribe(s) => BodyView::Subscribe(s@),
            MessageBody::Watch(s) => BodyView::Watch(s@),
            MessageBody::Response(r) => BodyView::Response(r@),
        }
    }
}

impl View for Message {
    type V = MessageView;

    open spec fn view(&self) -> MessageView {
        MessageView { seq: self.seq, body: self.body@ }
    }
}

/// The envelope on the wire: a correlation id and a body.
///
/// `seq` is assigned by the originating side from a per-session monotonic
/// counter; responses echo the request's `seq` verbatim.
#[derive(Clone, Debug)]
pub struct Message {
    pub seq: u64,
    pub body: MessageBody,
}

impl Message {
    /// The mathematical value of this envelope.
    pub open spec fn spec_seq(self) -> u64 {
        self.seq
    }

    /// The body of this envelope.
    pub open spec fn spec_body(self) -> MessageBody {
        self.body
    }

    /// Build an envelope from its parts.
    pub fn new(seq: u64, body: MessageBody) -> (m: Message)
        ensures
            m.spec_seq() == seq,
            m.spec_body() == body,
    {
        Message { seq, body }
    }

    /// The correlation id of this frame.
    pub fn seq(&self) -> (s: u64)
        ensures
            s == self.spec_seq(),
    {
        self.seq
    }

    /// The body of this frame.
    pub fn body(&self) -> (b: &MessageBody)
        ensures
            *b == self.spec_body(),
    {
        &self.body
    }

    /// Retag this frame with a subscription's correlation id, leaving the
    /// body as it was. The pump uses this to forward a broadcast emission
    /// to one subscriber under that subscriber's `seq`.
    pub fn update_seq(&mut self, seq: u64)
        ensures
            final(self).spec_seq() == seq,
            final(self).spec_body() == old(self).spec_body(),
    {
        self.seq = seq;
    }

    /// A method call addressed to `target`, under a caller-chosen `seq`.
    pub fn new_call(seq: u64, target: String, method: String, params: Payload) -> (m: Message)
        ensures
            m.spec_seq() == seq,
            m.spec_body() == MessageBody::MethodCall(target, method, params),
    {
        Message { seq, body: MessageBody::MethodCall(target, method, params) }
    }

    /// A subscription to the named signal, under a caller-chosen `seq`.
    pub fn new_subscription(seq: u64, signal_name: String) -> (m: Message)
        ensures
            m.spec_seq() == seq,
            m.spec_body() == MessageBody::Subscribe(signal_name),
    {
        Message { seq, body: MessageBody::Subscribe(signal_name) }
    }

    /// A watch of the named state, under a caller-chosen `seq`.
    pub fn new_watch(seq: u64, state_name: String) -> (m: Message)
        ensures
            m.spec_seq() == seq,
            m.spec_body() == MessageBody::Watch(state_name),
    {
        Message { seq, body: MessageBody::Watch(state_name) }
    }

    /// A `Register` handshake frame.
    pub fn new_register(seq: u64, service_name: String) -> (m: Message)
        ensures
            m.spec_seq() == seq,
            m.spec_body() == MessageBody::Register(service_name),
    {
        Message { seq, body: MessageBody::Register(service_name) }
    }

    /// A `Connect` introduction request.
    pub fn new_connect(seq: u64, target_service: String) -> (m: Message)
        ensures
            m.spec_seq() == seq,
            m.spec_body() == MessageBody::Connect(target_service),
    {
        Message { seq, body: MessageBody::Connect(target_service) }
    }

    /// A successful method-call response, echoing the request's `seq`.
    pub fn new_return(seq: u64, result: Payload) -> (m: Message)
        ensures
            m.spec_seq() == seq,
            m.spec_body() == MessageBody::Response(Response::Return(result)),
    {
        Message { seq, body: MessageBody::Response(Response::Return(result)) }
    }

    /// A generic success response, echoing the request's `seq`.
    pub fn new_success(seq: u64) -> (m: Message)
        ensures
            m.spec_seq() == seq,
            m.spec_body() == MessageBody::Response(Response::Success),
    {
        Message { seq, body: MessageBody::Response(Response::Success) }
    }
}

/// Lift an error kind into a `Response::Error` frame under a given `seq`.
/// The pump uses this to reply on the correlation id of a request whose
/// dispatch failed.
pub fn into_message(err: BusError, seq: u64) -> (m: Message)
    ensures
        m.spec_seq() == seq,
        m.spec_body() == MessageBody::Response(Response::Error(err)),
{
    Message { seq, body: MessageBody::Response(Response::Error(err)) }
}

} // verus!
