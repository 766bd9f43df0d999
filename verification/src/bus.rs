//! The bus handle: the surface one client process uses to register its
//! methods, signals and states, and to ask the hub for peer sessions.

use vstd::prelude::*;
use crate::errors::BusError;
use crate::messages::{Message, MessageBody, Response, BodyView, ResponseView, Payload};
use crate::registry::{ServiceRegistry, MethodEntry};

verus! {

/// One client's handle on the bus: its registered name, its service
/// registry, and the counter that numbers method handlers. The handler
/// functions themselves live in the surrounding process, keyed by the
/// numbers this handle mints.
pub struct Bus {
    pub service_name: String,
    pub registry: ServiceRegistry,
    pub next_handler: u64,
}

impl Bus {
    /// A handle for a service the hub accepted under `service_name`, with
    /// nothing registered yet.
    pub fn new(service_name: String) -> (b: Bus)
        ensures
            b.service_name == service_name,
            b.registry.methods@.len() == 0,
            b.registry.signals@.len() == 0,
            b.registry.states@.len() == 0,
            b.registry.wf(),
            b.next_handler == 0,
    {
        Bus { service_name, registry: ServiceRegistry::new(), next_handler: 0 }
    }

    /// Register a method and mint the number under which the process must
    /// bind its handler. A name already used by a method is refused with
    /// `AlreadyRegistered` and nothing changes.
    pub fn register_method(&mut self, name: String) -> (r: Result<u64, BusError>)
        requires
            old(self).registry.wf(),
            old(self).next_handler < u64::MAX,
            name@.len() > 0,
        ensures
            final(self).registry.wf(),
            final(self).service_name == old(self).service_name,
            if old(self).registry.spec_has_method(name@) {
                r == Err::<u64, BusError>(BusError::AlreadyRegistered) && *final(self) == *old(
                    self,
                )
            } else {
                &&& r == Ok::<u64, BusError>(old(self).next_handler)
                &&& final(self).registry.methods@ == old(self).registry.methods@.push(
                    MethodEntry { name, handler: old(self).next_handler },
                )
                &&& final(self).registry.signals == old(self).registry.signals
                &&& final(self).registry.states == old(self).registry.states
                &&& final(self).next_handler == old(self).next_handler + 1
            },
    {
        let h = self.next_handler;
        match self.registry.register_method(name, h) {
            Ok(_) => {
                self.next_handler = self.next_handler + 1;
                Ok(h)
            },
            Err(e) => Err(e),
        }
    }

    /// Register a signal; see [`ServiceRegistry::register_signal`].
    pub fn register_signal(&mut self, name: String) -> (r: Result<(), BusError>)
        requires
            old(self).registry.wf(),
            name@.len() > 0,
        ensures
            final(self).registry.wf(),
            final(self).service_name == old(self).service_name,
            final(self).next_handler == old(self).next_handler,
            old(self).registry.spec_has_signal(name@) ==> r == Err::<(), BusError>(
                BusError::AlreadyRegistered,
            ) && *final(self) == *old(self),
            !old(self).registry.spec_has_signal(name@) ==> {
                &&& r matches Ok(v)
                &&& final(self).registry.spec_has_signal(name@)
            },
    {
        self.registry.register_signal(name)
    }

    /// Register a state with its initial cached value; see
    /// [`ServiceRegistry::register_state`].
    pub fn register_state(&mut self, name: String, initial: Payload) -> (r: Result<
        (),
        BusError,
    >)
        requires
            old(self).registry.wf(),
            name@.len() > 0,
        ensures
            final(self).registry.wf(),
            final(self).service_name == old(self).service_name,
            final(self).next_handler == old(self).next_handler,
            old(self).registry.spec_has_state(name@) ==> r == Err::<(), BusError>(
                BusError::AlreadyRegistered,
            ) && *final(self) == *old(self),
            !old(self).registry.spec_has_state(name@) ==> {
                &&& r matches Ok(v)
                &&& final(self).registry.spec_has_state(name@)
                &&& final(self).registry.spec_state_value(name@) == initial@
            },
    {
        let ghost pre = *self;
        let ghost n = name@;
        let r = self.registry.register_state(name, initial);
        proof {
            if !pre.registry.spec_has_state(n) {
                let len = pre.registry.states@.len() as int;
                assert(self.registry.states@[len].name@ == n);
                assert(self.registry.spec_has_state(n));
                assert(self.registry.spec_state_index(n) == len) by {
                    let i = self.registry.spec_state_index(n);
                    assert(0 <= i < self.registry.states@.len() && self.registry.states@[i].name@
                        == n);
                    if i < len {
                        assert(self.registry.states@[i] == pre.registry.states@[i]);
                        assert(pre.registry.spec_has_state(n));
                    }
                }
            }
        }
        r
    }

    /// The `Register` handshake frame this client opens its hub stream
    /// with.
    pub fn register_request(&self, seq: u64) -> (m: Message)
        ensures
            m@.seq == seq,
            m@.body == BodyView::Register(self.service_name@),
    {
        Message::new_register(seq, self.service_name.clone())
    }

    /// The `Connect` frame asking the hub for an introduction to `target`.
    pub fn connect_request(&self, target: &String, seq: u64) -> (m: Message)
        ensures
            m@.seq == seq,
            m@.body == BodyView::Connect(target@),
    {
        Message::new_connect(seq, target.clone())
    }
}

/// What the hub's answer to a `Register` handshake means: `Success`
/// accepts the name; an `Error` — `NameTaken`, `ServiceNotAllowed` — is
/// handed through exactly; any other body breaks the exchange.
pub fn register_response(msg: &Message) -> (r: Result<(), BusError>)
    ensures
        match msg@.body {
            BodyView::Response(ResponseView::Success) => r matches Ok(v),
            BodyView::Response(ResponseView::Error(e)) => r == Err::<(), BusError>(e),
            _ => r == Err::<(), BusError>(BusError::InvalidMessage),
        },
{
    match msg.body() {
        MessageBody::Response(Response::Success) => Ok(()),
        MessageBody::Response(Response::Error(e)) => Err(*e),
        _ => Err(BusError::InvalidMessage),
    }
}

/// What the hub's answer to a `Connect` means: `Success` says the
/// introduction was made and this client's half of the socket pair rides
/// along out of band; an `Error` — `ServiceNotFound`, `PermissionDenied`
/// — is handed through exactly; any other body breaks the exchange.
pub fn connect_response(msg: &Message) -> (r: Result<(), BusError>)
    ensures
        match msg@.body {
            BodyView::Response(ResponseView::Success) => r matches Ok(v),
            BodyView::Response(ResponseView::Error(e)) => r == Err::<(), BusError>(e),
            _ => r == Err::<(), BusError>(BusError::InvalidMessage),
        },
{
    match msg.body() {
        MessageBody::Response(Response::Success) => Ok(()),
        MessageBody::Response(Response::Error(e)) => Err(*e),
        _ => Err(BusError::InvalidMessage),
    }
}

} // verus!
