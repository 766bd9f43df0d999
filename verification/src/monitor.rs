//! Traffic monitoring: orienting each frame that crosses a connection
//! into a report for an attached monitor service.

use vstd::prelude::*;
use crate::messages::Payload;

verus! {

/// Which way a frame crossed the connection being monitored.
#[derive(Clone, Copy, PartialEq, Eq, Structural, Debug)]
pub enum MessageDirection {
    Outgoing,
    Incoming,
}

/// One report for the monitor service: who sent the frame, who received
/// it, the serialized frame itself, and the direction it crossed in.
pub struct MonitorMessage {
    pub sender: String,
    pub receiver: String,
    pub message: Payload,
    pub direction: MessageDirection,
}

/// The monitor hook of one connection: the two endpoint names, and
/// whether a monitor service is currently attached. The live handle to
/// the monitor service stays with the transport; this value decides what
/// — and whether — to report.
pub struct Monitor {
    pub self_name: String,
    pub peer_name: String,
    pub connected: bool,
}

impl Monitor {
    /// A hook for the connection between the two named endpoints, with no
    /// monitor attached yet.
    pub fn new(self_name: String, peer_name: String) -> (m: Monitor)
        ensures
            m.self_name == self_name,
            m.peer_name == peer_name,
            !m.connected,
    {
        Monitor { self_name, peer_name, connected: false }
    }

    /// A monitor service attached: reports flow from now on.
    pub fn set_monitor(&mut self)
        ensures
            *final(self) == (Monitor { connected: true, ..*old(self) }),
    {
        self.connected = true;
    }

    /// Sending a report failed: the monitor is gone, stop reporting until
    /// another attaches.
    pub fn on_send_failure(&mut self)
        ensures
            *final(self) == (Monitor { connected: false, ..*old(self) }),
    {
        self.connected = false;
    }

    /// The report for one frame, if a monitor is attached: an outgoing
    /// frame goes from this endpoint to the peer, an incoming one the
    /// other way round; the frame bytes are carried unchanged.
    pub fn message(&self, frame: &Payload, direction: MessageDirection) -> (r: Option<
        MonitorMessage,
    >)
        ensures
            !self.connected ==> r is None,
            self.connected ==> {
                &&& r matches Some(mm)
                &&& mm.message@ == frame@
                &&& mm.direction == direction
                &&& match direction {
                    MessageDirection::Outgoing => mm.sender@ == self.self_name@ && mm.receiver@
                        == self.peer_name@,
                    MessageDirection::Incoming => mm.sender@ == self.peer_name@ && mm.receiver@
                        == self.self_name@,
                }
            },
    {
        if !self.connected {
            return None;
        }
        let (sender, receiver) = match direction {
            MessageDirection::Outgoing => (self.self_name.clone(), self.peer_name.clone()),
            MessageDirection::Incoming => (self.peer_name.clone(), self.self_name.clone()),
        };
        Some(
            MonitorMessage {
                sender,
                receiver,
                message: vstd::slice::slice_to_vec(frame.as_slice()),
                direction,
            },
        )
    }
}

} // verus!
