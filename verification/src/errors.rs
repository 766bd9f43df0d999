//! Error kinds carried in `Response::Error` frames and returned by every
//! fallible operation of the bus.

use vstd::prelude::*;

verus! {

/// Every way a bus operation can fail, as seen by a client.
///
/// The first group is reported by the hub, the second by a peer's service
/// registry, the third by the framing and typing layers, and the last two
/// by the session itself.
#[derive(Clone, Copy, PartialEq, Eq, Structural, Debug)]
pub enum BusError {
    /// `Connect` named a service the hub does not know.
    ServiceNotFound,
    /// `Register` named a service that is already registered.
    NameTaken,
    /// `Register` was refused by the service's policy file.
    ServiceNotAllowed,
    /// `Connect` was refused by the target's allow-list.
    PermissionDenied,
    /// A method call named an unregistered method.
    MethodNotFound,
    /// A subscription named an unregistered signal.
    SignalNotFound,
    /// A watch named an unregistered state.
    StateNotFound,
    /// A second registration under a name already in use in its category.
    AlreadyRegistered,
    /// A frame whose body does not fit the exchange it arrived in.
    InvalidMessage,
    /// A response payload that could not be decoded as the expected type.
    InvalidResponse,
    /// A frame that breaks the wire format.
    ProtocolViolation,
    /// The session ended before a response arrived.
    Disconnected,
    /// A fault in the dispatcher or the pump; details are not surfaced.
    Internal,
}

impl BusError {
    /// The single byte that stands for this kind on the wire.
    pub open spec fn spec_code(self) -> u8 {
        match self {
            BusError::ServiceNotFound => 0,
            BusError::NameTaken => 1,
            BusError::ServiceNotAllowed => 2,
            BusError::PermissionDenied => 3,
            BusError::MethodNotFound => 4,
            BusError::SignalNotFound => 5,
            BusError::StateNotFound => 6,
            BusError::AlreadyRegistered => 7,
            BusError::InvalidMessage => 8,
            BusError::InvalidResponse => 9,
            BusError::ProtocolViolation => 10,
            BusError::Disconnected => 11,
            BusError::Internal => 12,
        }
    }

    /// Encode this kind as its wire byte.
    pub fn code(&self) -> (c: u8)
        ensures
            c == self.spec_code(),
    {
        match self {
            BusError::ServiceNotFound => 0,
            BusError::NameTaken => 1,
            BusError::ServiceNotAllowed => 2,
            BusError::PermissionDenied => 3,
            BusError::MethodNotFound => 4,
            BusError::SignalNotFound => 5,
            BusError::StateNotFound => 6,
            BusError::AlreadyRegistered => 7,
            BusError::InvalidMessage => 8,
            BusError::InvalidResponse => 9,
            BusError::ProtocolViolation => 10,
            BusError::Disconnected => 11,
            BusError::Internal => 12,
        }
    }

    /// The kind a wire byte stands for, if any.
    pub open spec fn spec_from_code(c: u8) -> Option<BusError> {
        if c == 0 {
            Some(BusError::ServiceNotFound)
        } else if c == 1 {
            Some(BusError::NameTaken)
        } else if c == 2 {
            Some(BusError::ServiceNotAllowed)
        } else if c == 3 {
            Some(BusError::PermissionDenied)
        } else if c == 4 {
            Some(BusError::MethodNotFound)
        } else if c == 5 {
            Some(BusError::SignalNotFound)
        } else if c == 6 {
            Some(BusError::StateNotFound)
        } else if c == 7 {
            Some(BusError::AlreadyRegistered)
        } else if c == 8 {
            Some(BusError::InvalidMessage)
        } else if c == 9 {
            Some(BusError::InvalidResponse)
        } else if c == 10 {
            Some(BusError::ProtocolViolation)
        } else if c == 11 {
            Some(BusError::Disconnected)
        } else if c == 12 {
            Some(BusError::Internal)
        } else {
            None
        }
    }

    /// Decode a wire byte back into a kind; bytes outside the table are
    /// refused.
    pub fn from_code(c: u8) -> (r: Option<BusError>)
        ensures
            r == BusError::spec_from_code(c),
            match r {
                Some(e) => e.spec_code() == c,
                None => forall|e: BusError| e.spec_code() != c,
            },
    {
        match c {
            0 => Some(BusError::ServiceNotFound),
            1 => Some(BusError::NameTaken),
            2 => Some(BusError::ServiceNotAllowed),
            3 => Some(BusError::PermissionDenied),
            4 => Some(BusError::MethodNotFound),
            5 => Some(BusError::SignalNotFound),
            6 => Some(BusError::StateNotFound),
            7 => Some(BusError::AlreadyRegistered),
            8 => Some(BusError::InvalidMessage),
            9 => Some(BusError::InvalidResponse),
            10 => Some(BusError::ProtocolViolation),
            11 => Some(BusError::Disconnected),
            12 => Some(BusError::Internal),
            _ => None,
        }
    }

    /// A short human-readable name for the kind.
    pub fn describe(&self) -> (s: &'static str)
        ensures
            s@.len() > 0,
    {
        let s = match self {
            BusError::ServiceNotFound => "service not found",
            BusError::NameTaken => "name taken",
            BusError::ServiceNotAllowed => "service not allowed",
            BusError::PermissionDenied => "permission denied",
            BusError::MethodNotFound => "method not found",
            BusError::SignalNotFound => "signal not found",
            BusError::StateNotFound => "state not found",
            BusError::AlreadyRegistered => "already registered",
            BusError::InvalidMessage => "invalid message",
            BusError::InvalidResponse => "invalid response",
            BusError::ProtocolViolation => "protocol violation",
            BusError::Disconnected => "disconnected",
            BusError::Internal => "internal error",
        };
        proof {
            reveal_strlit("service not found");
            reveal_strlit("name taken");
            reveal_strlit("service not allowed");
            reveal_strlit("permission denied");
            reveal_strlit("method not found");
            reveal_strlit("signal not found");
            reveal_strlit("state not found");
            reveal_strlit("already registered");
            reveal_strlit("invalid message");
            reveal_strlit("invalid response");
            reveal_strlit("protocol violation");
            reveal_strlit("disconnected");
            reveal_strlit("internal error");
        }
        s
    }

    /// Round trip: the wire byte of a kind decodes back to the same kind.
    pub proof fn lemma_code_round_trip(e: BusError)
        ensures
            BusError::spec_from_code(e.spec_code()) == Some(e),
            forall|f: BusError| f.spec_code() == e.spec_code() ==> f == e,
    {
    }
}

} // verus!
