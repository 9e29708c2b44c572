//! Messages shared by every component: ping, identity handshake, and the
//! generic acknowledgement.

use vstd::prelude::*;

verus! {

/// A liveness probe. The reply to a `Ping` is a `Pong` stamped with the
/// responder's worker id.
#[derive(Debug, Clone, Copy, PartialEq, Eq, Structural)]
pub enum Ping {
    Ping,
    Pong,
}

/// The identity handshake sent by both sides when a connection opens:
/// a worker names its worker id, a client connection its connection id.
#[derive(Debug, Clone, Copy, PartialEq, Eq, Structural)]
pub enum Identify {
    Worker { id: u128 },
    Connection { id: u128 },
}

/// A generic acknowledgement for requests that carry no further data.
#[derive(Debug, Clone, Copy, PartialEq, Eq, Structural)]
pub enum GenericResponse {
    Okay,
}

} // verus!
