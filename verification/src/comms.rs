//! Errors of the channel and connection plumbing that carries messages.
//! The channels themselves live with the runtime around the library.

use vstd::prelude::*;

verus! {

/// Errors of the bidirectional typed channel.
#[derive(Debug, Clone, PartialEq, Eq)]
pub enum PipeError {
    TimedOutWaitingForMessageToSend,
}

/// Errors of the inbound connection pool.
#[derive(Debug, Clone, PartialEq, Eq)]
pub enum MessengerError {
    ConnectionResetByPeer,
    BufferReachedMaxSize,
    TimedOutWaitingForConnectionsToClose,
}

/// Errors of the message router.
#[derive(Debug, Clone, PartialEq, Eq)]
pub enum MessageRouterError {
    TimedOutWaitingForConnectionsToClose,
    RoutingRuleNotImplementedForMessage,
}

/// Errors of the query data handler.
#[derive(Debug, Clone, PartialEq, Eq)]
pub enum QueryDataHandlerError {
    QueryFileDoesNotExist,
}

/// A reader task closes the connection once more than this many bytes sit
/// unparsed in its buffer.
pub const MAX_READ_BUFFER_BYTES: u64 = 10 * 1024 * 1024;

} // verus!
