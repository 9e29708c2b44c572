//! The operator host's message handling: ping replies and the consumers
//! that filter traffic for operator tasks.

use vstd::prelude::*;
use crate::messages::{common, Message, MessagePayload, PayloadV};
use crate::router::materialize_consumes;

verus! {

#[derive(Debug, Clone, PartialEq, Eq)]
pub enum ProducerOperatorError {
    TimedOutWaitingForTaskToClose,
}

#[derive(Debug, Clone, PartialEq, Eq)]
pub enum MaterializeFilesTaskError {
    RecordPathFormattingReturnedNoneResult,
}

/// Builds materialize-files tasks; the surrounding runtime spawns them.
#[derive(Debug, Clone, PartialEq, Eq)]
pub struct MaterializeFilesTaskBuilder {}

impl MaterializeFilesTaskBuilder {
    pub fn new() -> MaterializeFilesTaskBuilder {
        MaterializeFilesTaskBuilder {  }
    }
}

/// The message filter of a materialize-files task.
#[derive(Debug, Clone, PartialEq, Eq)]
pub struct MaterializeFilesConsumer {}

impl MaterializeFilesConsumer {
    /// Whether the task consumes the message: pongs, instance listings,
    /// and exchange record responses.
    pub fn consumes_message(&self, msg: &Message) -> (r: bool)
        ensures
            r == materialize_consumes(msg@),
    {
        match &msg.msg {
            MessagePayload::Ping(p) => match p {
                common::Ping::Pong => true,
                _ => false,
            },
            MessagePayload::QueryHandlerRequests(p) => match p {
                crate::messages::query::QueryHandlerRequests::ListOperatorInstancesResponse {
                    ..
                } => true,
                _ => false,
            },
            MessagePayload::ExchangeRequests(p) => match p {
                crate::messages::exchange::ExchangeRequests::GetNextRecordResponseRecord {
                    ..
                } => true,
                crate::messages::exchange::ExchangeRequests::GetNextRecordResponseNoneLeft => true,
                crate::messages::exchange::ExchangeRequests::SendRecordResponse { .. } => true,
                _ => false,
            },
            _ => false,
        }
    }
}

/// Answers a `Ping` with a `Pong` stamped with this worker's id: the reply
/// is correlated to the request, routed back to wherever it came from, and
/// its `sent_from_worker_id` is exactly the replying worker. This is how
/// peer lookup learns which worker hosts an operator instance.
pub fn handle_ping_message(msg: &Message, worker_id: u128) -> (r: Result<
    Message,
    ProducerOperatorError,
>)
    ensures
        match r {
            Ok(reply) => {
                &&& msg@.msg == PayloadV::Ping(common::Ping::Ping)
                &&& reply@.msg == PayloadV::Ping(common::Ping::Pong)
                &&& reply@.msg_id == msg@.msg_id
                &&& reply@.sent_from_worker_id == Some(worker_id)
                &&& reply@.route_to_worker_id == msg@.sent_from_worker_id
                &&& reply@.route_to_operation_id == msg@.sent_from_operation_id
                &&& reply@.route_to_connection_id == msg@.sent_from_connection_id
            },
            Err(_) => msg@.msg != PayloadV::Ping(common::Ping::Ping),
        },
{
    match &msg.msg {
        MessagePayload::Ping(common::Ping::Ping) => {
            let reply = msg.reply(MessagePayload::Ping(common::Ping::Pong)).set_sent_from_worker_id(
                worker_id,
            );
            Ok(reply)
        },
        _ => Err(ProducerOperatorError::TimedOutWaitingForTaskToClose),
    }
}

} // verus!

verus! {

/// What the exchange hands a materialize task per round.
#[derive(Debug, Clone, PartialEq, Eq)]
pub enum MaterializeEvent {
    /// A record batch to materialize, with its exchange-assigned id.
    Record { record_id: u64, record: Vec<u8> },
    /// Every upstream producer has completed and nothing is left.
    NoneLeft,
}

/// What the materialize task does next.
#[derive(Debug, Clone, PartialEq, Eq)]
pub enum MaterializeAction {
    /// Write the batch to the result file numbered by the record id, then
    /// acknowledge exactly this record to the exchange.
    WriteThenAck { record_id: u64 },
    /// Report the instance complete: the result set is fully materialized.
    ReportComplete,
}

/// One round of the materialize loop: a record is written under its own
/// id and then acknowledged, exactly once; the end of the records ends
/// the task.
pub fn materialize_step(ev: &MaterializeEvent) -> (act: MaterializeAction)
    ensures
        match ev {
            MaterializeEvent::Record { record_id, .. } => act
                == MaterializeAction::WriteThenAck { record_id: *record_id },
            MaterializeEvent::NoneLeft => act == MaterializeAction::ReportComplete,
        },
{
    match ev {
        MaterializeEvent::Record { record_id, .. } => MaterializeAction::WriteThenAck {
            record_id: *record_id,
        },
        MaterializeEvent::NoneLeft => MaterializeAction::ReportComplete,
    }
}

} // verus!
