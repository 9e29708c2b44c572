//! The unit of transport: a typed payload together with routing metadata.
//!
//! Every wire message is a [`Message`]: a 128-bit id, a payload drawn from
//! the registered kinds, optional `sent_from` and `route_to` ids, and two
//! transient stream ids that the router uses to address the physical
//! connection and that never travel on the wire.

use vstd::prelude::*;
use crate::ids::new_id;

pub mod common;
pub mod exchange;
pub mod operator;
pub mod query;

pub use common::{GenericResponse, Identify, Ping};
pub use exchange::ExchangeRequests;
pub use query::{
    GetQueryData, GetQueryDataResp, GetQueryStatus, GetQueryStatusResp, OperatorInstanceAssignment,
    OperatorInstanceAvailable, QueryHandlerRequests, RunQuery, RunQueryResp,
};

verus! {

/// The registered message kinds; [`MessageName::as_u16`] gives the kind id
/// that travels in the wire header.
#[derive(Debug, Clone, Copy, PartialEq, Eq, Structural)]
pub enum MessageName {
    Ping,
    Identify,
    GenericResponse,
    RunQuery,
    RunQueryResp,
    GetQueryStatus,
    GetQueryStatusResp,
    GetQueryData,
    GetQueryDataResp,
    OperatorInstanceAvailable,
    OperatorInstanceAssignment,
    QueryHandlerRequests,
    QueryOperatorInstanceStatusChange,
    OperatorShutdown,
    OperatorOperatorInstanceStatusChange,
    ExchangeRequests,
    ExchangeOperatorStatusChange,
}

/// The kind id of each message name.
pub open spec fn name_u16(n: MessageName) -> u16 {
    match n {
        MessageName::Ping => 0,
        MessageName::Identify => 1,
        MessageName::GenericResponse => 2,
        MessageName::RunQuery => 3,
        MessageName::RunQueryResp => 4,
        MessageName::GetQueryStatus => 5,
        MessageName::GetQueryStatusResp => 6,
        MessageName::GetQueryData => 7,
        MessageName::GetQueryDataResp => 8,
        MessageName::OperatorInstanceAvailable => 9,
        MessageName::OperatorInstanceAssignment => 10,
        MessageName::QueryHandlerRequests => 11,
        MessageName::QueryOperatorInstanceStatusChange => 12,
        MessageName::OperatorShutdown => 13,
        MessageName::OperatorOperatorInstanceStatusChange => 14,
        MessageName::ExchangeRequests => 15,
        MessageName::ExchangeOperatorStatusChange => 16,
    }
}

impl MessageName {
    pub fn as_u16(&self) -> (r: u16)
        ensures
            r == name_u16(*self),
    {
        match self {
            MessageName::Ping => 0,
            MessageName::Identify => 1,
            MessageName::GenericResponse => 2,
            MessageName::RunQuery => 3,
            MessageName::RunQueryResp => 4,
            MessageName::GetQueryStatus => 5,
            MessageName::GetQueryStatusResp => 6,
            MessageName::GetQueryData => 7,
            MessageName::GetQueryDataResp => 8,
            MessageName::OperatorInstanceAvailable => 9,
            MessageName::OperatorInstanceAssignment => 10,
            MessageName::QueryHandlerRequests => 11,
            MessageName::QueryOperatorInstanceStatusChange => 12,
            MessageName::OperatorShutdown => 13,
            MessageName::OperatorOperatorInstanceStatusChange => 14,
            MessageName::ExchangeRequests => 15,
            MessageName::ExchangeOperatorStatusChange => 16,
        }
    }

    pub fn as_str(&self) -> &'static str {
        match self {
            MessageName::Ping => "ping",
            MessageName::Identify => "identify",
            MessageName::GenericResponse => "generic_response",
            MessageName::RunQuery => "run_query",
            MessageName::RunQueryResp => "run_query_resp",
            MessageName::GetQueryStatus => "get_query_status",
            MessageName::GetQueryStatusResp => "get_query_status_resp",
            MessageName::GetQueryData => "get_query_data",
            MessageName::GetQueryDataResp => "get_query_data_resp",
            MessageName::OperatorInstanceAvailable => "operator_instance_available",
            MessageName::OperatorInstanceAssignment => "operator_instance_assignment",
            MessageName::QueryHandlerRequests => "query_handler_requests",
            MessageName::QueryOperatorInstanceStatusChange => {
                "query_operator_instance_status_change"
            },
            MessageName::OperatorShutdown => "operator_shutdown",
            MessageName::OperatorOperatorInstanceStatusChange => {
                "operator_operator_instance_status_change"
            },
            MessageName::ExchangeRequests => "exchange_requests",
            MessageName::ExchangeOperatorStatusChange => "exchange_operator_status_change",
        }
    }
}

/// The tagged union of every payload; consumers pattern-match on it.
#[derive(Debug, Clone, PartialEq, Eq)]
pub enum MessagePayload {
    Ping(Ping),
    Identify(Identify),
    GenericResponse(GenericResponse),
    RunQuery(RunQuery),
    RunQueryResp(RunQueryResp),
    GetQueryStatus(GetQueryStatus),
    GetQueryStatusResp(GetQueryStatusResp),
    GetQueryData(GetQueryData),
    GetQueryDataResp(GetQueryDataResp),
    OperatorInstanceAvailable(OperatorInstanceAvailable),
    OperatorInstanceAssignment(OperatorInstanceAssignment),
    QueryHandlerRequests(QueryHandlerRequests),
    QueryOperatorInstanceStatusChange(query::OperatorInstanceStatusChange),
    OperatorShutdown(operator::Shutdown),
    OperatorOperatorInstanceStatusChange(operator::OperatorInstanceStatusChange),
    ExchangeRequests(ExchangeRequests),
    ExchangeOperatorStatusChange(exchange::OperatorStatusChange),
}

/// The mathematical value of a payload.
pub enum PayloadV {
    Ping(Ping),
    Identify(Identify),
    GenericResponse(GenericResponse),
    RunQuery(query::RunQueryV),
    RunQueryResp(RunQueryResp),
    GetQueryStatus(GetQueryStatus),
    GetQueryStatusResp(query::GetQueryStatusRespV),
    GetQueryData(GetQueryData),
    GetQueryDataResp(query::GetQueryDataRespV),
    OperatorInstanceAvailable(OperatorInstanceAvailable),
    OperatorInstanceAssignment(query::OperatorInstanceAssignmentV),
    QueryHandlerRequests(query::QueryHandlerRequestsV),
    QueryOperatorInstanceStatusChange(query::OperatorInstanceStatusChangeV),
    OperatorShutdown(operator::Shutdown),
    OperatorOperatorInstanceStatusChange(operator::OperatorInstanceStatusChangeV),
    ExchangeRequests(exchange::ExchangeRequestsV),
    ExchangeOperatorStatusChange(exchange::OperatorStatusChangeV),
}

impl View for MessagePayload {
    type V = PayloadV;

    open spec fn view(&self) -> PayloadV {
        match self {
            MessagePayload::Ping(p) => PayloadV::Ping(*p),
            MessagePayload::Identify(p) => PayloadV::Identify(*p),
            MessagePayload::GenericResponse(p) => PayloadV::GenericResponse(*p),
            MessagePayload::RunQuery(p) => PayloadV::RunQuery(p@),
            MessagePayload::RunQueryResp(p) => PayloadV::RunQueryResp(*p),
            MessagePayload::GetQueryStatus(p) => PayloadV::GetQueryStatus(*p),
            MessagePayload::GetQueryStatusResp(p) => PayloadV::GetQueryStatusResp(p@),
            MessagePayload::GetQueryData(p) => PayloadV::GetQueryData(*p),
            MessagePayload::GetQueryDataResp(p) => PayloadV::GetQueryDataResp(p@),
            MessagePayload::OperatorInstanceAvailable(p) => {
                PayloadV::OperatorInstanceAvailable(*p)
            },
            MessagePayload::OperatorInstanceAssignment(p) => {
                PayloadV::OperatorInstanceAssignment(p@)
            },
            MessagePayload::QueryHandlerRequests(p) => PayloadV::QueryHandlerRequests(p@),
            MessagePayload::QueryOperatorInstanceStatusChange(p) => {
                PayloadV::QueryOperatorInstanceStatusChange(p@)
            },
            MessagePayload::OperatorShutdown(p) => PayloadV::OperatorShutdown(*p),
            MessagePayload::OperatorOperatorInstanceStatusChange(p) => {
                PayloadV::OperatorOperatorInstanceStatusChange(p@)
            },
            MessagePayload::ExchangeRequests(p) => PayloadV::ExchangeRequests(p@),
            MessagePayload::ExchangeOperatorStatusChange(p) => {
                PayloadV::ExchangeOperatorStatusChange(p@)
            },
        }
    }
}

/// The message name of a payload value.
pub open spec fn payload_name(p: PayloadV) -> MessageName {
    match p {
        PayloadV::Ping(_) => MessageName::Ping,
        PayloadV::Identify(_) => MessageName::Identify,
        PayloadV::GenericResponse(_) => MessageName::GenericResponse,
        PayloadV::RunQuery(_) => MessageName::RunQuery,
        PayloadV::RunQueryResp(_) => MessageName::RunQueryResp,
        PayloadV::GetQueryStatus(_) => MessageName::GetQueryStatus,
        PayloadV::GetQueryStatusResp(_) => MessageName::GetQueryStatusResp,
        PayloadV::GetQueryData(_) => MessageName::GetQueryData,
        PayloadV::GetQueryDataResp(_) => MessageName::GetQueryDataResp,
        PayloadV::OperatorInstanceAvailable(_) => MessageName::OperatorInstanceAvailable,
        PayloadV::OperatorInstanceAssignment(_) => MessageName::OperatorInstanceAssignment,
        PayloadV::QueryHandlerRequests(_) => MessageName::QueryHandlerRequests,
        PayloadV::QueryOperatorInstanceStatusChange(_) => {
            MessageName::QueryOperatorInstanceStatusChange
        },
        PayloadV::OperatorShutdown(_) => MessageName::OperatorShutdown,
        PayloadV::OperatorOperatorInstanceStatusChange(_) => {
            MessageName::OperatorOperatorInstanceStatusChange
        },
        PayloadV::ExchangeRequests(_) => MessageName::ExchangeRequests,
        PayloadV::ExchangeOperatorStatusChange(_) => MessageName::ExchangeOperatorStatusChange,
    }
}

impl MessagePayload {
    pub fn msg_name(&self) -> (r: MessageName)
        ensures
            r == payload_name(self@),
    {
        match self {
            MessagePayload::Ping(_) => MessageName::Ping,
            MessagePayload::Identify(_) => MessageName::Identify,
            MessagePayload::GenericResponse(_) => MessageName::GenericResponse,
            MessagePayload::RunQuery(_) => MessageName::RunQuery,
            MessagePayload::RunQueryResp(_) => MessageName::RunQueryResp,
            MessagePayload::GetQueryStatus(_) => MessageName::GetQueryStatus,
            MessagePayload::GetQueryStatusResp(_) => MessageName::GetQueryStatusResp,
            MessagePayload::GetQueryData(_) => MessageName::GetQueryData,
            MessagePayload::GetQueryDataResp(_) => MessageName::GetQueryDataResp,
            MessagePayload::OperatorInstanceAvailable(_) => MessageName::OperatorInstanceAvailable,
            MessagePayload::OperatorInstanceAssignment(_) => {
                MessageName::OperatorInstanceAssignment
            },
            MessagePayload::QueryHandlerRequests(_) => MessageName::QueryHandlerRequests,
            MessagePayload::QueryOperatorInstanceStatusChange(_) => {
                MessageName::QueryOperatorInstanceStatusChange
            },
            MessagePayload::OperatorShutdown(_) => MessageName::OperatorShutdown,
            MessagePayload::OperatorOperatorInstanceStatusChange(_) => {
                MessageName::OperatorOperatorInstanceStatusChange
            },
            MessagePayload::ExchangeRequests(_) => MessageName::ExchangeRequests,
            MessagePayload::ExchangeOperatorStatusChange(_) => {
                MessageName::ExchangeOperatorStatusChange
            },
        }
    }
}

/// The unit of transport.
#[derive(Debug, Clone, PartialEq, Eq)]
pub struct Message {
    pub msg_id: u128,
    pub msg: MessagePayload,
    pub sent_from_worker_id: Option<u128>,
    pub sent_from_pipeline_id: Option<u128>,
    pub sent_from_operation_id: Option<u128>,
    pub sent_from_connection_id: Option<u128>,
    pub route_to_worker_id: Option<u128>,
    pub route_to_operation_id: Option<u128>,
    pub route_to_connection_id: Option<u128>,
    pub inbound_stream_id: Option<u128>,
    pub outbound_stream_id: Option<u128>,
}

/// The mathematical value of a message.
pub struct MessageV {
    pub msg_id: u128,
    pub msg: PayloadV,
    pub sent_from_worker_id: Option<u128>,
    pub sent_from_pipeline_id: Option<u128>,
    pub sent_from_operation_id: Option<u128>,
    pub sent_from_connection_id: Option<u128>,
    pub route_to_worker_id: Option<u128>,
    pub route_to_operation_id: Option<u128>,
    pub route_to_connection_id: Option<u128>,
    pub inbound_stream_id: Option<u128>,
    pub outbound_stream_id: Option<u128>,
}

impl View for Message {
    type V = MessageV;

    open spec fn view(&self) -> MessageV {
        MessageV {
            msg_id: self.msg_id,
            msg: self.msg@,
            sent_from_worker_id: self.sent_from_worker_id,
            sent_from_pipeline_id: self.sent_from_pipeline_id,
            sent_from_operation_id: self.sent_from_operation_id,
            sent_from_connection_id: self.sent_from_connection_id,
            route_to_worker_id: self.route_to_worker_id,
            route_to_operation_id: self.route_to_operation_id,
            route_to_connection_id: self.route_to_connection_id,
            inbound_stream_id: self.inbound_stream_id,
            outbound_stream_id: self.outbound_stream_id,
        }
    }
}

impl Message {
    /// A fresh message around the payload: no addressing is set, and the
    /// message id is newly generated.
    pub fn new(msg: MessagePayload) -> (r: Message)
        ensures
            r@.msg == msg@,
            r@.sent_from_worker_id is None,
            r@.sent_from_pipeline_id is None,
            r@.sent_from_operation_id is None,
            r@.sent_from_connection_id is None,
            r@.route_to_worker_id is None,
            r@.route_to_operation_id is None,
            r@.route_to_connection_id is None,
            r@.inbound_stream_id is None,
            r@.outbound_stream_id is None,
    {
        Message {
            msg_id: new_id(),
            msg,
            sent_from_worker_id: None,
            sent_from_pipeline_id: None,
            sent_from_operation_id: None,
            sent_from_connection_id: None,
            route_to_worker_id: None,
            route_to_operation_id: None,
            route_to_connection_id: None,
            inbound_stream_id: None,
            outbound_stream_id: None,
        }
    }

    /// The reply to this message: it carries the request's id for
    /// correlation and is routed back to wherever the request came from.
    pub fn reply(&self, msg: MessagePayload) -> (r: Message)
        ensures
            r@.msg_id == self@.msg_id,
            r@.msg == msg@,
            r@.route_to_worker_id == self@.sent_from_worker_id,
            r@.route_to_operation_id == self@.sent_from_operation_id,
            r@.route_to_connection_id == self@.sent_from_connection_id,
            r@.sent_from_worker_id is None,
            r@.sent_from_pipeline_id is None,
            r@.sent_from_operation_id is None,
            r@.sent_from_connection_id is None,
            r@.inbound_stream_id == self@.inbound_stream_id,
            r@.outbound_stream_id is None,
    {
        Message {
            msg_id: self.msg_id,
            msg,
            sent_from_worker_id: None,
            sent_from_pipeline_id: None,
            sent_from_operation_id: None,
            sent_from_connection_id: None,
            route_to_worker_id: self.sent_from_worker_id,
            route_to_operation_id: self.sent_from_operation_id,
            route_to_connection_id: self.sent_from_connection_id,
            inbound_stream_id: self.inbound_stream_id,
            outbound_stream_id: None,
        }
    }

    pub fn msg_name(&self) -> (r: MessageName)
        ensures
            r == payload_name(self@.msg),
    {
        self.msg.msg_name()
    }

    pub fn set_inbound_stream_id(self, _id: u128) -> (r: Message)
        ensures
            r == (Message { inbound_stream_id: Some(_id), ..self }),
    {
        Message { inbound_stream_id: Some(_id), ..self }
    }

    pub fn set_outbound_stream(self, _id: u128) -> (r: Message)
        ensures
            r == (Message { outbound_stream_id: Some(_id), ..self }),
    {
        Message { outbound_stream_id: Some(_id), ..self }
    }

    pub fn set_sent_from_worker_id(self, _id: u128) -> (r: Message)
        ensures
            r == (Message { sent_from_worker_id: Some(_id), ..self }),
    {
        Message { sent_from_worker_id: Some(_id), ..self }
    }

    pub fn set_sent_from_pipeline_id(self, _id: u128) -> (r: Message)
        ensures
            r == (Message { sent_from_pipeline_id: Some(_id), ..self }),
    {
        Message { sent_from_pipeline_id: Some(_id), ..self }
    }

    pub fn set_sent_from_operation_id(self, _id: u128) -> (r: Message)
        ensures
            r == (Message { sent_from_operation_id: Some(_id), ..self }),
    {
        Message { sent_from_operation_id: Some(_id), ..self }
    }

    pub fn set_sent_from_connection_id(self, _id: u128) -> (r: Message)
        ensures
            r == (Message { sent_from_connection_id: Some(_id), ..self }),
    {
        Message { sent_from_connection_id: Some(_id), ..self }
    }

    pub fn set_route_to_worker_id(self, _id: u128) -> (r: Message)
        ensures
            r == (Message { route_to_worker_id: Some(_id), ..self }),
    {
        Message { route_to_worker_id: Some(_id), ..self }
    }

    pub fn set_route_to_operation_id(self, _id: u128) -> (r: Message)
        ensures
            r == (Message { route_to_operation_id: Some(_id), ..self }),
    {
        Message { route_to_operation_id: Some(_id), ..self }
    }

    pub fn set_route_to_connection_id(self, _id: u128) -> (r: Message)
        ensures
            r == (Message { route_to_connection_id: Some(_id), ..self }),
    {
        Message { route_to_connection_id: Some(_id), ..self }
    }
}

} // verus!
