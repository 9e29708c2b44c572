//! Messages of the query lifecycle: submission, status polling, paginated
//! data reads, capacity notifications, assignment, and instance status
//! changes reported to the query handler.

use vstd::prelude::*;
use crate::compute::TotalOperatorCompute;
use crate::plan::{Operator, OperatorV};
use crate::query_state::{Status, StatusV};

verus! {

/// Submits a SQL text for execution.
#[derive(Debug, Clone, PartialEq, Eq)]
pub struct RunQuery {
    pub query: Vec<u8>,
}

pub struct RunQueryV {
    pub query: Seq<u8>,
}

impl View for RunQuery {
    type V = RunQueryV;

    open spec fn view(&self) -> RunQueryV {
        RunQueryV { query: self.query@ }
    }
}

/// The reply to [`RunQuery`].
#[derive(Debug, Clone, Copy, PartialEq, Eq, Structural)]
pub enum RunQueryResp {
    Created { query_id: u128 },
    NotCreated,
}

/// Asks the query handler for the derived status of a query.
#[derive(Debug, Clone, Copy, PartialEq, Eq, Structural)]
pub struct GetQueryStatus {
    pub query_id: u128,
}

/// The reply to [`GetQueryStatus`].
#[derive(Debug, Clone, PartialEq, Eq)]
pub enum GetQueryStatusResp {
    Status(Status),
    QueryNotFound,
}

pub enum GetQueryStatusRespV {
    Status(StatusV),
    QueryNotFound,
}

impl View for GetQueryStatusResp {
    type V = GetQueryStatusRespV;

    open spec fn view(&self) -> GetQueryStatusRespV {
        match self {
            GetQueryStatusResp::Status(s) => GetQueryStatusRespV::Status(s@),
            GetQueryStatusResp::QueryNotFound => GetQueryStatusRespV::QueryNotFound,
        }
    }
}

/// Requests rows of the materialized result set, starting at the given
/// position and walking forward or backward.
#[derive(Debug, Clone, Copy, PartialEq, Eq, Structural)]
pub struct GetQueryData {
    pub query_id: u128,
    pub file_idx: u64,
    pub file_row_group_idx: u64,
    pub row_idx: u64,
    pub limit: u64,
    pub forward: bool,
}

/// The reply to [`GetQueryData`]: a record batch together with one offset
/// triple `(file_idx, row_group_idx, row_idx)` per row, in result order.
#[derive(Debug, Clone, PartialEq, Eq)]
pub enum GetQueryDataResp {
    Record { record: Vec<u8>, offsets: Vec<(u64, u64, u64)> },
    RecordRowGroupNotFound,
    ReachedEndOfFiles,
    Error { err: Vec<u8> },
}

pub enum GetQueryDataRespV {
    Record { record: Seq<u8>, offsets: Seq<(u64, u64, u64)> },
    RecordRowGroupNotFound,
    ReachedEndOfFiles,
    Error { err: Seq<u8> },
}

impl View for GetQueryDataResp {
    type V = GetQueryDataRespV;

    open spec fn view(&self) -> GetQueryDataRespV {
        match self {
            GetQueryDataResp::Record { record, offsets } => GetQueryDataRespV::Record {
                record: record@,
                offsets: offsets@,
            },
            GetQueryDataResp::RecordRowGroupNotFound => GetQueryDataRespV::RecordRowGroupNotFound,
            GetQueryDataResp::ReachedEndOfFiles => GetQueryDataRespV::ReachedEndOfFiles,
            GetQueryDataResp::Error { err } => GetQueryDataRespV::Error { err: err@ },
        }
    }
}

/// Broadcast by a query handler when queued instances wait for capacity;
/// every operator host answers with its remaining compute.
#[derive(Debug, Clone, Copy, PartialEq, Eq, Structural)]
pub enum OperatorInstanceAvailable {
    Notification,
    NotificationResponse { can_accept_up_to: TotalOperatorCompute },
}

/// Assignment of one operator instance to a worker, and the worker's reply.
#[derive(Debug, Clone, PartialEq, Eq)]
pub enum OperatorInstanceAssignment {
    Assign {
        query_handler_worker_id: u128,
        query_id: u128,
        op_instance_id: u128,
        pipeline_id: Vec<u8>,
        operator: Operator,
    },
    AssignAcceptedResponse { query_id: u128, op_instance_id: u128 },
    AssignRejectedResponse { query_id: u128, op_instance_id: u128, error: Vec<u8> },
}

pub enum OperatorInstanceAssignmentV {
    Assign {
        query_handler_worker_id: u128,
        query_id: u128,
        op_instance_id: u128,
        pipeline_id: Seq<u8>,
        operator: OperatorV,
    },
    AssignAcceptedResponse { query_id: u128, op_instance_id: u128 },
    AssignRejectedResponse { query_id: u128, op_instance_id: u128, error: Seq<u8> },
}

impl View for OperatorInstanceAssignment {
    type V = OperatorInstanceAssignmentV;

    open spec fn view(&self) -> OperatorInstanceAssignmentV {
        match self {
            OperatorInstanceAssignment::Assign {
                query_handler_worker_id,
                query_id,
                op_instance_id,
                pipeline_id,
                operator,
            } => OperatorInstanceAssignmentV::Assign {
                query_handler_worker_id: *query_handler_worker_id,
                query_id: *query_id,
                op_instance_id: *op_instance_id,
                pipeline_id: pipeline_id@,
                operator: operator@,
            },
            OperatorInstanceAssignment::AssignAcceptedResponse { query_id, op_instance_id } => {
                OperatorInstanceAssignmentV::AssignAcceptedResponse {
                    query_id: *query_id,
                    op_instance_id: *op_instance_id,
                }
            },
            OperatorInstanceAssignment::AssignRejectedResponse {
                query_id,
                op_instance_id,
                error,
            } => OperatorInstanceAssignmentV::AssignRejectedResponse {
                query_id: *query_id,
                op_instance_id: *op_instance_id,
                error: error@,
            },
        }
    }
}

/// Requests served by the query handler for peer workers: listing the
/// instances of an operator of a query.
#[derive(Debug, Clone, PartialEq, Eq)]
pub enum QueryHandlerRequests {
    ListOperatorInstancesRequest { query_id: u128, operator_id: Vec<u8> },
    ListOperatorInstancesResponse { op_instance_ids: Vec<u128> },
}

pub enum QueryHandlerRequestsV {
    ListOperatorInstancesRequest { query_id: u128, operator_id: Seq<u8> },
    ListOperatorInstancesResponse { op_instance_ids: Seq<u128> },
}

impl View for QueryHandlerRequests {
    type V = QueryHandlerRequestsV;

    open spec fn view(&self) -> QueryHandlerRequestsV {
        match self {
            QueryHandlerRequests::ListOperatorInstancesRequest { query_id, operator_id } => {
                QueryHandlerRequestsV::ListOperatorInstancesRequest {
                    query_id: *query_id,
                    operator_id: operator_id@,
                }
            },
            QueryHandlerRequests::ListOperatorInstancesResponse { op_instance_ids } => {
                QueryHandlerRequestsV::ListOperatorInstancesResponse {
                    op_instance_ids: op_instance_ids@,
                }
            },
        }
    }
}

/// A worker's report to the query handler that one of its operator
/// instances finished.
#[derive(Debug, Clone, PartialEq, Eq)]
pub enum OperatorInstanceStatusChange {
    Complete { query_id: u128, operator_instance_id: u128 },
    Error { query_id: u128, operator_instance_id: u128, error: Vec<u8> },
}

pub enum OperatorInstanceStatusChangeV {
    Complete { query_id: u128, operator_instance_id: u128 },
    Error { query_id: u128, operator_instance_id: u128, error: Seq<u8> },
}

impl View for OperatorInstanceStatusChange {
    type V = OperatorInstanceStatusChangeV;

    open spec fn view(&self) -> OperatorInstanceStatusChangeV {
        match self {
            OperatorInstanceStatusChange::Complete { query_id, operator_instance_id } => {
                OperatorInstanceStatusChangeV::Complete {
                    query_id: *query_id,
                    operator_instance_id: *operator_instance_id,
                }
            },
            OperatorInstanceStatusChange::Error { query_id, operator_instance_id, error } => {
                OperatorInstanceStatusChangeV::Error {
                    query_id: *query_id,
                    operator_instance_id: *operator_instance_id,
                    error: error@,
                }
            },
        }
    }
}

} // verus!
