//! Messages of the exchange protocol: producers push record batches in,
//! consumers pull them out and acknowledge processing.

use vstd::prelude::*;

verus! {

/// Requests understood by an exchange operator instance, and its replies.
///
/// A producer pushes a batch with `SendRecordRequest`; the exchange answers
/// `SendRecordResponse` with `accepted == false` when its buffer is full and
/// the producer must retry. A consumer pulls with `GetNextRecordRequest` and
/// acknowledges with `CompletedRecordProcessingRequest`.
#[derive(Debug, Clone, PartialEq, Eq)]
pub enum ExchangeRequests {
    SendRecordRequest { record: Vec<u8>, table_aliases: Vec<Vec<u8>> },
    SendRecordResponse { accepted: bool, record_id: u64 },
    GetNextRecordRequest { operator_id: Vec<u8> },
    GetNextRecordResponseRecord { record_id: u64, record: Vec<u8>, table_aliases: Vec<Vec<u8>> },
    GetNextRecordResponseNoneLeft,
    CompletedRecordProcessingRequest { operator_id: Vec<u8>, record_id: u64 },
}

pub enum ExchangeRequestsV {
    SendRecordRequest { record: Seq<u8>, table_aliases: Seq<Seq<u8>> },
    SendRecordResponse { accepted: bool, record_id: u64 },
    GetNextRecordRequest { operator_id: Seq<u8> },
    GetNextRecordResponseRecord { record_id: u64, record: Seq<u8>, table_aliases: Seq<Seq<u8>> },
    GetNextRecordResponseNoneLeft,
    CompletedRecordProcessingRequest { operator_id: Seq<u8>, record_id: u64 },
}

impl View for ExchangeRequests {
    type V = ExchangeRequestsV;

    open spec fn view(&self) -> ExchangeRequestsV {
        match self {
            ExchangeRequests::SendRecordRequest { record, table_aliases } => {
                ExchangeRequestsV::SendRecordRequest {
                    record: record@,
                    table_aliases: crate::wire::texts_view(table_aliases@),
                }
            },
            ExchangeRequests::SendRecordResponse { accepted, record_id } => {
                ExchangeRequestsV::SendRecordResponse {
                    accepted: *accepted,
                    record_id: *record_id,
                }
            },
            ExchangeRequests::GetNextRecordRequest { operator_id } => {
                ExchangeRequestsV::GetNextRecordRequest { operator_id: operator_id@ }
            },
            ExchangeRequests::GetNextRecordResponseRecord {
                record_id,
                record,
                table_aliases,
            } => ExchangeRequestsV::GetNextRecordResponseRecord {
                record_id: *record_id,
                record: record@,
                table_aliases: crate::wire::texts_view(table_aliases@),
            },
            ExchangeRequests::GetNextRecordResponseNoneLeft => {
                ExchangeRequestsV::GetNextRecordResponseNoneLeft
            },
            ExchangeRequests::CompletedRecordProcessingRequest { operator_id, record_id } => {
                ExchangeRequestsV::CompletedRecordProcessingRequest {
                    operator_id: operator_id@,
                    record_id: *record_id,
                }
            },
        }
    }
}

/// Tells an exchange that an upstream producer operator has completed; the
/// exchange marks that upstream as drained.
#[derive(Debug, Clone, PartialEq, Eq)]
pub enum OperatorStatusChange {
    Completed { operator_id: Vec<u8> },
}

pub enum OperatorStatusChangeV {
    Completed { operator_id: Seq<u8> },
}

impl View for OperatorStatusChange {
    type V = OperatorStatusChangeV;

    open spec fn view(&self) -> OperatorStatusChangeV {
        match self {
            OperatorStatusChange::Completed { operator_id } => OperatorStatusChangeV::Completed {
                operator_id: operator_id@,
            },
        }
    }
}

} // verus!
