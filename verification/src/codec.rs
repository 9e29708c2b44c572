//! The field layout of every message payload.
//!
//! A payload is laid out as a fixed list of wire fields per kind: a variant
//! tag first, then one field per attribute, with zero or empty values in the
//! slots a variant does not use. [`payload_fields`] gives the layout of a
//! payload value; [`payload_of_fields`] parses a field list back, and
//! [`lemma_payload_fields`] shows that parsing inverts laying out.

use vstd::prelude::*;
use crate::compute::TotalOperatorCompute;
use crate::messages::{
    common, exchange, operator, query, Message, MessageName, MessagePayload, MessageV, PayloadV,
    payload_name, name_u16,
};
use crate::plan::{Operator, OperatorType, OperatorTypeV, OperatorV};
use crate::query_state::{Status, StatusV};
use crate::wire::{
    clone_bytes, clone_ids, clone_texts, clone_trips, enc_u128, enc_u16, enc_u32, enc_u64, enc_u8,
    enc_vals, lemma_enc_u128, lemma_enc_u16, lemma_enc_u32, lemma_enc_u64, lemma_enc_u8,
    lemma_enc_vals, lemma_views_of_index, read_u128, read_u16, read_u32, read_u64, read_u8,
    read_all_vals, sdec_u128, sdec_u16, sdec_u32, sdec_u64, sdec_u8, sdec_vals, texts_view,
    val_wf, vals_wf, views_of, write_u128, write_u16, write_u32, write_u64, write_u8, write_vals,
    WireVal, WireValV,
};
use crate::compute::OperatorCompute;

verus! {

// ---------------------------------------------------------------------------
// Helpers for nested values
// ---------------------------------------------------------------------------

pub open spec fn status_tag(s: StatusV) -> u8 {
    match s {
        StatusV::Queued => 0,
        StatusV::Running => 1,
        StatusV::Complete => 2,
        StatusV::Error(_) => 3,
        StatusV::SentShutdown(_) => 4,
    }
}

pub open spec fn status_err(s: StatusV) -> Seq<u8> {
    match s {
        StatusV::Error(e) => e,
        _ => Seq::empty(),
    }
}

pub open spec fn status_ts(s: StatusV) -> u64 {
    match s {
        StatusV::SentShutdown(t) => t,
        _ => 0,
    }
}

pub open spec fn status_of(t: u8, err: Seq<u8>, ts: u64) -> Option<StatusV> {
    if t == 0 {
        Some(StatusV::Queued)
    } else if t == 1 {
        Some(StatusV::Running)
    } else if t == 2 {
        Some(StatusV::Complete)
    } else if t == 3 {
        Some(StatusV::Error(err))
    } else if t == 4 {
        Some(StatusV::SentShutdown(ts))
    } else {
        None
    }
}

pub open spec fn optype_tag(t: OperatorTypeV) -> u8 {
    match t {
        OperatorTypeV::Producer { .. } => 0,
        OperatorTypeV::Exchange => 1,
    }
}

pub open spec fn optype_exchange_id(t: OperatorTypeV) -> Seq<u8> {
    match t {
        OperatorTypeV::Producer { outbound_exchange_id } => outbound_exchange_id,
        OperatorTypeV::Exchange => Seq::empty(),
    }
}

pub open spec fn optype_of(t: u8, exid: Seq<u8>) -> Option<OperatorTypeV> {
    if t == 0 {
        Some(OperatorTypeV::Producer { outbound_exchange_id: exid })
    } else if t == 1 {
        Some(OperatorTypeV::Exchange)
    } else {
        None
    }
}

// ---------------------------------------------------------------------------
// The layout of each payload
// ---------------------------------------------------------------------------

pub open spec fn payload_fields(p: PayloadV) -> Seq<WireValV> {
    match p {
        PayloadV::Ping(common::Ping::Ping) => seq![WireValV::U8(0)],
        PayloadV::Ping(common::Ping::Pong) => seq![WireValV::U8(1)],
        PayloadV::Identify(common::Identify::Worker { id }) => seq![
            WireValV::U8(0),
            WireValV::U128(id),
        ],
        PayloadV::Identify(common::Identify::Connection { id }) => seq![
            WireValV::U8(1),
            WireValV::U128(id),
        ],
        PayloadV::GenericResponse(common::GenericResponse::Okay) => seq![WireValV::U8(0)],
        PayloadV::RunQuery(q) => seq![WireValV::U8(0), WireValV::Bytes(q.query)],
        PayloadV::RunQueryResp(query::RunQueryResp::Created { query_id }) => seq![
            WireValV::U8(0),
            WireValV::U128(query_id),
        ],
        PayloadV::RunQueryResp(query::RunQueryResp::NotCreated) => seq![
            WireValV::U8(1),
            WireValV::U128(0),
        ],
        PayloadV::GetQueryStatus(q) => seq![WireValV::U8(0), WireValV::U128(q.query_id)],
        PayloadV::GetQueryStatusResp(query::GetQueryStatusRespV::Status(s)) => seq![
            WireValV::U8(0),
            WireValV::U8(status_tag(s)),
            WireValV::Bytes(status_err(s)),
            WireValV::U64(status_ts(s)),
        ],
        PayloadV::GetQueryStatusResp(query::GetQueryStatusRespV::QueryNotFound) => seq![
            WireValV::U8(1),
            WireValV::U8(0),
            WireValV::Bytes(Seq::empty()),
            WireValV::U64(0),
        ],
        PayloadV::GetQueryData(q) => seq![
            WireValV::U8(0),
            WireValV::U128(q.query_id),
            WireValV::U64(q.file_idx),
            WireValV::U64(q.file_row_group_idx),
            WireValV::U64(q.row_idx),
            WireValV::U64(q.limit),
            WireValV::U8(if q.forward { 1 } else { 0 }),
        ],
        PayloadV::GetQueryDataResp(query::GetQueryDataRespV::Record { record, offsets }) => seq![
            WireValV::U8(0),
            WireValV::Bytes(record),
            WireValV::Trips(offsets),
            WireValV::Bytes(Seq::empty()),
        ],
        PayloadV::GetQueryDataResp(query::GetQueryDataRespV::RecordRowGroupNotFound) => seq![
            WireValV::U8(1),
            WireValV::Bytes(Seq::empty()),
            WireValV::Trips(Seq::empty()),
            WireValV::Bytes(Seq::empty()),
        ],
        PayloadV::GetQueryDataResp(query::GetQueryDataRespV::ReachedEndOfFiles) => seq![
            WireValV::U8(2),
            WireValV::Bytes(Seq::empty()),
            WireValV::Trips(Seq::empty()),
            WireValV::Bytes(Seq::empty()),
        ],
        PayloadV::GetQueryDataResp(query::GetQueryDataRespV::Error { err }) => seq![
            WireValV::U8(3),
            WireValV::Bytes(Seq::empty()),
            WireValV::Trips(Seq::empty()),
            WireValV::Bytes(err),
        ],
        PayloadV::OperatorInstanceAvailable(query::OperatorInstanceAvailable::Notification) => seq![
            WireValV::U8(0),
            WireValV::U64(0),
            WireValV::U64(0),
            WireValV::U64(0),
        ],
        PayloadV::OperatorInstanceAvailable(
            query::OperatorInstanceAvailable::NotificationResponse { can_accept_up_to },
        ) => seq![
            WireValV::U8(1),
            WireValV::U64(can_accept_up_to.instances),
            WireValV::U64(can_accept_up_to.memory_in_mib),
            WireValV::U64(can_accept_up_to.cpu_in_thousandths),
        ],
        PayloadV::OperatorInstanceAssignment(query::OperatorInstanceAssignmentV::Assign {
            query_handler_worker_id,
            query_id,
            op_instance_id,
            pipeline_id,
            operator,
        }) => seq![
            WireValV::U8(0),
            WireValV::U128(query_handler_worker_id),
            WireValV::U128(query_id),
            WireValV::U128(op_instance_id),
            WireValV::Bytes(pipeline_id),
            WireValV::Bytes(operator.id),
            WireValV::U8(optype_tag(operator.operator_type)),
            WireValV::Bytes(optype_exchange_id(operator.operator_type)),
            WireValV::U64(operator.compute.instances),
            WireValV::U64(operator.compute.memory_in_mib),
            WireValV::U64(operator.compute.cpu_in_thousandths),
            WireValV::Bytes(Seq::empty()),
        ],
        PayloadV::OperatorInstanceAssignment(
            query::OperatorInstanceAssignmentV::AssignAcceptedResponse { query_id, op_instance_id },
        ) => seq![
            WireValV::U8(1),
            WireValV::U128(0),
            WireValV::U128(query_id),
            WireValV::U128(op_instance_id),
            WireValV::Bytes(Seq::empty()),
            WireValV::Bytes(Seq::empty()),
            WireValV::U8(0),
            WireValV::Bytes(Seq::empty()),
            WireValV::U64(0),
            WireValV::U64(0),
            WireValV::U64(0),
            WireValV::Bytes(Seq::empty()),
        ],
        PayloadV::OperatorInstanceAssignment(
            query::OperatorInstanceAssignmentV::AssignRejectedResponse {
                query_id,
                op_instance_id,
                error,
            },
        ) => seq![
            WireValV::U8(2),
            WireValV::U128(0),
            WireValV::U128(query_id),
            WireValV::U128(op_instance_id),
            WireValV::Bytes(Seq::empty()),
            WireValV::Bytes(Seq::empty()),
            WireValV::U8(0),
            WireValV::Bytes(Seq::empty()),
            WireValV::U64(0),
            WireValV::U64(0),
            WireValV::U64(0),
            WireValV::Bytes(error),
        ],
        PayloadV::QueryHandlerRequests(
            query::QueryHandlerRequestsV::ListOperatorInstancesRequest { query_id, operator_id },
        ) => seq![
            WireValV::U8(0),
            WireValV::U128(query_id),
            WireValV::Bytes(operator_id),
            WireValV::Ids(Seq::empty()),
        ],
        PayloadV::QueryHandlerRequests(
            query::QueryHandlerRequestsV::ListOperatorInstancesResponse { op_instance_ids },
        ) => seq![
            WireValV::U8(1),
            WireValV::U128(0),
            WireValV::Bytes(Seq::empty()),
            WireValV::Ids(op_instance_ids),
        ],
        PayloadV::QueryOperatorInstanceStatusChange(
            query::OperatorInstanceStatusChangeV::Complete { query_id, operator_instance_id },
        ) => seq![
            WireValV::U8(0),
            WireValV::U128(query_id),
            WireValV::U128(operator_instance_id),
            WireValV::Bytes(Seq::empty()),
        ],
        PayloadV::QueryOperatorInstanceStatusChange(
            query::OperatorInstanceStatusChangeV::Error {
                query_id,
                operator_instance_id,
                error,
            },
        ) => seq![
            WireValV::U8(1),
            WireValV::U128(query_id),
            WireValV::U128(operator_instance_id),
            WireValV::Bytes(error),
        ],
        PayloadV::OperatorShutdown(operator::Shutdown::Immediate) => seq![WireValV::U8(0)],
        PayloadV::OperatorOperatorInstanceStatusChange(
            operator::OperatorInstanceStatusChangeV::Complete,
        ) => seq![WireValV::U8(0), WireValV::Bytes(Seq::empty())],
        PayloadV::OperatorOperatorInstanceStatusChange(
            operator::OperatorInstanceStatusChangeV::Error(e),
        ) => seq![WireValV::U8(1), WireValV::Bytes(e)],
        PayloadV::ExchangeRequests(exchange::ExchangeRequestsV::SendRecordRequest {
            record,
            table_aliases,
        }) => seq![
            WireValV::U8(0),
            WireValV::U64(0),
            WireValV::Bytes(record),
            WireValV::Texts(table_aliases),
            WireValV::Bytes(Seq::empty()),
            WireValV::U8(0),
        ],
        PayloadV::ExchangeRequests(exchange::ExchangeRequestsV::SendRecordResponse {
            accepted,
            record_id,
        }) => seq![
            WireValV::U8(1),
            WireValV::U64(record_id),
            WireValV::Bytes(Seq::empty()),
            WireValV::Texts(Seq::empty()),
            WireValV::Bytes(Seq::empty()),
            WireValV::U8(if accepted { 1 } else { 0 }),
        ],
        PayloadV::ExchangeRequests(exchange::ExchangeRequestsV::GetNextRecordRequest {
            operator_id,
        }) => seq![
            WireValV::U8(2),
            WireValV::U64(0),
            WireValV::Bytes(Seq::empty()),
            WireValV::Texts(Seq::empty()),
            WireValV::Bytes(operator_id),
            WireValV::U8(0),
        ],
        PayloadV::ExchangeRequests(exchange::ExchangeRequestsV::GetNextRecordResponseRecord {
            record_id,
            record,
            table_aliases,
        }) => seq![
            WireValV::U8(3),
            WireValV::U64(record_id),
            WireValV::Bytes(record),
            WireValV::Texts(table_aliases),
            WireValV::Bytes(Seq::empty()),
            WireValV::U8(0),
        ],
        PayloadV::ExchangeRequests(exchange::ExchangeRequestsV::GetNextRecordResponseNoneLeft) => {
            seq![
                WireValV::U8(4),
                WireValV::U64(0),
                WireValV::Bytes(Seq::empty()),
                WireValV::Texts(Seq::empty()),
                WireValV::Bytes(Seq::empty()),
                WireValV::U8(0),
            ]
        },
        PayloadV::ExchangeRequests(
            exchange::ExchangeRequestsV::CompletedRecordProcessingRequest {
                operator_id,
                record_id,
            },
        ) => seq![
            WireValV::U8(5),
            WireValV::U64(record_id),
            WireValV::Bytes(Seq::empty()),
            WireValV::Texts(Seq::empty()),
            WireValV::Bytes(operator_id),
            WireValV::U8(0),
        ],
        PayloadV::ExchangeOperatorStatusChange(exchange::OperatorStatusChangeV::Completed {
            operator_id,
        }) => seq![WireValV::U8(0), WireValV::Bytes(operator_id)],
    }
}

} // verus!

verus! {

// ---------------------------------------------------------------------------
// Parsing a field list back into a payload
// ---------------------------------------------------------------------------

pub open spec fn pf_ping(vs: Seq<WireValV>) -> Option<PayloadV> {
    if vs.len() == 1 {
        match vs[0] {
            WireValV::U8(t) => if t == 0 {
                Some(PayloadV::Ping(common::Ping::Ping))
            } else if t == 1 {
                Some(PayloadV::Ping(common::Ping::Pong))
            } else {
                None
            },
            _ => None,
        }
    } else {
        None
    }
}

pub open spec fn pf_identify(vs: Seq<WireValV>) -> Option<PayloadV> {
    if vs.len() == 2 {
        match (vs[0], vs[1]) {
            (WireValV::U8(t), WireValV::U128(id)) => if t == 0 {
                Some(PayloadV::Identify(common::Identify::Worker { id }))
            } else if t == 1 {
                Some(PayloadV::Identify(common::Identify::Connection { id }))
            } else {
                None
            },
            _ => None,
        }
    } else {
        None
    }
}

pub open spec fn pf_generic_response(vs: Seq<WireValV>) -> Option<PayloadV> {
    if vs.len() == 1 {
        match vs[0] {
            WireValV::U8(t) => if t == 0 {
                Some(PayloadV::GenericResponse(common::GenericResponse::Okay))
            } else {
                None
            },
            _ => None,
        }
    } else {
        None
    }
}

pub open spec fn pf_run_query(vs: Seq<WireValV>) -> Option<PayloadV> {
    if vs.len() == 2 {
        match (vs[0], vs[1]) {
            (WireValV::U8(t), WireValV::Bytes(q)) => if t == 0 {
                Some(PayloadV::RunQuery(query::RunQueryV { query: q }))
            } else {
                None
            },
            _ => None,
        }
    } else {
        None
    }
}

pub open spec fn pf_run_query_resp(vs: Seq<WireValV>) -> Option<PayloadV> {
    if vs.len() == 2 {
        match (vs[0], vs[1]) {
            (WireValV::U8(t), WireValV::U128(id)) => if t == 0 {
                Some(PayloadV::RunQueryResp(query::RunQueryResp::Created { query_id: id }))
            } else if t == 1 {
                Some(PayloadV::RunQueryResp(query::RunQueryResp::NotCreated))
            } else {
                None
            },
            _ => None,
        }
    } else {
        None
    }
}

pub open spec fn pf_get_query_status(vs: Seq<WireValV>) -> Option<PayloadV> {
    if vs.len() == 2 {
        match (vs[0], vs[1]) {
            (WireValV::U8(t), WireValV::U128(id)) => if t == 0 {
                Some(PayloadV::GetQueryStatus(query::GetQueryStatus { query_id: id }))
            } else {
                None
            },
            _ => None,
        }
    } else {
        None
    }
}

pub open spec fn pf_get_query_status_resp(vs: Seq<WireValV>) -> Option<PayloadV> {
    if vs.len() == 4 {
        match (vs[0], vs[1], vs[2], vs[3]) {
            (WireValV::U8(t), WireValV::U8(st), WireValV::Bytes(err), WireValV::U64(ts)) => if t
                == 0 {
                match status_of(st, err, ts) {
                    Some(s) => Some(
                        PayloadV::GetQueryStatusResp(query::GetQueryStatusRespV::Status(s)),
                    ),
                    None => None,
                }
            } else if t == 1 {
                Some(PayloadV::GetQueryStatusResp(query::GetQueryStatusRespV::QueryNotFound))
            } else {
                None
            },
            _ => None,
        }
    } else {
        None
    }
}

pub open spec fn pf_get_query_data(vs: Seq<WireValV>) -> Option<PayloadV> {
    if vs.len() == 7 {
        match (vs[0], vs[1], vs[2], vs[3], vs[4], vs[5], vs[6]) {
            (
                WireValV::U8(t),
                WireValV::U128(qid),
                WireValV::U64(f),
                WireValV::U64(rg),
                WireValV::U64(row),
                WireValV::U64(limit),
                WireValV::U8(fwd),
            ) => if t == 0 {
                Some(
                    PayloadV::GetQueryData(
                        query::GetQueryData {
                            query_id: qid,
                            file_idx: f,
                            file_row_group_idx: rg,
                            row_idx: row,
                            limit,
                            forward: fwd != 0,
                        },
                    ),
                )
            } else {
                None
            },
            _ => None,
        }
    } else {
        None
    }
}

pub open spec fn pf_get_query_data_resp(vs: Seq<WireValV>) -> Option<PayloadV> {
    if vs.len() == 4 {
        match (vs[0], vs[1], vs[2], vs[3]) {
            (
                WireValV::U8(t),
                WireValV::Bytes(record),
                WireValV::Trips(offsets),
                WireValV::Bytes(err),
            ) => if t == 0 {
                Some(
                    PayloadV::GetQueryDataResp(
                        query::GetQueryDataRespV::Record { record, offsets },
                    ),
                )
            } else if t == 1 {
                Some(PayloadV::GetQueryDataResp(query::GetQueryDataRespV::RecordRowGroupNotFound))
            } else if t == 2 {
                Some(PayloadV::GetQueryDataResp(query::GetQueryDataRespV::ReachedEndOfFiles))
            } else if t == 3 {
                Some(PayloadV::GetQueryDataResp(query::GetQueryDataRespV::Error { err }))
            } else {
                None
            },
            _ => None,
        }
    } else {
        None
    }
}

pub open spec fn pf_operator_instance_available(vs: Seq<WireValV>) -> Option<PayloadV> {
    if vs.len() == 4 {
        match (vs[0], vs[1], vs[2], vs[3]) {
            (WireValV::U8(t), WireValV::U64(inst), WireValV::U64(mem), WireValV::U64(cpu)) => if t
                == 0 {
                Some(
                    PayloadV::OperatorInstanceAvailable(
                        query::OperatorInstanceAvailable::Notification,
                    ),
                )
            } else if t == 1 {
                Some(
                    PayloadV::OperatorInstanceAvailable(
                        query::OperatorInstanceAvailable::NotificationResponse {
                            can_accept_up_to: TotalOperatorCompute {
                                instances: inst,
                                memory_in_mib: mem,
                                cpu_in_thousandths: cpu,
                            },
                        },
                    ),
                )
            } else {
                None
            },
            _ => None,
        }
    } else {
        None
    }
}

pub open spec fn pf_operator_instance_assignment(vs: Seq<WireValV>) -> Option<PayloadV> {
    if vs.len() == 12 {
        match (
            vs[0],
            vs[1],
            vs[2],
            vs[3],
            vs[4],
            vs[5],
            vs[6],
            vs[7],
            vs[8],
            vs[9],
            vs[10],
            vs[11],
        ) {
            (
                WireValV::U8(t),
                WireValV::U128(qhw),
                WireValV::U128(qid),
                WireValV::U128(opin),
                WireValV::Bytes(pipe),
                WireValV::Bytes(opid),
                WireValV::U8(ot),
                WireValV::Bytes(exid),
                WireValV::U64(inst),
                WireValV::U64(mem),
                WireValV::U64(cpu),
                WireValV::Bytes(err),
            ) => if t == 0 {
                match optype_of(ot, exid) {
                    Some(o) => Some(
                        PayloadV::OperatorInstanceAssignment(
                            query::OperatorInstanceAssignmentV::Assign {
                                query_handler_worker_id: qhw,
                                query_id: qid,
                                op_instance_id: opin,
                                pipeline_id: pipe,
                                operator: OperatorV {
                                    id: opid,
                                    operator_type: o,
                                    compute: OperatorCompute {
                                        instances: inst,
                                        memory_in_mib: mem,
                                        cpu_in_thousandths: cpu,
                                    },
                                },
                            },
                        ),
                    ),
                    None => None,
                }
            } else if t == 1 {
                Some(
                    PayloadV::OperatorInstanceAssignment(
                        query::OperatorInstanceAssignmentV::AssignAcceptedResponse {
                            query_id: qid,
                            op_instance_id: opin,
                        },
                    ),
                )
            } else if t == 2 {
                Some(
                    PayloadV::OperatorInstanceAssignment(
                        query::OperatorInstanceAssignmentV::AssignRejectedResponse {
                            query_id: qid,
                            op_instance_id: opin,
                            error: err,
                        },
                    ),
                )
            } else {
                None
            },
            _ => None,
        }
    } else {
        None
    }
}

pub open spec fn pf_query_handler_requests(vs: Seq<WireValV>) -> Option<PayloadV> {
    if vs.len() == 4 {
        match (vs[0], vs[1], vs[2], vs[3]) {
            (WireValV::U8(t), WireValV::U128(qid), WireValV::Bytes(opid), WireValV::Ids(ids)) => {
                if t == 0 {
                    Some(
                        PayloadV::QueryHandlerRequests(
                            query::QueryHandlerRequestsV::ListOperatorInstancesRequest {
                                query_id: qid,
                                operator_id: opid,
                            },
                        ),
                    )
                } else if t == 1 {
                    Some(
                        PayloadV::QueryHandlerRequests(
                            query::QueryHandlerRequestsV::ListOperatorInstancesResponse {
                                op_instance_ids: ids,
                            },
                        ),
                    )
                } else {
                    None
                }
            },
            _ => None,
        }
    } else {
        None
    }
}

pub open spec fn pf_query_operator_instance_status_change(vs: Seq<WireValV>) -> Option<PayloadV> {
    if vs.len() == 4 {
        match (vs[0], vs[1], vs[2], vs[3]) {
            (WireValV::U8(t), WireValV::U128(qid), WireValV::U128(oin), WireValV::Bytes(err)) => {
                if t == 0 {
                    Some(
                        PayloadV::QueryOperatorInstanceStatusChange(
                            query::OperatorInstanceStatusChangeV::Complete {
                                query_id: qid,
                                operator_instance_id: oin,
                            },
                        ),
                    )
                } else if t == 1 {
                    Some(
                        PayloadV::QueryOperatorInstanceStatusChange(
                            query::OperatorInstanceStatusChangeV::Error {
                                query_id: qid,
                                operator_instance_id: oin,
                                error: err,
                            },
                        ),
                    )
                } else {
                    None
                }
            },
            _ => None,
        }
    } else {
        None
    }
}

pub open spec fn pf_operator_shutdown(vs: Seq<WireValV>) -> Option<PayloadV> {
    if vs.len() == 1 {
        match vs[0] {
            WireValV::U8(t) => if t == 0 {
                Some(PayloadV::OperatorShutdown(operator::Shutdown::Immediate))
            } else {
                None
            },
            _ => None,
        }
    } else {
        None
    }
}

pub open spec fn pf_operator_operator_instance_status_change(
    vs: Seq<WireValV>,
) -> Option<PayloadV> {
    if vs.len() == 2 {
        match (vs[0], vs[1]) {
            (WireValV::U8(t), WireValV::Bytes(err)) => if t == 0 {
                Some(
                    PayloadV::OperatorOperatorInstanceStatusChange(
                        operator::OperatorInstanceStatusChangeV::Complete,
                    ),
                )
            } else if t == 1 {
                Some(
                    PayloadV::OperatorOperatorInstanceStatusChange(
                        operator::OperatorInstanceStatusChangeV::Error(err),
                    ),
                )
            } else {
                None
            },
            _ => None,
        }
    } else {
        None
    }
}

pub open spec fn pf_exchange_requests(vs: Seq<WireValV>) -> Option<PayloadV> {
    if vs.len() == 6 {
        match (vs[0], vs[1], vs[2], vs[3], vs[4], vs[5]) {
            (
                WireValV::U8(t),
                WireValV::U64(rid),
                WireValV::Bytes(record),
                WireValV::Texts(aliases),
                WireValV::Bytes(opid),
                WireValV::U8(acc),
            ) => if t == 0 {
                Some(
                    PayloadV::ExchangeRequests(
                        exchange::ExchangeRequestsV::SendRecordRequest {
                            record,
                            table_aliases: aliases,
                        },
                    ),
                )
            } else if t == 1 {
                Some(
                    PayloadV::ExchangeRequests(
                        exchange::ExchangeRequestsV::SendRecordResponse {
                            accepted: acc != 0,
                            record_id: rid,
                        },
                    ),
                )
            } else if t == 2 {
                Some(
                    PayloadV::ExchangeRequests(
                        exchange::ExchangeRequestsV::GetNextRecordRequest { operator_id: opid },
                    ),
                )
            } else if t == 3 {
                Some(
                    PayloadV::ExchangeRequests(
                        exchange::ExchangeRequestsV::GetNextRecordResponseRecord {
                            record_id: rid,
                            record,
                            table_aliases: aliases,
                        },
                    ),
                )
            } else if t == 4 {
                Some(
                    PayloadV::ExchangeRequests(
                        exchange::ExchangeRequestsV::GetNextRecordResponseNoneLeft,
                    ),
                )
            } else if t == 5 {
                Some(
                    PayloadV::ExchangeRequests(
                        exchange::ExchangeRequestsV::CompletedRecordProcessingRequest {
                            operator_id: opid,
                            record_id: rid,
                        },
                    ),
                )
            } else {
                None
            },
            _ => None,
        }
    } else {
        None
    }
}

pub open spec fn pf_exchange_operator_status_change(vs: Seq<WireValV>) -> Option<PayloadV> {
    if vs.len() == 2 {
        match (vs[0], vs[1]) {
            (WireValV::U8(t), WireValV::Bytes(opid)) => if t == 0 {
                Some(
                    PayloadV::ExchangeOperatorStatusChange(
                        exchange::OperatorStatusChangeV::Completed { operator_id: opid },
                    ),
                )
            } else {
                None
            },
            _ => None,
        }
    } else {
        None
    }
}

/// Parses a field list as a payload of the given kind.
pub open spec fn payload_of_fields(name: MessageName, vs: Seq<WireValV>) -> Option<PayloadV> {
    match name {
        MessageName::Ping => pf_ping(vs),
        MessageName::Identify => pf_identify(vs),
        MessageName::GenericResponse => pf_generic_response(vs),
        MessageName::RunQuery => pf_run_query(vs),
        MessageName::RunQueryResp => pf_run_query_resp(vs),
        MessageName::GetQueryStatus => pf_get_query_status(vs),
        MessageName::GetQueryStatusResp => pf_get_query_status_resp(vs),
        MessageName::GetQueryData => pf_get_query_data(vs),
        MessageName::GetQueryDataResp => pf_get_query_data_resp(vs),
        MessageName::OperatorInstanceAvailable => pf_operator_instance_available(vs),
        MessageName::OperatorInstanceAssignment => pf_operator_instance_assignment(vs),
        MessageName::QueryHandlerRequests => pf_query_handler_requests(vs),
        MessageName::QueryOperatorInstanceStatusChange => pf_query_operator_instance_status_change(
            vs,
        ),
        MessageName::OperatorShutdown => pf_operator_shutdown(vs),
        MessageName::OperatorOperatorInstanceStatusChange => {
            pf_operator_operator_instance_status_change(vs)
        },
        MessageName::ExchangeRequests => pf_exchange_requests(vs),
        MessageName::ExchangeOperatorStatusChange => pf_exchange_operator_status_change(vs),
    }
}

/// Parsing a payload's own layout under its own name yields the payload
/// back: the field layout loses nothing.
#[verifier::rlimit(100)]
pub proof fn lemma_payload_fields(p: PayloadV)
    ensures
        payload_of_fields(payload_name(p), payload_fields(p)) == Some(p),
{
}

} // verus!

verus! {

// ---------------------------------------------------------------------------
// Executable conversion between payloads and field lists
// ---------------------------------------------------------------------------

fn status_parts(s: &Status) -> (r: (u8, Vec<u8>, u64))
    ensures
        r.0 == status_tag(s@),
        r.1@ == status_err(s@),
        r.2 == status_ts(s@),
{
    match s {
        Status::Queued => (0, Vec::new(), 0),
        Status::Running => (1, Vec::new(), 0),
        Status::Complete => (2, Vec::new(), 0),
        Status::Error(e) => (3, clone_bytes(e), 0),
        Status::SentShutdown(t) => (4, Vec::new(), *t),
    }
}

fn status_from(t: u8, err: Vec<u8>, ts: u64) -> (r: Option<Status>)
    ensures
        match status_of(t, err@, ts) {
            Some(s) => r is Some && r.unwrap()@ == s,
            None => r is None,
        },
{
    if t == 0 {
        Some(Status::Queued)
    } else if t == 1 {
        Some(Status::Running)
    } else if t == 2 {
        Some(Status::Complete)
    } else if t == 3 {
        Some(Status::Error(err))
    } else if t == 4 {
        Some(Status::SentShutdown(ts))
    } else {
        None
    }
}

/// Lays the payload out as its field list.
#[verifier::rlimit(100)]
pub fn payload_to_fields(p: &MessagePayload) -> (r: Vec<WireVal>)
    ensures
        views_of(r@) == payload_fields(p@),
{
    let mut out: Vec<WireVal> = Vec::new();
    match p {
        MessagePayload::Ping(common::Ping::Ping) => {
            out.push(WireVal::U8(0));
            proof {
                lemma_views_of_index(out@);
                assert(views_of(out@) =~~= payload_fields(p@));
            }
        },
        MessagePayload::Ping(common::Ping::Pong) => {
            out.push(WireVal::U8(1));
            proof {
                lemma_views_of_index(out@);
                assert(views_of(out@) =~~= payload_fields(p@));
            }
        },
        MessagePayload::Identify(common::Identify::Worker { id }) => {
            out.push(WireVal::U8(0));
            out.push(WireVal::U128(*id));
            proof {
                lemma_views_of_index(out@);
                assert(views_of(out@) =~~= payload_fields(p@));
            }
        },
        MessagePayload::Identify(common::Identify::Connection { id }) => {
            out.push(WireVal::U8(1));
            out.push(WireVal::U128(*id));
            proof {
                lemma_views_of_index(out@);
                assert(views_of(out@) =~~= payload_fields(p@));
            }
        },
        MessagePayload::GenericResponse(common::GenericResponse::Okay) => {
            out.push(WireVal::U8(0));
            proof {
                lemma_views_of_index(out@);
                assert(views_of(out@) =~~= payload_fields(p@));
            }
        },
        MessagePayload::RunQuery(q) => {
            out.push(WireVal::U8(0));
            out.push(WireVal::Bytes(clone_bytes(&q.query)));
            proof {
                lemma_views_of_index(out@);
                assert(views_of(out@) =~~= payload_fields(p@));
            }
        },
        MessagePayload::RunQueryResp(query::RunQueryResp::Created { query_id }) => {
            out.push(WireVal::U8(0));
            out.push(WireVal::U128(*query_id));
            proof {
                lemma_views_of_index(out@);
                assert(views_of(out@) =~~= payload_fields(p@));
            }
        },
        MessagePayload::RunQueryResp(query::RunQueryResp::NotCreated) => {
            out.push(WireVal::U8(1));
            out.push(WireVal::U128(0));
            proof {
                lemma_views_of_index(out@);
                assert(views_of(out@) =~~= payload_fields(p@));
            }
        },
        MessagePayload::GetQueryStatus(q) => {
            out.push(WireVal::U8(0));
            out.push(WireVal::U128(q.query_id));
            proof {
                lemma_views_of_index(out@);
                assert(views_of(out@) =~~= payload_fields(p@));
            }
        },
        MessagePayload::GetQueryStatusResp(query::GetQueryStatusResp::Status(s)) => {
            let parts = status_parts(s);
            out.push(WireVal::U8(0));
            out.push(WireVal::U8(parts.0));
            out.push(WireVal::Bytes(parts.1));
            out.push(WireVal::U64(parts.2));
            proof {
                lemma_views_of_index(out@);
                assert(views_of(out@) =~~= payload_fields(p@));
            }
        },
        MessagePayload::GetQueryStatusResp(query::GetQueryStatusResp::QueryNotFound) => {
            out.push(WireVal::U8(1));
            out.push(WireVal::U8(0));
            out.push(WireVal::Bytes(Vec::new()));
            out.push(WireVal::U64(0));
            proof {
                lemma_views_of_index(out@);
                assert(views_of(out@) =~~= payload_fields(p@));
            }
        },
        MessagePayload::GetQueryData(q) => {
            out.push(WireVal::U8(0));
            out.push(WireVal::U128(q.query_id));
            out.push(WireVal::U64(q.file_idx));
            out.push(WireVal::U64(q.file_row_group_idx));
            out.push(WireVal::U64(q.row_idx));
            out.push(WireVal::U64(q.limit));
            out.push(WireVal::U8(if q.forward { 1 } else { 0 }));
            proof {
                lemma_views_of_index(out@);
                assert(views_of(out@) =~~= payload_fields(p@));
            }
        },
        MessagePayload::GetQueryDataResp(query::GetQueryDataResp::Record { record, offsets }) => {
            out.push(WireVal::U8(0));
            out.push(WireVal::Bytes(clone_bytes(record)));
            out.push(WireVal::Trips(clone_trips(offsets)));
            out.push(WireVal::Bytes(Vec::new()));
            proof {
                lemma_views_of_index(out@);
                assert(views_of(out@) =~~= payload_fields(p@));
            }
        },
        MessagePayload::GetQueryDataResp(query::GetQueryDataResp::RecordRowGroupNotFound) => {
            out.push(WireVal::U8(1));
            out.push(WireVal::Bytes(Vec::new()));
            out.push(WireVal::Trips(Vec::new()));
            out.push(WireVal::Bytes(Vec::new()));
            proof {
                lemma_views_of_index(out@);
                assert(views_of(out@) =~~= payload_fields(p@));
            }
        },
        MessagePayload::GetQueryDataResp(query::GetQueryDataResp::ReachedEndOfFiles) => {
            out.push(WireVal::U8(2));
            out.push(WireVal::Bytes(Vec::new()));
            out.push(WireVal::Trips(Vec::new()));
            out.push(WireVal::Bytes(Vec::new()));
            proof {
                lemma_views_of_index(out@);
                assert(views_of(out@) =~~= payload_fields(p@));
            }
        },
        MessagePayload::GetQueryDataResp(query::GetQueryDataResp::Error { err }) => {
            out.push(WireVal::U8(3));
            out.push(WireVal::Bytes(Vec::new()));
            out.push(WireVal::Trips(Vec::new()));
            out.push(WireVal::Bytes(clone_bytes(err)));
            proof {
                lemma_views_of_index(out@);
                assert(views_of(out@) =~~= payload_fields(p@));
            }
        },
        MessagePayload::OperatorInstanceAvailable(
            query::OperatorInstanceAvailable::Notification,
        ) => {
            out.push(WireVal::U8(0));
            out.push(WireVal::U64(0));
            out.push(WireVal::U64(0));
            out.push(WireVal::U64(0));
            proof {
                lemma_views_of_index(out@);
                assert(views_of(out@) =~~= payload_fields(p@));
            }
        },
        MessagePayload::OperatorInstanceAvailable(
            query::OperatorInstanceAvailable::NotificationResponse { can_accept_up_to },
        ) => {
            out.push(WireVal::U8(1));
            out.push(WireVal::U64(can_accept_up_to.instances));
            out.push(WireVal::U64(can_accept_up_to.memory_in_mib));
            out.push(WireVal::U64(can_accept_up_to.cpu_in_thousandths));
            proof {
                lemma_views_of_index(out@);
                assert(views_of(out@) =~~= payload_fields(p@));
            }
        },
        MessagePayload::OperatorInstanceAssignment(query::OperatorInstanceAssignment::Assign {
            query_handler_worker_id,
            query_id,
            op_instance_id,
            pipeline_id,
            operator,
        }) => {
            out.push(WireVal::U8(0));
            out.push(WireVal::U128(*query_handler_worker_id));
            out.push(WireVal::U128(*query_id));
            out.push(WireVal::U128(*op_instance_id));
            out.push(WireVal::Bytes(clone_bytes(pipeline_id)));
            out.push(WireVal::Bytes(clone_bytes(&operator.id)));
            match &operator.operator_type {
                OperatorType::Producer { outbound_exchange_id } => {
                    out.push(WireVal::U8(0));
                    out.push(WireVal::Bytes(clone_bytes(outbound_exchange_id)));
                },
                OperatorType::Exchange => {
                    out.push(WireVal::U8(1));
                    out.push(WireVal::Bytes(Vec::new()));
                },
            }
            out.push(WireVal::U64(operator.compute.instances));
            out.push(WireVal::U64(operator.compute.memory_in_mib));
            out.push(WireVal::U64(operator.compute.cpu_in_thousandths));
            out.push(WireVal::Bytes(Vec::new()));
            proof {
                lemma_views_of_index(out@);
                assert(views_of(out@) =~~= payload_fields(p@));
            }
        },
        MessagePayload::OperatorInstanceAssignment(
            query::OperatorInstanceAssignment::AssignAcceptedResponse {
                query_id,
                op_instance_id,
            },
        ) => {
            out.push(WireVal::U8(1));
            out.push(WireVal::U128(0));
            out.push(WireVal::U128(*query_id));
            out.push(WireVal::U128(*op_instance_id));
            out.push(WireVal::Bytes(Vec::new()));
            out.push(WireVal::Bytes(Vec::new()));
            out.push(WireVal::U8(0));
            out.push(WireVal::Bytes(Vec::new()));
            out.push(WireVal::U64(0));
            out.push(WireVal::U64(0));
            out.push(WireVal::U64(0));
            out.push(WireVal::Bytes(Vec::new()));
            proof {
                lemma_views_of_index(out@);
                assert(views_of(out@) =~~= payload_fields(p@));
            }
        },
        MessagePayload::OperatorInstanceAssignment(
            query::OperatorInstanceAssignment::AssignRejectedResponse {
                query_id,
                op_instance_id,
                error,
            },
        ) => {
            out.push(WireVal::U8(2));
            out.push(WireVal::U128(0));
            out.push(WireVal::U128(*query_id));
            out.push(WireVal::U128(*op_instance_id));
            out.push(WireVal::Bytes(Vec::new()));
            out.push(WireVal::Bytes(Vec::new()));
            out.push(WireVal::U8(0));
            out.push(WireVal::Bytes(Vec::new()));
            out.push(WireVal::U64(0));
            out.push(WireVal::U64(0));
            out.push(WireVal::U64(0));
            out.push(WireVal::Bytes(clone_bytes(error)));
            proof {
                lemma_views_of_index(out@);
                assert(views_of(out@) =~~= payload_fields(p@));
            }
        },
        MessagePayload::QueryHandlerRequests(
            query::QueryHandlerRequests::ListOperatorInstancesRequest { query_id, operator_id },
        ) => {
            out.push(WireVal::U8(0));
            out.push(WireVal::U128(*query_id));
            out.push(WireVal::Bytes(clone_bytes(operator_id)));
            out.push(WireVal::Ids(Vec::new()));
            proof {
                lemma_views_of_index(out@);
                assert(views_of(out@) =~~= payload_fields(p@));
            }
        },
        MessagePayload::QueryHandlerRequests(
            query::QueryHandlerRequests::ListOperatorInstancesResponse { op_instance_ids },
        ) => {
            out.push(WireVal::U8(1));
            out.push(WireVal::U128(0));
            out.push(WireVal::Bytes(Vec::new()));
            out.push(WireVal::Ids(clone_ids(op_instance_ids)));
            proof {
                lemma_views_of_index(out@);
                assert(views_of(out@) =~~= payload_fields(p@));
            }
        },
        MessagePayload::QueryOperatorInstanceStatusChange(
            query::OperatorInstanceStatusChange::Complete { query_id, operator_instance_id },
        ) => {
            out.push(WireVal::U8(0));
            out.push(WireVal::U128(*query_id));
            out.push(WireVal::U128(*operator_instance_id));
            out.push(WireVal::Bytes(Vec::new()));
            proof {
                lemma_views_of_index(out@);
                assert(views_of(out@) =~~= payload_fields(p@));
            }
        },
        MessagePayload::QueryOperatorInstanceStatusChange(
            query::OperatorInstanceStatusChange::Error {
                query_id,
                operator_instance_id,
                error,
            },
        ) => {
            out.push(WireVal::U8(1));
            out.push(WireVal::U128(*query_id));
            out.push(WireVal::U128(*operator_instance_id));
            out.push(WireVal::Bytes(clone_bytes(error)));
            proof {
                lemma_views_of_index(out@);
                assert(views_of(out@) =~~= payload_fields(p@));
            }
        },
        MessagePayload::OperatorShutdown(operator::Shutdown::Immediate) => {
            out.push(WireVal::U8(0));
            proof {
                lemma_views_of_index(out@);
                assert(views_of(out@) =~~= payload_fields(p@));
            }
        },
        MessagePayload::OperatorOperatorInstanceStatusChange(
            operator::OperatorInstanceStatusChange::Complete,
        ) => {
            out.push(WireVal::U8(0));
            out.push(WireVal::Bytes(Vec::new()));
            proof {
                lemma_views_of_index(out@);
                assert(views_of(out@) =~~= payload_fields(p@));
            }
        },
        MessagePayload::OperatorOperatorInstanceStatusChange(
            operator::OperatorInstanceStatusChange::Error(e),
        ) => {
            out.push(WireVal::U8(1));
            out.push(WireVal::Bytes(clone_bytes(e)));
            proof {
                lemma_views_of_index(out@);
                assert(views_of(out@) =~~= payload_fields(p@));
            }
        },
        MessagePayload::ExchangeRequests(exchange::ExchangeRequests::SendRecordRequest {
            record,
            table_aliases,
        }) => {
            out.push(WireVal::U8(0));
            out.push(WireVal::U64(0));
            out.push(WireVal::Bytes(clone_bytes(record)));
            out.push(WireVal::Texts(clone_texts(table_aliases)));
            out.push(WireVal::Bytes(Vec::new()));
            out.push(WireVal::U8(0));
            proof {
                lemma_views_of_index(out@);
                assert(views_of(out@) =~~= payload_fields(p@));
            }
        },
        MessagePayload::ExchangeRequests(exchange::ExchangeRequests::SendRecordResponse {
            accepted,
            record_id,
        }) => {
            out.push(WireVal::U8(1));
            out.push(WireVal::U64(*record_id));
            out.push(WireVal::Bytes(Vec::new()));
            out.push(WireVal::Texts(Vec::new()));
            out.push(WireVal::Bytes(Vec::new()));
            out.push(WireVal::U8(if *accepted { 1 } else { 0 }));
            proof {
                lemma_views_of_index(out@);
                assert(views_of(out@) =~~= payload_fields(p@));
            }
        },
        MessagePayload::ExchangeRequests(exchange::ExchangeRequests::GetNextRecordRequest {
            operator_id,
        }) => {
            out.push(WireVal::U8(2));
            out.push(WireVal::U64(0));
            out.push(WireVal::Bytes(Vec::new()));
            out.push(WireVal::Texts(Vec::new()));
            out.push(WireVal::Bytes(clone_bytes(operator_id)));
            out.push(WireVal::U8(0));
            proof {
                lemma_views_of_index(out@);
                assert(views_of(out@) =~~= payload_fields(p@));
            }
        },
        MessagePayload::ExchangeRequests(
            exchange::ExchangeRequests::GetNextRecordResponseRecord {
                record_id,
                record,
                table_aliases,
            },
        ) => {
            out.push(WireVal::U8(3));
            out.push(WireVal::U64(*record_id));
            out.push(WireVal::Bytes(clone_bytes(record)));
            out.push(WireVal::Texts(clone_texts(table_aliases)));
            out.push(WireVal::Bytes(Vec::new()));
            out.push(WireVal::U8(0));
            proof {
                lemma_views_of_index(out@);
                assert(views_of(out@) =~~= payload_fields(p@));
            }
        },
        MessagePayload::ExchangeRequests(
            exchange::ExchangeRequests::GetNextRecordResponseNoneLeft,
        ) => {
            out.push(WireVal::U8(4));
            out.push(WireVal::U64(0));
            out.push(WireVal::Bytes(Vec::new()));
            out.push(WireVal::Texts(Vec::new()));
            out.push(WireVal::Bytes(Vec::new()));
            out.push(WireVal::U8(0));
            proof {
                lemma_views_of_index(out@);
                assert(views_of(out@) =~~= payload_fields(p@));
            }
        },
        MessagePayload::ExchangeRequests(
            exchange::ExchangeRequests::CompletedRecordProcessingRequest {
                operator_id,
                record_id,
            },
        ) => {
            out.push(WireVal::U8(5));
            out.push(WireVal::U64(*record_id));
            out.push(WireVal::Bytes(Vec::new()));
            out.push(WireVal::Texts(Vec::new()));
            out.push(WireVal::Bytes(clone_bytes(operator_id)));
            out.push(WireVal::U8(0));
            proof {
                lemma_views_of_index(out@);
                assert(views_of(out@) =~~= payload_fields(p@));
            }
        },
        MessagePayload::ExchangeOperatorStatusChange(
            exchange::OperatorStatusChange::Completed { operator_id },
        ) => {
            out.push(WireVal::U8(0));
            out.push(WireVal::Bytes(clone_bytes(operator_id)));
            proof {
                lemma_views_of_index(out@);
                assert(views_of(out@) =~~= payload_fields(p@));
            }
        },
    }
    out
}

} // verus!

verus! {

fn ff_ping(vals: &Vec<WireVal>) -> (r: Option<MessagePayload>)
    ensures
        match pf_ping(views_of(vals@)) {
            Some(p) => r is Some && r.unwrap()@ == p,
            None => r is None,
        },
{
    proof {
        lemma_views_of_index(vals@);
    }
    if vals.len() != 1 {
        return None;
    }
    match &vals[0] {
        WireVal::U8(t) => {
            if *t == 0 {
                Some(MessagePayload::Ping(common::Ping::Ping))
            } else if *t == 1 {
                Some(MessagePayload::Ping(common::Ping::Pong))
            } else {
                None
            }
        },
        _ => None,
    }
}

fn ff_identify(vals: &Vec<WireVal>) -> (r: Option<MessagePayload>)
    ensures
        match pf_identify(views_of(vals@)) {
            Some(p) => r is Some && r.unwrap()@ == p,
            None => r is None,
        },
{
    proof {
        lemma_views_of_index(vals@);
    }
    if vals.len() != 2 {
        return None;
    }
    match (&vals[0], &vals[1]) {
        (WireVal::U8(t), WireVal::U128(id)) => {
            if *t == 0 {
                Some(MessagePayload::Identify(common::Identify::Worker { id: *id }))
            } else if *t == 1 {
                Some(MessagePayload::Identify(common::Identify::Connection { id: *id }))
            } else {
                None
            }
        },
        _ => None,
    }
}

fn ff_generic_response(vals: &Vec<WireVal>) -> (r: Option<MessagePayload>)
    ensures
        match pf_generic_response(views_of(vals@)) {
            Some(p) => r is Some && r.unwrap()@ == p,
            None => r is None,
        },
{
    proof {
        lemma_views_of_index(vals@);
    }
    if vals.len() != 1 {
        return None;
    }
    match &vals[0] {
        WireVal::U8(t) => {
            if *t == 0 {
                Some(MessagePayload::GenericResponse(common::GenericResponse::Okay))
            } else {
                None
            }
        },
        _ => None,
    }
}

fn ff_run_query(vals: &Vec<WireVal>) -> (r: Option<MessagePayload>)
    ensures
        match pf_run_query(views_of(vals@)) {
            Some(p) => r is Some && r.unwrap()@ == p,
            None => r is None,
        },
{
    proof {
        lemma_views_of_index(vals@);
    }
    if vals.len() != 2 {
        return None;
    }
    match (&vals[0], &vals[1]) {
        (WireVal::U8(t), WireVal::Bytes(q)) => {
            if *t == 0 {
                Some(MessagePayload::RunQuery(query::RunQuery { query: clone_bytes(q) }))
            } else {
                None
            }
        },
        _ => None,
    }
}

fn ff_run_query_resp(vals: &Vec<WireVal>) -> (r: Option<MessagePayload>)
    ensures
        match pf_run_query_resp(views_of(vals@)) {
            Some(p) => r is Some && r.unwrap()@ == p,
            None => r is None,
        },
{
    proof {
        lemma_views_of_index(vals@);
    }
    if vals.len() != 2 {
        return None;
    }
    match (&vals[0], &vals[1]) {
        (WireVal::U8(t), WireVal::U128(id)) => {
            if *t == 0 {
                Some(MessagePayload::RunQueryResp(query::RunQueryResp::Created {
                    query_id: *id,
                }))
            } else if *t == 1 {
                Some(MessagePayload::RunQueryResp(query::RunQueryResp::NotCreated))
            } else {
                None
            }
        },
        _ => None,
    }
}

fn ff_get_query_status(vals: &Vec<WireVal>) -> (r: Option<MessagePayload>)
    ensures
        match pf_get_query_status(views_of(vals@)) {
            Some(p) => r is Some && r.unwrap()@ == p,
            None => r is None,
        },
{
    proof {
        lemma_views_of_index(vals@);
    }
    if vals.len() != 2 {
        return None;
    }
    match (&vals[0], &vals[1]) {
        (WireVal::U8(t), WireVal::U128(id)) => {
            if *t == 0 {
                Some(MessagePayload::GetQueryStatus(query::GetQueryStatus { query_id: *id }))
            } else {
                None
            }
        },
        _ => None,
    }
}

fn ff_get_query_status_resp(vals: &Vec<WireVal>) -> (r: Option<MessagePayload>)
    ensures
        match pf_get_query_status_resp(views_of(vals@)) {
            Some(p) => r is Some && r.unwrap()@ == p,
            None => r is None,
        },
{
    proof {
        lemma_views_of_index(vals@);
    }
    if vals.len() != 4 {
        return None;
    }
    match (&vals[0], &vals[1], &vals[2], &vals[3]) {
        (WireVal::U8(t), WireVal::U8(st), WireVal::Bytes(err), WireVal::U64(ts)) => {
            if *t == 0 {
                match status_from(*st, clone_bytes(err), *ts) {
                    Some(s) => Some(MessagePayload::GetQueryStatusResp(
                        query::GetQueryStatusResp::Status(s),
                    )),
                    None => None,
                }
            } else if *t == 1 {
                Some(MessagePayload::GetQueryStatusResp(
                    query::GetQueryStatusResp::QueryNotFound,
                ))
            } else {
                None
            }
        },
        _ => None,
    }
}

fn ff_get_query_data(vals: &Vec<WireVal>) -> (r: Option<MessagePayload>)
    ensures
        match pf_get_query_data(views_of(vals@)) {
            Some(p) => r is Some && r.unwrap()@ == p,
            None => r is None,
        },
{
    proof {
        lemma_views_of_index(vals@);
    }
    if vals.len() != 7 {
        return None;
    }
    match (&vals[0], &vals[1], &vals[2], &vals[3], &vals[4], &vals[5], &vals[6]) {
        (
            WireVal::U8(t),
            WireVal::U128(qid),
            WireVal::U64(f),
            WireVal::U64(rg),
            WireVal::U64(row),
            WireVal::U64(limit),
            WireVal::U8(fwd),
        ) => {
            if *t == 0 {
                Some(MessagePayload::GetQueryData(query::GetQueryData {
                    query_id: *qid,
                    file_idx: *f,
                    file_row_group_idx: *rg,
                    row_idx: *row,
                    limit: *limit,
                    forward: *fwd != 0,
                }))
            } else {
                None
            }
        },
        _ => None,
    }
}

fn ff_get_query_data_resp(vals: &Vec<WireVal>) -> (r: Option<MessagePayload>)
    ensures
        match pf_get_query_data_resp(views_of(vals@)) {
            Some(p) => r is Some && r.unwrap()@ == p,
            None => r is None,
        },
{
    proof {
        lemma_views_of_index(vals@);
    }
    if vals.len() != 4 {
        return None;
    }
    match (&vals[0], &vals[1], &vals[2], &vals[3]) {
        (WireVal::U8(t), WireVal::Bytes(record), WireVal::Trips(offsets), WireVal::Bytes(err)) => {
            if *t == 0 {
                Some(MessagePayload::GetQueryDataResp(query::GetQueryDataResp::Record {
                    record: clone_bytes(record),
                    offsets: clone_trips(offsets),
                }))
            } else if *t == 1 {
                Some(MessagePayload::GetQueryDataResp(
                    query::GetQueryDataResp::RecordRowGroupNotFound,
                ))
            } else if *t == 2 {
                Some(MessagePayload::GetQueryDataResp(
                    query::GetQueryDataResp::ReachedEndOfFiles,
                ))
            } else if *t == 3 {
                Some(MessagePayload::GetQueryDataResp(query::GetQueryDataResp::Error {
                    err: clone_bytes(err),
                }))
            } else {
                None
            }
        },
        _ => None,
    }
}

fn ff_operator_instance_available(vals: &Vec<WireVal>) -> (r: Option<MessagePayload>)
    ensures
        match pf_operator_instance_available(views_of(vals@)) {
            Some(p) => r is Some && r.unwrap()@ == p,
            None => r is None,
        },
{
    proof {
        lemma_views_of_index(vals@);
    }
    if vals.len() != 4 {
        return None;
    }
    match (&vals[0], &vals[1], &vals[2], &vals[3]) {
        (WireVal::U8(t), WireVal::U64(inst), WireVal::U64(mem), WireVal::U64(cpu)) => {
            if *t == 0 {
                Some(MessagePayload::OperatorInstanceAvailable(
                    query::OperatorInstanceAvailable::Notification,
                ))
            } else if *t == 1 {
                Some(MessagePayload::OperatorInstanceAvailable(
                    query::OperatorInstanceAvailable::NotificationResponse {
                        can_accept_up_to: TotalOperatorCompute {
                            instances: *inst,
                            memory_in_mib: *mem,
                            cpu_in_thousandths: *cpu,
                        },
                    },
                ))
            } else {
                None
            }
        },
        _ => None,
    }
}

#[verifier::rlimit(100)]
fn ff_operator_instance_assignment(vals: &Vec<WireVal>) -> (r: Option<MessagePayload>)
    ensures
        match pf_operator_instance_assignment(views_of(vals@)) {
            Some(p) => r is Some && r.unwrap()@ == p,
            None => r is None,
        },
{
    proof {
        lemma_views_of_index(vals@);
    }
    if vals.len() != 12 {
        return None;
    }
    match (
        &vals[0],
        &vals[1],
        &vals[2],
        &vals[3],
        &vals[4],
        &vals[5],
        &vals[6],
        &vals[7],
        &vals[8],
        &vals[9],
        &vals[10],
        &vals[11],
    ) {
        (
            WireVal::U8(t),
            WireVal::U128(qhw),
            WireVal::U128(qid),
            WireVal::U128(opin),
            WireVal::Bytes(pipe),
            WireVal::Bytes(opid),
            WireVal::U8(ot),
            WireVal::Bytes(exid),
            WireVal::U64(inst),
            WireVal::U64(mem),
            WireVal::U64(cpu),
            WireVal::Bytes(err),
        ) => {
            if *t == 0 {
                let operator_type = if *ot == 0 {
                    Some(OperatorType::Producer { outbound_exchange_id: clone_bytes(exid) })
                } else if *ot == 1 {
                    Some(OperatorType::Exchange)
                } else {
                    None
                };
                match operator_type {
                    Some(o) => Some(MessagePayload::OperatorInstanceAssignment(
                        query::OperatorInstanceAssignment::Assign {
                            query_handler_worker_id: *qhw,
                            query_id: *qid,
                            op_instance_id: *opin,
                            pipeline_id: clone_bytes(pipe),
                            operator: Operator {
                                id: clone_bytes(opid),
                                operator_type: o,
                                compute: OperatorCompute {
                                    instances: *inst,
                                    memory_in_mib: *mem,
                                    cpu_in_thousandths: *cpu,
                                },
                            },
                        },
                    )),
                    None => None,
                }
            } else if *t == 1 {
                Some(MessagePayload::OperatorInstanceAssignment(
                    query::OperatorInstanceAssignment::AssignAcceptedResponse {
                        query_id: *qid,
                        op_instance_id: *opin,
                    },
                ))
            } else if *t == 2 {
                Some(MessagePayload::OperatorInstanceAssignment(
                    query::OperatorInstanceAssignment::AssignRejectedResponse {
                        query_id: *qid,
                        op_instance_id: *opin,
                        error: clone_bytes(err),
                    },
                ))
            } else {
                None
            }
        },
        _ => None,
    }
}

fn ff_query_handler_requests(vals: &Vec<WireVal>) -> (r: Option<MessagePayload>)
    ensures
        match pf_query_handler_requests(views_of(vals@)) {
            Some(p) => r is Some && r.unwrap()@ == p,
            None => r is None,
        },
{
    proof {
        lemma_views_of_index(vals@);
    }
    if vals.len() != 4 {
        return None;
    }
    match (&vals[0], &vals[1], &vals[2], &vals[3]) {
        (WireVal::U8(t), WireVal::U128(qid), WireVal::Bytes(opid), WireVal::Ids(ids)) => {
            if *t == 0 {
                Some(MessagePayload::QueryHandlerRequests(
                    query::QueryHandlerRequests::ListOperatorInstancesRequest {
                        query_id: *qid,
                        operator_id: clone_bytes(opid),
                    },
                ))
            } else if *t == 1 {
                Some(MessagePayload::QueryHandlerRequests(
                    query::QueryHandlerRequests::ListOperatorInstancesResponse {
                        op_instance_ids: clone_ids(ids),
                    },
                ))
            } else {
                None
            }
        },
        _ => None,
    }
}

fn ff_query_operator_instance_status_change(vals: &Vec<WireVal>) -> (r: Option<MessagePayload>)
    ensures
        match pf_query_operator_instance_status_change(views_of(vals@)) {
            Some(p) => r is Some && r.unwrap()@ == p,
            None => r is None,
        },
{
    proof {
        lemma_views_of_index(vals@);
    }
    if vals.len() != 4 {
        return None;
    }
    match (&vals[0], &vals[1], &vals[2], &vals[3]) {
        (WireVal::U8(t), WireVal::U128(qid), WireVal::U128(oin), WireVal::Bytes(err)) => {
            if *t == 0 {
                Some(MessagePayload::QueryOperatorInstanceStatusChange(
                    query::OperatorInstanceStatusChange::Complete {
                        query_id: *qid,
                        operator_instance_id: *oin,
                    },
                ))
            } else if *t == 1 {
                Some(MessagePayload::QueryOperatorInstanceStatusChange(
                    query::OperatorInstanceStatusChange::Error {
                        query_id: *qid,
                        operator_instance_id: *oin,
                        error: clone_bytes(err),
                    },
                ))
            } else {
                None
            }
        },
        _ => None,
    }
}

fn ff_operator_shutdown(vals: &Vec<WireVal>) -> (r: Option<MessagePayload>)
    ensures
        match pf_operator_shutdown(views_of(vals@)) {
            Some(p) => r is Some && r.unwrap()@ == p,
            None => r is None,
        },
{
    proof {
        lemma_views_of_index(vals@);
    }
    if vals.len() != 1 {
        return None;
    }
    match &vals[0] {
        WireVal::U8(t) => {
            if *t == 0 {
                Some(MessagePayload::OperatorShutdown(operator::Shutdown::Immediate))
            } else {
                None
            }
        },
        _ => None,
    }
}

fn ff_operator_operator_instance_status_change(vals: &Vec<WireVal>) -> (r: Option<MessagePayload>)
    ensures
        match pf_operator_operator_instance_status_change(views_of(vals@)) {
            Some(p) => r is Some && r.unwrap()@ == p,
            None => r is None,
        },
{
    proof {
        lemma_views_of_index(vals@);
    }
    if vals.len() != 2 {
        return None;
    }
    match (&vals[0], &vals[1]) {
        (WireVal::U8(t), WireVal::Bytes(err)) => {
            if *t == 0 {
                Some(MessagePayload::OperatorOperatorInstanceStatusChange(
                    operator::OperatorInstanceStatusChange::Complete,
                ))
            } else if *t == 1 {
                Some(MessagePayload::OperatorOperatorInstanceStatusChange(
                    operator::OperatorInstanceStatusChange::Error(clone_bytes(err)),
                ))
            } else {
                None
            }
        },
        _ => None,
    }
}

#[verifier::rlimit(100)]
fn ff_exchange_requests(vals: &Vec<WireVal>) -> (r: Option<MessagePayload>)
    ensures
        match pf_exchange_requests(views_of(vals@)) {
            Some(p) => r is Some && r.unwrap()@ == p,
            None => r is None,
        },
{
    proof {
        lemma_views_of_index(vals@);
    }
    if vals.len() != 6 {
        return None;
    }
    match (&vals[0], &vals[1], &vals[2], &vals[3], &vals[4], &vals[5]) {
        (
            WireVal::U8(t),
            WireVal::U64(rid),
            WireVal::Bytes(record),
            WireVal::Texts(aliases),
            WireVal::Bytes(opid),
            WireVal::U8(acc),
        ) => {
            if *t == 0 {
                Some(MessagePayload::ExchangeRequests(
                    exchange::ExchangeRequests::SendRecordRequest {
                        record: clone_bytes(record),
                        table_aliases: clone_texts(aliases),
                    },
                ))
            } else if *t == 1 {
                Some(MessagePayload::ExchangeRequests(
                    exchange::ExchangeRequests::SendRecordResponse {
                        accepted: *acc != 0,
                        record_id: *rid,
                    },
                ))
            } else if *t == 2 {
                Some(MessagePayload::ExchangeRequests(
                    exchange::ExchangeRequests::GetNextRecordRequest {
                        operator_id: clone_bytes(opid),
                    },
                ))
            } else if *t == 3 {
                Some(MessagePayload::ExchangeRequests(
                    exchange::ExchangeRequests::GetNextRecordResponseRecord {
                        record_id: *rid,
                        record: clone_bytes(record),
                        table_aliases: clone_texts(aliases),
                    },
                ))
            } else if *t == 4 {
                Some(MessagePayload::ExchangeRequests(
                    exchange::ExchangeRequests::GetNextRecordResponseNoneLeft,
                ))
            } else if *t == 5 {
                Some(MessagePayload::ExchangeRequests(
                    exchange::ExchangeRequests::CompletedRecordProcessingRequest {
                        operator_id: clone_bytes(opid),
                        record_id: *rid,
                    },
                ))
            } else {
                None
            }
        },
        _ => None,
    }
}

fn ff_exchange_operator_status_change(vals: &Vec<WireVal>) -> (r: Option<MessagePayload>)
    ensures
        match pf_exchange_operator_status_change(views_of(vals@)) {
            Some(p) => r is Some && r.unwrap()@ == p,
            None => r is None,
        },
{
    proof {
        lemma_views_of_index(vals@);
    }
    if vals.len() != 2 {
        return None;
    }
    match (&vals[0], &vals[1]) {
        (WireVal::U8(t), WireVal::Bytes(opid)) => {
            if *t == 0 {
                Some(MessagePayload::ExchangeOperatorStatusChange(
                    exchange::OperatorStatusChange::Completed {
                        operator_id: clone_bytes(opid),
                    },
                ))
            } else {
                None
            }
        },
        _ => None,
    }
}

/// Parses a field list as a payload of the given kind.
pub fn payload_from_fields(name: MessageName, vals: &Vec<WireVal>) -> (r: Option<MessagePayload>)
    ensures
        match payload_of_fields(name, views_of(vals@)) {
            Some(p) => r is Some && r.unwrap()@ == p,
            None => r is None,
        },
{
    match name {
        MessageName::Ping => ff_ping(vals),
        MessageName::Identify => ff_identify(vals),
        MessageName::GenericResponse => ff_generic_response(vals),
        MessageName::RunQuery => ff_run_query(vals),
        MessageName::RunQueryResp => ff_run_query_resp(vals),
        MessageName::GetQueryStatus => ff_get_query_status(vals),
        MessageName::GetQueryStatusResp => ff_get_query_status_resp(vals),
        MessageName::GetQueryData => ff_get_query_data(vals),
        MessageName::GetQueryDataResp => ff_get_query_data_resp(vals),
        MessageName::OperatorInstanceAvailable => ff_operator_instance_available(vals),
        MessageName::OperatorInstanceAssignment => ff_operator_instance_assignment(vals),
        MessageName::QueryHandlerRequests => ff_query_handler_requests(vals),
        MessageName::QueryOperatorInstanceStatusChange => ff_query_operator_instance_status_change(
            vals,
        ),
        MessageName::OperatorShutdown => ff_operator_shutdown(vals),
        MessageName::OperatorOperatorInstanceStatusChange => {
            ff_operator_operator_instance_status_change(vals)
        },
        MessageName::ExchangeRequests => ff_exchange_requests(vals),
        MessageName::ExchangeOperatorStatusChange => ff_exchange_operator_status_change(vals),
    }
}

} // verus!

verus! {

// ---------------------------------------------------------------------------
// The wire frame
//
// total_len : u32 | data_len : u64 | header_version : u16 | kind_id : u16 |
// msg_id : u128 | sent_from_flags : u8 | 4 x u128 sent_from |
// routing_flags : u8 | 3 x u128 route_to | payload[data_len]
//
// All integers big-endian. `total_len` counts everything after itself:
// the 142 fixed header bytes plus the payload.
// ---------------------------------------------------------------------------

/// The fixed byte count of the frame header after the leading `total_len`.
pub const HEADER_LEN: u32 = 142;

/// The largest payload a frame can carry with `total_len` still a u32.
pub const MAX_DATA_LEN: u32 = u32::MAX - 142;

#[derive(Debug, Clone, PartialEq, Eq)]
pub enum SerializedMessageError {
    /// More bytes are needed before the frame can be decoded.
    Incomplete,
    /// The kind id is not registered.
    BadKind(u16),
    /// The frame or its payload contradicts the format.
    Malformed,
    /// The payload does not fit a frame.
    PayloadTooLarge,
}

/// A decoded wire frame: the raw header fields and the payload bytes.
/// Absent optional ids travel as zero, with the flag bit cleared.
#[derive(Debug, Clone, PartialEq, Eq)]
pub struct SerializedMessage {
    pub data_len: u64,
    pub header_version: u16,
    pub msg_name_id: u16,
    pub msg_id: u128,
    pub sent_from_flags: u8,
    pub sent_from_worker_id: u128,
    pub sent_from_pipeline_id: u128,
    pub sent_from_operation_id: u128,
    pub sent_from_connection_id: u128,
    pub routing_flags: u8,
    pub route_to_worker_id: u128,
    pub route_to_operation_id: u128,
    pub route_to_connection_id: u128,
    pub msg_data: Vec<u8>,
}

#[verifier::ext_equal]
pub struct SerializedMessageV {
    pub data_len: u64,
    pub header_version: u16,
    pub msg_name_id: u16,
    pub msg_id: u128,
    pub sent_from_flags: u8,
    pub sent_from_worker_id: u128,
    pub sent_from_pipeline_id: u128,
    pub sent_from_operation_id: u128,
    pub sent_from_connection_id: u128,
    pub routing_flags: u8,
    pub route_to_worker_id: u128,
    pub route_to_operation_id: u128,
    pub route_to_connection_id: u128,
    pub msg_data: Seq<u8>,
}

impl View for SerializedMessage {
    type V = SerializedMessageV;

    open spec fn view(&self) -> SerializedMessageV {
        SerializedMessageV {
            data_len: self.data_len,
            header_version: self.header_version,
            msg_name_id: self.msg_name_id,
            msg_id: self.msg_id,
            sent_from_flags: self.sent_from_flags,
            sent_from_worker_id: self.sent_from_worker_id,
            sent_from_pipeline_id: self.sent_from_pipeline_id,
            sent_from_operation_id: self.sent_from_operation_id,
            sent_from_connection_id: self.sent_from_connection_id,
            routing_flags: self.routing_flags,
            route_to_worker_id: self.route_to_worker_id,
            route_to_operation_id: self.route_to_operation_id,
            route_to_connection_id: self.route_to_connection_id,
            msg_data: self.msg_data@,
        }
    }
}

/// The id carried on the wire for an optional id: the id itself or zero.
pub open spec fn opt_id(o: Option<u128>) -> u128 {
    match o {
        Some(i) => i,
        None => 0,
    }
}

/// One when the optional id is present, zero when absent.
pub open spec fn flag_bit(o: Option<u128>) -> u8 {
    if o is Some {
        1
    } else {
        0
    }
}

pub open spec fn sf_flags(m: MessageV) -> u8 {
    (flag_bit(m.sent_from_worker_id) + 2 * flag_bit(m.sent_from_pipeline_id) + 4 * flag_bit(
        m.sent_from_operation_id,
    ) + 8 * flag_bit(m.sent_from_connection_id)) as u8
}

pub open spec fn rt_flags(m: MessageV) -> u8 {
    (flag_bit(m.route_to_worker_id) + 2 * flag_bit(m.route_to_operation_id) + 4 * flag_bit(
        m.route_to_connection_id,
    )) as u8
}

/// The payload bytes of a message value.
pub open spec fn payload_bytes(p: PayloadV) -> Seq<u8> {
    enc_vals(payload_fields(p))
}

/// A payload is encodable when every contained length fits its u64 count.
pub open spec fn payload_wf(p: PayloadV) -> bool {
    vals_wf(payload_fields(p))
}

/// The frame a message value serializes to.
pub open spec fn sm_of_message(m: MessageV) -> SerializedMessageV {
    SerializedMessageV {
        data_len: payload_bytes(m.msg).len() as u64,
        header_version: 0,
        msg_name_id: name_u16(payload_name(m.msg)),
        msg_id: m.msg_id,
        sent_from_flags: sf_flags(m),
        sent_from_worker_id: opt_id(m.sent_from_worker_id),
        sent_from_pipeline_id: opt_id(m.sent_from_pipeline_id),
        sent_from_operation_id: opt_id(m.sent_from_operation_id),
        sent_from_connection_id: opt_id(m.sent_from_connection_id),
        routing_flags: rt_flags(m),
        route_to_worker_id: opt_id(m.route_to_worker_id),
        route_to_operation_id: opt_id(m.route_to_operation_id),
        route_to_connection_id: opt_id(m.route_to_connection_id),
        msg_data: payload_bytes(m.msg),
    }
}

/// The byte form of a frame.
pub open spec fn ser_bytes(sm: SerializedMessageV) -> Seq<u8> {
    enc_u32(((HEADER_LEN as int) + sm.data_len) as u32) + enc_u64(sm.data_len) + enc_u16(
        sm.header_version,
    ) + enc_u16(sm.msg_name_id) + enc_u128(sm.msg_id) + enc_u8(sm.sent_from_flags) + enc_u128(
        sm.sent_from_worker_id,
    ) + enc_u128(sm.sent_from_pipeline_id) + enc_u128(sm.sent_from_operation_id) + enc_u128(
        sm.sent_from_connection_id,
    ) + enc_u8(sm.routing_flags) + enc_u128(sm.route_to_worker_id) + enc_u128(
        sm.route_to_operation_id,
    ) + enc_u128(sm.route_to_connection_id) + sm.msg_data
}

/// The byte form of a whole message.
pub open spec fn spec_message_bytes(m: MessageV) -> Seq<u8> {
    ser_bytes(sm_of_message(m))
}

/// A message is encodable when its payload is and the frame length fits.
pub open spec fn message_encodable(m: MessageV) -> bool {
    payload_wf(m.msg) && payload_bytes(m.msg).len() <= MAX_DATA_LEN
}


fn sf_parts(msg: &Message) -> (r: (u8, u128, u128, u128, u128))
    ensures
        r.0 == sf_flags(msg@),
        r.1 == opt_id(msg@.sent_from_worker_id),
        r.2 == opt_id(msg@.sent_from_pipeline_id),
        r.3 == opt_id(msg@.sent_from_operation_id),
        r.4 == opt_id(msg@.sent_from_connection_id),
{
    let mut flags: u8 = 0;
    let mut w: u128 = 0;
    let mut p: u128 = 0;
    let mut o: u128 = 0;
    let mut c: u128 = 0;
    if let Some(id) = msg.sent_from_worker_id {
        w = id;
        flags = flags + 1;
    }
    if let Some(id) = msg.sent_from_pipeline_id {
        p = id;
        flags = flags + 2;
    }
    if let Some(id) = msg.sent_from_operation_id {
        o = id;
        flags = flags + 4;
    }
    if let Some(id) = msg.sent_from_connection_id {
        c = id;
        flags = flags + 8;
    }
    (flags, w, p, o, c)
}

fn rt_parts(msg: &Message) -> (r: (u8, u128, u128, u128))
    ensures
        r.0 == rt_flags(msg@),
        r.1 == opt_id(msg@.route_to_worker_id),
        r.2 == opt_id(msg@.route_to_operation_id),
        r.3 == opt_id(msg@.route_to_connection_id),
{
    let mut flags: u8 = 0;
    let mut w: u128 = 0;
    let mut o: u128 = 0;
    let mut c: u128 = 0;
    if let Some(id) = msg.route_to_worker_id {
        w = id;
        flags = flags + 1;
    }
    if let Some(id) = msg.route_to_operation_id {
        o = id;
        flags = flags + 2;
    }
    if let Some(id) = msg.route_to_connection_id {
        c = id;
        flags = flags + 4;
    }
    (flags, w, o, c)
}

impl SerializedMessage {
    /// The fixed header size in bytes, not counting the leading length field.
    pub fn header_len() -> (r: u32)
        ensures
            r == HEADER_LEN,
    {
        8 + 2 + 2 + 16 + 1 + 16 * 4 + 1 + 16 * 3
    }

    /// Serializes a message: lays out the payload fields, then the header
    /// around them. Fails iff the payload does not fit a frame.
    #[verifier::rlimit(100)]
    pub fn new(msg: &Message) -> (r: Result<SerializedMessage, SerializedMessageError>)
        ensures
            message_encodable(msg@) ==> (r is Ok && r->Ok_0@ == sm_of_message(msg@)),
            !message_encodable(msg@) ==> r == Err::<
                SerializedMessage,
                SerializedMessageError,
            >(SerializedMessageError::PayloadTooLarge),
    {
        let fields = payload_to_fields(&msg.msg);
        let mut data: Vec<u8> = Vec::new();
        write_vals(&mut data, &fields);
        proof {
            assert forall|i: int| 0 <= i < views_of(fields@).len() implies val_wf(
                #[trigger] views_of(fields@)[i],
            ) by {
                lemma_views_of_index(fields@);
                let v = fields@[i];
                match v {
                    WireVal::Bytes(b) => {
                        vstd::std_specs::vec::axiom_spec_len(&b);
                    },
                    WireVal::Ids(l) => {
                        vstd::std_specs::vec::axiom_spec_len(&l);
                    },
                    WireVal::Texts(l) => {
                        vstd::std_specs::vec::axiom_spec_len(&l);
                        assert forall|j: int| 0 <= j < l@.len() implies (#[trigger] texts_view(
                            l@,
                        )[j]).len() <= u64::MAX by {
                            vstd::std_specs::vec::axiom_spec_len(&l@[j]);
                            assert(texts_view(l@)[j] == l@[j]@);
                        }
                    },
                    WireVal::Trips(l) => {
                        vstd::std_specs::vec::axiom_spec_len(&l);
                    },
                    _ => {},
                }
            }
            assert(vals_wf(payload_fields(msg@.msg)));
        }
        if data.len() as u64 > MAX_DATA_LEN as u64 {
            return Err(SerializedMessageError::PayloadTooLarge);
        }
        let sf = sf_parts(msg);
        let rt = rt_parts(msg);
        let data_len = data.len() as u64;
        let name = msg.msg.msg_name();
        let r = SerializedMessage {
            data_len,
            header_version: 0,
            msg_name_id: name.as_u16(),
            msg_id: msg.msg_id,
            sent_from_flags: sf.0,
            sent_from_worker_id: sf.1,
            sent_from_pipeline_id: sf.2,
            sent_from_operation_id: sf.3,
            sent_from_connection_id: sf.4,
            routing_flags: rt.0,
            route_to_worker_id: rt.1,
            route_to_operation_id: rt.2,
            route_to_connection_id: rt.3,
            msg_data: data,
        };
        proof {
            assert(r@ =~= sm_of_message(msg@));
        }
        Ok(r)
    }

    /// The frame's byte form.
    #[verifier::rlimit(100)]
    pub fn to_bytes(&self) -> (r: Vec<u8>)
        requires
            self.data_len <= MAX_DATA_LEN,
        ensures
            r@ == ser_bytes(self@),
    {
        let mut buf: Vec<u8> = Vec::new();
        write_u32(&mut buf, HEADER_LEN + self.data_len as u32);
        write_u64(&mut buf, self.data_len);
        write_u16(&mut buf, self.header_version);
        write_u16(&mut buf, self.msg_name_id);
        write_u128(&mut buf, self.msg_id);
        write_u8(&mut buf, self.sent_from_flags);
        write_u128(&mut buf, self.sent_from_worker_id);
        write_u128(&mut buf, self.sent_from_pipeline_id);
        write_u128(&mut buf, self.sent_from_operation_id);
        write_u128(&mut buf, self.sent_from_connection_id);
        write_u8(&mut buf, self.routing_flags);
        write_u128(&mut buf, self.route_to_worker_id);
        write_u128(&mut buf, self.route_to_operation_id);
        write_u128(&mut buf, self.route_to_connection_id);
        let ghost header = buf@;
        let mut i: usize = 0;
        while i < self.msg_data.len()
            invariant
                i <= self.msg_data@.len(),
                buf@ == header + self.msg_data@.take(i as int),
            decreases self.msg_data@.len() - i,
        {
            buf.push(self.msg_data[i]);
            assert(buf@ =~= header + self.msg_data@.take(i + 1 as int));
            i = i + 1;
        }
        assert(self.msg_data@.take(self.msg_data@.len() as int) =~= self.msg_data@);
        assert(buf@ =~= ser_bytes(self@));
        buf
    }
}

} // verus!

verus! {

// ---------------------------------------------------------------------------
// Parsing a frame from a byte buffer
// ---------------------------------------------------------------------------

/// The outcome of decoding a frame from the front of `s`: the frame and the
/// byte count it occupies, or the error the buffer deserves.
pub open spec fn spec_parse(s: Seq<u8>) -> Result<(SerializedMessageV, int), SerializedMessageError> {
    if s.len() < 146 {
        Err(SerializedMessageError::Incomplete)
    } else {
        let (tl, s1) = sdec_u32(s)->Some_0;
        let (dl, s2) = sdec_u64(s1)->Some_0;
        let (ver, s3) = sdec_u16(s2)->Some_0;
        let (kid, s4) = sdec_u16(s3)->Some_0;
        let (mid, s5) = sdec_u128(s4)->Some_0;
        let (sff, s6) = sdec_u8(s5)->Some_0;
        let (sfw, s7) = sdec_u128(s6)->Some_0;
        let (sfp, s8) = sdec_u128(s7)->Some_0;
        let (sfo, s9) = sdec_u128(s8)->Some_0;
        let (sfc, s10) = sdec_u128(s9)->Some_0;
        let (rtf, s11) = sdec_u8(s10)->Some_0;
        let (rtw, s12) = sdec_u128(s11)->Some_0;
        let (rto, s13) = sdec_u128(s12)->Some_0;
        let (rtc, s14) = sdec_u128(s13)->Some_0;
        if tl != 142 + dl {
            Err(SerializedMessageError::Malformed)
        } else if ver != 0 {
            Err(SerializedMessageError::Malformed)
        } else if s.len() < 4 + tl {
            Err(SerializedMessageError::Incomplete)
        } else {
            Ok(
                (
                    SerializedMessageV {
                        data_len: dl,
                        header_version: ver,
                        msg_name_id: kid,
                        msg_id: mid,
                        sent_from_flags: sff,
                        sent_from_worker_id: sfw,
                        sent_from_pipeline_id: sfp,
                        sent_from_operation_id: sfo,
                        sent_from_connection_id: sfc,
                        routing_flags: rtf,
                        route_to_worker_id: rtw,
                        route_to_operation_id: rto,
                        route_to_connection_id: rtc,
                        msg_data: s14.take(dl as int),
                    },
                    4 + tl,
                ),
            )
        }
    }
}

impl SerializedMessage {
    /// The kind id of the frame at the front of the buffer, without
    /// consuming anything; `Incomplete` until the first 16 bytes are there.
    pub fn parse_registered_msg_id(data: &Vec<u8>) -> (r: Result<u16, SerializedMessageError>)
        ensures
            data@.len() < 16 ==> r == Err::<u16, SerializedMessageError>(
                SerializedMessageError::Incomplete,
            ),
            data@.len() >= 16 ==> r == Ok::<u16, SerializedMessageError>(
                sdec_u16(data@.skip(14))->Some_0.0,
            ),
    {
        if data.len() < 16 {
            return Err(SerializedMessageError::Incomplete);
        }
        proof {
            crate::wire::lemma_sdec_u16_len(data@.skip(14));
        }
        match read_u16(data, 14) {
            Some((kid, _)) => Ok(kid),
            None => Err(SerializedMessageError::Incomplete),
        }
    }

    /// True iff a whole frame is present at the front of the buffer; the
    /// error says what is missing or wrong.
    pub fn check(data: &Vec<u8>) -> (r: Result<(), SerializedMessageError>)
        ensures
            match spec_parse(data@) {
                Ok(_) => r is Ok,
                Err(e) => r == Err::<(), SerializedMessageError>(e),
            },
    {
        match Self::peek(data) {
            Ok(_) => Ok(()),
            Err(e) => Err(e),
        }
    }

    /// Decodes the frame at the front of the buffer without consuming it.
    #[verifier::rlimit(100)]
    fn peek(data: &Vec<u8>) -> (r: Result<(SerializedMessage, usize), SerializedMessageError>)
        ensures
            match spec_parse(data@) {
                Ok(p) => {
                    &&& r is Ok
                    &&& r->Ok_0.0@ == p.0
                    &&& r->Ok_0.1 == p.1
                },
                Err(e) => r == Err::<(SerializedMessage, usize), SerializedMessageError>(e),
            },
    {
        if data.len() < 146 {
            return Err(SerializedMessageError::Incomplete);
        }
        proof {
            lemma_header_sdec(data@);
            assert(data@.skip(0) =~= data@);
        }
        let (tl, _) = read_u32(data, 0).unwrap();
        let (dl, _) = read_u64(data, 4).unwrap();
        let (ver, _) = read_u16(data, 12).unwrap();
        let (kid, _) = read_u16(data, 14).unwrap();
        let (mid, _) = read_u128(data, 16).unwrap();
        let (sff, _) = read_u8(data, 32).unwrap();
        let (sfw, _) = read_u128(data, 33).unwrap();
        let (sfp, _) = read_u128(data, 49).unwrap();
        let (sfo, _) = read_u128(data, 65).unwrap();
        let (sfc, _) = read_u128(data, 81).unwrap();
        let (rtf, _) = read_u8(data, 97).unwrap();
        let (rtw, _) = read_u128(data, 98).unwrap();
        let (rto, _) = read_u128(data, 114).unwrap();
        let (rtc, _) = read_u128(data, 130).unwrap();
        if dl > MAX_DATA_LEN as u64 {
            return Err(SerializedMessageError::Malformed);
        }
        if tl as u64 != 142 + dl {
            return Err(SerializedMessageError::Malformed);
        }
        if ver != 0 {
            return Err(SerializedMessageError::Malformed);
        }
        if (data.len() as u64) < 4 + tl as u64 {
            return Err(SerializedMessageError::Incomplete);
        }
        let dlu = dl as usize;
        assert(dlu == dl);
        let dlen = data.len();
        assert(146 + dlu <= dlen);
        let mut msg_data: Vec<u8> = Vec::new();
        let mut i: usize = 0;
        while i < dlu
            invariant
                i <= dlu,
                146 + dlu <= dlen,
                dlen == data@.len(),
                msg_data@ == data@.subrange(146, 146 + i),
            decreases dlu - i,
        {
            msg_data.push(data[146 + i]);
            assert(msg_data@ =~= data@.subrange(146, 146 + i + 1));
            i = i + 1;
        }
        proof {
            assert(msg_data@ =~= data@.skip(146).take(dl as int));
        }
        let sm = SerializedMessage {
            data_len: dl,
            header_version: ver,
            msg_name_id: kid,
            msg_id: mid,
            sent_from_flags: sff,
            sent_from_worker_id: sfw,
            sent_from_pipeline_id: sfp,
            sent_from_operation_id: sfo,
            sent_from_connection_id: sfc,
            routing_flags: rtf,
            route_to_worker_id: rtw,
            route_to_operation_id: rto,
            route_to_connection_id: rtc,
            msg_data,
        };
        let consumed = 146 + dlu;
        proof {
            assert(consumed == 4 + tl as int);
            assert(sm@ =~= spec_parse(data@)->Ok_0.0);
        }
        Ok((sm, consumed))
    }

    /// Decodes the frame at the front of the buffer; on success the frame's
    /// bytes are consumed, on any error the buffer is left untouched.
    pub fn parse(data: &mut Vec<u8>) -> (r: Result<SerializedMessage, SerializedMessageError>)
        ensures
            match spec_parse(old(data)@) {
                Ok(p) => {
                    &&& r is Ok
                    &&& r->Ok_0@ == p.0
                    &&& final(data)@ == old(data)@.skip(p.1)
                },
                Err(e) => {
                    &&& r == Err::<SerializedMessage, SerializedMessageError>(e)
                    &&& final(data)@ == old(data)@
                },
            },
    {
        match Self::peek(data) {
            Ok((sm, consumed)) => {
                let rest = data.split_off(consumed);
                *data = rest;
                Ok(sm)
            },
            Err(e) => Err(e),
        }
    }
}

} // verus!

verus! {

/// Every header field of a long-enough buffer decodes, and each decoder
/// leaves the suffix at the next field's offset.
#[verifier::rlimit(100)]
pub proof fn lemma_header_sdec(s: Seq<u8>)
    requires
        s.len() >= 146,
    ensures
        sdec_u32(s) is Some && sdec_u32(s)->Some_0.1 == s.skip(4),
        sdec_u64(s.skip(4)) is Some && sdec_u64(s.skip(4))->Some_0.1 == s.skip(12),
        sdec_u16(s.skip(12)) is Some && sdec_u16(s.skip(12))->Some_0.1 == s.skip(14),
        sdec_u16(s.skip(14)) is Some && sdec_u16(s.skip(14))->Some_0.1 == s.skip(16),
        sdec_u128(s.skip(16)) is Some && sdec_u128(s.skip(16))->Some_0.1 == s.skip(32),
        sdec_u8(s.skip(32)) is Some && sdec_u8(s.skip(32))->Some_0.1 == s.skip(33),
        sdec_u128(s.skip(33)) is Some && sdec_u128(s.skip(33))->Some_0.1 == s.skip(49),
        sdec_u128(s.skip(49)) is Some && sdec_u128(s.skip(49))->Some_0.1 == s.skip(65),
        sdec_u128(s.skip(65)) is Some && sdec_u128(s.skip(65))->Some_0.1 == s.skip(81),
        sdec_u128(s.skip(81)) is Some && sdec_u128(s.skip(81))->Some_0.1 == s.skip(97),
        sdec_u8(s.skip(97)) is Some && sdec_u8(s.skip(97))->Some_0.1 == s.skip(98),
        sdec_u128(s.skip(98)) is Some && sdec_u128(s.skip(98))->Some_0.1 == s.skip(114),
        sdec_u128(s.skip(114)) is Some && sdec_u128(s.skip(114))->Some_0.1 == s.skip(130),
        sdec_u128(s.skip(130)) is Some && sdec_u128(s.skip(130))->Some_0.1 == s.skip(146),
{
    crate::wire::lemma_sdec_u32_len(s);
    crate::wire::lemma_sdec_u64_len(s.skip(4));
    assert(s.skip(4).skip(8) =~= s.skip(12));
    crate::wire::lemma_sdec_u16_len(s.skip(12));
    assert(s.skip(12).skip(2) =~= s.skip(14));
    crate::wire::lemma_sdec_u16_len(s.skip(14));
    assert(s.skip(14).skip(2) =~= s.skip(16));
    crate::wire::lemma_sdec_u128_len(s.skip(16));
    assert(s.skip(16).skip(16) =~= s.skip(32));
    crate::wire::lemma_sdec_u8_len(s.skip(32));
    assert(s.skip(32).skip(1) =~= s.skip(33));
    crate::wire::lemma_sdec_u128_len(s.skip(33));
    assert(s.skip(33).skip(16) =~= s.skip(49));
    crate::wire::lemma_sdec_u128_len(s.skip(49));
    assert(s.skip(49).skip(16) =~= s.skip(65));
    crate::wire::lemma_sdec_u128_len(s.skip(65));
    assert(s.skip(65).skip(16) =~= s.skip(81));
    crate::wire::lemma_sdec_u128_len(s.skip(81));
    assert(s.skip(81).skip(16) =~= s.skip(97));
    crate::wire::lemma_sdec_u8_len(s.skip(97));
    assert(s.skip(97).skip(1) =~= s.skip(98));
    crate::wire::lemma_sdec_u128_len(s.skip(98));
    assert(s.skip(98).skip(16) =~= s.skip(114));
    crate::wire::lemma_sdec_u128_len(s.skip(114));
    assert(s.skip(114).skip(16) =~= s.skip(130));
    crate::wire::lemma_sdec_u128_len(s.skip(130));
    assert(s.skip(130).skip(16) =~= s.skip(146));
}

} // verus!

verus! {

// ---------------------------------------------------------------------------
// From a frame back to a message
// ---------------------------------------------------------------------------

/// The message name registered under a kind id.
pub open spec fn name_of_u16(k: u16) -> Option<MessageName> {
    if k == 0 {
        Some(MessageName::Ping)
    } else if k == 1 {
        Some(MessageName::Identify)
    } else if k == 2 {
        Some(MessageName::GenericResponse)
    } else if k == 3 {
        Some(MessageName::RunQuery)
    } else if k == 4 {
        Some(MessageName::RunQueryResp)
    } else if k == 5 {
        Some(MessageName::GetQueryStatus)
    } else if k == 6 {
        Some(MessageName::GetQueryStatusResp)
    } else if k == 7 {
        Some(MessageName::GetQueryData)
    } else if k == 8 {
        Some(MessageName::GetQueryDataResp)
    } else if k == 9 {
        Some(MessageName::OperatorInstanceAvailable)
    } else if k == 10 {
        Some(MessageName::OperatorInstanceAssignment)
    } else if k == 11 {
        Some(MessageName::QueryHandlerRequests)
    } else if k == 12 {
        Some(MessageName::QueryOperatorInstanceStatusChange)
    } else if k == 13 {
        Some(MessageName::OperatorShutdown)
    } else if k == 14 {
        Some(MessageName::OperatorOperatorInstanceStatusChange)
    } else if k == 15 {
        Some(MessageName::ExchangeRequests)
    } else if k == 16 {
        Some(MessageName::ExchangeOperatorStatusChange)
    } else {
        None
    }
}

/// Whether the flag bit of weight `d` is set; `d` is a power of two.
pub open spec fn bit_set(f: u8, d: u8) -> bool {
    (f / d) % 2 == 1
}

pub open spec fn opt_of(set: bool, id: u128) -> Option<u128> {
    if set {
        Some(id)
    } else {
        None
    }
}

/// The message a decoded frame denotes, or the error it deserves: an
/// unregistered kind id or a payload that does not parse.
pub open spec fn spec_build(sm: SerializedMessageV) -> Result<MessageV, SerializedMessageError> {
    match name_of_u16(sm.msg_name_id) {
        None => Err(SerializedMessageError::BadKind(sm.msg_name_id)),
        Some(name) => match sdec_vals(sm.msg_data) {
            None => Err(SerializedMessageError::Malformed),
            Some(vs) => match payload_of_fields(name, vs) {
                None => Err(SerializedMessageError::Malformed),
                Some(p) => Ok(
                    MessageV {
                        msg_id: sm.msg_id,
                        msg: p,
                        sent_from_worker_id: opt_of(
                            bit_set(sm.sent_from_flags, 1),
                            sm.sent_from_worker_id,
                        ),
                        sent_from_pipeline_id: opt_of(
                            bit_set(sm.sent_from_flags, 2),
                            sm.sent_from_pipeline_id,
                        ),
                        sent_from_operation_id: opt_of(
                            bit_set(sm.sent_from_flags, 4),
                            sm.sent_from_operation_id,
                        ),
                        sent_from_connection_id: opt_of(
                            bit_set(sm.sent_from_flags, 8),
                            sm.sent_from_connection_id,
                        ),
                        route_to_worker_id: opt_of(
                            bit_set(sm.routing_flags, 1),
                            sm.route_to_worker_id,
                        ),
                        route_to_operation_id: opt_of(
                            bit_set(sm.routing_flags, 2),
                            sm.route_to_operation_id,
                        ),
                        route_to_connection_id: opt_of(
                            bit_set(sm.routing_flags, 4),
                            sm.route_to_connection_id,
                        ),
                        inbound_stream_id: None,
                        outbound_stream_id: None,
                    },
                ),
            },
        },
    }
}

impl MessageName {
    pub fn from_u16(k: u16) -> (r: Option<MessageName>)
        ensures
            r == name_of_u16(k),
    {
        if k == 0 {
            Some(MessageName::Ping)
        } else if k == 1 {
            Some(MessageName::Identify)
        } else if k == 2 {
            Some(MessageName::GenericResponse)
        } else if k == 3 {
            Some(MessageName::RunQuery)
        } else if k == 4 {
            Some(MessageName::RunQueryResp)
        } else if k == 5 {
            Some(MessageName::GetQueryStatus)
        } else if k == 6 {
            Some(MessageName::GetQueryStatusResp)
        } else if k == 7 {
            Some(MessageName::GetQueryData)
        } else if k == 8 {
            Some(MessageName::GetQueryDataResp)
        } else if k == 9 {
            Some(MessageName::OperatorInstanceAvailable)
        } else if k == 10 {
            Some(MessageName::OperatorInstanceAssignment)
        } else if k == 11 {
            Some(MessageName::QueryHandlerRequests)
        } else if k == 12 {
            Some(MessageName::QueryOperatorInstanceStatusChange)
        } else if k == 13 {
            Some(MessageName::OperatorShutdown)
        } else if k == 14 {
            Some(MessageName::OperatorOperatorInstanceStatusChange)
        } else if k == 15 {
            Some(MessageName::ExchangeRequests)
        } else if k == 16 {
            Some(MessageName::ExchangeOperatorStatusChange)
        } else {
            None
        }
    }
}

impl Message {
    /// Rebuilds the message a decoded frame carries: looks the kind up,
    /// parses the payload fields, and restores the optional ids from the
    /// flag bytes. The stream ids of a rebuilt message are unset.
    pub fn build_from_serialized_message(ser_msg: &SerializedMessage) -> (r: Result<
        Message,
        SerializedMessageError,
    >)
        ensures
            match spec_build(ser_msg@) {
                Ok(m) => r is Ok && r->Ok_0@ == m,
                Err(e) => r == Err::<Message, SerializedMessageError>(e),
            },
    {
        let name = match MessageName::from_u16(ser_msg.msg_name_id) {
            Some(n) => n,
            None => {
                return Err(SerializedMessageError::BadKind(ser_msg.msg_name_id));
            },
        };
        proof {
            assert(ser_msg.msg_data@.skip(0) =~= ser_msg.msg_data@);
        }
        let vals = match read_all_vals(&ser_msg.msg_data, 0) {
            Some(v) => v,
            None => {
                return Err(SerializedMessageError::Malformed);
            },
        };
        let payload = match payload_from_fields(name, &vals) {
            Some(p) => p,
            None => {
                return Err(SerializedMessageError::Malformed);
            },
        };
        let sff = ser_msg.sent_from_flags;
        let rtf = ser_msg.routing_flags;
        Ok(
            Message {
                msg_id: ser_msg.msg_id,
                msg: payload,
                sent_from_worker_id: if (sff / 1) % 2 == 1 {
                    Some(ser_msg.sent_from_worker_id)
                } else {
                    None
                },
                sent_from_pipeline_id: if (sff / 2) % 2 == 1 {
                    Some(ser_msg.sent_from_pipeline_id)
                } else {
                    None
                },
                sent_from_operation_id: if (sff / 4) % 2 == 1 {
                    Some(ser_msg.sent_from_operation_id)
                } else {
                    None
                },
                sent_from_connection_id: if (sff / 8) % 2 == 1 {
                    Some(ser_msg.sent_from_connection_id)
                } else {
                    None
                },
                route_to_worker_id: if (rtf / 1) % 2 == 1 {
                    Some(ser_msg.route_to_worker_id)
                } else {
                    None
                },
                route_to_operation_id: if (rtf / 2) % 2 == 1 {
                    Some(ser_msg.route_to_operation_id)
                } else {
                    None
                },
                route_to_connection_id: if (rtf / 4) % 2 == 1 {
                    Some(ser_msg.route_to_connection_id)
                } else {
                    None
                },
                inbound_stream_id: None,
                outbound_stream_id: None,
            },
        )
    }

    /// The frame this message serializes to; fails iff the payload does not
    /// fit a frame.
    pub fn to_serialized_msg(&self) -> (r: Result<SerializedMessage, SerializedMessageError>)
        ensures
            message_encodable(self@) ==> (r is Ok && r->Ok_0@ == sm_of_message(self@)),
            !message_encodable(self@) ==> r == Err::<
                SerializedMessage,
                SerializedMessageError,
            >(SerializedMessageError::PayloadTooLarge),
    {
        SerializedMessage::new(self)
    }

    /// The byte form of this message; fails iff the payload does not fit a
    /// frame.
    pub fn to_bytes(&self) -> (r: Result<Vec<u8>, SerializedMessageError>)
        ensures
            message_encodable(self@) ==> (r is Ok && r->Ok_0@ == spec_message_bytes(self@)),
            !message_encodable(self@) ==> r == Err::<
                Vec<u8>,
                SerializedMessageError,
            >(SerializedMessageError::PayloadTooLarge),
    {
        match self.to_serialized_msg() {
            Ok(sm) => Ok(sm.to_bytes()),
            Err(e) => Err(e),
        }
    }
}

} // verus!

verus! {

// ---------------------------------------------------------------------------
// The round trip: decode(encode(m)) == m
// ---------------------------------------------------------------------------

proof fn lemma_flag_bits(a: u8, b: u8, c: u8, d: u8)
    requires
        a <= 1,
        b <= 1,
        c <= 1,
        d <= 1,
    ensures
        (((a + 2 * b + 4 * c + 8 * d) as u8) / 1) % 2 == a,
        (((a + 2 * b + 4 * c + 8 * d) as u8) / 2) % 2 == b,
        (((a + 2 * b + 4 * c + 8 * d) as u8) / 4) % 2 == c,
        (((a + 2 * b + 4 * c + 8 * d) as u8) / 8) % 2 == d,
{
    assert((((a + 2 * b + 4 * c + 8 * d) as u8) / 1) % 2 == a && (((a + 2 * b + 4 * c + 8 * d)
        as u8) / 2) % 2 == b && (((a + 2 * b + 4 * c + 8 * d) as u8) / 4) % 2 == c && (((a + 2 * b
        + 4 * c + 8 * d) as u8) / 8) % 2 == d) by (nonlinear_arith)
        requires
            a <= 1,
            b <= 1,
            c <= 1,
            d <= 1,
    ;
}

/// The frame's bytes with a trailing `rest`, grouped so that each header
/// field's encoding stands in front of everything after it.
pub open spec fn nested_frame(sm: SerializedMessageV, rest: Seq<u8>) -> Seq<u8> {
    enc_u32(((HEADER_LEN as int) + sm.data_len) as u32) + (enc_u64(sm.data_len) + (enc_u16(
        sm.header_version,
    ) + (enc_u16(sm.msg_name_id) + (enc_u128(sm.msg_id) + (enc_u8(sm.sent_from_flags) + (enc_u128(
        sm.sent_from_worker_id,
    ) + (enc_u128(sm.sent_from_pipeline_id) + (enc_u128(sm.sent_from_operation_id) + (enc_u128(
        sm.sent_from_connection_id,
    ) + (enc_u8(sm.routing_flags) + (enc_u128(sm.route_to_worker_id) + (enc_u128(
        sm.route_to_operation_id,
    ) + (enc_u128(sm.route_to_connection_id) + (sm.msg_data + rest))))))))))))))
}

#[verifier::rlimit(100)]
proof fn lemma_nested_frame(sm: SerializedMessageV, rest: Seq<u8>)
    ensures
        ser_bytes(sm) + rest == nested_frame(sm, rest),
{
    let a1 = enc_u32(((HEADER_LEN as int) + sm.data_len) as u32);
    let a2 = enc_u64(sm.data_len);
    let a3 = enc_u16(sm.header_version);
    let a4 = enc_u16(sm.msg_name_id);
    let a5 = enc_u128(sm.msg_id);
    let a6 = enc_u8(sm.sent_from_flags);
    let a7 = enc_u128(sm.sent_from_worker_id);
    let a8 = enc_u128(sm.sent_from_pipeline_id);
    let a9 = enc_u128(sm.sent_from_operation_id);
    let a10 = enc_u128(sm.sent_from_connection_id);
    let a11 = enc_u8(sm.routing_flags);
    let a12 = enc_u128(sm.route_to_worker_id);
    let a13 = enc_u128(sm.route_to_operation_id);
    let a14 = enc_u128(sm.route_to_connection_id);
    let a15 = sm.msg_data;
    let t15 = a15 + rest;
    let t14 = a14 + t15;
    let t13 = a13 + t14;
    let t12 = a12 + t13;
    let t11 = a11 + t12;
    let t10 = a10 + t11;
    let t9 = a9 + t10;
    let t8 = a8 + t9;
    let t7 = a7 + t8;
    let t6 = a6 + t7;
    let t5 = a5 + t6;
    let t4 = a4 + t5;
    let t3 = a3 + t4;
    let t2 = a2 + t3;
    vstd::seq_lib::lemma_concat_associative(a1 + a2, a3, a4);
    vstd::seq_lib::lemma_concat_associative(a1, a2, a3);
    let h2 = a1 + a2;
    let h3 = h2 + a3;
    let h4 = h3 + a4;
    let h5 = h4 + a5;
    let h6 = h5 + a6;
    let h7 = h6 + a7;
    let h8 = h7 + a8;
    let h9 = h8 + a9;
    let h10 = h9 + a10;
    let h11 = h10 + a11;
    let h12 = h11 + a12;
    let h13 = h12 + a13;
    let h14 = h13 + a14;
    let h15 = h14 + a15;
    assert(ser_bytes(sm) == h15);
    assert(nested_frame(sm, rest) == a1 + (a2 + (a3 + (a4 + (a5 + (a6 + (a7 + (a8 + (a9 + (a10 + (
    a11 + (a12 + (a13 + t14)))))))))))));
    vstd::seq_lib::lemma_concat_associative(h14, a15, rest);
    vstd::seq_lib::lemma_concat_associative(h13, a14, t15);
    vstd::seq_lib::lemma_concat_associative(h12, a13, t14);
    vstd::seq_lib::lemma_concat_associative(h11, a12, t13);
    vstd::seq_lib::lemma_concat_associative(h10, a11, t12);
    vstd::seq_lib::lemma_concat_associative(h9, a10, t11);
    vstd::seq_lib::lemma_concat_associative(h8, a9, t10);
    vstd::seq_lib::lemma_concat_associative(h7, a8, t9);
    vstd::seq_lib::lemma_concat_associative(h6, a7, t8);
    vstd::seq_lib::lemma_concat_associative(h5, a6, t7);
    vstd::seq_lib::lemma_concat_associative(h4, a5, t6);
    vstd::seq_lib::lemma_concat_associative(h3, a4, t5);
    vstd::seq_lib::lemma_concat_associative(h2, a3, t4);
    vstd::seq_lib::lemma_concat_associative(a1, a2, t3);
    assert(h15 + rest == a1 + (a2 + t3));
}

/// Parsing the bytes of an encodable message's frame yields the frame back
/// and consumes exactly its bytes, whatever follows it in the buffer.
#[verifier::rlimit(100)]
pub proof fn lemma_parse_message_bytes(m: MessageV, rest: Seq<u8>)
    requires
        message_encodable(m),
    ensures
        spec_parse(spec_message_bytes(m) + rest) == Ok::<
            (SerializedMessageV, int),
            SerializedMessageError,
        >((sm_of_message(m), spec_message_bytes(m).len() as int)),
{
    let sm = sm_of_message(m);
    let body = payload_bytes(m.msg);
    let dl = sm.data_len;
    let tl = ((HEADER_LEN as int) + dl) as u32;
    lemma_nested_frame(sm, rest);
    let s = spec_message_bytes(m) + rest;
    let t14 = body + rest;
    let t13 = enc_u128(sm.route_to_connection_id) + t14;
    let t12 = enc_u128(sm.route_to_operation_id) + t13;
    let t11 = enc_u128(sm.route_to_worker_id) + t12;
    let t10 = enc_u8(sm.routing_flags) + t11;
    let t9 = enc_u128(sm.sent_from_connection_id) + t10;
    let t8 = enc_u128(sm.sent_from_operation_id) + t9;
    let t7 = enc_u128(sm.sent_from_pipeline_id) + t8;
    let t6 = enc_u128(sm.sent_from_worker_id) + t7;
    let t5 = enc_u8(sm.sent_from_flags) + t6;
    let t4 = enc_u128(sm.msg_id) + t5;
    let t3 = enc_u16(sm.msg_name_id) + t4;
    let t2 = enc_u16(sm.header_version) + t3;
    let t1 = enc_u64(dl) + t2;
    assert(s == enc_u32(tl) + t1);
    lemma_enc_u32(tl, t1);
    lemma_enc_u64(dl, t2);
    lemma_enc_u16(sm.header_version, t3);
    lemma_enc_u16(sm.msg_name_id, t4);
    lemma_enc_u128(sm.msg_id, t5);
    lemma_enc_u8(sm.sent_from_flags, t6);
    lemma_enc_u128(sm.sent_from_worker_id, t7);
    lemma_enc_u128(sm.sent_from_pipeline_id, t8);
    lemma_enc_u128(sm.sent_from_operation_id, t9);
    lemma_enc_u128(sm.sent_from_connection_id, t10);
    lemma_enc_u8(sm.routing_flags, t11);
    lemma_enc_u128(sm.route_to_worker_id, t12);
    lemma_enc_u128(sm.route_to_operation_id, t13);
    lemma_enc_u128(sm.route_to_connection_id, t14);
    assert(s.len() >= 146);
    assert(tl == 142 + dl);
    assert(s.len() >= 4 + tl);
    assert(t14.take(dl as int) =~= body);
    assert(spec_parse(s)->Ok_0.0 =~= sm);
    assert(spec_parse(s)->Ok_0.1 == 4 + tl);
    assert(spec_message_bytes(m).len() == 146 + body.len());
}

/// Decoding inverts encoding: for every encodable message whose transient
/// stream ids are unset, parsing its byte form yields its frame, and
/// rebuilding from that frame yields the message itself, whatever bytes
/// follow it in the buffer.
#[verifier::rlimit(100)]
pub proof fn lemma_decode_encode(m: MessageV, rest: Seq<u8>)
    requires
        message_encodable(m),
        m.inbound_stream_id is None,
        m.outbound_stream_id is None,
    ensures
        spec_parse(spec_message_bytes(m) + rest) == Ok::<
            (SerializedMessageV, int),
            SerializedMessageError,
        >((sm_of_message(m), spec_message_bytes(m).len() as int)),
        spec_build(sm_of_message(m)) == Ok::<MessageV, SerializedMessageError>(m),
{
    lemma_parse_message_bytes(m, rest);
    let sm = sm_of_message(m);
    let name = payload_name(m.msg);
    assert(name_of_u16(name_u16(name)) == Some(name));
    lemma_enc_vals(payload_fields(m.msg));
    lemma_payload_fields(m.msg);
    lemma_flag_bits(
        flag_bit(m.sent_from_worker_id),
        flag_bit(m.sent_from_pipeline_id),
        flag_bit(m.sent_from_operation_id),
        flag_bit(m.sent_from_connection_id),
    );
    lemma_flag_bits(
        flag_bit(m.route_to_worker_id),
        flag_bit(m.route_to_operation_id),
        flag_bit(m.route_to_connection_id),
        0,
    );
    assert(spec_build(sm)->Ok_0 =~= m);
}

} // verus!
