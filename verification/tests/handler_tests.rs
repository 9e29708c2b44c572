use chapterhousedb::compute::{OperatorCompute, TotalOperatorCompute};
use chapterhousedb::messages::{
    common::GenericResponse, common::Ping, query::GetQueryStatus, query::GetQueryStatusResp,
    query::OperatorInstanceAssignment, query::OperatorInstanceAvailable,
    query::OperatorInstanceStatusChange, query::RunQuery, query::RunQueryResp, Message,
    MessagePayload,
};
use chapterhousedb::operators::handle_ping_message;
use chapterhousedb::plan::{Operator, OperatorType, PhysicalPlan, Pipeline};
use chapterhousedb::query_handler::QueryHandler;
use chapterhousedb::query_state::Status;

const WORKER: u128 = 900;

fn one_pipeline_plan() -> PhysicalPlan {
    PhysicalPlan {
        pipelines: vec![Pipeline {
            id: b"pipeline_0".to_vec(),
            operators: vec![
                Operator {
                    id: b"op0".to_vec(),
                    operator_type: OperatorType::Producer {
                        outbound_exchange_id: b"ex0".to_vec(),
                    },
                    compute: OperatorCompute {
                        instances: 1,
                        memory_in_mib: 256,
                        cpu_in_thousandths: 100,
                    },
                },
                Operator {
                    id: b"ex0".to_vec(),
                    operator_type: OperatorType::Exchange,
                    compute: OperatorCompute {
                        instances: 1,
                        memory_in_mib: 64,
                        cpu_in_thousandths: 50,
                    },
                },
            ],
        }],
    }
}

fn run_query() -> Message {
    Message::new(MessagePayload::RunQuery(RunQuery { query: b"select 1;".to_vec() }))
        .set_sent_from_connection_id(1)
}

fn status_of(h: &QueryHandler, query_id: u128) -> Status {
    let poll = Message::new(MessagePayload::GetQueryStatus(GetQueryStatus { query_id }));
    match h.handle_get_query_status(&poll).unwrap().msg {
        MessagePayload::GetQueryStatusResp(GetQueryStatusResp::Status(s)) => s,
        other => panic!("expected a status, got {:?}", other),
    }
}

#[test]
fn ping_reply_carries_the_replying_worker_id() {
    let ping = Message::new(MessagePayload::Ping(Ping::Ping))
        .set_sent_from_worker_id(7)
        .set_sent_from_operation_id(8);
    let pong = handle_ping_message(&ping, WORKER).unwrap();
    assert_eq!(pong.msg, MessagePayload::Ping(Ping::Pong));
    assert_eq!(pong.sent_from_worker_id, Some(WORKER));
    assert_eq!(pong.msg_id, ping.msg_id);
    assert_eq!(pong.route_to_worker_id, Some(7));
    assert_eq!(pong.route_to_operation_id, Some(8));
    assert!(handle_ping_message(&pong, WORKER).is_err());
}

#[test]
fn get_query_status_is_idempotent() {
    let mut h = QueryHandler::new(WORKER);
    let replies = h.handle_run_query(&run_query(), Some(one_pipeline_plan()));
    let query_id = match &replies[0].msg {
        MessagePayload::RunQueryResp(RunQueryResp::Created { query_id }) => *query_id,
        other => panic!("expected created, got {:?}", other),
    };
    let poll = Message::new(MessagePayload::GetQueryStatus(GetQueryStatus { query_id }));
    let r1 = h.handle_get_query_status(&poll).unwrap();
    let r2 = h.handle_get_query_status(&poll).unwrap();
    assert_eq!(r1, r2);
    let unknown = Message::new(MessagePayload::GetQueryStatus(GetQueryStatus { query_id: 0 }));
    let r = h.handle_get_query_status(&unknown).unwrap();
    assert_eq!(
        r.msg,
        MessagePayload::GetQueryStatusResp(GetQueryStatusResp::QueryNotFound)
    );
}

#[test]
fn planning_failure_yields_not_created() {
    let mut h = QueryHandler::new(WORKER);
    let replies = h.handle_run_query(&run_query(), None);
    assert_eq!(replies.len(), 1);
    assert_eq!(replies[0].msg, MessagePayload::RunQueryResp(RunQueryResp::NotCreated));
}

/// Drives one query through its lifecycle at the handler: created and
/// queued, assigned and running, then complete, with the exchange shut
/// down once its producer finishes.
#[test]
fn single_worker_happy_path_statuses() {
    let mut h = QueryHandler::new(WORKER);
    // submit: created, a notification is broadcast
    let replies = h.handle_run_query(&run_query(), Some(one_pipeline_plan()));
    assert_eq!(replies.len(), 2);
    let query_id = match &replies[0].msg {
        MessagePayload::RunQueryResp(RunQueryResp::Created { query_id }) => *query_id,
        other => panic!("expected created, got {:?}", other),
    };
    assert_eq!(
        replies[1].msg,
        MessagePayload::OperatorInstanceAvailable(OperatorInstanceAvailable::Notification)
    );
    assert_eq!(status_of(&h, query_id), Status::Queued);
    // a worker advertises capacity {8, 8192, 8000}: both instances are assigned
    let resp = Message::new(MessagePayload::OperatorInstanceAvailable(
        OperatorInstanceAvailable::NotificationResponse {
            can_accept_up_to: TotalOperatorCompute {
                instances: 8,
                memory_in_mib: 8192,
                cpu_in_thousandths: 8000,
            },
        },
    ))
    .set_sent_from_worker_id(WORKER);
    let assigns = h.handle_operator_instance_response(&resp).unwrap();
    assert_eq!(assigns.len(), 2);
    let mut producer_instance = 0u128;
    let mut exchange_instance = 0u128;
    for a in &assigns {
        match &a.msg {
            MessagePayload::OperatorInstanceAssignment(OperatorInstanceAssignment::Assign {
                query_handler_worker_id,
                query_id: qid,
                op_instance_id,
                operator,
                ..
            }) => {
                assert_eq!(*query_handler_worker_id, WORKER);
                assert_eq!(*qid, query_id);
                match operator.operator_type {
                    OperatorType::Producer { .. } => producer_instance = *op_instance_id,
                    OperatorType::Exchange => exchange_instance = *op_instance_id,
                }
            }
            other => panic!("expected an assign, got {:?}", other),
        }
    }
    // the worker accepts both: the query runs and the accepting worker
    // is recorded on each instance
    for iid in [producer_instance, exchange_instance] {
        let accepted = Message::new(MessagePayload::OperatorInstanceAssignment(
            OperatorInstanceAssignment::AssignAcceptedResponse {
                query_id,
                op_instance_id: iid,
            },
        ))
        .set_sent_from_worker_id(WORKER);
        h.handle_operator_instance_assignment_responses(&accepted).unwrap();
        assert_eq!(
            h.state.get_operator_instance(query_id, iid).unwrap().assigned_worker_id,
            Some(WORKER)
        );
    }
    assert_eq!(status_of(&h, query_id), Status::Running);
    // the producer completes: the exchange is notified and shut down
    let done = Message::new(MessagePayload::QueryOperatorInstanceStatusChange(
        OperatorInstanceStatusChange::Complete {
            query_id,
            operator_instance_id: producer_instance,
        },
    ))
    .set_sent_from_worker_id(WORKER);
    let (msgs, status) = h.handle_operator_instance_status_change(&done).unwrap();
    let status = status.expect("the reported ids resolve");
    assert_eq!(msgs[0].msg, MessagePayload::GenericResponse(GenericResponse::Okay));
    assert!(msgs.len() >= 3, "expected the exchange notification and its shutdown");
    let shutdowns: Vec<&Message> = msgs
        .iter()
        .filter(|m| matches!(m.msg, MessagePayload::OperatorShutdown(_)))
        .collect();
    assert_eq!(shutdowns.len(), 1);
    assert_eq!(shutdowns[0].route_to_operation_id, Some(exchange_instance));
    // with the producer complete and the exchange in sent-shutdown, no
    // instance is running or erroring, so the derived status falls back
    assert_eq!(status, Status::Queued);
    // the exchange reports complete after the shutdown: the query completes
    let ex_done = Message::new(MessagePayload::QueryOperatorInstanceStatusChange(
        OperatorInstanceStatusChange::Complete {
            query_id,
            operator_instance_id: exchange_instance,
        },
    ));
    let (_, status) = h.handle_operator_instance_status_change(&ex_done).unwrap();
    assert_eq!(status, Some(Status::Complete));
    assert_eq!(status_of(&h, query_id), Status::Complete);
}

#[test]
fn a_rejected_assignment_fails_the_instance_and_the_query() {
    let mut h = QueryHandler::new(WORKER);
    let replies = h.handle_run_query(&run_query(), Some(one_pipeline_plan()));
    let query_id = match &replies[0].msg {
        MessagePayload::RunQueryResp(RunQueryResp::Created { query_id }) => *query_id,
        other => panic!("expected created, got {:?}", other),
    };
    let iid = h.state.queries[0].operator_instances[0].instances[0].id;
    let rejected = Message::new(MessagePayload::OperatorInstanceAssignment(
        OperatorInstanceAssignment::AssignRejectedResponse {
            query_id,
            op_instance_id: iid,
            error: b"insufficient capacity".to_vec(),
        },
    ));
    h.handle_operator_instance_assignment_responses(&rejected).unwrap();
    assert_eq!(status_of(&h, query_id), Status::Error(b"insufficient capacity".to_vec()));
    assert_eq!(
        h.state.get_operator_instance(query_id, iid).unwrap().status,
        Status::Error(b"insufficient capacity".to_vec())
    );
}

#[test]
fn capacity_limits_the_assignments() {
    // a plan with four producer instances, capacity for two: two assigns
    let plan = PhysicalPlan {
        pipelines: vec![Pipeline {
            id: b"pipeline_0".to_vec(),
            operators: vec![Operator {
                id: b"op0".to_vec(),
                operator_type: OperatorType::Producer { outbound_exchange_id: b"ex0".to_vec() },
                compute: OperatorCompute {
                    instances: 4,
                    memory_in_mib: 256,
                    cpu_in_thousandths: 100,
                },
            }],
        }],
    };
    let mut h = QueryHandler::new(WORKER);
    h.handle_run_query(&run_query(), Some(plan));
    let resp = Message::new(MessagePayload::OperatorInstanceAvailable(
        OperatorInstanceAvailable::NotificationResponse {
            can_accept_up_to: TotalOperatorCompute {
                instances: 2,
                memory_in_mib: 512,
                cpu_in_thousandths: 200,
            },
        },
    ));
    let assigns = h.handle_operator_instance_response(&resp).unwrap();
    assert_eq!(assigns.len(), 2);
    // a second worker with no free compute gets nothing
    let empty = Message::new(MessagePayload::OperatorInstanceAvailable(
        OperatorInstanceAvailable::NotificationResponse {
            can_accept_up_to: TotalOperatorCompute {
                instances: 0,
                memory_in_mib: 0,
                cpu_in_thousandths: 0,
            },
        },
    ));
    let assigns = h.handle_operator_instance_response(&empty).unwrap();
    assert!(assigns.is_empty());
}
