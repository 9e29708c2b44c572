use chapterhousedb::compute::{OperatorCompute, TotalOperatorCompute};
use chapterhousedb::messages::{
    common::GenericResponse, common::Identify, common::Ping, exchange::ExchangeRequests,
    exchange::OperatorStatusChange, operator::OperatorInstanceStatusChange as OperatorSideChange,
    operator::Shutdown, query::GetQueryData, query::GetQueryDataResp, query::GetQueryStatus,
    query::GetQueryStatusResp, query::OperatorInstanceAssignment,
    query::OperatorInstanceAvailable, query::OperatorInstanceStatusChange,
    query::QueryHandlerRequests, query::RunQuery, query::RunQueryResp, Message, MessageName,
    MessagePayload,
};
use chapterhousedb::codec::{SerializedMessage, SerializedMessageError};
use chapterhousedb::plan::{Operator, OperatorType};
use chapterhousedb::query_state::Status;
use chapterhousedb::registry::{MessageRegistry, MessageRegistryError};

fn round_trip(msg: Message) {
    let bytes = msg.to_bytes().expect("encodable");
    let mut buf = bytes.clone();
    buf.extend_from_slice(&[1, 2, 3]);
    let sm = SerializedMessage::parse(&mut buf).expect("parse");
    assert_eq!(buf, vec![1, 2, 3]);
    let decoded = Message::build_from_serialized_message(&sm).expect("build");
    assert_eq!(decoded, msg);
}

fn plain(payload: MessagePayload) -> Message {
    Message::new(payload)
        .set_sent_from_worker_id(11)
        .set_sent_from_operation_id(22)
        .set_route_to_worker_id(33)
}

#[test]
fn round_trip_ping_and_pong() {
    round_trip(plain(MessagePayload::Ping(Ping::Ping)));
    round_trip(plain(MessagePayload::Ping(Ping::Pong)));
}

#[test]
fn round_trip_identify() {
    round_trip(plain(MessagePayload::Identify(Identify::Worker { id: 7 })));
    round_trip(plain(MessagePayload::Identify(Identify::Connection { id: 9 })));
}

#[test]
fn round_trip_generic_response() {
    round_trip(plain(MessagePayload::GenericResponse(GenericResponse::Okay)));
}

#[test]
fn round_trip_run_query() {
    round_trip(plain(MessagePayload::RunQuery(RunQuery {
        query: b"select * from read_files('data/x.parquet');".to_vec(),
    })));
    round_trip(plain(MessagePayload::RunQueryResp(RunQueryResp::Created { query_id: 5 })));
    round_trip(plain(MessagePayload::RunQueryResp(RunQueryResp::NotCreated)));
}

#[test]
fn round_trip_query_status() {
    round_trip(plain(MessagePayload::GetQueryStatus(GetQueryStatus { query_id: 42 })));
    round_trip(plain(MessagePayload::GetQueryStatusResp(GetQueryStatusResp::Status(
        Status::Error(b"boom".to_vec()),
    ))));
    round_trip(plain(MessagePayload::GetQueryStatusResp(GetQueryStatusResp::Status(
        Status::SentShutdown(123456),
    ))));
    round_trip(plain(MessagePayload::GetQueryStatusResp(GetQueryStatusResp::QueryNotFound)));
}

#[test]
fn round_trip_query_data() {
    round_trip(plain(MessagePayload::GetQueryData(GetQueryData {
        query_id: 1,
        file_idx: 2,
        file_row_group_idx: 3,
        row_idx: 4,
        limit: 50,
        forward: false,
    })));
    round_trip(plain(MessagePayload::GetQueryDataResp(GetQueryDataResp::Record {
        record: vec![1, 2, 3, 4],
        offsets: vec![(0, 0, 0), (0, 0, 1), (1, 0, 0)],
    })));
    round_trip(plain(MessagePayload::GetQueryDataResp(GetQueryDataResp::ReachedEndOfFiles)));
    round_trip(plain(MessagePayload::GetQueryDataResp(GetQueryDataResp::RecordRowGroupNotFound)));
    round_trip(plain(MessagePayload::GetQueryDataResp(GetQueryDataResp::Error {
        err: b"io".to_vec(),
    })));
}

#[test]
fn round_trip_assignment() {
    round_trip(plain(MessagePayload::OperatorInstanceAvailable(
        OperatorInstanceAvailable::Notification,
    )));
    round_trip(plain(MessagePayload::OperatorInstanceAvailable(
        OperatorInstanceAvailable::NotificationResponse {
            can_accept_up_to: TotalOperatorCompute {
                instances: 8,
                memory_in_mib: 8192,
                cpu_in_thousandths: 8000,
            },
        },
    )));
    round_trip(plain(MessagePayload::OperatorInstanceAssignment(
        OperatorInstanceAssignment::Assign {
            query_handler_worker_id: 1,
            query_id: 2,
            op_instance_id: 3,
            pipeline_id: b"pipeline_0".to_vec(),
            operator: Operator {
                id: b"operation_p0_op1".to_vec(),
                operator_type: OperatorType::Producer {
                    outbound_exchange_id: b"operation_p0_op2".to_vec(),
                },
                compute: OperatorCompute {
                    instances: 1,
                    memory_in_mib: 256,
                    cpu_in_thousandths: 100,
                },
            },
        },
    )));
    round_trip(plain(MessagePayload::OperatorInstanceAssignment(
        OperatorInstanceAssignment::AssignAcceptedResponse { query_id: 2, op_instance_id: 3 },
    )));
    round_trip(plain(MessagePayload::OperatorInstanceAssignment(
        OperatorInstanceAssignment::AssignRejectedResponse {
            query_id: 2,
            op_instance_id: 3,
            error: b"insufficient capacity".to_vec(),
        },
    )));
}

#[test]
fn round_trip_handler_requests_and_status_change() {
    round_trip(plain(MessagePayload::QueryHandlerRequests(
        QueryHandlerRequests::ListOperatorInstancesRequest {
            query_id: 9,
            operator_id: b"exchange_1".to_vec(),
        },
    )));
    round_trip(plain(MessagePayload::QueryHandlerRequests(
        QueryHandlerRequests::ListOperatorInstancesResponse { op_instance_ids: vec![5, 6, 7] },
    )));
    round_trip(plain(MessagePayload::QueryOperatorInstanceStatusChange(
        OperatorInstanceStatusChange::Complete { query_id: 1, operator_instance_id: 2 },
    )));
    round_trip(plain(MessagePayload::QueryOperatorInstanceStatusChange(
        OperatorInstanceStatusChange::Error {
            query_id: 1,
            operator_instance_id: 2,
            error: b"task failed".to_vec(),
        },
    )));
    round_trip(plain(MessagePayload::OperatorShutdown(Shutdown::Immediate)));
    round_trip(plain(MessagePayload::OperatorOperatorInstanceStatusChange(
        OperatorSideChange::Error(b"cancelled".to_vec()),
    )));
    round_trip(plain(MessagePayload::OperatorOperatorInstanceStatusChange(
        OperatorSideChange::Complete,
    )));
}

#[test]
fn round_trip_exchange_messages() {
    round_trip(plain(MessagePayload::ExchangeRequests(ExchangeRequests::SendRecordRequest {
        record: vec![9, 8, 7],
        table_aliases: vec![b"t1".to_vec(), b"t2".to_vec()],
    })));
    round_trip(plain(MessagePayload::ExchangeRequests(ExchangeRequests::SendRecordResponse {
        accepted: false,
        record_id: 3,
    })));
    round_trip(plain(MessagePayload::ExchangeRequests(ExchangeRequests::GetNextRecordRequest {
        operator_id: b"consumer_a".to_vec(),
    })));
    round_trip(plain(MessagePayload::ExchangeRequests(
        ExchangeRequests::GetNextRecordResponseRecord {
            record_id: 12,
            record: vec![0, 1],
            table_aliases: vec![b"x".to_vec()],
        },
    )));
    round_trip(plain(MessagePayload::ExchangeRequests(
        ExchangeRequests::GetNextRecordResponseNoneLeft,
    )));
    round_trip(plain(MessagePayload::ExchangeRequests(
        ExchangeRequests::CompletedRecordProcessingRequest {
            operator_id: b"consumer_a".to_vec(),
            record_id: 12,
        },
    )));
    round_trip(plain(MessagePayload::ExchangeOperatorStatusChange(
        OperatorStatusChange::Completed { operator_id: b"producer_1".to_vec() },
    )));
}

#[test]
fn round_trip_keeps_all_optional_id_combinations() {
    let base = Message::new(MessagePayload::Ping(Ping::Ping));
    round_trip(base.clone());
    round_trip(base.clone().set_sent_from_pipeline_id(1));
    round_trip(base.clone().set_sent_from_connection_id(2).set_route_to_connection_id(3));
    round_trip(
        base.set_sent_from_worker_id(1)
            .set_sent_from_pipeline_id(2)
            .set_sent_from_operation_id(3)
            .set_sent_from_connection_id(4)
            .set_route_to_worker_id(5)
            .set_route_to_operation_id(6)
            .set_route_to_connection_id(7),
    );
}

#[test]
fn encode_is_not_the_identity_on_payload_bytes() {
    // a decoded payload is parsed, not handed back: flipping a payload
    // byte must change what decodes, or fail to decode.
    let msg = plain(MessagePayload::RunQuery(RunQuery { query: b"select 1;".to_vec() }));
    let bytes = msg.to_bytes().unwrap();
    let mut tampered = bytes.clone();
    let last = tampered.len() - 1;
    tampered[last] ^= 0xff;
    let mut buf = tampered;
    match SerializedMessage::parse(&mut buf) {
        Ok(sm) => match Message::build_from_serialized_message(&sm) {
            Ok(decoded) => assert_ne!(decoded, msg),
            Err(_) => {},
        },
        Err(_) => {},
    }
}

#[test]
fn incremental_decode_waits_for_the_whole_frame() {
    let msg = plain(MessagePayload::Ping(Ping::Ping));
    let bytes = msg.to_bytes().unwrap();
    for cut in [0usize, 1, 4, 16, 100, bytes.len() - 1] {
        let mut partial = bytes[..cut].to_vec();
        match SerializedMessage::parse(&mut partial) {
            Err(SerializedMessageError::Incomplete) => {}
            other => panic!("expected incomplete, got {:?}", other),
        }
        assert_eq!(partial.len(), cut, "an incomplete parse must not consume");
    }
}

#[test]
fn unknown_kind_id_is_a_bad_kind_error() {
    let msg = plain(MessagePayload::Ping(Ping::Ping));
    let mut bytes = msg.to_bytes().unwrap();
    // the kind id sits at offset 14..16, big-endian
    bytes[14] = 0xff;
    bytes[15] = 0xff;
    let mut buf = bytes;
    let sm = SerializedMessage::parse(&mut buf).expect("frame still parses");
    match Message::build_from_serialized_message(&sm) {
        Err(SerializedMessageError::BadKind(k)) => assert_eq!(k, 0xffff),
        other => panic!("expected bad kind, got {:?}", other),
    }
}

#[test]
fn inconsistent_total_len_is_malformed() {
    let msg = plain(MessagePayload::Ping(Ping::Ping));
    let mut bytes = msg.to_bytes().unwrap();
    bytes[3] ^= 1;
    let mut buf = bytes;
    match SerializedMessage::parse(&mut buf) {
        Err(SerializedMessageError::Malformed) => {}
        other => panic!("expected malformed, got {:?}", other),
    }
}

#[test]
fn header_len_is_the_fixed_header_size() {
    assert_eq!(SerializedMessage::header_len(), 142);
    let msg = Message::new(MessagePayload::Ping(Ping::Ping));
    let bytes = msg.to_bytes().unwrap();
    // ping payload: one u8 field, a shape tag and the value; frame = 4 + 142 + payload
    assert_eq!(bytes.len(), 4 + 142 + 2);
}

#[test]
fn registry_decodes_and_reports_unknown_kinds() {
    let reg = MessageRegistry::new();
    let msg = plain(MessagePayload::Ping(Ping::Pong));
    let bytes = msg.to_bytes().unwrap();
    let mut buf = bytes[..10].to_vec();
    assert_eq!(
        reg.build_msg(&mut buf),
        Err(MessageRegistryError::IncompleteMessage)
    );
    assert_eq!(buf, bytes[..10].to_vec());
    let mut buf = msg.to_bytes().unwrap();
    let decoded = reg.build_msg(&mut buf).unwrap().unwrap();
    assert_eq!(decoded, msg);
    assert!(buf.is_empty());
    let mut bad = msg.to_bytes().unwrap();
    bad[14] = 0xff;
    bad[15] = 0xfe;
    match reg.build_msg(&mut bad) {
        Err(MessageRegistryError::MessageIdNotInRegistry(k)) => assert_eq!(k, 0xfffe),
        other => panic!("expected unregistered kind, got {:?}", other),
    }
}

#[test]
fn message_name_ids_round_trip() {
    let names = [
        MessageName::Ping,
        MessageName::Identify,
        MessageName::GenericResponse,
        MessageName::RunQuery,
        MessageName::RunQueryResp,
        MessageName::GetQueryStatus,
        MessageName::GetQueryStatusResp,
        MessageName::GetQueryData,
        MessageName::GetQueryDataResp,
        MessageName::OperatorInstanceAvailable,
        MessageName::OperatorInstanceAssignment,
        MessageName::QueryHandlerRequests,
        MessageName::QueryOperatorInstanceStatusChange,
        MessageName::OperatorShutdown,
        MessageName::OperatorOperatorInstanceStatusChange,
        MessageName::ExchangeRequests,
        MessageName::ExchangeOperatorStatusChange,
    ];
    for (i, n) in names.iter().enumerate() {
        assert_eq!(n.as_u16() as usize, i);
        assert_eq!(MessageName::from_u16(n.as_u16()), Some(*n));
    }
    assert_eq!(MessageName::from_u16(17), None);
    assert_eq!(MessageName::Ping.as_str(), "ping");
}

#[test]
fn reply_is_routed_back_and_correlated() {
    let req = Message::new(MessagePayload::GetQueryStatus(GetQueryStatus { query_id: 4 }))
        .set_sent_from_worker_id(77)
        .set_sent_from_operation_id(88);
    let reply = req.reply(MessagePayload::GetQueryStatusResp(GetQueryStatusResp::QueryNotFound));
    assert_eq!(reply.msg_id, req.msg_id);
    assert_eq!(reply.route_to_worker_id, Some(77));
    assert_eq!(reply.route_to_operation_id, Some(88));
    assert_eq!(reply.route_to_connection_id, None);
}

#[test]
fn round_trip_extreme_ids() {
    let msg = Message::new(MessagePayload::Identify(Identify::Worker { id: u128::MAX }))
        .set_sent_from_worker_id(u128::MAX)
        .set_route_to_operation_id(1u128 << 127);
    round_trip(msg);
    let msg = Message::new(MessagePayload::GetQueryData(GetQueryData {
        query_id: u128::MAX,
        file_idx: u64::MAX,
        file_row_group_idx: u64::MAX,
        row_idx: u64::MAX,
        limit: u64::MAX,
        forward: true,
    }));
    round_trip(msg);
}
