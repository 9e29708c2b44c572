use chapterhousedb::exchange_state::{ExchangeState, GetNextRecordOutcome};
use chapterhousedb::exchange_finder::{IdentifyExchangeRequest, IdentifyExchangeRequestError};
use chapterhousedb::messages::{
    common::Ping, query::QueryHandlerRequests, Message, MessagePayload,
};

fn fresh_exchange() -> ExchangeState {
    ExchangeState::new(8, vec![b"producer_1".to_vec(), b"producer_2".to_vec()])
}

#[test]
fn record_is_evicted_exactly_when_every_consumer_acked() {
    let mut ex = fresh_exchange();
    ex.register_consumer(&b"c1".to_vec());
    ex.register_consumer(&b"c2".to_vec());
    let id = ex.push_record(vec![1, 2, 3], vec![]).unwrap();
    assert_eq!(id, 0);
    // first ack: not evicted, the record stays for the other consumer
    assert!(!ex.completed_record_processing(&b"c1".to_vec(), id));
    assert_eq!(ex.buffer.len(), 1);
    match ex.get_next_record(&b"c2".to_vec()) {
        GetNextRecordOutcome::Record { record_id, record, .. } => {
            assert_eq!(record_id, 0);
            assert_eq!(record, vec![1, 2, 3]);
        }
        other => panic!("expected a record, got {:?}", other),
    }
    // second ack: everyone acked, the record is evicted
    assert!(ex.completed_record_processing(&b"c2".to_vec(), id));
    assert_eq!(ex.buffer.len(), 0);
}

#[test]
fn a_second_ack_for_the_same_pair_is_a_no_op() {
    let mut ex = fresh_exchange();
    ex.register_consumer(&b"c1".to_vec());
    ex.register_consumer(&b"c2".to_vec());
    let id = ex.push_record(vec![4], vec![]).unwrap();
    assert!(!ex.completed_record_processing(&b"c1".to_vec(), id));
    let before = ex.clone();
    // the same consumer acking again changes nothing and cannot evict
    assert!(!ex.completed_record_processing(&b"c1".to_vec(), id));
    assert_eq!(ex, before);
    // an ack for an unknown record id is also a no-op
    assert!(!ex.completed_record_processing(&b"c2".to_vec(), 999));
    assert_eq!(ex, before);
}

#[test]
fn the_buffer_is_bounded_and_producers_must_retry() {
    let mut ex = ExchangeState::new(2, vec![b"p".to_vec()]);
    assert_eq!(ex.push_record(vec![1], vec![]), Some(0));
    assert_eq!(ex.push_record(vec![2], vec![]), Some(1));
    // the buffer is full: the push is refused, never silently dropped
    assert_eq!(ex.push_record(vec![3], vec![]), None);
    assert_eq!(ex.buffer.len(), 2);
    assert_eq!(ex.next_record_id, 2);
}

#[test]
fn none_left_only_after_all_upstreams_drained() {
    let mut ex = fresh_exchange();
    ex.register_consumer(&b"c1".to_vec());
    // nothing buffered, producers still live: the consumer must ask again
    assert_eq!(ex.get_next_record(&b"c1".to_vec()), GetNextRecordOutcome::Pending);
    ex.mark_upstream_complete(&b"producer_1".to_vec());
    assert_eq!(ex.get_next_record(&b"c1".to_vec()), GetNextRecordOutcome::Pending);
    ex.mark_upstream_complete(&b"producer_2".to_vec());
    assert_eq!(ex.get_next_record(&b"c1".to_vec()), GetNextRecordOutcome::NoneLeft);
    // marking an upstream twice is harmless
    ex.mark_upstream_complete(&b"producer_2".to_vec());
    assert_eq!(ex.drained_upstreams.len(), 2);
}

fn list_response(ids: Vec<u128>) -> Message {
    Message::new(MessagePayload::QueryHandlerRequests(
        QueryHandlerRequests::ListOperatorInstancesResponse { op_instance_ids: ids },
    ))
}

#[test]
fn peer_lookup_retries_twice_with_linear_backoff() {
    let mut req = IdentifyExchangeRequest::new(7, b"ex0".to_vec());
    // the first request is a list request
    let m = req.next_request().unwrap();
    match m.msg {
        MessagePayload::QueryHandlerRequests(
            QueryHandlerRequests::ListOperatorInstancesRequest { query_id, operator_id },
        ) => {
            assert_eq!(query_id, 7);
            assert_eq!(operator_id, b"ex0".to_vec());
        }
        other => panic!("expected a list request, got {:?}", other),
    }
    // no instance yet: retry after one second
    assert_eq!(req.handle_list_response(&list_response(vec![])), Ok(Some(1)));
    // still none: retry after two seconds
    assert_eq!(req.handle_list_response(&list_response(vec![])), Ok(Some(2)));
    // the budget of two retries is spent: the next empty answer is fatal
    let mut spent = req.clone();
    assert_eq!(
        spent.handle_list_response(&list_response(vec![])),
        Err(IdentifyExchangeRequestError::ReceivedNoOperatorInstancesForTheExchange)
    );
    // the exchange exists now: the lookup proceeds to the ping
    assert_eq!(req.handle_list_response(&list_response(vec![42])), Ok(None));
    let ping = req.next_request().unwrap();
    assert_eq!(ping.msg, MessagePayload::Ping(Ping::Ping));
    assert_eq!(ping.route_to_operation_id, Some(42));
    // the pong names the hosting worker
    let pong = Message::new(MessagePayload::Ping(Ping::Pong)).set_sent_from_worker_id(5);
    req.handle_ping_response(&pong).unwrap();
    let resp = req.response().unwrap();
    assert_eq!(resp.exchange_operator_instance_id, 42);
    assert_eq!(resp.exchange_worker_id, 5);
    assert_eq!(req.next_request(), None);
}

#[test]
fn peer_lookup_rejects_multiple_instances_and_wrong_replies() {
    let mut req = IdentifyExchangeRequest::new(7, b"ex0".to_vec());
    assert_eq!(
        req.handle_list_response(&list_response(vec![1, 2])),
        Err(IdentifyExchangeRequestError::ReceivedMultipleOperatorInstancesForTheExchange)
    );
    assert_eq!(
        req.handle_list_response(&Message::new(MessagePayload::Ping(Ping::Pong))),
        Err(IdentifyExchangeRequestError::ReceivedTheWrongMessageType)
    );
    req.handle_list_response(&list_response(vec![42])).unwrap();
    let bare_pong = Message::new(MessagePayload::Ping(Ping::Pong));
    assert_eq!(
        req.handle_ping_response(&bare_pong),
        Err(IdentifyExchangeRequestError::ReceivedMessageWithoutAWorkerId)
    );
    assert_eq!(req.response(), Err(IdentifyExchangeRequestError::MissingPartOfResponse));
}
