use chapterhousedb::messages::{
    common::Identify, common::Ping, query::GetQueryData, query::RunQuery, Message, MessagePayload,
};
use chapterhousedb::router::{
    deliveries_for_operation, ExternalSubscriber, InternalSubscriber, MessageRouterState,
    RouteDecision, SubscriberKind,
};

const LOCAL: u128 = 100;

fn run_query_msg() -> Message {
    Message::new(MessagePayload::RunQuery(RunQuery { query: b"select 1;".to_vec() }))
}

#[test]
fn identify_is_handled_by_the_router() {
    let state = MessageRouterState::new();
    let msg = Message::new(MessagePayload::Identify(Identify::Worker { id: 7 }));
    assert_eq!(state.route_msg(&msg, LOCAL), RouteDecision::HandleIdentify);
}

#[test]
fn messages_for_other_workers_are_forwarded_or_dropped() {
    let mut state = MessageRouterState::new();
    let msg = run_query_msg().set_route_to_worker_id(7);
    // no peer known yet: dropped, never an error
    assert_eq!(state.route_msg(&msg, LOCAL), RouteDecision::Drop);
    state.add_external_subscriber(ExternalSubscriber::OutboundWorker {
        worker_id: 7,
        outbound_stream_id: 55,
    });
    assert_eq!(
        state.route_msg(&msg, LOCAL),
        RouteDecision::ForwardToWorker { outbound_stream_id: 55 }
    );
    // re-identifying the same worker replaces its stream
    state.add_external_subscriber(ExternalSubscriber::OutboundWorker {
        worker_id: 7,
        outbound_stream_id: 66,
    });
    assert_eq!(state.external_subscribers.len(), 1);
    assert_eq!(
        state.route_msg(&msg, LOCAL),
        RouteDecision::ForwardToWorker { outbound_stream_id: 66 }
    );
}

#[test]
fn messages_for_connections_are_forwarded() {
    let mut state = MessageRouterState::new();
    state.add_external_subscriber(ExternalSubscriber::InboundClientConnection {
        connection_id: 9,
        inbound_stream_id: 3,
    });
    let msg = run_query_msg().set_route_to_connection_id(9);
    assert_eq!(
        state.route_msg(&msg, LOCAL),
        RouteDecision::ForwardToConnection { inbound_stream_id: 3 }
    );
    let unknown = run_query_msg().set_route_to_connection_id(8);
    assert_eq!(state.route_msg(&unknown, LOCAL), RouteDecision::Drop);
}

#[test]
fn local_messages_go_to_the_matching_subscribers() {
    let mut state = MessageRouterState::new();
    state.add_internal_subscriber(InternalSubscriber {
        operator_id: 1,
        kind: SubscriberKind::QueryHandler,
    });
    state.add_internal_subscriber(InternalSubscriber {
        operator_id: 2,
        kind: SubscriberKind::QueryData,
    });
    // a query submission goes to the query handler only
    match state.route_msg(&run_query_msg(), LOCAL) {
        RouteDecision::DeliverInternal { targets } => assert_eq!(targets, vec![0]),
        other => panic!("expected internal delivery, got {:?}", other),
    }
    // a data read goes to the data handler only
    let data = Message::new(MessagePayload::GetQueryData(GetQueryData {
        query_id: 1,
        file_idx: 0,
        file_row_group_idx: 0,
        row_idx: 0,
        limit: 10,
        forward: true,
    }));
    match state.route_msg(&data, LOCAL) {
        RouteDecision::DeliverInternal { targets } => assert_eq!(targets, vec![1]),
        other => panic!("expected internal delivery, got {:?}", other),
    }
    // a message addressed to this worker is still delivered locally
    match state.route_msg(&run_query_msg().set_route_to_worker_id(LOCAL), LOCAL) {
        RouteDecision::DeliverInternal { targets } => assert_eq!(targets, vec![0]),
        other => panic!("expected internal delivery, got {:?}", other),
    }
}

#[test]
fn operation_addressed_messages_reach_only_that_subscriber() {
    let mut state = MessageRouterState::new();
    state.add_internal_subscriber(InternalSubscriber {
        operator_id: 1,
        kind: SubscriberKind::QueryHandler,
    });
    state.add_internal_subscriber(InternalSubscriber {
        operator_id: 7,
        kind: SubscriberKind::Producer { operator_instance_id: 7, pipeline_id: 40 },
    });
    // addressed to operation 7: delivered to that subscriber and only it,
    // even though the query handler's predicate would accept the kind
    let msg = Message::new(MessagePayload::Ping(Ping::Ping)).set_route_to_operation_id(7);
    match state.route_msg(&msg, LOCAL) {
        RouteDecision::DeliverInternal { targets } => assert_eq!(targets, vec![1]),
        other => panic!("expected internal delivery, got {:?}", other),
    }
}

#[test]
fn producer_subscribers_filter_by_address_and_pipeline() {
    let sub = InternalSubscriber {
        operator_id: 5,
        kind: SubscriberKind::Producer { operator_instance_id: 5, pipeline_id: 40 },
    };
    let to_me = Message::new(MessagePayload::Ping(Ping::Ping)).set_route_to_operation_id(5);
    assert!(sub.consumes_message(&to_me));
    let to_other = Message::new(MessagePayload::Ping(Ping::Ping)).set_route_to_operation_id(6);
    assert!(!sub.consumes_message(&to_other));
    let same_pipeline = Message::new(MessagePayload::Ping(Ping::Ping)).set_sent_from_pipeline_id(40);
    assert!(sub.consumes_message(&same_pipeline));
    let other_pipeline =
        Message::new(MessagePayload::Ping(Ping::Ping)).set_sent_from_pipeline_id(41);
    assert!(!sub.consumes_message(&other_pipeline));
}

#[test]
fn deliveries_to_one_operation_keep_send_order() {
    let msgs: Vec<Message> = vec![
        Message::new(MessagePayload::Ping(Ping::Ping)).set_route_to_operation_id(5),
        Message::new(MessagePayload::Ping(Ping::Ping)).set_route_to_operation_id(6),
        Message::new(MessagePayload::Ping(Ping::Pong)).set_route_to_operation_id(5),
        Message::new(MessagePayload::Ping(Ping::Ping)),
        Message::new(MessagePayload::Ping(Ping::Ping)).set_route_to_operation_id(5),
    ];
    let delivered = deliveries_for_operation(&msgs, 5);
    // exactly the messages addressed to operation 5, in send order
    assert_eq!(delivered, vec![0, 2, 4]);
    for pair in delivered.windows(2) {
        assert!(pair[0] < pair[1]);
    }
}
