//! The message router: demultiplexes inbound messages to internal
//! subscribers (by operator instance id, query id, or message kind) and to
//! external peers (by worker id or connection id).

use vstd::prelude::*;
use crate::messages::{
    common, exchange, query, Message, MessageName, MessagePayload, MessageV, PayloadV,
    payload_name,
};

verus! {

/// What an internal subscriber is: the predicate it filters inbound
/// messages with is determined by its kind.
#[derive(Debug, Clone, PartialEq, Eq)]
pub enum SubscriberKind {
    /// The query handler: lifecycle and assignment traffic.
    QueryHandler,
    /// The query data handler: paginated result reads.
    QueryData,
    /// A producer operator host, pipeline-scoped.
    Producer { operator_instance_id: u128, pipeline_id: u128 },
    /// A materialize-files task: exchange reads and peer discovery replies.
    MaterializeFiles,
}

/// An in-process receiver keyed by operator instance id.
#[derive(Debug, Clone, PartialEq, Eq)]
pub struct InternalSubscriber {
    pub operator_id: u128,
    pub kind: SubscriberKind,
}

/// A peer reachable over a physical stream.
#[derive(Debug, Clone, Copy, PartialEq, Eq, Structural)]
pub enum ExternalSubscriber {
    InboundClientConnection { connection_id: u128, inbound_stream_id: u128 },
    OutboundWorker { worker_id: u128, outbound_stream_id: u128 },
}

// ---------------------------------------------------------------------------
// The consume predicates of the internal subscribers
// ---------------------------------------------------------------------------

/// What the query handler consumes: queries, status polls, capacity
/// responses, assignment responses, list requests, and instance status
/// changes; plus generic responses addressed to it.
pub open spec fn query_handler_consumes(operator_id: u128, m: MessageV) -> bool {
    match m.msg {
        PayloadV::RunQuery(_) => true,
        PayloadV::GetQueryStatus(_) => true,
        PayloadV::OperatorInstanceAvailable(p) => p is NotificationResponse,
        PayloadV::OperatorInstanceAssignment(p) => (p is AssignAcceptedResponse || p
            is AssignRejectedResponse),
        PayloadV::QueryHandlerRequests(p) => p is ListOperatorInstancesRequest,
        PayloadV::QueryOperatorInstanceStatusChange(_) => true,
        PayloadV::GenericResponse(_) => {
            &&& m.sent_from_connection_id is None
            &&& m.route_to_connection_id is None
            &&& m.route_to_operation_id == Some(operator_id)
        },
        _ => false,
    }
}

/// What the query data handler consumes: data read requests only.
pub open spec fn query_data_consumes(m: MessageV) -> bool {
    m.msg is GetQueryData
}

/// What a producer operator host consumes: anything addressed to it, and
/// unaddressed traffic of its own pipeline.
pub open spec fn producer_consumes(
    operator_instance_id: u128,
    pipeline_id: u128,
    m: MessageV,
) -> bool {
    !((m.route_to_operation_id is Some && m.route_to_operation_id != Some(operator_instance_id))
        || (m.sent_from_pipeline_id is Some && m.sent_from_pipeline_id != Some(pipeline_id)))
}

/// What a materialize-files task consumes: pongs, instance listings, and
/// exchange record responses.
pub open spec fn materialize_consumes(m: MessageV) -> bool {
    match m.msg {
        PayloadV::Ping(p) => p is Pong,
        PayloadV::QueryHandlerRequests(p) => p is ListOperatorInstancesResponse,
        PayloadV::ExchangeRequests(p) => (p is GetNextRecordResponseRecord || p
            is GetNextRecordResponseNoneLeft || p is SendRecordResponse),
        _ => false,
    }
}

/// The predicate of a subscriber.
pub open spec fn subscriber_consumes(s: InternalSubscriber, m: MessageV) -> bool {
    match s.kind {
        SubscriberKind::QueryHandler => query_handler_consumes(s.operator_id, m),
        SubscriberKind::QueryData => query_data_consumes(m),
        SubscriberKind::Producer { operator_instance_id, pipeline_id } => producer_consumes(
            operator_instance_id,
            pipeline_id,
            m,
        ),
        SubscriberKind::MaterializeFiles => materialize_consumes(m),
    }
}

impl InternalSubscriber {
    /// Whether this subscriber consumes the message.
    pub fn consumes_message(&self, msg: &Message) -> (r: bool)
        ensures
            r == subscriber_consumes(*self, msg@),
    {
        match &self.kind {
            SubscriberKind::QueryHandler => match &msg.msg {
                MessagePayload::RunQuery(_) => true,
                MessagePayload::GetQueryStatus(_) => true,
                MessagePayload::OperatorInstanceAvailable(p) => match p {
                    query::OperatorInstanceAvailable::NotificationResponse { .. } => true,
                    _ => false,
                },
                MessagePayload::OperatorInstanceAssignment(p) => match p {
                    query::OperatorInstanceAssignment::AssignAcceptedResponse { .. } => true,
                    query::OperatorInstanceAssignment::AssignRejectedResponse { .. } => true,
                    _ => false,
                },
                MessagePayload::QueryHandlerRequests(p) => match p {
                    query::QueryHandlerRequests::ListOperatorInstancesRequest { .. } => true,
                    _ => false,
                },
                MessagePayload::QueryOperatorInstanceStatusChange(_) => true,
                MessagePayload::GenericResponse(_) => {
                    msg.sent_from_connection_id.is_none() && msg.route_to_connection_id.is_none()
                        && msg.route_to_operation_id == Some(self.operator_id)
                },
                _ => false,
            },
            SubscriberKind::QueryData => match &msg.msg {
                MessagePayload::GetQueryData(_) => true,
                _ => false,
            },
            SubscriberKind::Producer { operator_instance_id, pipeline_id } => {
                !((msg.route_to_operation_id.is_some() && msg.route_to_operation_id != Some(
                    *operator_instance_id,
                )) || (msg.sent_from_pipeline_id.is_some() && msg.sent_from_pipeline_id != Some(
                    *pipeline_id,
                )))
            },
            SubscriberKind::MaterializeFiles => match &msg.msg {
                MessagePayload::Ping(p) => match p {
                    common::Ping::Pong => true,
                    _ => false,
                },
                MessagePayload::QueryHandlerRequests(p) => match p {
                    query::QueryHandlerRequests::ListOperatorInstancesResponse { .. } => true,
                    _ => false,
                },
                MessagePayload::ExchangeRequests(p) => match p {
                    exchange::ExchangeRequests::GetNextRecordResponseRecord { .. } => true,
                    exchange::ExchangeRequests::GetNextRecordResponseNoneLeft => true,
                    exchange::ExchangeRequests::SendRecordResponse { .. } => true,
                    _ => false,
                },
                _ => false,
            },
        }
    }
}

/// What an external subscriber consumes: traffic addressed to its worker
/// or connection id.
pub open spec fn external_consumes(s: ExternalSubscriber, m: MessageV) -> bool {
    match s {
        ExternalSubscriber::InboundClientConnection { connection_id, .. } => {
            m.route_to_connection_id == Some(connection_id)
        },
        ExternalSubscriber::OutboundWorker { worker_id, .. } => {
            match (m.route_to_worker_id, m.route_to_connection_id) {
                (Some(w), None) => worker_id == w,
                (None, None) => true,
                _ => false,
            }
        },
    }
}

impl ExternalSubscriber {
    /// Whether the message is addressed to this peer.
    pub fn consumes_message(&self, msg: &Message) -> (r: bool)
        ensures
            r == external_consumes(*self, msg@),
    {
        match self {
            ExternalSubscriber::InboundClientConnection { connection_id, .. } => {
                match msg.route_to_connection_id {
                    Some(rid) => *connection_id == rid,
                    None => false,
                }
            },
            ExternalSubscriber::OutboundWorker { worker_id, .. } => {
                match (msg.route_to_worker_id, msg.route_to_connection_id) {
                    (Some(w_rid), None) => *worker_id == w_rid,
                    (None, None) => true,
                    _ => false,
                }
            },
        }
    }
}

// ---------------------------------------------------------------------------
// The router's subscriber tables
// ---------------------------------------------------------------------------

/// The identity of an external subscriber, for de-duplication.
pub open spec fn same_identity(a: ExternalSubscriber, b: ExternalSubscriber) -> bool {
    match (a, b) {
        (
            ExternalSubscriber::InboundClientConnection { connection_id: c1, .. },
            ExternalSubscriber::InboundClientConnection { connection_id: c2, .. },
        ) => c1 == c2,
        (
            ExternalSubscriber::OutboundWorker { worker_id: w1, .. },
            ExternalSubscriber::OutboundWorker { worker_id: w2, .. },
        ) => w1 == w2,
        _ => false,
    }
}

/// The router's state: the two subscriber tables.
#[derive(Debug, Clone, PartialEq, Eq)]
pub struct MessageRouterState {
    pub internal_subscribers: Vec<InternalSubscriber>,
    pub external_subscribers: Vec<ExternalSubscriber>,
}

impl MessageRouterState {
    pub fn new() -> (r: MessageRouterState)
        ensures
            r.internal_subscribers@.len() == 0,
            r.external_subscribers@.len() == 0,
    {
        MessageRouterState { internal_subscribers: Vec::new(), external_subscribers: Vec::new() }
    }

    /// Appends an internal subscriber.
    pub fn add_internal_subscriber(&mut self, sub: InternalSubscriber)
        ensures
            final(self).internal_subscribers@ == old(self).internal_subscribers@.push(sub),
            final(self).external_subscribers == old(self).external_subscribers,
    {
        self.internal_subscribers.push(sub);
    }

    /// Removes the internal subscriber with this operator id, if present.
    pub fn remove_internal_subscriber(&mut self, operator_id: u128)
        ensures
            final(self).external_subscribers == old(self).external_subscribers,
            forall|i: int|
                0 <= i < final(self).internal_subscribers@.len() ==> (#[trigger] final(self).internal_subscribers@[i]).operator_id != operator_id || exists|j: int|
                    0 <= j < old(self).internal_subscribers@.len() && old(self).internal_subscribers@[j] == final(self).internal_subscribers@[i],
    {
        let mut out: Vec<InternalSubscriber> = Vec::new();
        let mut i: usize = 0;
        let n = self.internal_subscribers.len();
        while i < n
            invariant
                n == self.internal_subscribers@.len(),
                i <= n,
                forall|t: int|
                    0 <= t < out@.len() ==> exists|j: int|
                        0 <= j < self.internal_subscribers@.len() && self.internal_subscribers@[j]
                            == #[trigger] out@[t],
            decreases n - i,
        {
            if self.internal_subscribers[i].operator_id != operator_id {
                let s = &self.internal_subscribers[i];
                let c = InternalSubscriber {
                    operator_id: s.operator_id,
                    kind: match &s.kind {
                        SubscriberKind::QueryHandler => SubscriberKind::QueryHandler,
                        SubscriberKind::QueryData => SubscriberKind::QueryData,
                        SubscriberKind::Producer { operator_instance_id, pipeline_id } => {
                            SubscriberKind::Producer {
                                operator_instance_id: *operator_instance_id,
                                pipeline_id: *pipeline_id,
                            }
                        },
                        SubscriberKind::MaterializeFiles => SubscriberKind::MaterializeFiles,
                    },
                };
                proof {
                    assert(c == self.internal_subscribers@[i as int]);
                }
                out.push(c);
            }
            i = i + 1;
        }
        self.internal_subscribers = out;
    }

    /// Adds or replaces the external subscriber with the same identity:
    /// the new entry is present afterwards.
    pub fn add_external_subscriber(&mut self, sub: ExternalSubscriber)
        ensures
            final(self).internal_subscribers == old(self).internal_subscribers,
            final(self).external_subscribers@.last() == sub,
            final(self).external_subscribers@.len() >= 1,
            forall|i: int|
                0 <= i < final(self).external_subscribers@.len() - 1 ==> !same_identity(
                    #[trigger] final(self).external_subscribers@[i],
                    sub,
                ) && exists|j: int|
                    0 <= j < old(self).external_subscribers@.len() && old(self).external_subscribers@[j] == final(self).external_subscribers@[i],
    {
        let mut out: Vec<ExternalSubscriber> = Vec::new();
        let mut i: usize = 0;
        let n = self.external_subscribers.len();
        while i < n
            invariant
                n == self.external_subscribers@.len(),
                i <= n,
                forall|t: int|
                    0 <= t < out@.len() ==> !same_identity(#[trigger] out@[t], sub) && exists|
                        j: int,
                    |
                        0 <= j < self.external_subscribers@.len()
                            && self.external_subscribers@[j] == out@[t],
            decreases n - i,
        {
            let cur = self.external_subscribers[i];
            let keep = match (&cur, &sub) {
                (
                    ExternalSubscriber::InboundClientConnection { connection_id: c1, .. },
                    ExternalSubscriber::InboundClientConnection { connection_id: c2, .. },
                ) => *c1 != *c2,
                (
                    ExternalSubscriber::OutboundWorker { worker_id: w1, .. },
                    ExternalSubscriber::OutboundWorker { worker_id: w2, .. },
                ) => *w1 != *w2,
                _ => true,
            };
            if keep {
                out.push(cur);
            }
            i = i + 1;
        }
        out.push(sub);
        self.external_subscribers = out;
    }
}

// ---------------------------------------------------------------------------
// The routing rule
// ---------------------------------------------------------------------------

/// Where one inbound message goes.
#[derive(Debug, Clone, PartialEq, Eq)]
pub enum RouteDecision {
    /// An identity handshake: the router updates its tables and replies.
    HandleIdentify,
    /// Forward over the outbound stream of a peer worker.
    ForwardToWorker { outbound_stream_id: u128 },
    /// Forward over the inbound stream of a client connection.
    ForwardToConnection { inbound_stream_id: u128 },
    /// Deliver to these internal subscribers, by table position, in order.
    DeliverInternal { targets: Vec<usize> },
    /// Undeliverable: logged and dropped, never an error to the sender.
    Drop,
}

impl MessageRouterState {
    /// The routing rule for one inbound message.
    ///
    /// Identify is handled by the router itself; a message routed to
    /// another worker or to a connection goes to the matching external
    /// subscriber, and is dropped exactly when none matches; a message
    /// routed to an operation goes to that internal subscriber and only
    /// that one; everything else is broadcast to exactly the internal
    /// subscribers whose predicate accepts it.
    #[verifier::loop_isolation(false)]
    pub fn route_msg(&self, msg: &Message, local_worker_id: u128) -> (r: RouteDecision)
        ensures
            payload_name(msg@.msg) == MessageName::Identify ==> r == RouteDecision::HandleIdentify,
            payload_name(msg@.msg) != MessageName::Identify ==> match r {
                RouteDecision::HandleIdentify => false,
                RouteDecision::ForwardToWorker { outbound_stream_id } => {
                    &&& msg@.route_to_worker_id is Some
                    &&& msg@.route_to_worker_id != Some(local_worker_id)
                    &&& exists|i: int|
                        0 <= i < self.external_subscribers@.len() && ((
                        #[trigger] self.external_subscribers@[i]) matches ExternalSubscriber::OutboundWorker {
                            worker_id,
                            outbound_stream_id: s,
                        } && Some(worker_id) == msg@.route_to_worker_id && s == outbound_stream_id)
                },
                RouteDecision::ForwardToConnection { inbound_stream_id } => {
                    &&& (msg@.route_to_worker_id is None || msg@.route_to_worker_id == Some(
                        local_worker_id,
                    ))
                    &&& msg@.route_to_connection_id is Some
                    &&& exists|i: int|
                        0 <= i < self.external_subscribers@.len() && ((
                        #[trigger] self.external_subscribers@[i]) matches ExternalSubscriber::InboundClientConnection {
                            connection_id,
                            inbound_stream_id: s,
                        } && Some(connection_id) == msg@.route_to_connection_id && s
                            == inbound_stream_id)
                },
                RouteDecision::DeliverInternal { targets } => {
                    &&& (msg@.route_to_worker_id is None || msg@.route_to_worker_id == Some(
                        local_worker_id,
                    ))
                    &&& msg@.route_to_connection_id is None
                    &&& forall|a: int, b: int|
                        0 <= a < b < targets@.len() ==> targets@[a] < targets@[b]
                    &&& match msg@.route_to_operation_id {
                        Some(op) => {
                            &&& forall|t: int|
                                0 <= t < targets@.len() ==> #[trigger] targets@[t]
                                    < self.internal_subscribers@.len()
                                    && self.internal_subscribers@[targets@[t] as int].operator_id
                                    == op
                            &&& forall|i: int|
                                0 <= i < self.internal_subscribers@.len() && (
                                #[trigger] self.internal_subscribers@[i]).operator_id == op
                                    ==> targets@.contains(i as usize)
                        },
                        None => {
                            &&& forall|t: int|
                                0 <= t < targets@.len() ==> #[trigger] targets@[t]
                                    < self.internal_subscribers@.len() && subscriber_consumes(
                                    self.internal_subscribers@[targets@[t] as int],
                                    msg@,
                                )
                            &&& forall|i: int|
                                0 <= i < self.internal_subscribers@.len() && subscriber_consumes(
                                    #[trigger] self.internal_subscribers@[i],
                                    msg@,
                                ) ==> targets@.contains(i as usize)
                        },
                    }
                },
                RouteDecision::Drop => {
                    ||| (msg@.route_to_worker_id is Some && msg@.route_to_worker_id != Some(
                        local_worker_id,
                    ) && forall|i: int|
                        0 <= i < self.external_subscribers@.len() ==> !((
                        #[trigger] self.external_subscribers@[i]) matches ExternalSubscriber::OutboundWorker {
                            worker_id,
                            ..
                        } && Some(worker_id) == msg@.route_to_worker_id))
                    ||| ((msg@.route_to_worker_id is None || msg@.route_to_worker_id == Some(
                        local_worker_id,
                    )) && msg@.route_to_connection_id is Some && forall|i: int|
                        0 <= i < self.external_subscribers@.len() ==> !((
                        #[trigger] self.external_subscribers@[i]) matches ExternalSubscriber::InboundClientConnection {
                            connection_id,
                            ..
                        } && Some(connection_id) == msg@.route_to_connection_id))
                },
            },
    {
        let name = msg.msg.msg_name();
        if let MessageName::Identify = name {
            return RouteDecision::HandleIdentify;
        }
        let to_other_worker = match msg.route_to_worker_id {
            Some(w) => w != local_worker_id,
            None => false,
        };
        if to_other_worker {
            let mut i: usize = 0;
            let n = self.external_subscribers.len();
            while i < n
                invariant
                    n == self.external_subscribers@.len(),
                    i <= n,
                    forall|i0: int|
                        0 <= i0 < i ==> !((
                        #[trigger] self.external_subscribers@[i0]) matches ExternalSubscriber::OutboundWorker {
                            worker_id,
                            ..
                        } && Some(worker_id) == msg@.route_to_worker_id),
                decreases n - i,
            {
                match &self.external_subscribers[i] {
                    ExternalSubscriber::OutboundWorker { worker_id, outbound_stream_id } => {
                        match msg.route_to_worker_id {
                            Some(w) => {
                                if *worker_id == w {
                                    return RouteDecision::ForwardToWorker {
                                        outbound_stream_id: *outbound_stream_id,
                                    };
                                }
                            },
                            None => {},
                        }
                    },
                    _ => {},
                }
                i = i + 1;
            }
            return RouteDecision::Drop;
        }
        let to_connection = msg.route_to_connection_id.is_some();
        if to_connection {
            let mut i: usize = 0;
            let n = self.external_subscribers.len();
            while i < n
                invariant
                    n == self.external_subscribers@.len(),
                    i <= n,
                    forall|i0: int|
                        0 <= i0 < i ==> !((
                        #[trigger] self.external_subscribers@[i0]) matches ExternalSubscriber::InboundClientConnection {
                            connection_id,
                            ..
                        } && Some(connection_id) == msg@.route_to_connection_id),
                decreases n - i,
            {
                match &self.external_subscribers[i] {
                    ExternalSubscriber::InboundClientConnection {
                        connection_id,
                        inbound_stream_id,
                    } => {
                        match msg.route_to_connection_id {
                            Some(c) => {
                                if *connection_id == c {
                                    return RouteDecision::ForwardToConnection {
                                        inbound_stream_id: *inbound_stream_id,
                                    };
                                }
                            },
                            None => {},
                        }
                    },
                    _ => {},
                }
                i = i + 1;
            }
            return RouteDecision::Drop;
        }
        let mut targets: Vec<usize> = Vec::new();
        let mut i: usize = 0;
        let n = self.internal_subscribers.len();
        let addressed_to = msg.route_to_operation_id;
        while i < n
            invariant
                n == self.internal_subscribers@.len(),
                i <= n,
                addressed_to == msg@.route_to_operation_id,
                forall|a: int, b: int| 0 <= a < b < targets@.len() ==> targets@[a] < targets@[b],
                match addressed_to {
                    Some(op) => {
                        &&& forall|t: int|
                            0 <= t < targets@.len() ==> #[trigger] targets@[t] < i
                                && self.internal_subscribers@[targets@[t] as int].operator_id
                                == op
                        &&& forall|i0: int|
                            0 <= i0 < i && (#[trigger] self.internal_subscribers@[i0]).operator_id
                                == op ==> targets@.contains(i0 as usize)
                    },
                    None => {
                        &&& forall|t: int|
                            0 <= t < targets@.len() ==> #[trigger] targets@[t] < i
                                && subscriber_consumes(
                                self.internal_subscribers@[targets@[t] as int],
                                msg@,
                            )
                        &&& forall|i0: int|
                            0 <= i0 < i && subscriber_consumes(
                                #[trigger] self.internal_subscribers@[i0],
                                msg@,
                            ) ==> targets@.contains(i0 as usize)
                    },
                },
            decreases n - i,
        {
            let hit = match addressed_to {
                Some(op) => self.internal_subscribers[i].operator_id == op,
                None => self.internal_subscribers[i].consumes_message(msg),
            };
            if hit {
                let ghost t0 = targets@;
                targets.push(i);
                proof {
                    assert(forall|t: int| 0 <= t < t0.len() ==> targets@[t] == t0[t]);
                    assert(targets@[t0.len() as int] == i as usize);
                    match addressed_to {
                        Some(op) => {
                            assert forall|i0: int|
                                0 <= i0 < i + 1 && (
                                #[trigger] self.internal_subscribers@[i0]).operator_id == op
                                implies targets@.contains(i0 as usize) by {
                                if i0 < i {
                                    let t1 = choose|t1: int|
                                        0 <= t1 < t0.len() && t0[t1] == i0 as usize;
                                    assert(targets@[t1] == i0 as usize);
                                } else {
                                    assert(targets@[t0.len() as int] == i0 as usize);
                                }
                            }
                        },
                        None => {
                            assert forall|i0: int|
                                0 <= i0 < i + 1 && subscriber_consumes(
                                    #[trigger] self.internal_subscribers@[i0],
                                    msg@,
                                ) implies targets@.contains(i0 as usize) by {
                                if i0 < i {
                                    let t1 = choose|t1: int|
                                        0 <= t1 < t0.len() && t0[t1] == i0 as usize;
                                    assert(targets@[t1] == i0 as usize);
                                } else {
                                    assert(targets@[t0.len() as int] == i0 as usize);
                                }
                            }
                        },
                    }
                }
            }
            i = i + 1;
        }
        RouteDecision::DeliverInternal { targets }
    }
}

} // verus!

verus! {

/// True iff the message is addressed to this operation.
pub open spec fn targets_operation(m: MessageV, operation_id: u128) -> bool {
    m.route_to_operation_id == Some(operation_id)
}

/// The positions, in send order, of the messages of one source stream that
/// are addressed to the given operation: the delivery order to a single
/// destination is the send order.
#[verifier::loop_isolation(false)]
pub fn deliveries_for_operation(msgs: &Vec<Message>, operation_id: u128) -> (r: Vec<usize>)
    ensures
        forall|a: int, b: int| 0 <= a < b < r@.len() ==> r@[a] < r@[b],
        forall|t: int|
            0 <= t < r@.len() ==> #[trigger] r@[t] < msgs@.len() && targets_operation(
                msgs@[r@[t] as int]@,
                operation_id,
            ),
        forall|i: int|
            0 <= i < msgs@.len() && targets_operation((#[trigger] msgs@[i])@, operation_id)
                ==> r@.contains(i as usize),
{
    let mut out: Vec<usize> = Vec::new();
    let mut i: usize = 0;
    let n = msgs.len();
    while i < n
        invariant
            n == msgs@.len(),
            i <= n,
            forall|a: int, b: int| 0 <= a < b < out@.len() ==> out@[a] < out@[b],
            forall|t: int|
                0 <= t < out@.len() ==> #[trigger] out@[t] < i && targets_operation(
                    msgs@[out@[t] as int]@,
                    operation_id,
                ),
            forall|i0: int|
                0 <= i0 < i && targets_operation((#[trigger] msgs@[i0])@, operation_id)
                    ==> out@.contains(i0 as usize),
        decreases n - i,
    {
        let hit = match msgs[i].route_to_operation_id {
            Some(op) => op == operation_id,
            None => false,
        };
        if hit {
            let ghost o0 = out@;
            out.push(i);
            proof {
                assert(forall|t: int| 0 <= t < o0.len() ==> out@[t] == o0[t]);
                assert(out@[o0.len() as int] == i as usize);
                assert forall|i0: int|
                    0 <= i0 < i + 1 && targets_operation((#[trigger] msgs@[i0])@, operation_id)
                    implies out@.contains(i0 as usize) by {
                    if i0 < i {
                        let t1 = choose|t1: int| 0 <= t1 < o0.len() && o0[t1] == i0 as usize;
                        assert(out@[t1] == i0 as usize);
                    } else {
                        assert(out@[o0.len() as int] == i0 as usize);
                    }
                }
            }
        }
        i = i + 1;
    }
    out
}

/// Two operations sent to the same operation id from one stream are
/// observed in send order: if one stands earlier in the stream, its
/// delivery stands earlier in the destination's delivery sequence.
pub proof fn lemma_deliveries_in_send_order(
    msgs: Seq<Message>,
    operation_id: u128,
    r: Seq<usize>,
    a: int,
    b: int,
)
    requires
        forall|x: int, y: int| 0 <= x < y < r.len() ==> r[x] < r[y],
        0 <= a < r.len(),
        0 <= b < r.len(),
        r[a] < r[b],
    ensures
        a < b,
{
    if a == b {
        assert(false);
    } else if b < a {
        assert(r[b] < r[a]);
        assert(false);
    }
}

} // verus!
