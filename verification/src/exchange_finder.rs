//! Peer discovery for producers and consumers: find the single instance of
//! an exchange operator, then learn which worker hosts it.
//!
//! The caller sends the requests this state machine produces and feeds the
//! replies back; waiting happens outside. Lookup retries twice with linear
//! backoff before giving up.

use vstd::prelude::*;
use crate::messages::{common, query, Message, MessagePayload, PayloadV};
use crate::wire::clone_bytes;

verus! {

#[derive(Debug, Clone, PartialEq, Eq)]
pub enum IdentifyExchangeRequestError {
    OperatorTypeNotImplemented,
    ReceivedTheWrongMessageType,
    ReceivedNoOperatorInstancesForTheExchange,
    ReceivedMultipleOperatorInstancesForTheExchange,
    ExchangeOperatorInstanceIdNotSet,
    ReceivedMessageWithoutAWorkerId,
    MissingPartOfResponse,
}

/// The identity of the exchange a producer talks to.
#[derive(Debug, Clone, Copy, PartialEq, Eq, Structural)]
pub struct IdentifyExchangeResponse {
    pub exchange_operator_instance_id: u128,
    pub exchange_worker_id: u128,
}

/// The lookup in progress.
#[derive(Debug, Clone, PartialEq, Eq)]
pub struct IdentifyExchangeRequest {
    pub exchange_operator_instance_id: Option<u128>,
    pub exchange_worker_id: Option<u128>,
    pub exchange_id: Vec<u8>,
    pub query_id: u128,
    pub retries_used: u8,
    pub max_retries: u8,
}

impl IdentifyExchangeRequest {
    /// A fresh lookup for the exchange of a query, allowing two retries.
    pub fn new(query_id: u128, exchange_id: Vec<u8>) -> (r: IdentifyExchangeRequest)
        ensures
            r.exchange_operator_instance_id is None,
            r.exchange_worker_id is None,
            r.exchange_id == exchange_id,
            r.query_id == query_id,
            r.retries_used == 0,
            r.max_retries == 2,
    {
        IdentifyExchangeRequest {
            exchange_operator_instance_id: None,
            exchange_worker_id: None,
            exchange_id,
            query_id,
            retries_used: 0,
            max_retries: 2,
        }
    }

    /// The next request to send: a list request until the instance is
    /// known, then a ping addressed to it; nothing once both parts are
    /// known.
    pub fn next_request(&self) -> (r: Option<Message>)
        ensures
            match r {
                Some(m) => {
                    &&& (self.exchange_operator_instance_id is None ==> (m@.msg matches
                        PayloadV::QueryHandlerRequests(
                        query::QueryHandlerRequestsV::ListOperatorInstancesRequest {
                            query_id,
                            operator_id,
                        },
                    ) && query_id == self.query_id && operator_id == self.exchange_id@))
                    &&& (self.exchange_operator_instance_id matches Some(iid) ==> (m@.msg
                        == PayloadV::Ping(common::Ping::Ping) && m@.route_to_operation_id == Some(
                        iid,
                    )))
                },
                None => self.exchange_operator_instance_id is Some
                    && self.exchange_worker_id is Some,
            },
            (r is None) == (self.exchange_operator_instance_id is Some
                && self.exchange_worker_id is Some),
    {
        match self.exchange_operator_instance_id {
            None => Some(
                Message::new(
                    MessagePayload::QueryHandlerRequests(
                        query::QueryHandlerRequests::ListOperatorInstancesRequest {
                            query_id: self.query_id,
                            operator_id: clone_bytes(&self.exchange_id),
                        },
                    ),
                ),
            ),
            Some(iid) => {
                if self.exchange_worker_id.is_none() {
                    Some(
                        Message::new(
                            MessagePayload::Ping(common::Ping::Ping),
                        ).set_route_to_operation_id(iid),
                    )
                } else {
                    None
                }
            },
        }
    }

    /// Feeds the reply to a list request back. Exactly one instance means
    /// the exchange is found; none asks for a retry after a linear backoff
    /// of `retries_used + 1` seconds, up to the retry budget; more than
    /// one is a fatal plan defect.
    pub fn handle_list_response(&mut self, msg: &Message) -> (r: Result<
        Option<u64>,
        IdentifyExchangeRequestError,
    >)
        ensures
            final(self).exchange_worker_id == old(self).exchange_worker_id,
            final(self).exchange_id == old(self).exchange_id,
            final(self).query_id == old(self).query_id,
            final(self).max_retries == old(self).max_retries,
            match msg@.msg {
                PayloadV::QueryHandlerRequests(
                    query::QueryHandlerRequestsV::ListOperatorInstancesResponse {
                        op_instance_ids,
                    },
                ) => {
                    if op_instance_ids.len() == 1 {
                        &&& r == Ok::<Option<u64>, IdentifyExchangeRequestError>(None)
                        &&& final(self).exchange_operator_instance_id == Some(op_instance_ids[0])
                        &&& final(self).retries_used == old(self).retries_used
                    } else if op_instance_ids.len() == 0 {
                        if old(self).retries_used < old(self).max_retries {
                            &&& r == Ok::<Option<u64>, IdentifyExchangeRequestError>(
                                Some(
                                    if old(self).retries_used + 1 <= 5 {
                                        (old(self).retries_used + 1) as u64
                                    } else {
                                        5
                                    },
                                ),
                            )
                            &&& final(self).retries_used == old(self).retries_used + 1
                            &&& final(self).exchange_operator_instance_id == old(
                                self,
                            ).exchange_operator_instance_id
                        } else {
                            &&& r == Err::<Option<u64>, IdentifyExchangeRequestError>(
                                IdentifyExchangeRequestError::ReceivedNoOperatorInstancesForTheExchange,
                            )
                            &&& *final(self) == *old(self)
                        }
                    } else {
                        &&& r == Err::<Option<u64>, IdentifyExchangeRequestError>(
                            IdentifyExchangeRequestError::ReceivedMultipleOperatorInstancesForTheExchange,
                        )
                        &&& *final(self) == *old(self)
                    }
                },
                _ => r == Err::<Option<u64>, IdentifyExchangeRequestError>(
                    IdentifyExchangeRequestError::ReceivedTheWrongMessageType,
                ) && *final(self) == *old(self),
            },
    {
        match &msg.msg {
            MessagePayload::QueryHandlerRequests(
                query::QueryHandlerRequests::ListOperatorInstancesResponse { op_instance_ids },
            ) => {
                if op_instance_ids.len() == 1 {
                    let iid = op_instance_ids[0];
                    self.exchange_operator_instance_id = Some(iid);
                    Ok(None)
                } else if op_instance_ids.len() == 0 {
                    if self.retries_used < self.max_retries {
                        let delay: u64 = if self.retries_used as u64 + 1 <= 5 {
                            self.retries_used as u64 + 1
                        } else {
                            5
                        };
                        self.retries_used = self.retries_used + 1;
                        Ok(Some(delay))
                    } else {
                        Err(
                            IdentifyExchangeRequestError::ReceivedNoOperatorInstancesForTheExchange,
                        )
                    }
                } else {
                    Err(
                        IdentifyExchangeRequestError::ReceivedMultipleOperatorInstancesForTheExchange,
                    )
                }
            },
            _ => Err(IdentifyExchangeRequestError::ReceivedTheWrongMessageType),
        }
    }

    /// Feeds the reply to a ping back: a pong carrying a worker id
    /// completes the lookup.
    pub fn handle_ping_response(&mut self, msg: &Message) -> (r: Result<
        (),
        IdentifyExchangeRequestError,
    >)
        ensures
            final(self).exchange_operator_instance_id == old(self).exchange_operator_instance_id,
            final(self).exchange_id == old(self).exchange_id,
            final(self).query_id == old(self).query_id,
            final(self).retries_used == old(self).retries_used,
            final(self).max_retries == old(self).max_retries,
            if msg@.msg == PayloadV::Ping(common::Ping::Pong) {
                if msg@.sent_from_worker_id is Some {
                    &&& r == Ok::<(), IdentifyExchangeRequestError>(())
                    &&& final(self).exchange_worker_id == msg@.sent_from_worker_id
                } else {
                    &&& r == Err::<(), IdentifyExchangeRequestError>(
                        IdentifyExchangeRequestError::ReceivedMessageWithoutAWorkerId,
                    )
                    &&& *final(self) == *old(self)
                }
            } else {
                &&& r == Err::<(), IdentifyExchangeRequestError>(
                    IdentifyExchangeRequestError::ReceivedTheWrongMessageType,
                )
                &&& *final(self) == *old(self)
            },
    {
        match &msg.msg {
            MessagePayload::Ping(common::Ping::Pong) => match msg.sent_from_worker_id {
                Some(w) => {
                    self.exchange_worker_id = Some(w);
                    Ok(())
                },
                None => Err(IdentifyExchangeRequestError::ReceivedMessageWithoutAWorkerId),
            },
            _ => Err(IdentifyExchangeRequestError::ReceivedTheWrongMessageType),
        }
    }

    /// The completed identity, once both parts are known.
    pub fn response(&self) -> (r: Result<IdentifyExchangeResponse, IdentifyExchangeRequestError>)
        ensures
            (r is Ok) == (self.exchange_operator_instance_id is Some && self.exchange_worker_id
                is Some),
            match r {
                Ok(resp) => {
                    &&& self.exchange_operator_instance_id == Some(
                        resp.exchange_operator_instance_id,
                    )
                    &&& self.exchange_worker_id == Some(resp.exchange_worker_id)
                },
                Err(e) => {
                    &&& e == IdentifyExchangeRequestError::MissingPartOfResponse
                    &&& (self.exchange_operator_instance_id is None || self.exchange_worker_id
                        is None)
                },
            },
    {
        match (self.exchange_operator_instance_id, self.exchange_worker_id) {
            (Some(iid), Some(w)) => Ok(
                IdentifyExchangeResponse {
                    exchange_operator_instance_id: iid,
                    exchange_worker_id: w,
                },
            ),
            _ => Err(IdentifyExchangeRequestError::MissingPartOfResponse),
        }
    }
}

} // verus!
