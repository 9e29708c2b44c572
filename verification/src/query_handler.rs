//! The query handler: the state machine that owns query lifecycles.
//!
//! Each handler function takes one inbound message, mutates the state, and
//! returns the messages to send; the surrounding runtime performs the
//! sends. Planning is an outside collaborator: the caller hands the
//! physical plan in.

use vstd::prelude::*;
use crate::ids::new_id;
use crate::messages::{common, exchange, operator, query, Message, MessagePayload, PayloadV};
use crate::plan::PhysicalPlan;
use crate::query_state::{
    any_error_of, all_complete_of, any_running_of, derived_status_exact, has_query,
    is_first_query, state_wf, ClaimedInstance, Query, QueryHandlerState, QueryHandlerStateError,
    Status, StatusV,
};
use crate::clock::now_millis;
use crate::wire::clone_bytes;

verus! {

#[derive(Debug, Clone, PartialEq, Eq)]
pub enum QueryHandlerError {
    IncorrectMessage,
    StateError(QueryHandlerStateError),
}

/// How a status-poll reply relates to the state: `QueryNotFound` iff no
/// query carries the id, otherwise the derived status of the first query
/// with the id, computed from its instances.
pub open spec fn status_reply_matches(qs: Seq<Query>, query_id: u128, p: PayloadV) -> bool {
    if has_query(qs, query_id) {
        exists|qi: int|
            #[trigger] is_first_query(qs, qi, query_id) && (exists|s: StatusV|
                p == PayloadV::GetQueryStatusResp(query::GetQueryStatusRespV::Status(s))
                    && #[trigger] derived_status_exact(qs[qi], s))
    } else {
        p == PayloadV::GetQueryStatusResp(query::GetQueryStatusRespV::QueryNotFound)
    }
}

/// There is at most one first query with a given id.
pub proof fn lemma_first_query_unique(qs: Seq<Query>, qi1: int, qi2: int, query_id: u128)
    requires
        is_first_query(qs, qi1, query_id),
        is_first_query(qs, qi2, query_id),
    ensures
        qi1 == qi2,
{
    if qi1 < qi2 {
        assert(qs[qi1].id != query_id);
    } else if qi2 < qi1 {
        assert(qs[qi2].id != query_id);
    }
}

/// Identical status polls at the same state return identical responses:
/// the reply payload is a function of the state and the queried id.
pub proof fn lemma_get_query_status_idempotent(
    qs: Seq<Query>,
    query_id: u128,
    p1: PayloadV,
    p2: PayloadV,
)
    requires
        status_reply_matches(qs, query_id, p1),
        status_reply_matches(qs, query_id, p2),
    ensures
        p1 == p2,
{
    if has_query(qs, query_id) {
        let qi1 = choose|qi1: int|
            #[trigger] is_first_query(qs, qi1, query_id) && (exists|s: StatusV|
                p1 == PayloadV::GetQueryStatusResp(query::GetQueryStatusRespV::Status(s))
                    && #[trigger] derived_status_exact(qs[qi1], s));
        let qi2 = choose|qi2: int|
            #[trigger] is_first_query(qs, qi2, query_id) && (exists|s: StatusV|
                p2 == PayloadV::GetQueryStatusResp(query::GetQueryStatusRespV::Status(s))
                    && #[trigger] derived_status_exact(qs[qi2], s));
        lemma_first_query_unique(qs, qi1, qi2, query_id);
        let s1 = choose|s1: StatusV|
            p1 == PayloadV::GetQueryStatusResp(query::GetQueryStatusRespV::Status(s1))
                && #[trigger] derived_status_exact(qs[qi1], s1);
        let s2 = choose|s2: StatusV|
            p2 == PayloadV::GetQueryStatusResp(query::GetQueryStatusRespV::Status(s2))
                && #[trigger] derived_status_exact(qs[qi2], s2);
        crate::query_state::lemma_derived_status_deterministic(qs[qi1], s1, s2);
    }
}

/// The id list a peer-lookup reply must carry: the instance ids of the
/// named operator's group in the first query with the id, in order, or
/// nothing when query or operator are unknown.
pub open spec fn list_reply_ids_ok(
    qs: Seq<Query>,
    query_id: u128,
    operator_id: Seq<u8>,
    ids: Seq<u128>,
) -> bool {
    if exists|qi: int|
        #[trigger] is_first_query(qs, qi, query_id) && (exists|gj: int|
            0 <= gj < qs[qi].operator_instances@.len() && (
            #[trigger] qs[qi].operator_instances@[gj]).operator.id@ == operator_id) {
        exists|qi: int, gj: int|
            {
                &&& 0 <= qi < qs.len()
                &&& 0 <= gj < qs[qi].operator_instances@.len()
                &&& is_first_query(qs, qi, query_id)
                &&& (#[trigger] qs[qi].operator_instances@[gj]).operator.id@ == operator_id
                &&& ids.len() == qs[qi].operator_instances@[gj].instances@.len()
                &&& forall|k: int|
                    0 <= k < ids.len() ==> #[trigger] ids[k]
                        == qs[qi].operator_instances@[gj].instances@[k].id
            }
    } else {
        ids.len() == 0
    }
}

/// The memory an assignment message asks for; zero for any other message.
pub open spec fn assign_memory(m: Message) -> int {
    match m@.msg {
        PayloadV::OperatorInstanceAssignment(
            query::OperatorInstanceAssignmentV::Assign { operator, .. },
        ) => operator.compute.memory_in_mib as int,
        _ => 0,
    }
}

/// The CPU an assignment message asks for; zero for any other message.
pub open spec fn assign_cpu(m: Message) -> int {
    match m@.msg {
        PayloadV::OperatorInstanceAssignment(
            query::OperatorInstanceAssignmentV::Assign { operator, .. },
        ) => operator.compute.cpu_in_thousandths as int,
        _ => 0,
    }
}

/// The summed memory the assignment messages ask for.
pub open spec fn assigns_memory(ms: Seq<Message>) -> int
    decreases ms.len(),
{
    if ms.len() == 0 {
        0
    } else {
        assigns_memory(ms.drop_last()) + assign_memory(ms.last())
    }
}

/// The summed CPU the assignment messages ask for.
pub open spec fn assigns_cpu(ms: Seq<Message>) -> int
    decreases ms.len(),
{
    if ms.len() == 0 {
        0
    } else {
        assigns_cpu(ms.drop_last()) + assign_cpu(ms.last())
    }
}

/// The state after an accepted assignment: the query's status moved from
/// `Queued` to `Running` (anything else stays), the instance stepped to
/// `Running` under the shutdown rule, and nothing else changed.
pub open spec fn accepted_effect(
    qs0: Seq<Query>,
    qs1: Seq<Query>,
    qi: int,
    gj: int,
    ki: int,
    req: StatusV,
    query_status: StatusV,
) -> bool {
    &&& crate::query_state::valid_loc(qs0, qi, gj, ki)
    &&& qs1.len() == qs0.len()
    &&& forall|i: int| 0 <= i < qs0.len() && i != qi ==> qs1[i] == qs0[i]
    &&& qs1[qi].id == qs0[qi].id
    &&& qs1[qi].query == qs0[qi].query
    &&& qs1[qi].physical_plan == qs0[qi].physical_plan
    &&& qs1[qi].status@ == query_status
    &&& qs1[qi].operator_instances@.len() == qs0[qi].operator_instances@.len()
    &&& forall|j: int|
        0 <= j < qs0[qi].operator_instances@.len() && j != gj
            ==> qs1[qi].operator_instances@[j] == qs0[qi].operator_instances@[j]
    &&& qs1[qi].operator_instances@[gj].pipeline_id == qs0[qi].operator_instances@[gj].pipeline_id
    &&& qs1[qi].operator_instances@[gj].operator == qs0[qi].operator_instances@[gj].operator
    &&& qs1[qi].operator_instances@[gj].instances@.len()
        == qs0[qi].operator_instances@[gj].instances@.len()
    &&& forall|k: int|
        0 <= k < qs0[qi].operator_instances@[gj].instances@.len() && k != ki ==> qs1[qi].operator_instances@[gj].instances@[k]
            == qs0[qi].operator_instances@[gj].instances@[k]
    &&& crate::query_state::instance_at(qs1, qi, gj, ki).id == crate::query_state::instance_at(
        qs0,
        qi,
        gj,
        ki,
    ).id
    &&& crate::query_state::instance_at(qs1, qi, gj, ki).status@
        == crate::query_state::step_status(
        crate::query_state::instance_at(qs0, qi, gj, ki).status@,
        req,
    )
}

/// What a handled status-change report guarantees of the state: no change
/// when the ids are unknown; when they resolve, the reported instance
/// stepped under the shutdown rule and the reported query's stored status
/// refreshed to its derived status.
pub open spec fn status_change_state_post(
    qs0: Seq<Query>,
    qs1: Seq<Query>,
    query_id: u128,
    op_instance_id: u128,
    reported: StatusV,
    st: Option<Status>,
) -> bool {
    &&& (st is Some) == (has_query(qs0, query_id) && exists|qi: int|
        #[trigger] is_first_query(qs0, qi, query_id)
            && crate::query_state::query_has_instance(qs0[qi], op_instance_id))
    &&& st matches Some(status) ==> {
        &&& exists|qi: int|
            {
                &&& #[trigger] is_first_query(qs0, qi, query_id)
                &&& 0 <= qi < qs1.len()
                &&& qs1[qi].status@ == status@
                &&& derived_status_exact(qs1[qi], status@)
            }
        &&& exists|qi: int, gj: int, ki: int|
            {
                &&& is_first_query(qs0, qi, query_id)
                &&& (#[trigger] crate::query_state::instance_at(qs0, qi, gj, ki)).id
                    == op_instance_id
                &&& crate::query_state::valid_loc(qs1, qi, gj, ki)
                &&& crate::query_state::instance_at(qs1, qi, gj, ki).status@
                    == crate::query_state::step_status(
                    crate::query_state::instance_at(qs0, qi, gj, ki).status@,
                    reported,
                )
            }
    }
}

/// The first query with an id stays first when ids are untouched.
proof fn lemma_first_query_stable(qs0: Seq<Query>, qs1: Seq<Query>, qi: int, query_id: u128)
    requires
        qs1.len() == qs0.len(),
        forall|i: int| 0 <= i < qs0.len() ==> (#[trigger] qs1[i]).id == qs0[i].id,
        is_first_query(qs0, qi, query_id),
    ensures
        is_first_query(qs1, qi, query_id),
{
}

/// What handling an accepted assignment guarantees.
pub open spec fn accepted_response_post(
    qs0: Seq<Query>,
    qs1: Seq<Query>,
    r: Result<(), QueryHandlerError>,
    query_id: u128,
    op_instance_id: u128,
    assigned: Option<u128>,
) -> bool {
    &&& (r is Ok) == (has_query(qs0, query_id) && exists|qi: int|
        #[trigger] is_first_query(qs0, qi, query_id)
            && crate::query_state::query_has_instance(qs0[qi], op_instance_id))
    &&& !has_query(qs0, query_id) ==> (r == Err::<(), QueryHandlerError>(
        QueryHandlerError::StateError(QueryHandlerStateError::QueryNotFound(query_id)),
    ) && qs1 == qs0)
    &&& r is Ok ==> exists|qi: int, gj: int, ki: int|
        {
            &&& is_first_query(qs0, qi, query_id)
            &&& (#[trigger] crate::query_state::instance_at(qs0, qi, gj, ki)).id
                == op_instance_id
            &&& accepted_effect(
                qs0,
                qs1,
                qi,
                gj,
                ki,
                StatusV::Running,
                (if qs0[qi].status@ is Queued {
                    StatusV::Running
                } else {
                    qs0[qi].status@
                }),
            )
        }
    &&& r is Ok ==> exists|qi: int, gj: int, ki: int|
        {
            &&& is_first_query(qs0, qi, query_id)
            &&& (#[trigger] crate::query_state::instance_at(qs0, qi, gj, ki)).id
                == op_instance_id
            &&& crate::query_state::valid_loc(qs1, qi, gj, ki)
            &&& crate::query_state::instance_at(qs1, qi, gj, ki).assigned_worker_id == assigned
        }
}

/// What handling a rejected assignment guarantees.
pub open spec fn rejected_response_post(
    qs0: Seq<Query>,
    qs1: Seq<Query>,
    r: Result<(), QueryHandlerError>,
    query_id: u128,
    op_instance_id: u128,
    error: Seq<u8>,
) -> bool {
    &&& (r is Ok) == (has_query(qs0, query_id) && exists|qi: int|
        #[trigger] is_first_query(qs0, qi, query_id)
            && crate::query_state::query_has_instance(qs0[qi], op_instance_id))
    &&& !has_query(qs0, query_id) ==> (r == Err::<(), QueryHandlerError>(
        QueryHandlerError::StateError(QueryHandlerStateError::QueryNotFound(query_id)),
    ) && qs1 == qs0)
    &&& r is Ok ==> exists|qi: int, gj: int, ki: int|
        {
            &&& is_first_query(qs0, qi, query_id)
            &&& (#[trigger] crate::query_state::instance_at(qs0, qi, gj, ki)).id
                == op_instance_id
            &&& accepted_effect(qs0, qs1, qi, gj, ki, StatusV::Error(error), StatusV::Error(error))
        }
    &&& (has_query(qs0, query_id) && r is Err) ==> exists|qi: int|
        #[trigger] is_first_query(qs0, qi, query_id)
            && crate::query_state::state_updates_query_status(qs0, qs1, qi, StatusV::Error(error))
}

/// The query handler.
#[derive(Debug, Clone, PartialEq, Eq)]
pub struct QueryHandler {
    pub worker_id: u128,
    pub operator_id: u128,
    pub state: QueryHandlerState,
}

impl QueryHandler {
    /// A fresh handler on this worker, with an empty, well-formed state.
    pub fn new(worker_id: u128) -> (r: QueryHandler)
        ensures
            r.worker_id == worker_id,
            r.state.queries@.len() == 0,
            state_wf(r.state.queries@),
    {
        QueryHandler { worker_id, operator_id: new_id(), state: QueryHandlerState::new() }
    }

    /// Answers a status poll: the derived status of the query, computed
    /// from its instances, or `QueryNotFound`. The reply carries the
    /// request's id and is routed back to the sender.
    pub fn handle_get_query_status(&self, msg: &Message) -> (r: Result<Message, QueryHandlerError>)
        ensures
            (r is Err) == !(msg@.msg is GetQueryStatus),
            match r {
                Ok(reply) => msg@.msg matches PayloadV::GetQueryStatus(g) && {
                    &&& status_reply_matches(self.state.queries@, g.query_id, reply@.msg)
                    &&& reply@.msg_id == msg@.msg_id
                    &&& reply@.route_to_worker_id == msg@.sent_from_worker_id
                    &&& reply@.route_to_operation_id == msg@.sent_from_operation_id
                    &&& reply@.route_to_connection_id == msg@.sent_from_connection_id
                },
                Err(e) => {
                    &&& e == QueryHandlerError::IncorrectMessage
                    &&& !(msg@.msg is GetQueryStatus)
                },
            },
    {
        let query_id = match &msg.msg {
            MessagePayload::GetQueryStatus(g) => g.query_id,
            _ => {
                return Err(QueryHandlerError::IncorrectMessage);
            },
        };
        let payload = match self.state.query_index(query_id) {
            Some(qi) => {
                let q = &self.state.queries[qi];
                let status = match any_error_of(q) {
                    Some(e) => {
                        proof {
                            let qv = self.state.queries@[qi as int];
                            let (j, k) = choose|j: int, k: int|
                                #[trigger] crate::query_state::is_first_error(qv, j, k)
                                    && qv.operator_instances@[j].instances@[k].status@
                                    == StatusV::Error(e@);
                            assert(derived_status_exact(qv, StatusV::Error(e@)));
                        }
                        Status::Error(e)
                    },
                    None => {
                        if all_complete_of(q) {
                            Status::Complete
                        } else if any_running_of(q) {
                            Status::Running
                        } else {
                            Status::Queued
                        }
                    },
                };
                proof {
                    assert(derived_status_exact(self.state.queries@[qi as int], status@));
                }
                MessagePayload::GetQueryStatusResp(query::GetQueryStatusResp::Status(status))
            },
            None => MessagePayload::GetQueryStatusResp(query::GetQueryStatusResp::QueryNotFound),
        };
        Ok(msg.reply(payload))
    }

    /// Serves a peer-lookup request: the ids of the instances of the named
    /// operator of the named query, in order; an unknown query or operator
    /// yields an empty list. The reply carries the request's id and is
    /// routed back.
    pub fn handle_query_handler_request_list_operator_instances(&self, msg: &Message) -> (r: Result<
        Message,
        QueryHandlerError,
    >)
        ensures
            (r is Err) == !(msg@.msg matches PayloadV::QueryHandlerRequests(
                query::QueryHandlerRequestsV::ListOperatorInstancesRequest { .. },
            )),
            match r {
                Ok(reply) => msg@.msg matches PayloadV::QueryHandlerRequests(
                    query::QueryHandlerRequestsV::ListOperatorInstancesRequest {
                        query_id,
                        operator_id,
                    },
                ) && {
                    &&& reply@.msg_id == msg@.msg_id
                    &&& reply@.route_to_worker_id == msg@.sent_from_worker_id
                    &&& reply@.route_to_operation_id == msg@.sent_from_operation_id
                    &&& reply@.route_to_connection_id == msg@.sent_from_connection_id
                    &&& (reply@.msg matches PayloadV::QueryHandlerRequests(
                        query::QueryHandlerRequestsV::ListOperatorInstancesResponse {
                            op_instance_ids: ids,
                        },
                    ) && list_reply_ids_ok(self.state.queries@, query_id, operator_id, ids))
                },
                Err(e) => e == QueryHandlerError::IncorrectMessage,
            },
    {
        let (query_id, operator_id) = match &msg.msg {
            MessagePayload::QueryHandlerRequests(
                query::QueryHandlerRequests::ListOperatorInstancesRequest { query_id, operator_id },
            ) => (*query_id, operator_id),
            _ => {
                return Err(QueryHandlerError::IncorrectMessage);
            },
        };
        let op_instance_ids: Vec<u128> = match self.state.get_operator_instances(
            query_id,
            operator_id,
        ) {
            Ok(instances) => {
                let mut ids: Vec<u128> = Vec::new();
                let mut k: usize = 0;
                while k < instances.len()
                    invariant
                        k <= instances@.len(),
                        ids@.len() == k,
                        forall|k0: int| 0 <= k0 < k ==> #[trigger] ids@[k0] == instances@[k0].id,
                    decreases instances@.len() - k,
                {
                    ids.push(instances[k].id);
                    k = k + 1;
                }
                ids
            },
            Err(_) => Vec::new(),
        };
        Ok(
            msg.reply(
                MessagePayload::QueryHandlerRequests(
                    query::QueryHandlerRequests::ListOperatorInstancesResponse { op_instance_ids },
                ),
            ),
        )
    }

    /// Handles a submitted query: the caller hands in the physical plan,
    /// or nothing when planning failed. On success the query stands
    /// appended — queued, carrying the submitted text, instances seeded
    /// per declared count — and a `Created` reply plus an availability
    /// notification go out; otherwise only a `NotCreated` reply goes back
    /// and nothing changes.
    pub fn handle_run_query(&mut self, msg: &Message, plan: Option<PhysicalPlan>) -> (r: Vec<
        Message,
    >)
        requires
            state_wf(old(self).state.queries@),
        ensures
            state_wf(final(self).state.queries@),
            final(self).worker_id == old(self).worker_id,
            final(self).operator_id == old(self).operator_id,
            r@.len() >= 1,
            r@[0]@.msg_id == msg@.msg_id,
            r@[0]@.route_to_worker_id == msg@.sent_from_worker_id,
            r@[0]@.route_to_connection_id == msg@.sent_from_connection_id,
            plan is None ==> {
                &&& *final(self) == *old(self)
                &&& r@.len() == 1
                &&& r@[0]@.msg == PayloadV::RunQueryResp(query::RunQueryResp::NotCreated)
            },
            plan matches Some(p) ==> match r@[0]@.msg {
                PayloadV::RunQueryResp(query::RunQueryResp::Created { query_id }) => {
                    &&& r@.len() == 2
                    &&& r@[1]@.msg == PayloadV::OperatorInstanceAvailable(
                        query::OperatorInstanceAvailable::Notification,
                    )
                    &&& final(self).state.queries@.len() == old(self).state.queries@.len() + 1
                    &&& forall|i: int|
                        0 <= i < old(self).state.queries@.len() ==> final(self).state.queries@[i]
                            == old(self).state.queries@[i]
                    &&& final(self).state.queries@.last().id == query_id
                    &&& final(self).state.queries@.last().status@ is Queued
                    &&& final(self).state.queries@.last().query@ == (match msg@.msg {
                        PayloadV::RunQuery(rq) => rq.query,
                        _ => Seq::<u8>::empty(),
                    })
                    &&& crate::query_state::groups_match_plan(
                        final(self).state.queries@.last().operator_instances@,
                        p.pipelines@,
                    )
                },
                PayloadV::RunQueryResp(query::RunQueryResp::NotCreated) => {
                    &&& r@.len() == 1
                    &&& *final(self) == *old(self)
                },
                _ => false,
            },
    {
        match plan {
            None => {
                let reply = msg.reply(
                    MessagePayload::RunQueryResp(query::RunQueryResp::NotCreated),
                );
                let mut out: Vec<Message> = Vec::new();
                out.push(reply);
                out
            },
            Some(physical_plan) => {
                let sql = match &msg.msg {
                    MessagePayload::RunQuery(q) => clone_bytes(&q.query),
                    _ => Vec::new(),
                };
                let mut q = Query::new(sql, physical_plan);
                q.init();
                let query_id = q.id;
                let ghost qv = q;
                match self.state.add_query(q) {
                    Ok(_) => {
                        proof {
                            assert(final(self).state.queries@.last() == qv) by {
                                assert(self.state.queries@ == old(
                                    self,
                                ).state.queries@.push(qv));
                            }
                        }
                        let reply = msg.reply(
                            MessagePayload::RunQueryResp(
                                query::RunQueryResp::Created { query_id },
                            ),
                        );
                        let notify = Message::new(
                            MessagePayload::OperatorInstanceAvailable(
                                query::OperatorInstanceAvailable::Notification,
                            ),
                        );
                        let mut out: Vec<Message> = Vec::new();
                        out.push(reply);
                        out.push(notify);
                        out
                    },
                    Err(_) => {
                        // a random id collided with an existing one: the
                        // query is not created
                        let reply = msg.reply(
                            MessagePayload::RunQueryResp(query::RunQueryResp::NotCreated),
                        );
                        let mut out: Vec<Message> = Vec::new();
                        out.push(reply);
                        out
                    },
                }
            },
        }
    }

    /// Handles a capacity response: claims queued instances up to the
    /// advertised compute and sends one `Assign` back per claim. Each
    /// message carries this handler's worker id and the claimed instance's
    /// query, instance, pipeline and operator; every instance flipped to
    /// running has its message; and no queued instance of a non-terminal
    /// query still fits what is left of the advertised capacity.
    #[verifier::rlimit(100)]
    #[verifier::loop_isolation(false)]
    pub fn handle_operator_instance_response(&mut self, msg: &Message) -> (r: Result<
        Vec<Message>,
        QueryHandlerError,
    >)
        requires
            state_wf(old(self).state.queries@),
        ensures
            state_wf(final(self).state.queries@),
            final(self).worker_id == old(self).worker_id,
            (r is Err) == !(msg@.msg matches PayloadV::OperatorInstanceAvailable(
                query::OperatorInstanceAvailable::NotificationResponse { .. },
            )),
            match r {
                Ok(msgs) => msg@.msg matches PayloadV::OperatorInstanceAvailable(
                    query::OperatorInstanceAvailable::NotificationResponse { can_accept_up_to },
                ) && {
                    &&& crate::query_state::state_claims_only(
                        old(self).state.queries@,
                        final(self).state.queries@,
                    )
                    &&& msgs@.len() <= can_accept_up_to.instances
                    &&& assigns_memory(msgs@) <= can_accept_up_to.memory_in_mib
                    &&& assigns_cpu(msgs@) <= can_accept_up_to.cpu_in_thousandths
                    &&& forall|t: int|
                        0 <= t < msgs@.len() ==> ((#[trigger] msgs@[t])@.msg matches
                            PayloadV::OperatorInstanceAssignment(
                            query::OperatorInstanceAssignmentV::Assign {
                                query_handler_worker_id,
                                query_id,
                                op_instance_id,
                                pipeline_id,
                                operator,
                            },
                        ) && (exists|c: ClaimedInstance|
                            {
                                &&& #[trigger] crate::query_state::claim_describes(
                                    old(self).state.queries@,
                                    c,
                                )
                                &&& query_handler_worker_id == old(self).worker_id
                                &&& query_id == c.query_id
                                &&& op_instance_id == c.op_instance_id
                                &&& pipeline_id == c.pipeline_id@
                                &&& operator == c.operator@
                                &&& msgs@[t]@.msg_id == msg@.msg_id
                                &&& msgs@[t]@.route_to_worker_id == msg@.sent_from_worker_id
                            }))
                    &&& forall|qi: int, gj: int, ki: int|
                        crate::query_state::valid_loc(old(self).state.queries@, qi, gj, ki)
                            && crate::query_state::instance_at(
                            old(self).state.queries@,
                            qi,
                            gj,
                            ki,
                        ).status@ is Queued && (#[trigger] crate::query_state::instance_at(
                            final(self).state.queries@,
                            qi,
                            gj,
                            ki,
                        )).status@ is Running ==> exists|t: int|
                            0 <= t < msgs@.len() && ((#[trigger] msgs@[t])@.msg matches
                                PayloadV::OperatorInstanceAssignment(
                                query::OperatorInstanceAssignmentV::Assign { op_instance_id, .. },
                            ) && op_instance_id == crate::query_state::instance_at(
                                old(self).state.queries@,
                                qi,
                                gj,
                                ki,
                            ).id)
                    &&& forall|qi: int, gj: int, ki: int|
                        crate::query_state::valid_loc(old(self).state.queries@, qi, gj, ki)
                            && !old(self).state.queries@[qi].status@.is_terminal() && (
                        #[trigger] crate::query_state::instance_at(
                            final(self).state.queries@,
                            qi,
                            gj,
                            ki,
                        )).status@ is Queued ==> !crate::query_state::cost_fits(
                            old(
                                self,
                            ).state.queries@[qi].operator_instances@[gj].operator.compute,
                            can_accept_up_to.instances - msgs@.len(),
                            can_accept_up_to.memory_in_mib - assigns_memory(msgs@),
                            can_accept_up_to.cpu_in_thousandths - assigns_cpu(msgs@),
                        )
                },
                Err(e) => {
                    &&& *final(self) == *old(self)
                    &&& e == QueryHandlerError::IncorrectMessage
                },
            },
    {
        let can_accept_up_to = match &msg.msg {
            MessagePayload::OperatorInstanceAvailable(
                query::OperatorInstanceAvailable::NotificationResponse { can_accept_up_to },
            ) => *can_accept_up_to,
            _ => {
                return Err(QueryHandlerError::IncorrectMessage);
            },
        };
        let ghost qs0 = self.state.queries@;
        let claims = self.state.claim_operator_instances_up_to_compute_available(
            &can_accept_up_to,
        );
        proof {
            crate::query_state::lemma_wf_preserved_by_claims(qs0, self.state.queries@);
        }
        let mut out: Vec<Message> = Vec::new();
        let mut t: usize = 0;
        while t < claims.len()
            invariant
                t <= claims@.len(),
                out@.len() == t,
                assigns_memory(out@) == crate::query_state::claims_memory(claims@.take(t as int)),
                assigns_cpu(out@) == crate::query_state::claims_cpu(claims@.take(t as int)),
                forall|t0: int|
                    0 <= t0 < out@.len() ==> ((#[trigger] out@[t0])@.msg matches
                        PayloadV::OperatorInstanceAssignment(
                        query::OperatorInstanceAssignmentV::Assign {
                            query_handler_worker_id,
                            query_id,
                            op_instance_id,
                            pipeline_id,
                            operator,
                        },
                    ) && query_handler_worker_id == self.worker_id && query_id
                        == claims@[t0].query_id && op_instance_id == claims@[t0].op_instance_id
                        && pipeline_id == claims@[t0].pipeline_id@ && operator
                        == claims@[t0].operator@ && out@[t0]@.msg_id == msg@.msg_id
                        && out@[t0]@.route_to_worker_id == msg@.sent_from_worker_id),
            decreases claims@.len() - t,
        {
            let c = &claims[t];
            let assign = msg.reply(
                MessagePayload::OperatorInstanceAssignment(
                    query::OperatorInstanceAssignment::Assign {
                        query_handler_worker_id: self.worker_id,
                        query_id: c.query_id,
                        op_instance_id: c.op_instance_id,
                        pipeline_id: clone_bytes(&c.pipeline_id),
                        operator: crate::query_state::clone_operator(&c.operator),
                    },
                ),
            );
            let ghost out0 = out@;
            out.push(assign);
            proof {
                assert(out@.drop_last() =~= out0);
                assert(claims@.take(t + 1 as int).drop_last() =~= claims@.take(t as int));
                assert(claims@.take(t + 1 as int).last() == claims@[t as int]);
                assert(forall|t0: int| 0 <= t0 < out0.len() ==> out@[t0] == out0[t0]);
            }
            t = t + 1;
        }
        proof {
            assert(claims@.take(claims@.len() as int) =~= claims@);
            assert forall|qi: int, gj: int, ki: int|
                crate::query_state::valid_loc(qs0, qi, gj, ki) && crate::query_state::instance_at(
                    qs0,
                    qi,
                    gj,
                    ki,
                ).status@ is Queued && (#[trigger] crate::query_state::instance_at(
                    self.state.queries@,
                    qi,
                    gj,
                    ki,
                )).status@ is Running implies exists|t2: int|
                0 <= t2 < out@.len() && ((#[trigger] out@[t2])@.msg matches
                    PayloadV::OperatorInstanceAssignment(
                    query::OperatorInstanceAssignmentV::Assign { op_instance_id, .. },
                ) && op_instance_id == crate::query_state::instance_at(qs0, qi, gj, ki).id) by {
                let tc = choose|tc: int|
                    0 <= tc < claims@.len() && (#[trigger] claims@[tc]).op_instance_id
                        == crate::query_state::instance_at(qs0, qi, gj, ki).id
                        && claims@[tc].query_id == qs0[qi].id;
                assert((out@[tc])@.msg matches PayloadV::OperatorInstanceAssignment(
                    query::OperatorInstanceAssignmentV::Assign { op_instance_id, .. },
                ) && op_instance_id == crate::query_state::instance_at(qs0, qi, gj, ki).id);
            }
        }
        Ok(out)
    }
}

} // verus!

verus! {

impl QueryHandler {
    /// Handles a worker's reply to an `Assign`.
    ///
    /// Acceptance moves a queued query to running and steps the instance
    /// to `Running` under the shutdown rule; rejection records the error
    /// on the query and steps the instance to that error. Success exactly
    /// when the addressed query and instance exist; the errors name what
    /// was missing. A rejection whose instance is unknown still fails the
    /// query, since the assignment cannot be running anywhere.
    #[verifier::rlimit(100)]
    pub fn handle_operator_instance_assignment_responses(&mut self, msg: &Message) -> (r: Result<
        (),
        QueryHandlerError,
    >)
        requires
            state_wf(old(self).state.queries@),
        ensures
            state_wf(final(self).state.queries@),
            final(self).worker_id == old(self).worker_id,
            (r == Err::<(), QueryHandlerError>(QueryHandlerError::IncorrectMessage)) == !(msg@.msg
                matches PayloadV::OperatorInstanceAssignment(p) && (p is AssignAcceptedResponse
                || p is AssignRejectedResponse)),
            r == Err::<(), QueryHandlerError>(QueryHandlerError::IncorrectMessage) ==> *final(self)
                == *old(self),
            msg@.msg matches PayloadV::OperatorInstanceAssignment(
                query::OperatorInstanceAssignmentV::AssignAcceptedResponse {
                    query_id,
                    op_instance_id,
                },
            ) ==> accepted_response_post(
                old(self).state.queries@,
                final(self).state.queries@,
                r,
                query_id,
                op_instance_id,
                msg@.sent_from_worker_id,
            ),
            msg@.msg matches PayloadV::OperatorInstanceAssignment(
                query::OperatorInstanceAssignmentV::AssignRejectedResponse {
                    query_id,
                    op_instance_id,
                    error,
                },
            ) ==> rejected_response_post(
                old(self).state.queries@,
                final(self).state.queries@,
                r,
                query_id,
                op_instance_id,
                error,
            ),
    {
        let ghost qs0 = self.state.queries@;
        match &msg.msg {
            MessagePayload::OperatorInstanceAssignment(
                query::OperatorInstanceAssignment::AssignAcceptedResponse {
                    query_id,
                    op_instance_id,
                },
            ) => {
                // step the instance first: its success tells whether the
                // ids resolve
                let ghost qs_pre = self.state.queries@;
                match self.state.update_operator_instance_status(
                    *query_id,
                    *op_instance_id,
                    Status::Running,
                ) {
                    Ok(_) => {},
                    Err(e) => {
                        return Err(QueryHandlerError::StateError(e));
                    },
                }
                let ghost qs_mid = self.state.queries@;
                let queued = match self.state.find_query(*query_id) {
                    Ok(q) => match &q.status {
                        Status::Queued => true,
                        _ => false,
                    },
                    Err(_) => false,
                };
                if queued {
                    match self.state.update_query_status(*query_id, Status::Running) {
                        Ok(_) => {},
                        Err(_) => {},
                    }
                }
                let ghost qs_mid2 = self.state.queries@;
                let recorded = self.state.record_assignment(
                    *query_id,
                    *op_instance_id,
                    msg.sent_from_worker_id,
                );
                proof {
                    let (qi, gj, ki) = choose|qi: int, gj: int, ki: int|
                        is_first_query(qs_pre, qi, *query_id)
                            && crate::query_state::is_first_iloc(
                            qs_pre[qi],
                            gj,
                            ki,
                            *op_instance_id,
                        ) && crate::query_state::instance_at(qs_pre, qi, gj, ki).id
                            == *op_instance_id
                            && #[trigger] crate::query_state::state_updates_instance(
                            qs_pre,
                            qs_mid,
                            qi,
                            gj,
                            ki,
                            crate::query_state::step_status(
                                crate::query_state::instance_at(qs_pre, qi, gj, ki).status@,
                                StatusV::Running,
                            ),
                        );
                    crate::query_state::lemma_wf_preserved_by_instance_update(
                        qs_pre,
                        qs_mid,
                        qi,
                        gj,
                        ki,
                        crate::query_state::step_status(
                            crate::query_state::instance_at(qs_pre, qi, gj, ki).status@,
                            StatusV::Running,
                        ),
                    );
                    if queued {
                        let qi2 = choose|qi2: int|
                            #[trigger] is_first_query(qs_mid, qi2, *query_id)
                                && crate::query_state::state_updates_query_status(
                                qs_mid,
                                qs_mid2,
                                qi2,
                                StatusV::Running,
                            );
                        crate::query_state::lemma_wf_preserved_by_query_status_update(
                            qs_mid,
                            qs_mid2,
                            qi2,
                            StatusV::Running,
                        );
                        assert(is_first_query(qs_mid, qi, *query_id));
                        lemma_first_query_unique(qs_mid, qi, qi2, *query_id);
                        assert(accepted_effect(
                            qs0,
                            qs_mid2,
                            qi,
                            gj,
                            ki,
                            StatusV::Running,
                            StatusV::Running,
                        ));
                        assert(qs0[qi].status@ is Queued);
                    } else {
                        assert(qs_mid2 == qs_mid);
                        assert(accepted_effect(
                            qs0,
                            qs_mid2,
                            qi,
                            gj,
                            ki,
                            StatusV::Running,
                            qs0[qi].status@,
                        ));
                        assert(!(qs0[qi].status@ is Queued));
                    }
                    // the recording step: it hits the same first location
                    assert(is_first_query(qs_mid2, qi, *query_id)) by {
                        assert(forall|i: int|
                            0 <= i < qs0.len() ==> (#[trigger] qs_mid2[i]).id == qs_pre[i].id);
                    }
                    assert(crate::query_state::query_has_instance(
                        qs_mid2[qi],
                        *op_instance_id,
                    )) by {
                        assert(crate::query_state::instance_at(qs_mid2, qi, gj, ki).id
                            == *op_instance_id);
                        assert(crate::query_state::group_has_instance(
                            qs_mid2[qi].operator_instances@[gj],
                            *op_instance_id,
                        ));
                    }
                    assert(has_query(qs_mid2, *query_id)) by {
                        assert(qs_mid2[qi].id == *query_id);
                    }
                    assert(recorded);
                    let (qi3, gj3, ki3) = choose|qi3: int, gj3: int, ki3: int|
                        is_first_query(qs_mid2, qi3, *query_id)
                            && crate::query_state::is_first_iloc(
                            qs_mid2[qi3],
                            gj3,
                            ki3,
                            *op_instance_id,
                        ) && crate::query_state::instance_at(qs_mid2, qi3, gj3, ki3).id
                            == *op_instance_id
                            && #[trigger] crate::query_state::state_updates_assignment(
                            qs_mid2,
                            self.state.queries@,
                            qi3,
                            gj3,
                            ki3,
                            msg@.sent_from_worker_id,
                        );
                    lemma_first_query_unique(qs_mid2, qi, qi3, *query_id);
                    assert(crate::query_state::is_first_iloc(
                        qs_mid2[qi],
                        gj,
                        ki,
                        *op_instance_id,
                    )) by {
                        assert forall|j0: int, k0: int|
                            0 <= j0 < qs_mid2[qi].operator_instances@.len() && 0 <= k0
                                < qs_mid2[qi].operator_instances@[j0].instances@.len()
                                && crate::query_state::loc_earlier(j0, k0, gj, ki) implies (
                        #[trigger] qs_mid2[qi].operator_instances@[j0].instances@[k0]).id
                            != *op_instance_id by {
                            assert(qs_mid2[qi].operator_instances@[j0].instances@[k0].id
                                == qs_pre[qi].operator_instances@[j0].instances@[k0].id);
                        }
                    }
                    crate::query_state::lemma_first_iloc_unique(
                        qs_mid2[qi],
                        gj,
                        ki,
                        gj3,
                        ki3,
                        *op_instance_id,
                    );
                    // the assignment write touches only this instance's
                    // assigned worker, so the accepted effect carries over
                    assert(accepted_effect(
                        qs0,
                        self.state.queries@,
                        qi,
                        gj,
                        ki,
                        StatusV::Running,
                        (if qs0[qi].status@ is Queued {
                            StatusV::Running
                        } else {
                            qs0[qi].status@
                        }),
                    ));
                    assert(crate::query_state::instance_at(
                        self.state.queries@,
                        qi,
                        gj,
                        ki,
                    ).assigned_worker_id == msg@.sent_from_worker_id);
                    crate::query_state::lemma_wf_preserved_by_assignment_update(
                        qs_mid2,
                        self.state.queries@,
                        qi,
                        gj,
                        ki,
                        msg@.sent_from_worker_id,
                    );
                }
                Ok(())
            },
            MessagePayload::OperatorInstanceAssignment(
                query::OperatorInstanceAssignment::AssignRejectedResponse {
                    query_id,
                    op_instance_id,
                    error,
                },
            ) => {
                let ghost qs_pre = self.state.queries@;
                let instance_ok = match self.state.update_operator_instance_status(
                    *query_id,
                    *op_instance_id,
                    Status::Error(clone_bytes(error)),
                ) {
                    Ok(_) => true,
                    Err(QueryHandlerStateError::QueryNotFound(_)) => {
                        return Err(QueryHandlerError::StateError(
                            QueryHandlerStateError::QueryNotFound(*query_id),
                        ));
                    },
                    Err(_) => false,
                };
                let ghost qs_mid = self.state.queries@;
                proof {
                    if instance_ok {
                        let (qi, gj, ki) = choose|qi: int, gj: int, ki: int|
                            is_first_query(qs_pre, qi, *query_id)
                                && crate::query_state::instance_at(qs_pre, qi, gj, ki).id
                                == *op_instance_id
                                && #[trigger] crate::query_state::state_updates_instance(
                                qs_pre,
                                qs_mid,
                                qi,
                                gj,
                                ki,
                                crate::query_state::step_status(
                                    crate::query_state::instance_at(qs_pre, qi, gj, ki).status@,
                                    StatusV::Error(error@),
                                ),
                            );
                        crate::query_state::lemma_wf_preserved_by_instance_update(
                            qs_pre,
                            qs_mid,
                            qi,
                            gj,
                            ki,
                            crate::query_state::step_status(
                                crate::query_state::instance_at(qs_pre, qi, gj, ki).status@,
                                StatusV::Error(error@),
                            ),
                        );
                    }
                }
                let qres = self.state.update_query_status(
                    *query_id,
                    Status::Error(clone_bytes(error)),
                );
                proof {
                    match qres {
                        Ok(_) => {
                            let qi2 = choose|qi2: int|
                                #[trigger] is_first_query(qs_mid, qi2, *query_id)
                                    && crate::query_state::state_updates_query_status(
                                    qs_mid,
                                    self.state.queries@,
                                    qi2,
                                    StatusV::Error(error@),
                                );
                            crate::query_state::lemma_wf_preserved_by_query_status_update(
                                qs_mid,
                                self.state.queries@,
                                qi2,
                                StatusV::Error(error@),
                            );
                        },
                        Err(_) => {},
                    }
                    if instance_ok {
                        let (qi, gj, ki) = choose|qi: int, gj: int, ki: int|
                            is_first_query(qs_pre, qi, *query_id)
                                && crate::query_state::instance_at(qs_pre, qi, gj, ki).id
                                == *op_instance_id
                                && #[trigger] crate::query_state::state_updates_instance(
                                qs_pre,
                                qs_mid,
                                qi,
                                gj,
                                ki,
                                crate::query_state::step_status(
                                    crate::query_state::instance_at(qs_pre, qi, gj, ki).status@,
                                    StatusV::Error(error@),
                                ),
                            );
                        let qi2 = choose|qi2: int|
                            #[trigger] is_first_query(qs_mid, qi2, *query_id)
                                && crate::query_state::state_updates_query_status(
                                qs_mid,
                                self.state.queries@,
                                qi2,
                                StatusV::Error(error@),
                            );
                        lemma_first_query_unique(qs_mid, qi, qi2, *query_id);
                        assert(accepted_effect(
                            qs0,
                            self.state.queries@,
                            qi,
                            gj,
                            ki,
                            StatusV::Error(error@),
                            StatusV::Error(error@),
                        ));
                    }
                }
                if instance_ok {
                    Ok(())
                } else {
                    Err(QueryHandlerError::StateError(
                        QueryHandlerStateError::OperatorInstanceNotFound(*op_instance_id),
                    ))
                }
            },
            _ => Err(QueryHandlerError::IncorrectMessage),
        }
    }
}

} // verus!

verus! {

/// The derived status reads only the instances: two queries with the same
/// instances derive the same status.
proof fn lemma_derived_same_instances(q1: Query, q2: Query, s: StatusV)
    requires
        q1.operator_instances == q2.operator_instances,
        derived_status_exact(q1, s),
    ensures
        derived_status_exact(q2, s),
{
    assert(crate::query_state::query_any_error(q1) == crate::query_state::query_any_error(q2));
    assert(crate::query_state::query_all_complete(q1) == crate::query_state::query_all_complete(
        q2,
    ));
    assert(crate::query_state::query_any_running(q1) == crate::query_state::query_any_running(q2));
    if crate::query_state::query_any_error(q1) {
        let (j, k) = choose|j: int, k: int|
            #[trigger] crate::query_state::is_first_error(q1, j, k)
                && s == q1.operator_instances@[j].instances@[k].status@;
        assert(crate::query_state::is_first_error(q2, j, k));
        assert(s == q2.operator_instances@[j].instances@[k].status@);
    }
}

impl QueryHandler {
    /// Handles a worker's report that an operator instance finished.
    ///
    /// The first returned message is always the immediate generic
    /// acknowledgement, even when the reported ids are unknown — state
    /// errors on the handler side must not block the worker. When the ids
    /// resolve, the instance steps under the shutdown rule; when a
    /// producer's whole group completed, its outbound exchange instances
    /// are notified; exchanges left without live producers have their live
    /// instances sent an immediate shutdown and moved to `SentShutdown`;
    /// and the returned status is the query's refreshed derived status.
    /// When the ids do not resolve, nothing changes and no status comes
    /// back.
    #[verifier::rlimit(100)]
    #[verifier::loop_isolation(false)]
    pub fn handle_operator_instance_status_change(&mut self, msg: &Message) -> (r: Result<
        (Vec<Message>, Option<Status>),
        QueryHandlerError,
    >)
        requires
            state_wf(old(self).state.queries@),
        ensures
            state_wf(final(self).state.queries@),
            final(self).worker_id == old(self).worker_id,
            (r is Err) == !(msg@.msg is QueryOperatorInstanceStatusChange),
            r is Err ==> (r == Err::<(Vec<Message>, Option<Status>), QueryHandlerError>(
                QueryHandlerError::IncorrectMessage,
            ) && *final(self) == *old(self)),
            match r {
                Ok((msgs, st)) => {
                    &&& msgs@.len() >= 1
                    &&& msgs@[0]@.msg == PayloadV::GenericResponse(common::GenericResponse::Okay)
                    &&& msgs@[0]@.msg_id == msg@.msg_id
                    &&& msgs@[0]@.route_to_worker_id == msg@.sent_from_worker_id
                    &&& msgs@[0]@.route_to_operation_id == msg@.sent_from_operation_id
                    &&& forall|t: int|
                        1 <= t < msgs@.len() ==> (((#[trigger] msgs@[t])@.msg matches
                            PayloadV::ExchangeOperatorStatusChange(_) || msgs@[t]@.msg matches
                            PayloadV::OperatorShutdown(_)) && msgs@[t]@.route_to_operation_id
                            is Some)
                    &&& st is None ==> *final(self) == *old(self)
                    &&& msg@.msg matches PayloadV::QueryOperatorInstanceStatusChange(
                        query::OperatorInstanceStatusChangeV::Complete {
                            query_id,
                            operator_instance_id,
                        },
                    ) ==> status_change_state_post(
                        old(self).state.queries@,
                        final(self).state.queries@,
                        query_id,
                        operator_instance_id,
                        StatusV::Complete,
                        st,
                    )
                    &&& msg@.msg matches PayloadV::QueryOperatorInstanceStatusChange(
                        query::OperatorInstanceStatusChangeV::Error {
                            query_id,
                            operator_instance_id,
                            error,
                        },
                    ) ==> status_change_state_post(
                        old(self).state.queries@,
                        final(self).state.queries@,
                        query_id,
                        operator_instance_id,
                        StatusV::Error(error),
                        st,
                    )
                },
                Err(_) => true,
            },
    {
        let (query_id, op_instance_id, new_status) = match &msg.msg {
            MessagePayload::QueryOperatorInstanceStatusChange(
                query::OperatorInstanceStatusChange::Complete { query_id, operator_instance_id },
            ) => (*query_id, *operator_instance_id, Status::Complete),
            MessagePayload::QueryOperatorInstanceStatusChange(
                query::OperatorInstanceStatusChange::Error {
                    query_id,
                    operator_instance_id,
                    error,
                },
            ) => (*query_id, *operator_instance_id, Status::Error(clone_bytes(error))),
            _ => {
                return Err(QueryHandlerError::IncorrectMessage);
            },
        };
        let ghost reported_v = new_status@;
        let mut msgs: Vec<Message> = Vec::new();
        let ack = msg.reply(MessagePayload::GenericResponse(common::GenericResponse::Okay));
        msgs.push(ack);
        let ghost qs0 = self.state.queries@;
        match self.state.update_operator_instance_status(query_id, op_instance_id, new_status) {
            Ok(_) => {},
            Err(_) => {
                // the ids do not resolve: acknowledge and change nothing
                proof {
                    assert(status_change_state_post(
                        qs0,
                        self.state.queries@,
                        query_id,
                        op_instance_id,
                        reported_v,
                        None,
                    ));
                }
                return Ok((msgs, None));
            },
        }
        let ghost (qi0, gj0, ki0) = choose|qi: int, gj: int, ki: int|
            is_first_query(qs0, qi, query_id) && crate::query_state::instance_at(
                qs0,
                qi,
                gj,
                ki,
            ).id == op_instance_id && #[trigger] crate::query_state::state_updates_instance(
                qs0,
                self.state.queries@,
                qi,
                gj,
                ki,
                crate::query_state::step_status(
                    crate::query_state::instance_at(qs0, qi, gj, ki).status@,
                    reported_v,
                ),
            );
        let ghost stepped = crate::query_state::step_status(
            crate::query_state::instance_at(qs0, qi0, gj0, ki0).status@,
            reported_v,
        );
        proof {
            crate::query_state::lemma_wf_preserved_by_instance_update(
                qs0,
                self.state.queries@,
                qi0,
                gj0,
                ki0,
                stepped,
            );
            assert(!stepped.is_available());
            assert forall|i: int|
                0 <= i < qs0.len() implies (#[trigger] self.state.queries@[i]).id
                == qs0[i].id by {
                if i != qi0 {
                    assert(self.state.queries@[i] == qs0[i]);
                }
            }
            lemma_first_query_stable(qs0, self.state.queries@, qi0, query_id);
        }
        // notify the outbound exchange when the producer's group completed
        let is_producer = match self.state.operator_instance_is_producer(
            query_id,
            op_instance_id,
        ) {
            Ok(b) => b,
            Err(_) => false,
        };
        let group_complete = match self.state.all_operator_instances_complete(
            query_id,
            op_instance_id,
        ) {
            Ok(b) => b,
            Err(_) => false,
        };
        if is_producer && group_complete {
            let completed_op = match self.state.get_operator_instance_operator(
                query_id,
                op_instance_id,
            ) {
                Ok(op) => op.id,
                Err(_) => Vec::new(),
            };
            match self.state.get_outbound_exchange_id(query_id, op_instance_id) {
                Ok(exid) => {
                    match self.state.get_operator_instances(query_id, &exid) {
                        Ok(instances) => {
                            let mut k: usize = 0;
                            while k < instances.len()
                                invariant
                                    k <= instances@.len(),
                                    msgs@.len() >= 1,
                                    msgs@[0]@.msg == PayloadV::GenericResponse(
                                        common::GenericResponse::Okay,
                                    ),
                                    msgs@[0]@.msg_id == msg@.msg_id,
                                    msgs@[0]@.route_to_worker_id == msg@.sent_from_worker_id,
                                    msgs@[0]@.route_to_operation_id == msg@.sent_from_operation_id,
                                    forall|t: int|
                                        1 <= t < msgs@.len() ==> (((#[trigger] msgs@[t])@.msg
                                            matches PayloadV::ExchangeOperatorStatusChange(_)
                                            || msgs@[t]@.msg matches PayloadV::OperatorShutdown(
                                            _,
                                        )) && msgs@[t]@.route_to_operation_id is Some),
                                decreases instances@.len() - k,
                            {
                                let m = Message::new(
                                    MessagePayload::ExchangeOperatorStatusChange(
                                        exchange::OperatorStatusChange::Completed {
                                            operator_id: clone_bytes(&completed_op),
                                        },
                                    ),
                                ).set_route_to_operation_id(instances[k].id);
                                msgs.push(m);
                                k = k + 1;
                            }
                        },
                        Err(_) => {},
                    }
                },
                Err(_) => {},
            }
        }
        // shut down exchanges that no live producer still feeds
        match self.state.get_exchange_ids_without_any_consumers(query_id) {
            Ok(exchange_ids) => {
                let mut x: usize = 0;
                while x < exchange_ids.len()
                    invariant
                        x <= exchange_ids@.len(),
                        state_wf(self.state.queries@),
                        self.worker_id == old(self).worker_id,
                        self.operator_id == old(self).operator_id,
                        crate::query_state::valid_loc(self.state.queries@, qi0, gj0, ki0),
                        crate::query_state::instance_at(
                            self.state.queries@,
                            qi0,
                            gj0,
                            ki0,
                        ).status@ == stepped,
                        0 <= qi0 < self.state.queries@.len(),
                        is_first_query(self.state.queries@, qi0, query_id),
                        msgs@.len() >= 1,
                        msgs@[0]@.msg == PayloadV::GenericResponse(common::GenericResponse::Okay),
                        msgs@[0]@.msg_id == msg@.msg_id,
                        msgs@[0]@.route_to_worker_id == msg@.sent_from_worker_id,
                        msgs@[0]@.route_to_operation_id == msg@.sent_from_operation_id,
                        forall|t: int|
                            1 <= t < msgs@.len() ==> (((#[trigger] msgs@[t])@.msg matches
                                PayloadV::ExchangeOperatorStatusChange(_) || msgs@[t]@.msg matches
                                PayloadV::OperatorShutdown(_)) && msgs@[t]@.route_to_operation_id
                                is Some),
                    decreases exchange_ids@.len() - x,
                {
                    match self.state.get_operator_instances(query_id, &exchange_ids[x]) {
                        Ok(instances) => {
                            let mut k: usize = 0;
                            while k < instances.len()
                                invariant
                                    k <= instances@.len(),
                                    state_wf(self.state.queries@),
                                    self.worker_id == old(self).worker_id,
                                    self.operator_id == old(self).operator_id,
                                    crate::query_state::valid_loc(
                                        self.state.queries@,
                                        qi0,
                                        gj0,
                                        ki0,
                                    ),
                                    crate::query_state::instance_at(
                                        self.state.queries@,
                                        qi0,
                                        gj0,
                                        ki0,
                                    ).status@ == stepped,
                                    0 <= qi0 < self.state.queries@.len(),
                                    is_first_query(self.state.queries@, qi0, query_id),
                                    msgs@.len() >= 1,
                                    msgs@[0]@.msg == PayloadV::GenericResponse(
                                        common::GenericResponse::Okay,
                                    ),
                                    msgs@[0]@.msg_id == msg@.msg_id,
                                    msgs@[0]@.route_to_worker_id == msg@.sent_from_worker_id,
                                    msgs@[0]@.route_to_operation_id == msg@.sent_from_operation_id,
                                    forall|t: int|
                                        1 <= t < msgs@.len() ==> (((#[trigger] msgs@[t])@.msg
                                            matches PayloadV::ExchangeOperatorStatusChange(_)
                                            || msgs@[t]@.msg matches PayloadV::OperatorShutdown(
                                            _,
                                        )) && msgs@[t]@.route_to_operation_id is Some),
                                decreases instances@.len() - k,
                            {
                                let now = now_millis();
                                let ghost qs_pre = self.state.queries@;
                                let did = self.state.mark_sent_shutdown_if_available(
                                    query_id,
                                    instances[k].id,
                                    now,
                                );
                                if did {
                                    proof {
                                        let (qi2, gj2, ki2) = choose|qi2: int, gj2: int, ki2: int|
                                            is_first_query(qs_pre, qi2, query_id)
                                                && crate::query_state::instance_at(
                                                qs_pre,
                                                qi2,
                                                gj2,
                                                ki2,
                                            ).id == instances@[k as int].id
                                                && crate::query_state::instance_at(
                                                qs_pre,
                                                qi2,
                                                gj2,
                                                ki2,
                                            ).status@.is_available()
                                                && #[trigger] crate::query_state::state_updates_instance(
                                                qs_pre,
                                                self.state.queries@,
                                                qi2,
                                                gj2,
                                                ki2,
                                                StatusV::SentShutdown(now),
                                            );
                                        crate::query_state::lemma_wf_preserved_by_instance_update(
                                            qs_pre,
                                            self.state.queries@,
                                            qi2,
                                            gj2,
                                            ki2,
                                            StatusV::SentShutdown(now),
                                        );
                                        if qi2 == qi0 && gj2 == gj0 && ki2 == ki0 {
                                            assert(crate::query_state::instance_at(
                                                qs_pre,
                                                qi2,
                                                gj2,
                                                ki2,
                                            ).status@.is_available());
                                            assert(false);
                                        }
                                        assert forall|i: int|
                                            0 <= i < qs_pre.len() implies (
                                        #[trigger] self.state.queries@[i]).id == qs_pre[i].id by {
                                            if i != qi2 {
                                                assert(self.state.queries@[i] == qs_pre[i]);
                                            }
                                        }
                                        lemma_first_query_stable(
                                            qs_pre,
                                            self.state.queries@,
                                            qi0,
                                            query_id,
                                        );
                                    }
                                    let m = Message::new(
                                        MessagePayload::OperatorShutdown(
                                            operator::Shutdown::Immediate,
                                        ),
                                    ).set_route_to_operation_id(instances[k].id);
                                    msgs.push(m);
                                }
                                k = k + 1;
                            }
                        },
                        Err(_) => {},
                    }
                    x = x + 1;
                }
            },
            Err(_) => {},
        }
        // refresh the derived query status
        let ghost qs3 = self.state.queries@;
        match self.state.refresh_query_status(query_id) {
            Ok(status) => {
                proof {
                    let qi = choose|qi: int|
                        {
                            &&& #[trigger] is_first_query(qs3, qi, query_id)
                            &&& crate::query_state::state_updates_query_status(
                                qs3,
                                self.state.queries@,
                                qi,
                                status@,
                            )
                            &&& derived_status_exact(qs3[qi], status@)
                        };
                    crate::query_state::lemma_wf_preserved_by_query_status_update(
                        qs3,
                        self.state.queries@,
                        qi,
                        status@,
                    );
                    lemma_derived_same_instances(qs3[qi], self.state.queries@[qi], status@);
                    assert(self.state.queries@[qi].status@ == status@);
                    lemma_first_query_unique(qs3, qi, qi0, query_id);
                    assert(crate::query_state::instance_at(self.state.queries@, qi0, gj0, ki0).status@
                        == stepped);
                }
                let ghost stg = status;
                proof {
                    let qs1 = self.state.queries@;
                    assert(crate::query_state::query_has_instance(qs0[qi0], op_instance_id)) by {
                        assert(crate::query_state::group_has_instance(
                            qs0[qi0].operator_instances@[gj0],
                            op_instance_id,
                        ));
                    }
                    assert(has_query(qs0, query_id)) by {
                        assert(qs0[qi0].id == query_id);
                    }
                    assert(status_change_state_post(
                        qs0,
                        qs1,
                        query_id,
                        op_instance_id,
                        reported_v,
                        Some(stg),
                    ));
                }
                Ok((msgs, Some(status)))
            },
            Err(e) => {
                proof {
                    assert(has_query(qs3, query_id)) by {
                        assert(qs3[qi0].id == query_id);
                    }
                    assert(false);
                }
                Err(QueryHandlerError::StateError(e))
            },
        }
    }
}

} // verus!
