//! Lifecycle state for queries and their operator instances.

use vstd::prelude::*;

verus! {

/// The lifecycle status of a query or of an operator instance.
///
/// `Error` carries the error text; `SentShutdown` carries the millisecond
/// timestamp at which the shutdown request was sent. A status is *terminal*
/// iff it is `Complete` or `Error`.
#[derive(Debug, Clone, PartialEq, Eq)]
pub enum Status {
    Queued,
    Running,
    Complete,
    Error(Vec<u8>),
    SentShutdown(u64),
}

pub enum StatusV {
    Queued,
    Running,
    Complete,
    Error(Seq<u8>),
    SentShutdown(u64),
}

impl View for Status {
    type V = StatusV;

    open spec fn view(&self) -> StatusV {
        match self {
            Status::Queued => StatusV::Queued,
            Status::Running => StatusV::Running,
            Status::Complete => StatusV::Complete,
            Status::Error(e) => StatusV::Error(e@),
            Status::SentShutdown(t) => StatusV::SentShutdown(*t),
        }
    }
}

impl StatusV {
    /// A status is terminal iff it is `Complete` or `Error`.
    pub open spec fn is_terminal(self) -> bool {
        match self {
            StatusV::Complete => true,
            StatusV::Error(_) => true,
            _ => false,
        }
    }

    /// A status still takes part in the protocol iff it is `Queued` or
    /// `Running`.
    pub open spec fn is_available(self) -> bool {
        match self {
            StatusV::Queued => true,
            StatusV::Running => true,
            _ => false,
        }
    }
}

impl Status {
    /// True iff the status is `Complete` or `Error`.
    pub fn terminal(&self) -> (r: bool)
        ensures
            r == self@.is_terminal(),
    {
        match self {
            Status::Complete => true,
            Status::Error(_) => true,
            _ => false,
        }
    }

    /// True iff the status is `Queued` or `Running`.
    pub fn available(&self) -> (r: bool)
        ensures
            r == self@.is_available(),
    {
        match self {
            Status::Queued => true,
            Status::Running => true,
            _ => false,
        }
    }
}

} // verus!

use crate::plan::{Operator, OperatorType, PhysicalPlan};
use crate::compute::{OperatorCompute, TotalOperatorCompute};
use crate::ids::new_id;
use crate::wire::{bytes_eq, clone_bytes};

verus! {

/// A fresh copy of a status with the same value.
pub fn clone_status(s: &Status) -> (r: Status)
    ensures
        r@ == s@,
{
    match s {
        Status::Queued => Status::Queued,
        Status::Running => Status::Running,
        Status::Complete => Status::Complete,
        Status::Error(e) => Status::Error(clone_bytes(e)),
        Status::SentShutdown(t) => Status::SentShutdown(*t),
    }
}

/// A fresh copy of an operator with the same value.
pub fn clone_operator(op: &Operator) -> (r: Operator)
    ensures
        r@ == op@,
{
    let operator_type = match &op.operator_type {
        OperatorType::Producer { outbound_exchange_id } => OperatorType::Producer {
            outbound_exchange_id: clone_bytes(outbound_exchange_id),
        },
        OperatorType::Exchange => OperatorType::Exchange,
    };
    let r = Operator { id: clone_bytes(&op.id), operator_type, compute: op.compute };
    proof {
        assert(r@ =~= op@);
    }
    r
}

#[derive(Debug, Clone, PartialEq, Eq)]
pub enum QueryHandlerStateError {
    QueryNotFound(u128),
    OperatorInstanceNotFound(u128),
    OperatorInstanceGroupNotFound(u128, u128),
    DuplicateOperatorInstanceId(u128),
    DuplicateQueryId(u128),
    OperatorInstanceNotAProducer(u128),
}

/// The runtime realization of one operator instance: its stable id and its
/// lifecycle status. The operator itself lives on the enclosing group.
#[derive(Debug, Clone, PartialEq, Eq)]
pub struct OperatorInstance {
    pub id: u128,
    pub status: Status,
    pub assigned_worker_id: Option<u128>,
}

impl OperatorInstance {
    /// A freshly created instance: a new id, status `Queued`, not yet
    /// assigned to any worker.
    pub fn new() -> (r: OperatorInstance)
        ensures
            r.status@ is Queued,
            r.assigned_worker_id is None,
    {
        OperatorInstance { id: new_id(), status: Status::Queued, assigned_worker_id: None }
    }
}

/// All instances of one operator of the plan, with the pipeline they belong
/// to.
#[derive(Debug, Clone, PartialEq, Eq)]
pub struct OperatorInstanceGroup {
    pub pipeline_id: Vec<u8>,
    pub operator: Operator,
    pub instances: Vec<OperatorInstance>,
}

/// One submitted query: its id, SQL text, plan, derived status, and the
/// operator instances expanded from the plan.
#[derive(Debug, Clone, PartialEq, Eq)]
pub struct Query {
    pub id: u128,
    pub query: Vec<u8>,
    pub physical_plan: PhysicalPlan,
    pub status: Status,
    pub operator_instances: Vec<OperatorInstanceGroup>,
}

// ---------------------------------------------------------------------------
// Spec views of the instance structure
// ---------------------------------------------------------------------------

/// True iff some instance of the group carries this id.
pub open spec fn group_has_instance(g: OperatorInstanceGroup, iid: u128) -> bool {
    exists|k: int| 0 <= k < g.instances@.len() && g.instances@[k].id == iid
}

/// True iff some instance of the query carries this id.
pub open spec fn query_has_instance(q: Query, iid: u128) -> bool {
    exists|j: int|
        0 <= j < q.operator_instances@.len() && group_has_instance(
            #[trigger] q.operator_instances@[j],
            iid,
        )
}

/// True iff some instance of the query is in an error status.
pub open spec fn query_any_error(q: Query) -> bool {
    exists|j: int, k: int|
        0 <= j < q.operator_instances@.len() && 0 <= k < q.operator_instances@[j].instances@.len()
            && (#[trigger] q.operator_instances@[j].instances@[k]).status@ is Error
}

/// True iff every instance of the query is complete.
pub open spec fn query_all_complete(q: Query) -> bool {
    forall|j: int, k: int|
        0 <= j < q.operator_instances@.len() && 0 <= k < q.operator_instances@[j].instances@.len()
            ==> (#[trigger] q.operator_instances@[j].instances@[k]).status@ is Complete
}

/// True iff some instance of the query is running.
pub open spec fn query_any_running(q: Query) -> bool {
    exists|j: int, k: int|
        0 <= j < q.operator_instances@.len() && 0 <= k < q.operator_instances@[j].instances@.len()
            && (#[trigger] q.operator_instances@[j].instances@[k]).status@ is Running
}

} // verus!

verus! {

// ---------------------------------------------------------------------------
// Query construction: expanding a plan into operator instance groups
// ---------------------------------------------------------------------------

/// How many operators stand in the first `i` pipelines.
pub open spec fn ops_before(pls: Seq<crate::plan::Pipeline>, i: int) -> int
    decreases i,
{
    if i <= 0 {
        0
    } else {
        ops_before(pls, i - 1) + pls[i - 1].operators@.len()
    }
}

/// The group at a plan position: the right operator, its pipeline id, one
/// queued instance per declared count.
pub open spec fn group_matches_op(
    g: OperatorInstanceGroup,
    pl: crate::plan::Pipeline,
    op: Operator,
) -> bool {
    &&& g.pipeline_id@ == pl.id@
    &&& g.operator@ == op@
    &&& g.instances@.len() == op.compute.instances
    &&& forall|k: int|
        0 <= k < g.instances@.len() ==> (#[trigger] g.instances@[k]).status@ is Queued && g.instances@[k].assigned_worker_id
            is None
}

/// The groups expand the plan: one group per operator, in plan order.
pub open spec fn groups_match_plan(
    gs: Seq<OperatorInstanceGroup>,
    pls: Seq<crate::plan::Pipeline>,
) -> bool {
    &&& gs.len() == ops_before(pls, pls.len() as int)
    &&& forall|i: int, j: int|
        0 <= i < pls.len() && 0 <= j < pls[i].operators@.len() ==> {
            let g = gs[ops_before(pls, i) + j];
            group_matches_op(g, pls[i], #[trigger] pls[i].operators@[j])
        }
}

proof fn lemma_push_index<T>(s: Seq<T>, v: T, i: int)
    requires
        0 <= i < s.len(),
    ensures
        s.push(v)[i] == s[i],
{
    assert(s.push(v)[i] == s[i]);
}

proof fn lemma_ops_before_nonneg(pls: Seq<crate::plan::Pipeline>, i: int)
    ensures
        ops_before(pls, i) >= 0,
    decreases i,
{
    if i > 0 {
        lemma_ops_before_nonneg(pls, i - 1);
    }
}

proof fn lemma_ops_before_mono(pls: Seq<crate::plan::Pipeline>, i0: int, i: int)
    requires
        0 <= i0 < i <= pls.len(),
    ensures
        ops_before(pls, i0) + pls[i0].operators@.len() <= ops_before(pls, i),
    decreases i,
{
    if i == i0 + 1 {
    } else {
        lemma_ops_before_mono(pls, i0, i - 1);
    }
}

impl Query {
    /// A new query around the SQL text and its plan: a fresh id, status
    /// `Queued`, no instances yet.
    pub fn new(query: Vec<u8>, physical_plan: PhysicalPlan) -> (r: Query)
        ensures
            r.query@ == query@,
            r.physical_plan == physical_plan,
            r.status@ is Queued,
            r.operator_instances@.len() == 0,
    {
        Query {
            id: new_id(),
            query,
            physical_plan,
            status: Status::Queued,
            operator_instances: Vec::new(),
        }
    }

    /// Expands the plan into operator instances: one group per operator of
    /// every pipeline, with one queued instance per declared count.
    pub fn init(&mut self)
        requires
            old(self).operator_instances@.len() == 0,
        ensures
            final(self).id == old(self).id,
            final(self).query == old(self).query,
            final(self).physical_plan == old(self).physical_plan,
            final(self).status == old(self).status,
            groups_match_plan(final(self).operator_instances@, old(self).physical_plan.pipelines@),
    {
        self.add_operator_instances_from_physical_plan();
    }

    /// Appends the groups that the plan declares.
    #[verifier::rlimit(100)]
    #[verifier::loop_isolation(false)]
    pub fn add_operator_instances_from_physical_plan(&mut self)
        requires
            old(self).operator_instances@.len() == 0,
        ensures
            final(self).id == old(self).id,
            final(self).query == old(self).query,
            final(self).physical_plan == old(self).physical_plan,
            final(self).status == old(self).status,
            groups_match_plan(final(self).operator_instances@, old(self).physical_plan.pipelines@),
    {
        let ghost pls = self.physical_plan.pipelines@;
        let n_pipelines = self.physical_plan.pipelines.len();
        let mut i: usize = 0;
        while i < n_pipelines
            invariant
                self.id == old(self).id,
                self.query == old(self).query,
                self.physical_plan == old(self).physical_plan,
                self.status == old(self).status,
                pls == self.physical_plan.pipelines@,
                n_pipelines == pls.len(),
                i <= pls.len(),
                self.operator_instances@.len() == ops_before(pls, i as int),
                forall|i0: int, j0: int|
                    0 <= i0 < i && 0 <= j0 < pls[i0].operators@.len() ==> {
                        let g = self.operator_instances@[ops_before(pls, i0) + j0];
                        group_matches_op(g, pls[i0], #[trigger] pls[i0].operators@[j0])
                    },
            decreases pls.len() - i,
        {
            let n_ops = self.physical_plan.pipelines[i].operators.len();
            let mut j: usize = 0;
            while j < n_ops
                invariant
                    self.id == old(self).id,
                    self.query == old(self).query,
                    self.physical_plan == old(self).physical_plan,
                    self.status == old(self).status,
                    pls == self.physical_plan.pipelines@,
                    0 <= i < pls.len(),
                    j <= pls[i as int].operators@.len(),
                    n_ops == pls[i as int].operators@.len(),
                    self.operator_instances@.len() == ops_before(pls, i as int) + j,
                    forall|i0: int, j0: int|
                        0 <= i0 < i && 0 <= j0 < pls[i0].operators@.len() ==> {
                            let g = self.operator_instances@[ops_before(pls, i0) + j0];
                            group_matches_op(g, pls[i0], #[trigger] pls[i0].operators@[j0])
                        },
                    forall|j0: int|
                        0 <= j0 < j ==> {
                            let g = self.operator_instances@[ops_before(pls, i as int) + j0];
                            group_matches_op(
                                g,
                                pls[i as int],
                                #[trigger] pls[i as int].operators@[j0],
                            )
                        },
                decreases n_ops - j,
            {
                let pipeline_id = clone_bytes(&self.physical_plan.pipelines[i].id);
                let operator = clone_operator(&self.physical_plan.pipelines[i].operators[j]);
                let count = operator.compute.instances;
                let mut instances: Vec<OperatorInstance> = Vec::new();
                let mut k: u64 = 0;
                while k < count
                    invariant
                        k <= count,
                        instances@.len() == k,
                        forall|k0: int|
                            0 <= k0 < instances@.len() ==> (#[trigger] instances@[k0]).status@
                                is Queued && instances@[k0].assigned_worker_id is None,
                    decreases count - k,
                {
                    instances.push(OperatorInstance::new());
                    k = k + 1;
                }
                let group = OperatorInstanceGroup { pipeline_id, operator, instances };
                proof {
                    assert(group_matches_op(
                        group,
                        pls[i as int],
                        pls[i as int].operators@[j as int],
                    ));
                }
                let ghost gs0 = self.operator_instances@;
                let ghost gv = group;
                self.operator_instances.push(group);
                proof {
                    assert forall|i0: int, j0: int|
                        0 <= i0 < i && 0 <= j0 < pls[i0].operators@.len() implies {
                        let g = self.operator_instances@[ops_before(pls, i0) + j0];
                        group_matches_op(g, pls[i0], #[trigger] pls[i0].operators@[j0])
                    } by {
                        lemma_ops_before_mono(pls, i0, i as int);
                        lemma_ops_before_nonneg(pls, i0);
                        let idx = ops_before(pls, i0) + j0;
                        assert(idx < gs0.len());
                        assert(group_matches_op(gs0[idx], pls[i0], pls[i0].operators@[j0]));
                        assert(self.operator_instances@ == gs0.push(gv));
                        lemma_push_index(gs0, gv, idx);
                    }
                }
                j = j + 1;
            }
            i = i + 1;
        }
        proof {
            assert(groups_match_plan(self.operator_instances@, pls));
        }
    }
}

} // verus!

verus! {

// ---------------------------------------------------------------------------
// The query handler's state: an append-only list of queries
// ---------------------------------------------------------------------------

pub open spec fn instance_at(qs: Seq<Query>, qi: int, gj: int, ki: int) -> OperatorInstance {
    qs[qi].operator_instances@[gj].instances@[ki]
}

pub open spec fn valid_loc(qs: Seq<Query>, qi: int, gj: int, ki: int) -> bool {
    &&& 0 <= qi < qs.len()
    &&& 0 <= gj < qs[qi].operator_instances@.len()
    &&& 0 <= ki < qs[qi].operator_instances@[gj].instances@.len()
}

/// Well-formedness of the state: query ids are unique, and every operator
/// instance id belongs to at most one query. Together with existence this
/// is the mapping of each instance id to exactly one query.
pub open spec fn state_wf(qs: Seq<Query>) -> bool {
    &&& forall|i1: int, i2: int|
        0 <= i1 < qs.len() && 0 <= i2 < qs.len() && #[trigger] qs[i1].id == #[trigger] qs[i2].id
            ==> i1 == i2
    &&& forall|i1: int, i2: int, iid: u128|
        0 <= i1 < qs.len() && 0 <= i2 < qs.len() && #[trigger] query_has_instance(qs[i1], iid)
            && #[trigger] query_has_instance(qs[i2], iid) ==> i1 == i2
}

/// True iff some query of the state carries this id.
pub open spec fn has_query(qs: Seq<Query>, query_id: u128) -> bool {
    exists|i: int| 0 <= i < qs.len() && (#[trigger] qs[i]).id == query_id
}

/// The query at `qi` is the first one carrying this id.
pub open spec fn is_first_query(qs: Seq<Query>, qi: int, query_id: u128) -> bool {
    &&& 0 <= qi < qs.len()
    &&& qs[qi].id == query_id
    &&& forall|i: int| 0 <= i < qi ==> (#[trigger] qs[i]).id != query_id
}

/// Strict lexicographic order on instance locations within a query.
pub open spec fn loc_earlier(j1: int, k1: int, j2: int, k2: int) -> bool {
    j1 < j2 || (j1 == j2 && k1 < k2)
}

/// The instance at `(j, k)` is the first erroring instance of the query.
pub open spec fn is_first_error(q: Query, j: int, k: int) -> bool {
    &&& 0 <= j < q.operator_instances@.len()
    &&& 0 <= k < q.operator_instances@[j].instances@.len()
    &&& q.operator_instances@[j].instances@[k].status@ is Error
    &&& forall|j0: int, k0: int|
        0 <= j0 < q.operator_instances@.len() && 0 <= k0
            < q.operator_instances@[j0].instances@.len() && loc_earlier(j0, k0, j, k) ==> !((
        #[trigger] q.operator_instances@[j0].instances@[k0]).status@ is Error)
}

/// There is at most one first erroring instance.
pub proof fn lemma_first_error_unique(q: Query, j1: int, k1: int, j2: int, k2: int)
    requires
        is_first_error(q, j1, k1),
        is_first_error(q, j2, k2),
    ensures
        j1 == j2 && k1 == k2,
{
    if loc_earlier(j1, k1, j2, k2) {
        assert(!(q.operator_instances@[j1].instances@[k1].status@ is Error));
    } else if loc_earlier(j2, k2, j1, k1) {
        assert(!(q.operator_instances@[j2].instances@[k2].status@ is Error));
    }
}

/// The derived status of a query, exactly: the first instance error wins,
/// then completion of all, then any running, else queued.
pub open spec fn derived_status_exact(q: Query, s: StatusV) -> bool {
    if query_any_error(q) {
        exists|j: int, k: int|
            #[trigger] is_first_error(q, j, k) && s == q.operator_instances@[j].instances@[k].status@
    } else if query_all_complete(q) {
        s == StatusV::Complete
    } else if query_any_running(q) {
        s == StatusV::Running
    } else {
        s == StatusV::Queued
    }
}

/// The derived status is a function of the query: two statuses that both
/// derive from the same query are equal.
pub proof fn lemma_derived_status_deterministic(q: Query, s1: StatusV, s2: StatusV)
    requires
        derived_status_exact(q, s1),
        derived_status_exact(q, s2),
    ensures
        s1 == s2,
{
    if query_any_error(q) {
        let (j1, k1) = choose|j1: int, k1: int|
            #[trigger] is_first_error(q, j1, k1) && s1
                == q.operator_instances@[j1].instances@[k1].status@;
        let (j2, k2) = choose|j2: int, k2: int|
            #[trigger] is_first_error(q, j2, k2) && s2
                == q.operator_instances@[j2].instances@[k2].status@;
        lemma_first_error_unique(q, j1, k1, j2, k2);
    }
}

/// The instance at `(j, k)` is the first in the query carrying this id.
pub open spec fn is_first_iloc(q: Query, j: int, k: int, iid: u128) -> bool {
    &&& 0 <= j < q.operator_instances@.len()
    &&& 0 <= k < q.operator_instances@[j].instances@.len()
    &&& q.operator_instances@[j].instances@[k].id == iid
    &&& forall|j0: int, k0: int|
        0 <= j0 < q.operator_instances@.len() && 0 <= k0
            < q.operator_instances@[j0].instances@.len() && loc_earlier(j0, k0, j, k) ==> (
        #[trigger] q.operator_instances@[j0].instances@[k0]).id != iid
}

/// There is at most one first location of an id within a query.
pub proof fn lemma_first_iloc_unique(q: Query, j1: int, k1: int, j2: int, k2: int, iid: u128)
    requires
        is_first_iloc(q, j1, k1, iid),
        is_first_iloc(q, j2, k2, iid),
    ensures
        j1 == j2 && k1 == k2,
{
    if loc_earlier(j1, k1, j2, k2) {
        assert(q.operator_instances@[j1].instances@[k1].id != iid);
    } else if loc_earlier(j2, k2, j1, k1) {
        assert(q.operator_instances@[j2].instances@[k2].id != iid);
    }
}

/// How a requested status lands on an instance: a `SentShutdown` instance
/// accepts only `Complete` or `Error`; every other request leaves it as it
/// was.
pub open spec fn step_status(cur: StatusV, req: StatusV) -> StatusV {
    if cur is SentShutdown && !(req is Complete || req is Error) {
        cur
    } else {
        req
    }
}

/// An instance in `SentShutdown` never moves back to `Running` or `Queued`:
/// whatever status is requested, it either stays as it is or ends terminal.
pub proof fn lemma_sent_shutdown_never_resumes(cur: StatusV, req: StatusV)
    requires
        cur is SentShutdown,
    ensures
        !(step_status(cur, req) is Running),
        !(step_status(cur, req) is Queued),
{
}

/// The two states agree everywhere except that the instance at the location
/// carries the given status.
pub open spec fn state_updates_instance(
    qs0: Seq<Query>,
    qs1: Seq<Query>,
    qi: int,
    gj: int,
    ki: int,
    s: StatusV,
) -> bool {
    &&& valid_loc(qs0, qi, gj, ki)
    &&& qs1.len() == qs0.len()
    &&& forall|i: int| 0 <= i < qs0.len() && i != qi ==> qs1[i] == qs0[i]
    &&& qs1[qi].id == qs0[qi].id
    &&& qs1[qi].query == qs0[qi].query
    &&& qs1[qi].physical_plan == qs0[qi].physical_plan
    &&& qs1[qi].status == qs0[qi].status
    &&& qs1[qi].operator_instances@.len() == qs0[qi].operator_instances@.len()
    &&& forall|j: int|
        0 <= j < qs0[qi].operator_instances@.len() && j != gj
            ==> qs1[qi].operator_instances@[j] == qs0[qi].operator_instances@[j]
    &&& qs1[qi].operator_instances@[gj].pipeline_id == qs0[qi].operator_instances@[gj].pipeline_id
    &&& qs1[qi].operator_instances@[gj].operator == qs0[qi].operator_instances@[gj].operator
    &&& qs1[qi].operator_instances@[gj].instances@.len()
        == qs0[qi].operator_instances@[gj].instances@.len()
    &&& forall|k: int|
        0 <= k < qs0[qi].operator_instances@[gj].instances@.len() && k != ki ==> qs1[qi].operator_instances@[gj].instances@[k]
            == qs0[qi].operator_instances@[gj].instances@[k]
    &&& instance_at(qs1, qi, gj, ki).id == instance_at(qs0, qi, gj, ki).id
    &&& instance_at(qs1, qi, gj, ki).assigned_worker_id == instance_at(
        qs0,
        qi,
        gj,
        ki,
    ).assigned_worker_id
    &&& instance_at(qs1, qi, gj, ki).status@ == s
}

/// The two states agree everywhere except that the instance at the
/// location carries the given assigned worker; its status is untouched.
pub open spec fn state_updates_assignment(
    qs0: Seq<Query>,
    qs1: Seq<Query>,
    qi: int,
    gj: int,
    ki: int,
    assigned: Option<u128>,
) -> bool {
    &&& valid_loc(qs0, qi, gj, ki)
    &&& qs1.len() == qs0.len()
    &&& forall|i: int| 0 <= i < qs0.len() && i != qi ==> qs1[i] == qs0[i]
    &&& qs1[qi].id == qs0[qi].id
    &&& qs1[qi].query == qs0[qi].query
    &&& qs1[qi].physical_plan == qs0[qi].physical_plan
    &&& qs1[qi].status == qs0[qi].status
    &&& qs1[qi].operator_instances@.len() == qs0[qi].operator_instances@.len()
    &&& forall|j: int|
        0 <= j < qs0[qi].operator_instances@.len() && j != gj
            ==> qs1[qi].operator_instances@[j] == qs0[qi].operator_instances@[j]
    &&& qs1[qi].operator_instances@[gj].pipeline_id == qs0[qi].operator_instances@[gj].pipeline_id
    &&& qs1[qi].operator_instances@[gj].operator == qs0[qi].operator_instances@[gj].operator
    &&& qs1[qi].operator_instances@[gj].instances@.len()
        == qs0[qi].operator_instances@[gj].instances@.len()
    &&& forall|k: int|
        0 <= k < qs0[qi].operator_instances@[gj].instances@.len() && k != ki ==> qs1[qi].operator_instances@[gj].instances@[k]
            == qs0[qi].operator_instances@[gj].instances@[k]
    &&& instance_at(qs1, qi, gj, ki).id == instance_at(qs0, qi, gj, ki).id
    &&& instance_at(qs1, qi, gj, ki).status == instance_at(qs0, qi, gj, ki).status
    &&& instance_at(qs1, qi, gj, ki).assigned_worker_id == assigned
}

/// The two states agree everywhere except the status of the query at `qi`.
pub open spec fn state_updates_query_status(
    qs0: Seq<Query>,
    qs1: Seq<Query>,
    qi: int,
    s: StatusV,
) -> bool {
    &&& 0 <= qi < qs0.len()
    &&& qs1.len() == qs0.len()
    &&& forall|i: int| 0 <= i < qs0.len() && i != qi ==> qs1[i] == qs0[i]
    &&& qs1[qi].id == qs0[qi].id
    &&& qs1[qi].query == qs0[qi].query
    &&& qs1[qi].physical_plan == qs0[qi].physical_plan
    &&& qs1[qi].status@ == s
    &&& qs1[qi].operator_instances == qs0[qi].operator_instances
}

/// True iff some instance of the group carries this id; executable form.
pub fn group_has_instance_exec(g: &OperatorInstanceGroup, iid: u128) -> (r: bool)
    ensures
        r == group_has_instance(*g, iid),
{
    let mut k: usize = 0;
    while k < g.instances.len()
        invariant
            k <= g.instances@.len(),
            forall|k0: int| 0 <= k0 < k ==> (#[trigger] g.instances@[k0]).id != iid,
        decreases g.instances@.len() - k,
    {
        if g.instances[k].id == iid {
            return true;
        }
        k = k + 1;
    }
    false
}

/// True iff some instance of the query carries this id; executable form.
pub fn query_has_instance_exec(q: &Query, iid: u128) -> (r: bool)
    ensures
        r == query_has_instance(*q, iid),
{
    let mut j: usize = 0;
    while j < q.operator_instances.len()
        invariant
            j <= q.operator_instances@.len(),
            forall|j0: int|
                0 <= j0 < j ==> !group_has_instance(#[trigger] q.operator_instances@[j0], iid),
        decreases q.operator_instances@.len() - j,
    {
        if group_has_instance_exec(&q.operator_instances[j], iid) {
            return true;
        }
        j = j + 1;
    }
    false
}

/// The query handler's state.
#[derive(Debug, Clone, PartialEq, Eq)]
pub struct QueryHandlerState {
    pub queries: Vec<Query>,
}

impl QueryHandlerState {
    /// An empty state: it is well formed.
    pub fn new() -> (r: QueryHandlerState)
        ensures
            r.queries@.len() == 0,
            state_wf(r.queries@),
    {
        QueryHandlerState { queries: Vec::new() }
    }

    /// True iff any query holds an instance with this id.
    pub fn has_instance(&self, iid: u128) -> (r: bool)
        ensures
            r == exists|i: int|
                0 <= i < self.queries@.len() && query_has_instance(
                    #[trigger] self.queries@[i],
                    iid,
                ),
    {
        let mut i: usize = 0;
        while i < self.queries.len()
            invariant
                i <= self.queries@.len(),
                forall|i0: int|
                    0 <= i0 < i ==> !query_has_instance(#[trigger] self.queries@[i0], iid),
            decreases self.queries@.len() - i,
        {
            if query_has_instance_exec(&self.queries[i], iid) {
                return true;
            }
            i = i + 1;
        }
        false
    }

    /// The index of the query with this id.
    pub fn query_index(&self, query_id: u128) -> (r: Option<usize>)
        ensures
            match r {
                Some(i) => is_first_query(self.queries@, i as int, query_id),
                None => !has_query(self.queries@, query_id),
            },
            (r is Some) == has_query(self.queries@, query_id),
    {
        let mut i: usize = 0;
        while i < self.queries.len()
            invariant
                i <= self.queries@.len(),
                forall|i0: int| 0 <= i0 < i ==> (#[trigger] self.queries@[i0]).id != query_id,
            decreases self.queries@.len() - i,
        {
            if self.queries[i].id == query_id {
                return Some(i);
            }
            i = i + 1;
        }
        None
    }

    /// The query with this id; `QueryNotFound` iff no query carries it.
    pub fn find_query(&self, query_id: u128) -> (r: Result<&Query, QueryHandlerStateError>)
        ensures
            (r is Ok) == has_query(self.queries@, query_id),
            match r {
                Ok(q) => exists|i: int|
                    #[trigger] is_first_query(self.queries@, i, query_id) && self.queries@[i]
                        == *q,
                Err(e) => {
                    &&& e == QueryHandlerStateError::QueryNotFound(query_id)
                    &&& !has_query(self.queries@, query_id)
                },
            },
    {
        match self.query_index(query_id) {
            Some(i) => Ok(&self.queries[i]),
            None => Err(QueryHandlerStateError::QueryNotFound(query_id)),
        }
    }

    /// Adds a query; rejected iff its id or one of its instance ids is
    /// already present. On success the query stands appended and the state
    /// stays well formed: every instance id still maps to exactly one query.
    #[verifier::rlimit(100)]
    #[verifier::loop_isolation(false)]
    pub fn add_query(&mut self, query: Query) -> (r: Result<(), QueryHandlerStateError>)
        requires
            state_wf(old(self).queries@),
        ensures
            (r matches Err(e) && e == QueryHandlerStateError::DuplicateQueryId(query.id))
                == has_query(old(self).queries@, query.id),
            !has_query(old(self).queries@, query.id) ==> ((r is Ok) == (forall|iid: u128|
                #[trigger] query_has_instance(query, iid) ==> !old(self).state_has(iid))),
            match r {
                Ok(_) => {
                    &&& final(self).queries@ == old(self).queries@.push(query)
                    &&& state_wf(final(self).queries@)
                },
                Err(e) => {
                    &&& *final(self) == *old(self)
                    &&& (e matches QueryHandlerStateError::DuplicateOperatorInstanceId(x)
                        ==> query_has_instance(query, x) && old(self).state_has(x))
                    &&& (e matches QueryHandlerStateError::DuplicateQueryId(_) || e matches
                        QueryHandlerStateError::DuplicateOperatorInstanceId(_))
                },
            },
    {
        if self.query_index(query.id).is_some() {
            return Err(QueryHandlerStateError::DuplicateQueryId(query.id));
        }
        let mut j: usize = 0;
        while j < query.operator_instances.len()
            invariant
                j <= query.operator_instances@.len(),
                forall|j0: int, k0: int|
                    0 <= j0 < j && 0 <= k0 < query.operator_instances@[j0].instances@.len()
                        ==> !self.state_has(
                        (#[trigger] query.operator_instances@[j0].instances@[k0]).id,
                    ),
            decreases query.operator_instances@.len() - j,
        {
            let g = &query.operator_instances[j];
            let mut k: usize = 0;
            while k < g.instances.len()
                invariant
                    0 <= j < query.operator_instances@.len(),
                    g == &query.operator_instances@[j as int],
                    k <= g.instances@.len(),
                    forall|k0: int|
                        0 <= k0 < k ==> !self.state_has(
                            (#[trigger] g.instances@[k0]).id,
                        ),
                decreases g.instances@.len() - k,
            {
                if self.has_instance(g.instances[k].id) {
                    proof {
                        assert(group_has_instance(
                            query.operator_instances@[j as int],
                            g.instances@[k as int].id,
                        ));
                        assert(query_has_instance(query, g.instances@[k as int].id));
                    }
                    return Err(QueryHandlerStateError::DuplicateOperatorInstanceId(
                        g.instances[k].id,
                    ));
                }
                k = k + 1;
            }
            j = j + 1;
        }
        let ghost qs0 = self.queries@;
        let ghost qv = query;
        proof {
            assert forall|iid: u128| #[trigger] query_has_instance(qv, iid) implies !old(
                self,
            ).state_has(iid) by {
                let j0 = choose|j0: int|
                    0 <= j0 < qv.operator_instances@.len() && group_has_instance(
                        #[trigger] qv.operator_instances@[j0],
                        iid,
                    );
                let k0 = choose|k0: int|
                    0 <= k0 < qv.operator_instances@[j0].instances@.len()
                        && qv.operator_instances@[j0].instances@[k0].id == iid;
            }
        }
        self.queries.push(query);
        proof {
            let qs1 = self.queries@;
            assert(qs1 == qs0.push(qv));
            assert forall|i1: int, i2: int|
                0 <= i1 < qs1.len() && 0 <= i2 < qs1.len() && #[trigger] qs1[i1].id
                    == #[trigger] qs1[i2].id implies i1 == i2 by {
                if i1 < qs0.len() && i2 < qs0.len() {
                    assert(qs0[i1].id == qs1[i1].id && qs0[i2].id == qs1[i2].id);
                } else if i1 < qs0.len() && i2 == qs0.len() {
                    assert(qs0[i1].id == qv.id);
                    assert(false);
                } else if i2 < qs0.len() && i1 == qs0.len() {
                    assert(qs0[i2].id == qv.id);
                    assert(false);
                }
            }
            assert forall|i1: int, i2: int, iid: u128|
                0 <= i1 < qs1.len() && 0 <= i2 < qs1.len() && #[trigger] query_has_instance(
                    qs1[i1],
                    iid,
                ) && #[trigger] query_has_instance(qs1[i2], iid) implies i1 == i2 by {
                if i1 < qs0.len() && i2 < qs0.len() {
                    assert(query_has_instance(qs0[i1], iid) && query_has_instance(qs0[i2], iid));
                } else if i1 < qs0.len() && i2 == qs0.len() {
                    assert(query_has_instance(qv, iid));
                    let j0 = choose|j0: int|
                        0 <= j0 < qv.operator_instances@.len() && group_has_instance(
                            #[trigger] qv.operator_instances@[j0],
                            iid,
                        );
                    let k0 = choose|k0: int|
                        0 <= k0 < qv.operator_instances@[j0].instances@.len()
                            && qv.operator_instances@[j0].instances@[k0].id == iid;
                    assert(!self.state_has_at(qs0, iid));
                    assert(false);
                } else if i2 < qs0.len() && i1 == qs0.len() {
                    assert(query_has_instance(qv, iid));
                    let j0 = choose|j0: int|
                        0 <= j0 < qv.operator_instances@.len() && group_has_instance(
                            #[trigger] qv.operator_instances@[j0],
                            iid,
                        );
                    let k0 = choose|k0: int|
                        0 <= k0 < qv.operator_instances@[j0].instances@.len()
                            && qv.operator_instances@[j0].instances@[k0].id == iid;
                    assert(!self.state_has_at(qs0, iid));
                    assert(false);
                }
            }
        }
        Ok(())
    }

    /// True iff any query of `qs` holds an instance with this id; used to
    /// phrase the duplicate check in specifications.
    pub open spec fn state_has_at(&self, qs: Seq<Query>, iid: u128) -> bool {
        exists|i: int| 0 <= i < qs.len() && query_has_instance(#[trigger] qs[i], iid)
    }

    /// True iff any query of the current state holds this instance id.
    pub open spec fn state_has(&self, iid: u128) -> bool {
        self.state_has_at(self.queries@, iid)
    }
}

} // verus!

verus! {

/// Applies a requested status to a current one under the shutdown rule.
pub fn apply_step(cur: &Status, req: Status) -> (r: Status)
    ensures
        r@ == step_status(cur@, req@),
{
    match cur {
        Status::SentShutdown(_) => match req {
            Status::Complete => req,
            Status::Error(_) => req,
            _ => clone_status(cur),
        },
        _ => req,
    }
}

/// The location of the instance with this id inside the query.
#[verifier::loop_isolation(false)]
pub fn locate_instance(q: &Query, iid: u128) -> (r: Option<(usize, usize)>)
    ensures
        match r {
            Some((j, k)) => is_first_iloc(*q, j as int, k as int, iid),
            None => !query_has_instance(*q, iid),
        },
{
    let mut j: usize = 0;
    while j < q.operator_instances.len()
        invariant
            j <= q.operator_instances@.len(),
            forall|j0: int|
                0 <= j0 < j ==> !group_has_instance(#[trigger] q.operator_instances@[j0], iid),
        decreases q.operator_instances@.len() - j,
    {
        let g = &q.operator_instances[j];
        let mut k: usize = 0;
        while k < g.instances.len()
            invariant
                0 <= j < q.operator_instances@.len(),
                g == &q.operator_instances@[j as int],
                k <= g.instances@.len(),
                forall|k0: int| 0 <= k0 < k ==> (#[trigger] g.instances@[k0]).id != iid,
            decreases g.instances@.len() - k,
        {
            if g.instances[k].id == iid {
                proof {
                    assert forall|j0: int, k0: int|
                        0 <= j0 < q.operator_instances@.len() && 0 <= k0
                            < q.operator_instances@[j0].instances@.len() && loc_earlier(
                            j0,
                            k0,
                            j as int,
                            k as int,
                        ) implies (#[trigger] q.operator_instances@[j0].instances@[k0]).id
                        != iid by {
                        if j0 < j as int {
                            assert(!group_has_instance(q.operator_instances@[j0], iid));
                        }
                    }
                }
                return Some((j, k));
            }
            k = k + 1;
        }
        j = j + 1;
    }
    None
}

impl QueryHandlerState {
    /// Sets the status of one operator instance, under the shutdown rule:
    /// an instance that was sent a shutdown accepts only a terminal status.
    #[verifier::rlimit(100)]
    pub fn update_operator_instance_status(
        &mut self,
        query_id: u128,
        op_instance_id: u128,
        status: Status,
    ) -> (r: Result<(), QueryHandlerStateError>)
        ensures
            (r matches Err(e) && e == QueryHandlerStateError::QueryNotFound(query_id)) == !has_query(
                old(self).queries@,
                query_id,
            ),
            has_query(old(self).queries@, query_id) ==> exists|qi: int|
                #[trigger] is_first_query(old(self).queries@, qi, query_id) && (query_has_instance(
                    old(self).queries@[qi],
                    op_instance_id,
                ) == (r is Ok)),
            match r {
                Ok(_) => exists|qi: int, gj: int, ki: int|
                    {
                        &&& is_first_query(old(self).queries@, qi, query_id)
                        &&& is_first_iloc(old(self).queries@[qi], gj, ki, op_instance_id)
                        &&& instance_at(old(self).queries@, qi, gj, ki).id == op_instance_id
                        &&& #[trigger] state_updates_instance(
                            old(self).queries@,
                            final(self).queries@,
                            qi,
                            gj,
                            ki,
                            step_status(
                                instance_at(old(self).queries@, qi, gj, ki).status@,
                                status@,
                            ),
                        )
                    },
                Err(e) => {
                    &&& *final(self) == *old(self)
                    &&& (e == QueryHandlerStateError::QueryNotFound(query_id) || e
                        == QueryHandlerStateError::OperatorInstanceNotFound(op_instance_id))
                },
            },
    {
        let qi = match self.query_index(query_id) {
            Some(i) => i,
            None => {
                return Err(QueryHandlerStateError::QueryNotFound(query_id));
            },
        };
        let loc = match locate_instance(&self.queries[qi], op_instance_id) {
            Some(l) => l,
            None => {
                return Err(QueryHandlerStateError::OperatorInstanceNotFound(op_instance_id));
            },
        };
        let (gj, ki) = loc;
        proof {
            assert(group_has_instance(
                self.queries@[qi as int].operator_instances@[gj as int],
                op_instance_id,
            ));
            assert(query_has_instance(self.queries@[qi as int], op_instance_id));
        }
        let ghost qs0 = self.queries@;
        let next = apply_step(&self.queries[qi].operator_instances[gj].instances[ki].status, status);
        let ghost nextv = next@;
        self.queries[qi].operator_instances[gj].instances[ki].status = next;
        proof {
            assert(state_updates_instance(
                qs0,
                self.queries@,
                qi as int,
                gj as int,
                ki as int,
                step_status(instance_at(qs0, qi as int, gj as int, ki as int).status@, status@),
            ));
        }
        Ok(())
    }

    /// Sets the status of one query; everything else is untouched.
    pub fn update_query_status(&mut self, query_id: u128, status: Status) -> (r: Result<
        (),
        QueryHandlerStateError,
    >)
        ensures
            (r is Ok) == has_query(old(self).queries@, query_id),
            match r {
                Ok(_) => exists|qi: int|
                    #[trigger] is_first_query(old(self).queries@, qi, query_id)
                        && state_updates_query_status(
                        old(self).queries@,
                        final(self).queries@,
                        qi,
                        status@,
                    ),
                Err(e) => {
                    &&& *final(self) == *old(self)
                    &&& e == QueryHandlerStateError::QueryNotFound(query_id)
                    &&& !has_query(old(self).queries@, query_id)
                },
            },
    {
        let qi = match self.query_index(query_id) {
            Some(i) => i,
            None => {
                return Err(QueryHandlerStateError::QueryNotFound(query_id));
            },
        };
        let ghost qs0 = self.queries@;
        self.queries[qi].status = status;
        proof {
            assert(state_updates_query_status(qs0, self.queries@, qi as int, status@));
        }
        Ok(())
    }
}

} // verus!

verus! {

/// The error text of the first erroring instance, if any.
pub fn any_error_of(q: &Query) -> (r: Option<Vec<u8>>)
    ensures
        (r is Some) == query_any_error(*q),
        r matches Some(e) ==> exists|j: int, k: int|
            #[trigger] is_first_error(*q, j, k) && q.operator_instances@[j].instances@[k].status@
                == StatusV::Error(e@),
{
    let mut j: usize = 0;
    while j < q.operator_instances.len()
        invariant
            j <= q.operator_instances@.len(),
            forall|j0: int, k0: int|
                0 <= j0 < j && 0 <= k0 < q.operator_instances@[j0].instances@.len() ==> !((
                #[trigger] q.operator_instances@[j0].instances@[k0]).status@ is Error),
        decreases q.operator_instances@.len() - j,
    {
        let g = &q.operator_instances[j];
        let mut k: usize = 0;
        while k < g.instances.len()
            invariant
                0 <= j < q.operator_instances@.len(),
                g == &q.operator_instances@[j as int],
                k <= g.instances@.len(),
                forall|j0: int, k0: int|
                    0 <= j0 < j && 0 <= k0 < q.operator_instances@[j0].instances@.len() ==> !((
                    #[trigger] q.operator_instances@[j0].instances@[k0]).status@ is Error),
                forall|k0: int|
                    0 <= k0 < k ==> !((#[trigger] g.instances@[k0]).status@ is Error),
            decreases g.instances@.len() - k,
    {
            match &g.instances[k].status {
                Status::Error(e) => {
                    proof {
                        assert(q.operator_instances@[j as int].instances@[k as int].status@
                            == StatusV::Error(e@));
                        assert forall|j0: int, k0: int|
                            0 <= j0 < q.operator_instances@.len() && 0 <= k0
                                < q.operator_instances@[j0].instances@.len() && loc_earlier(
                                j0,
                                k0,
                                j as int,
                                k as int,
                            ) implies !((
                        #[trigger] q.operator_instances@[j0].instances@[k0]).status@ is Error) by {
                            if j0 == j as int {
                                assert(!(g.instances@[k0].status@ is Error));
                            }
                        }
                        assert(is_first_error(*q, j as int, k as int));
                    }
                    return Some(clone_bytes(e));
                },
                _ => {},
            }
            k = k + 1;
        }
        j = j + 1;
    }
    None
}

/// True iff every instance of the query is complete.
pub fn all_complete_of(q: &Query) -> (r: bool)
    ensures
        r == query_all_complete(*q),
{
    let mut j: usize = 0;
    while j < q.operator_instances.len()
        invariant
            j <= q.operator_instances@.len(),
            forall|j0: int, k0: int|
                0 <= j0 < j && 0 <= k0 < q.operator_instances@[j0].instances@.len() ==> (
                #[trigger] q.operator_instances@[j0].instances@[k0]).status@ is Complete,
        decreases q.operator_instances@.len() - j,
    {
        let g = &q.operator_instances[j];
        let mut k: usize = 0;
        while k < g.instances.len()
            invariant
                0 <= j < q.operator_instances@.len(),
                g == &q.operator_instances@[j as int],
                k <= g.instances@.len(),
                forall|k0: int| 0 <= k0 < k ==> (#[trigger] g.instances@[k0]).status@ is Complete,
            decreases g.instances@.len() - k,
        {
            match &g.instances[k].status {
                Status::Complete => {},
                _ => {
                    return false;
                },
            }
            k = k + 1;
        }
        j = j + 1;
    }
    true
}

/// True iff some instance of the query is running.
pub fn any_running_of(q: &Query) -> (r: bool)
    ensures
        r == query_any_running(*q),
{
    let mut j: usize = 0;
    while j < q.operator_instances.len()
        invariant
            j <= q.operator_instances@.len(),
            forall|j0: int, k0: int|
                0 <= j0 < j && 0 <= k0 < q.operator_instances@[j0].instances@.len() ==> !((
                #[trigger] q.operator_instances@[j0].instances@[k0]).status@ is Running),
        decreases q.operator_instances@.len() - j,
    {
        let g = &q.operator_instances[j];
        let mut k: usize = 0;
        while k < g.instances.len()
            invariant
                0 <= j < q.operator_instances@.len(),
                g == &q.operator_instances@[j as int],
                k <= g.instances@.len(),
                forall|k0: int|
                    0 <= k0 < k ==> !((#[trigger] g.instances@[k0]).status@ is Running),
            decreases g.instances@.len() - k,
        {
            match &g.instances[k].status {
                Status::Running => {
                    return true;
                },
                _ => {},
            }
            k = k + 1;
        }
        j = j + 1;
    }
    false
}

impl QueryHandlerState {
    /// Recomputes a query's derived status from its instances and stores
    /// it: an error wins, then completion of all, then any running, else
    /// queued. Returns the stored status.
    #[verifier::rlimit(100)]
    pub fn refresh_query_status(&mut self, query_id: u128) -> (r: Result<
        Status,
        QueryHandlerStateError,
    >)
        ensures
            (r is Ok) == has_query(old(self).queries@, query_id),
            match r {
                Ok(s) => exists|qi: int|
                    {
                        &&& #[trigger] is_first_query(old(self).queries@, qi, query_id)
                        &&& state_updates_query_status(
                            old(self).queries@,
                            final(self).queries@,
                            qi,
                            s@,
                        )
                        &&& derived_status_exact(old(self).queries@[qi], s@)
                    },
                Err(e) => {
                    &&& *final(self) == *old(self)
                    &&& e == QueryHandlerStateError::QueryNotFound(query_id)
                    &&& !has_query(old(self).queries@, query_id)
                },
            },
    {
        let qi = match self.query_index(query_id) {
            Some(i) => i,
            None => {
                return Err(QueryHandlerStateError::QueryNotFound(query_id));
            },
        };
        let ghost qs0 = self.queries@;
        let status = match any_error_of(&self.queries[qi]) {
            Some(e) => {
                proof {
                    let q = old(self).queries@[qi as int];
                    let (j, k) = choose|j: int, k: int|
                        #[trigger] is_first_error(q, j, k)
                            && q.operator_instances@[j].instances@[k].status@ == StatusV::Error(
                            e@,
                        );
                    assert(derived_status_exact(q, StatusV::Error(e@)));
                }
                Status::Error(e)
            },
            None => {
                if all_complete_of(&self.queries[qi]) {
                    Status::Complete
                } else if any_running_of(&self.queries[qi]) {
                    Status::Running
                } else {
                    Status::Queued
                }
            },
        };
        let out = clone_status(&status);
        self.queries[qi].status = status;
        proof {
            assert(old(self).queries@ == qs0);
            assert(state_updates_query_status(old(self).queries@, self.queries@, qi as int, out@));
            assert(derived_status_exact(old(self).queries@[qi as int], out@));
        }
        Ok(out)
    }

    /// Claims one queued instance: `Ok(true)` iff it was queued and is now
    /// running; `Ok(false)` leaves a non-queued instance as it was.
    #[verifier::rlimit(100)]
    pub fn claim_operator_instance_if_queued(&mut self, query_id: u128, op_instance_id: u128) -> (r:
        Result<bool, QueryHandlerStateError>)
        ensures
            (r matches Err(e) && e == QueryHandlerStateError::QueryNotFound(query_id)) == !has_query(
                old(self).queries@,
                query_id,
            ),
            has_query(old(self).queries@, query_id) ==> exists|qi: int|
                #[trigger] is_first_query(old(self).queries@, qi, query_id) && (query_has_instance(
                    old(self).queries@[qi],
                    op_instance_id,
                ) == (r is Ok)),
            match r {
                Ok(claimed) => exists|qi: int, gj: int, ki: int|
                    {
                        &&& valid_loc(old(self).queries@, qi, gj, ki)
                        &&& is_first_query(old(self).queries@, qi, query_id)
                        &&& (#[trigger] instance_at(old(self).queries@, qi, gj, ki)).id
                            == op_instance_id
                        &&& claimed == (instance_at(old(self).queries@, qi, gj, ki).status@
                            is Queued)
                        &&& (claimed ==> state_updates_instance(
                            old(self).queries@,
                            final(self).queries@,
                            qi,
                            gj,
                            ki,
                            StatusV::Running,
                        ))
                        &&& (!claimed ==> *final(self) == *old(self))
                    },
                Err(e) => {
                    &&& *final(self) == *old(self)
                    &&& (e == QueryHandlerStateError::QueryNotFound(query_id) || e
                        == QueryHandlerStateError::OperatorInstanceNotFound(op_instance_id))
                },
            },
    {
        let qi = match self.query_index(query_id) {
            Some(i) => i,
            None => {
                return Err(QueryHandlerStateError::QueryNotFound(query_id));
            },
        };
        let loc = match locate_instance(&self.queries[qi], op_instance_id) {
            Some(l) => l,
            None => {
                return Err(QueryHandlerStateError::OperatorInstanceNotFound(op_instance_id));
            },
        };
        let (gj, ki) = loc;
        proof {
            assert(group_has_instance(
                self.queries@[qi as int].operator_instances@[gj as int],
                op_instance_id,
            ));
            assert(query_has_instance(self.queries@[qi as int], op_instance_id));
        }
        let ghost qs0 = self.queries@;
        let was_queued = match &self.queries[qi].operator_instances[gj].instances[ki].status {
            Status::Queued => true,
            _ => false,
        };
        if was_queued {
            self.queries[qi].operator_instances[gj].instances[ki].status = Status::Running;
            proof {
                assert(old(self).queries@ == qs0);
                assert(instance_at(old(self).queries@, qi as int, gj as int, ki as int).id
                    == op_instance_id);
                assert(state_updates_instance(
                    old(self).queries@,
                    self.queries@,
                    qi as int,
                    gj as int,
                    ki as int,
                    StatusV::Running,
                ));
            }
            Ok(true)
        } else {
            proof {
                assert(old(self).queries@ == qs0);
                assert(instance_at(old(self).queries@, qi as int, gj as int, ki as int).id
                    == op_instance_id);
            }
            Ok(false)
        }
    }
}

} // verus!

verus! {

// ---------------------------------------------------------------------------
// Laws of the state
// ---------------------------------------------------------------------------

/// Every operator instance id is mapped to exactly one query: two queries
/// of a well-formed state that both hold an id are the same query.
pub proof fn lemma_instance_in_exactly_one_query(qs: Seq<Query>, iid: u128, i1: int, i2: int)
    requires
        state_wf(qs),
        0 <= i1 < qs.len(),
        0 <= i2 < qs.len(),
        query_has_instance(qs[i1], iid),
        query_has_instance(qs[i2], iid),
    ensures
        i1 == i2,
{
}

/// The derived query status is `Complete` exactly when every instance is
/// complete, and `Error` exactly when some instance is in error.
pub proof fn lemma_derived_status(q: Query, s: StatusV)
    requires
        derived_status_exact(q, s),
    ensures
        (s is Complete) == query_all_complete(q),
        (s is Error) == query_any_error(q),
{
    if query_any_error(q) && query_all_complete(q) {
        let (j, k) = choose|j: int, k: int|
            0 <= j < q.operator_instances@.len() && 0 <= k
                < q.operator_instances@[j].instances@.len() && (
            #[trigger] q.operator_instances@[j].instances@[k]).status@ is Error;
        assert(q.operator_instances@[j].instances@[k].status@ is Complete);
        assert(false);
    }
}

/// A single instance status update keeps the state well formed: it changes
/// no id, so every instance id still maps to the same single query.
pub proof fn lemma_wf_preserved_by_instance_update(
    qs0: Seq<Query>,
    qs1: Seq<Query>,
    qi: int,
    gj: int,
    ki: int,
    s: StatusV,
)
    requires
        state_wf(qs0),
        state_updates_instance(qs0, qs1, qi, gj, ki, s),
    ensures
        state_wf(qs1),
{
    assert forall|i: int, iid: u128|
        0 <= i < qs1.len() implies #[trigger] query_has_instance(qs1[i], iid)
        == query_has_instance(qs0[i], iid) by {
        if i != qi {
            assert(qs1[i] == qs0[i]);
        } else {
            if query_has_instance(qs1[i], iid) {
                let j = choose|j: int|
                    0 <= j < qs1[i].operator_instances@.len() && group_has_instance(
                        #[trigger] qs1[i].operator_instances@[j],
                        iid,
                    );
                let k = choose|k: int|
                    0 <= k < qs1[i].operator_instances@[j].instances@.len()
                        && qs1[i].operator_instances@[j].instances@[k].id == iid;
                assert(qs0[i].operator_instances@[j].instances@[k].id == iid);
                assert(group_has_instance(qs0[i].operator_instances@[j], iid));
            }
            if query_has_instance(qs0[i], iid) {
                let j = choose|j: int|
                    0 <= j < qs0[i].operator_instances@.len() && group_has_instance(
                        #[trigger] qs0[i].operator_instances@[j],
                        iid,
                    );
                let k = choose|k: int|
                    0 <= k < qs0[i].operator_instances@[j].instances@.len()
                        && qs0[i].operator_instances@[j].instances@[k].id == iid;
                assert(qs1[i].operator_instances@[j].instances@[k].id == iid);
                assert(group_has_instance(qs1[i].operator_instances@[j], iid));
            }
        }
    }
    assert forall|i1: int, i2: int|
        0 <= i1 < qs1.len() && 0 <= i2 < qs1.len() && #[trigger] qs1[i1].id
            == #[trigger] qs1[i2].id implies i1 == i2 by {
        assert(qs0[i1].id == qs1[i1].id && qs0[i2].id == qs1[i2].id);
    }
}

/// Recording an assignment keeps the state well formed: it changes no id.
pub proof fn lemma_wf_preserved_by_assignment_update(
    qs0: Seq<Query>,
    qs1: Seq<Query>,
    qi: int,
    gj: int,
    ki: int,
    assigned: Option<u128>,
)
    requires
        state_wf(qs0),
        state_updates_assignment(qs0, qs1, qi, gj, ki, assigned),
    ensures
        state_wf(qs1),
{
    assert forall|i: int, iid: u128|
        0 <= i < qs1.len() implies #[trigger] query_has_instance(qs1[i], iid)
        == query_has_instance(qs0[i], iid) by {
        if i != qi {
            assert(qs1[i] == qs0[i]);
        } else {
            if query_has_instance(qs1[i], iid) {
                let j = choose|j: int|
                    0 <= j < qs1[i].operator_instances@.len() && group_has_instance(
                        #[trigger] qs1[i].operator_instances@[j],
                        iid,
                    );
                let k = choose|k: int|
                    0 <= k < qs1[i].operator_instances@[j].instances@.len()
                        && qs1[i].operator_instances@[j].instances@[k].id == iid;
                assert(qs0[i].operator_instances@[j].instances@[k].id == iid);
                assert(group_has_instance(qs0[i].operator_instances@[j], iid));
            }
            if query_has_instance(qs0[i], iid) {
                let j = choose|j: int|
                    0 <= j < qs0[i].operator_instances@.len() && group_has_instance(
                        #[trigger] qs0[i].operator_instances@[j],
                        iid,
                    );
                let k = choose|k: int|
                    0 <= k < qs0[i].operator_instances@[j].instances@.len()
                        && qs0[i].operator_instances@[j].instances@[k].id == iid;
                assert(qs1[i].operator_instances@[j].instances@[k].id == iid);
                assert(group_has_instance(qs1[i].operator_instances@[j], iid));
            }
        }
    }
    assert forall|i1: int, i2: int|
        0 <= i1 < qs1.len() && 0 <= i2 < qs1.len() && #[trigger] qs1[i1].id
            == #[trigger] qs1[i2].id implies i1 == i2 by {
        assert(qs0[i1].id == qs1[i1].id && qs0[i2].id == qs1[i2].id);
    }
}

/// A query status update keeps the state well formed: the instances are
/// untouched.
pub proof fn lemma_wf_preserved_by_query_status_update(
    qs0: Seq<Query>,
    qs1: Seq<Query>,
    qi: int,
    s: StatusV,
)
    requires
        state_wf(qs0),
        state_updates_query_status(qs0, qs1, qi, s),
    ensures
        state_wf(qs1),
{
    assert forall|i: int, iid: u128|
        0 <= i < qs1.len() implies #[trigger] query_has_instance(qs1[i], iid)
        == query_has_instance(qs0[i], iid) by {
        if i != qi {
            assert(qs1[i] == qs0[i]);
        } else {
            assert(qs1[i].operator_instances == qs0[i].operator_instances);
        }
    }
    assert forall|i1: int, i2: int|
        0 <= i1 < qs1.len() && 0 <= i2 < qs1.len() && #[trigger] qs1[i1].id
            == #[trigger] qs1[i2].id implies i1 == i2 by {
        assert(qs0[i1].id == qs1[i1].id && qs0[i2].id == qs1[i2].id);
    }
}

} // verus!

verus! {

/// True iff some producer group of the query names this exchange and still
/// has an instance that is queued or running.
pub open spec fn exchange_has_live_producers(q: Query, exid: Seq<u8>) -> bool {
    exists|j: int, k: int|
        {
            &&& 0 <= j < q.operator_instances@.len()
            &&& 0 <= k < q.operator_instances@[j].instances@.len()
            &&& (#[trigger] q.operator_instances@[j]).operator.operator_type@ matches
                crate::plan::OperatorTypeV::Producer { outbound_exchange_id } && outbound_exchange_id == exid
            &&& (#[trigger] q.operator_instances@[j].instances@[k]).status@.is_available()
        }
}

/// True iff a group of the query is an exchange with this id.
pub open spec fn query_has_exchange(q: Query, exid: Seq<u8>) -> bool {
    exists|j: int|
        {
            &&& 0 <= j < q.operator_instances@.len()
            &&& (#[trigger] q.operator_instances@[j]).operator.operator_type@
                is Exchange
            &&& q.operator_instances@[j].operator.id@ == exid
        }
}

/// True iff the query has a queued instance carrying this id.
pub open spec fn is_queued_id(q: Query, id: u128) -> bool {
    exists|j: int, k: int|
        {
            &&& 0 <= j < q.operator_instances@.len()
            &&& 0 <= k < q.operator_instances@[j].instances@.len()
            &&& (#[trigger] q.operator_instances@[j].instances@[k]).id == id
            &&& q.operator_instances@[j].instances@[k].status@ is Queued
        }
}

/// True iff some producer group of the query names this exchange and still
/// has a live instance; executable form.
#[verifier::loop_isolation(false)]
pub fn exchange_has_live_producers_exec(q: &Query, exid: &Vec<u8>) -> (r: bool)
    ensures
        r == exchange_has_live_producers(*q, exid@),
{
    let mut j: usize = 0;
    while j < q.operator_instances.len()
        invariant
            j <= q.operator_instances@.len(),
            forall|j0: int, k0: int|
                0 <= j0 < j && 0 <= k0 < q.operator_instances@[j0].instances@.len() ==> !({
                    &&& (#[trigger] q.operator_instances@[j0]).operator.operator_type@ matches
                        crate::plan::OperatorTypeV::Producer { outbound_exchange_id } && outbound_exchange_id == exid@
                    &&& (#[trigger] q.operator_instances@[j0].instances@[k0]).status@.is_available()
                }),
        decreases q.operator_instances@.len() - j,
    {
        let g = &q.operator_instances[j];
        let feeds = match &g.operator.operator_type {
            OperatorType::Producer { outbound_exchange_id } => bytes_eq(outbound_exchange_id, exid),
            OperatorType::Exchange => false,
        };
        if feeds {
            let mut k: usize = 0;
            while k < g.instances.len()
                invariant
                    0 <= j < q.operator_instances@.len(),
                    g == &q.operator_instances@[j as int],
                    k <= g.instances@.len(),
                    forall|k0: int|
                        0 <= k0 < k ==> !(#[trigger] g.instances@[k0]).status@.is_available(),
                decreases g.instances@.len() - k,
            {
                if g.instances[k].status.available() {
                    proof {
                        let j0 = j as int;
                        let k0 = k as int;
                        assert((#[trigger] q.operator_instances@[j0]).operator.operator_type@ matches
                            crate::plan::OperatorTypeV::Producer { outbound_exchange_id } && outbound_exchange_id == exid@);
                        assert((q.operator_instances@[j0].instances@[k0]).status@.is_available());
                    }
                    return true;
                }
                k = k + 1;
            }
        }
        j = j + 1;
    }
    false
}

impl QueryHandlerState {
    /// A copy of the instance with this id: found iff the query and the
    /// instance exist.
    pub fn get_operator_instance(&self, query_id: u128, op_instance_id: u128) -> (r: Result<
        OperatorInstance,
        QueryHandlerStateError,
    >)
        ensures
            (r matches Err(e) && e == QueryHandlerStateError::QueryNotFound(query_id)) == !has_query(
                self.queries@,
                query_id,
            ),
            has_query(self.queries@, query_id) ==> exists|qi: int|
                #[trigger] is_first_query(self.queries@, qi, query_id) && (query_has_instance(
                    self.queries@[qi],
                    op_instance_id,
                ) == (r is Ok)),
            match r {
                Ok(inst) => exists|qi: int, gj: int, ki: int|
                    {
                        &&& valid_loc(self.queries@, qi, gj, ki)
                        &&& is_first_query(self.queries@, qi, query_id)
                        &&& (#[trigger] instance_at(self.queries@, qi, gj, ki)).id
                            == op_instance_id
                        &&& inst.id == op_instance_id
                        &&& inst.status@ == instance_at(self.queries@, qi, gj, ki).status@
                    },
                Err(e) => (e == QueryHandlerStateError::QueryNotFound(query_id) || e
                    == QueryHandlerStateError::OperatorInstanceNotFound(op_instance_id)),
            },
    {
        let qi = match self.query_index(query_id) {
            Some(i) => i,
            None => {
                return Err(QueryHandlerStateError::QueryNotFound(query_id));
            },
        };
        let loc = match locate_instance(&self.queries[qi], op_instance_id) {
            Some(l) => l,
            None => {
                return Err(QueryHandlerStateError::OperatorInstanceNotFound(op_instance_id));
            },
        };
        let (gj, ki) = loc;
        proof {
            assert(instance_at(self.queries@, qi as int, gj as int, ki as int).id
                == op_instance_id);
            assert(group_has_instance(
                self.queries@[qi as int].operator_instances@[gj as int],
                op_instance_id,
            ));
            assert(query_has_instance(self.queries@[qi as int], op_instance_id));
        }
        let inst = &self.queries[qi].operator_instances[gj].instances[ki];
        Ok(OperatorInstance {
            id: inst.id,
            status: clone_status(&inst.status),
            assigned_worker_id: inst.assigned_worker_id,
        })
    }

    /// The declared compute of the operator whose group holds this
    /// instance.
    pub fn get_operator_instance_compute(&self, query_id: u128, op_instance_id: u128) -> (r:
        Result<OperatorCompute, QueryHandlerStateError>)
        ensures
            (r matches Err(e) && e == QueryHandlerStateError::QueryNotFound(query_id)) == !has_query(
                self.queries@,
                query_id,
            ),
            has_query(self.queries@, query_id) ==> exists|qi: int|
                #[trigger] is_first_query(self.queries@, qi, query_id) && (query_has_instance(
                    self.queries@[qi],
                    op_instance_id,
                ) == (r is Ok)),
            match r {
                Ok(c) => exists|qi: int, gj: int, ki: int|
                    {
                        &&& valid_loc(self.queries@, qi, gj, ki)
                        &&& is_first_query(self.queries@, qi, query_id)
                        &&& (#[trigger] instance_at(self.queries@, qi, gj, ki)).id
                            == op_instance_id
                        &&& c == self.queries@[qi].operator_instances@[gj].operator.compute
                    },
                Err(e) => (e == QueryHandlerStateError::QueryNotFound(query_id) || e
                    == QueryHandlerStateError::OperatorInstanceNotFound(op_instance_id)),
            },
    {
        let qi = match self.query_index(query_id) {
            Some(i) => i,
            None => {
                return Err(QueryHandlerStateError::QueryNotFound(query_id));
            },
        };
        let loc = match locate_instance(&self.queries[qi], op_instance_id) {
            Some(l) => l,
            None => {
                return Err(QueryHandlerStateError::OperatorInstanceNotFound(op_instance_id));
            },
        };
        let (gj, ki) = loc;
        proof {
            assert(instance_at(self.queries@, qi as int, gj as int, ki as int).id
                == op_instance_id);
            assert(group_has_instance(
                self.queries@[qi as int].operator_instances@[gj as int],
                op_instance_id,
            ));
            assert(query_has_instance(self.queries@[qi as int], op_instance_id));
        }
        Ok(self.queries[qi].operator_instances[gj].operator.compute)
    }

    /// A copy of the operator whose group holds this instance.
    pub fn get_operator_instance_operator(&self, query_id: u128, op_instance_id: u128) -> (r:
        Result<Operator, QueryHandlerStateError>)
        ensures
            (r matches Err(e) && e == QueryHandlerStateError::QueryNotFound(query_id)) == !has_query(
                self.queries@,
                query_id,
            ),
            has_query(self.queries@, query_id) ==> exists|qi: int|
                #[trigger] is_first_query(self.queries@, qi, query_id) && (query_has_instance(
                    self.queries@[qi],
                    op_instance_id,
                ) == (r is Ok)),
            match r {
                Ok(op) => exists|qi: int, gj: int, ki: int|
                    {
                        &&& valid_loc(self.queries@, qi, gj, ki)
                        &&& is_first_query(self.queries@, qi, query_id)
                        &&& (#[trigger] instance_at(self.queries@, qi, gj, ki)).id
                            == op_instance_id
                        &&& op@ == self.queries@[qi].operator_instances@[gj].operator@
                    },
                Err(e) => (e == QueryHandlerStateError::QueryNotFound(query_id) || e
                    == QueryHandlerStateError::OperatorInstanceNotFound(op_instance_id)),
            },
    {
        let qi = match self.query_index(query_id) {
            Some(i) => i,
            None => {
                return Err(QueryHandlerStateError::QueryNotFound(query_id));
            },
        };
        let loc = match locate_instance(&self.queries[qi], op_instance_id) {
            Some(l) => l,
            None => {
                return Err(QueryHandlerStateError::OperatorInstanceNotFound(op_instance_id));
            },
        };
        let (gj, ki) = loc;
        proof {
            assert(instance_at(self.queries@, qi as int, gj as int, ki as int).id
                == op_instance_id);
            assert(group_has_instance(
                self.queries@[qi as int].operator_instances@[gj as int],
                op_instance_id,
            ));
            assert(query_has_instance(self.queries@[qi as int], op_instance_id));
        }
        Ok(clone_operator(&self.queries[qi].operator_instances[gj].operator))
    }

    /// True iff the group of this instance is a producer.
    pub fn operator_instance_is_producer(&self, query_id: u128, op_instance_id: u128) -> (r:
        Result<bool, QueryHandlerStateError>)
        ensures
            (r matches Err(e) && e == QueryHandlerStateError::QueryNotFound(query_id)) == !has_query(
                self.queries@,
                query_id,
            ),
            has_query(self.queries@, query_id) ==> exists|qi: int|
                #[trigger] is_first_query(self.queries@, qi, query_id) && (query_has_instance(
                    self.queries@[qi],
                    op_instance_id,
                ) == (r is Ok)),
            match r {
                Ok(b) => exists|qi: int, gj: int, ki: int|
                    {
                        &&& valid_loc(self.queries@, qi, gj, ki)
                        &&& is_first_query(self.queries@, qi, query_id)
                        &&& (#[trigger] instance_at(self.queries@, qi, gj, ki)).id
                            == op_instance_id
                        &&& b == (self.queries@[qi].operator_instances@[gj].operator.operator_type@
                            is Producer)
                    },
                Err(e) => (e == QueryHandlerStateError::QueryNotFound(query_id) || e
                    == QueryHandlerStateError::OperatorInstanceNotFound(op_instance_id)),
            },
    {
        let qi = match self.query_index(query_id) {
            Some(i) => i,
            None => {
                return Err(QueryHandlerStateError::QueryNotFound(query_id));
            },
        };
        let loc = match locate_instance(&self.queries[qi], op_instance_id) {
            Some(l) => l,
            None => {
                return Err(QueryHandlerStateError::OperatorInstanceNotFound(op_instance_id));
            },
        };
        let (gj, ki) = loc;
        proof {
            assert(instance_at(self.queries@, qi as int, gj as int, ki as int).id
                == op_instance_id);
            assert(group_has_instance(
                self.queries@[qi as int].operator_instances@[gj as int],
                op_instance_id,
            ));
            assert(query_has_instance(self.queries@[qi as int], op_instance_id));
        }
        match &self.queries[qi].operator_instances[gj].operator.operator_type {
            OperatorType::Producer { .. } => Ok(true),
            OperatorType::Exchange => Ok(false),
        }
    }

    /// True iff every sibling instance of this instance's group is
    /// complete.
    pub fn all_operator_instances_complete(&self, query_id: u128, op_instance_id: u128) -> (r:
        Result<bool, QueryHandlerStateError>)
        ensures
            (r matches Err(e) && e == QueryHandlerStateError::QueryNotFound(query_id)) == !has_query(
                self.queries@,
                query_id,
            ),
            has_query(self.queries@, query_id) ==> exists|qi: int|
                #[trigger] is_first_query(self.queries@, qi, query_id) && (query_has_instance(
                    self.queries@[qi],
                    op_instance_id,
                ) == (r is Ok)),
            match r {
                Ok(b) => exists|qi: int, gj: int, ki: int|
                    {
                        &&& valid_loc(self.queries@, qi, gj, ki)
                        &&& is_first_query(self.queries@, qi, query_id)
                        &&& (#[trigger] instance_at(self.queries@, qi, gj, ki)).id
                            == op_instance_id
                        &&& b == (forall|k: int|
                            0 <= k < self.queries@[qi].operator_instances@[gj].instances@.len()
                                ==> (
                            #[trigger] self.queries@[qi].operator_instances@[gj].instances@[k]).status@
                                is Complete)
                    },
                Err(e) => (e == QueryHandlerStateError::QueryNotFound(query_id) || e
                    == QueryHandlerStateError::OperatorInstanceNotFound(op_instance_id)),
            },
    {
        let qi = match self.query_index(query_id) {
            Some(i) => i,
            None => {
                return Err(QueryHandlerStateError::QueryNotFound(query_id));
            },
        };
        let loc = match locate_instance(&self.queries[qi], op_instance_id) {
            Some(l) => l,
            None => {
                return Err(QueryHandlerStateError::OperatorInstanceNotFound(op_instance_id));
            },
        };
        let (gj, ki) = loc;
        proof {
            assert(instance_at(self.queries@, qi as int, gj as int, ki as int).id
                == op_instance_id);
            assert(group_has_instance(
                self.queries@[qi as int].operator_instances@[gj as int],
                op_instance_id,
            ));
            assert(query_has_instance(self.queries@[qi as int], op_instance_id));
        }
        let g = &self.queries[qi].operator_instances[gj];
        let mut k: usize = 0;
        let mut all_complete = true;
        while k < g.instances.len()
            invariant
                k <= g.instances@.len(),
                g == &self.queries@[qi as int].operator_instances@[gj as int],
                all_complete == (forall|k0: int|
                    0 <= k0 < k ==> (#[trigger] g.instances@[k0]).status@ is Complete),
            decreases g.instances@.len() - k,
        {
            let is_c = match &g.instances[k].status {
                Status::Complete => true,
                _ => false,
            };
            all_complete = all_complete && is_c;
            k = k + 1;
        }
        Ok(all_complete)
    }

    /// The outbound exchange id of the producer group holding this
    /// instance.
    pub fn get_outbound_exchange_id(&self, query_id: u128, op_instance_id: u128) -> (r: Result<
        Vec<u8>,
        QueryHandlerStateError,
    >)
        ensures
            (r matches Err(e) && e == QueryHandlerStateError::QueryNotFound(query_id)) == !has_query(
                self.queries@,
                query_id,
            ),
            has_query(self.queries@, query_id) ==> exists|qi: int|
                #[trigger] is_first_query(self.queries@, qi, query_id) && (query_has_instance(
                    self.queries@[qi],
                    op_instance_id,
                ) == (r is Ok || r == Err::<Vec<u8>, QueryHandlerStateError>(QueryHandlerStateError::OperatorInstanceNotAProducer(op_instance_id)))),
            match r {
                Ok(exid) => exists|qi: int, gj: int, ki: int|
                    {
                        &&& valid_loc(self.queries@, qi, gj, ki)
                        &&& is_first_query(self.queries@, qi, query_id)
                        &&& (#[trigger] instance_at(self.queries@, qi, gj, ki)).id
                            == op_instance_id
                        &&& self.queries@[qi].operator_instances@[gj].operator.operator_type@
                            == crate::plan::OperatorTypeV::Producer { outbound_exchange_id: exid@ }
                    },
                Err(e) => (e == QueryHandlerStateError::QueryNotFound(query_id) || e
                    == QueryHandlerStateError::OperatorInstanceNotFound(op_instance_id) || e
                    == QueryHandlerStateError::OperatorInstanceNotAProducer(op_instance_id)),
            },
            r == Err::<Vec<u8>, QueryHandlerStateError>(
                QueryHandlerStateError::OperatorInstanceNotAProducer(op_instance_id),
            ) ==> exists|qi: int, gj: int, ki: int|
                {
                    &&& valid_loc(self.queries@, qi, gj, ki)
                    &&& is_first_query(self.queries@, qi, query_id)
                    &&& (#[trigger] instance_at(self.queries@, qi, gj, ki)).id == op_instance_id
                    &&& self.queries@[qi].operator_instances@[gj].operator.operator_type@
                        is Exchange
                },
    {
        let qi = match self.query_index(query_id) {
            Some(i) => i,
            None => {
                return Err(QueryHandlerStateError::QueryNotFound(query_id));
            },
        };
        let loc = match locate_instance(&self.queries[qi], op_instance_id) {
            Some(l) => l,
            None => {
                return Err(QueryHandlerStateError::OperatorInstanceNotFound(op_instance_id));
            },
        };
        let (gj, ki) = loc;
        proof {
            assert(instance_at(self.queries@, qi as int, gj as int, ki as int).id
                == op_instance_id);
            assert(group_has_instance(
                self.queries@[qi as int].operator_instances@[gj as int],
                op_instance_id,
            ));
            assert(query_has_instance(self.queries@[qi as int], op_instance_id));
        }
        match &self.queries[qi].operator_instances[gj].operator.operator_type {
            OperatorType::Producer { outbound_exchange_id } => Ok(clone_bytes(outbound_exchange_id)),
            OperatorType::Exchange => Err(QueryHandlerStateError::OperatorInstanceNotAProducer(
                op_instance_id,
            )),
        }
    }
}

} // verus!

verus! {

/// The ids of the queued instances of a list, in order.
pub open spec fn queued_ids_insts(insts: Seq<OperatorInstance>) -> Seq<u128>
    decreases insts.len(),
{
    if insts.len() == 0 {
        Seq::empty()
    } else {
        (if insts[0].status@ is Queued {
            seq![insts[0].id]
        } else {
            Seq::empty()
        }) + queued_ids_insts(insts.skip(1))
    }
}

/// The ids of the queued instances of the groups, in catalog order.
pub open spec fn queued_ids_groups(gs: Seq<OperatorInstanceGroup>) -> Seq<u128>
    decreases gs.len(),
{
    if gs.len() == 0 {
        Seq::empty()
    } else {
        queued_ids_insts(gs[0].instances@) + queued_ids_groups(gs.skip(1))
    }
}

proof fn lemma_queued_ids_insts_push(insts: Seq<OperatorInstance>, x: OperatorInstance)
    ensures
        queued_ids_insts(insts.push(x)) == queued_ids_insts(insts) + (if x.status@ is Queued {
            seq![x.id]
        } else {
            Seq::empty()
        }),
    decreases insts.len(),
{
    let tail = if x.status@ is Queued {
        seq![x.id]
    } else {
        Seq::<u128>::empty()
    };
    if insts.len() == 0 {
        assert(insts.push(x)[0] == x);
        assert(insts.push(x).skip(1) =~= Seq::<OperatorInstance>::empty());
        assert(queued_ids_insts(Seq::<OperatorInstance>::empty()) == Seq::<u128>::empty());
        assert(queued_ids_insts(insts.push(x)) == tail + Seq::<u128>::empty());
        assert(tail + Seq::<u128>::empty() =~= Seq::<u128>::empty() + tail);
    } else {
        let h = if insts[0].status@ is Queued {
            seq![insts[0].id]
        } else {
            Seq::<u128>::empty()
        };
        assert(insts.push(x)[0] == insts[0]);
        assert(insts.push(x).skip(1) =~= insts.skip(1).push(x));
        lemma_queued_ids_insts_push(insts.skip(1), x);
        assert(queued_ids_insts(insts.push(x)) == h + (queued_ids_insts(insts.skip(1)) + tail));
        assert(h + (queued_ids_insts(insts.skip(1)) + tail) =~= (h + queued_ids_insts(
            insts.skip(1),
        )) + tail);
        assert(queued_ids_insts(insts) == h + queued_ids_insts(insts.skip(1)));
    }
}

proof fn lemma_queued_ids_groups_push(gs: Seq<OperatorInstanceGroup>, g: OperatorInstanceGroup)
    ensures
        queued_ids_groups(gs.push(g)) == queued_ids_groups(gs) + queued_ids_insts(g.instances@),
    decreases gs.len(),
{
    if gs.len() == 0 {
        assert(gs.push(g)[0] == g);
        assert(gs.push(g).skip(1) =~= Seq::<OperatorInstanceGroup>::empty());
        assert(queued_ids_groups(Seq::<OperatorInstanceGroup>::empty()) == Seq::<u128>::empty());
        assert(queued_ids_groups(gs.push(g)) == queued_ids_insts(g.instances@)
            + Seq::<u128>::empty());
        assert(queued_ids_insts(g.instances@) + Seq::<u128>::empty() =~= Seq::<u128>::empty()
            + queued_ids_insts(g.instances@));
    } else {
        let h = queued_ids_insts(gs[0].instances@);
        let tail = queued_ids_insts(g.instances@);
        assert(gs.push(g)[0] == gs[0]);
        assert(gs.push(g).skip(1) =~= gs.skip(1).push(g));
        lemma_queued_ids_groups_push(gs.skip(1), g);
        assert(queued_ids_groups(gs.push(g)) == h + (queued_ids_groups(gs.skip(1)) + tail));
        assert(h + (queued_ids_groups(gs.skip(1)) + tail) =~= (h + queued_ids_groups(
            gs.skip(1),
        )) + tail);
        assert(queued_ids_groups(gs) == h + queued_ids_groups(gs.skip(1)));
    }
}

/// What the claim pass hands back for each claimed instance.
#[derive(Debug, Clone, PartialEq, Eq)]
pub struct ClaimedInstance {
    pub query_id: u128,
    pub op_instance_id: u128,
    pub pipeline_id: Vec<u8>,
    pub operator: Operator,
}

/// The memory the claims ask for, summed.
pub open spec fn claims_memory(cs: Seq<ClaimedInstance>) -> int
    decreases cs.len(),
{
    if cs.len() == 0 {
        0
    } else {
        claims_memory(cs.drop_last()) + cs.last().operator.compute.memory_in_mib
    }
}

/// The CPU the claims ask for, summed.
pub open spec fn claims_cpu(cs: Seq<ClaimedInstance>) -> int
    decreases cs.len(),
{
    if cs.len() == 0 {
        0
    } else {
        claims_cpu(cs.drop_last()) + cs.last().operator.compute.cpu_in_thousandths
    }
}

/// The states have the same queries, groups and instance ids; only
/// statuses of instances may differ, and only from `Queued` to `Running`.
pub open spec fn state_claims_only(qs0: Seq<Query>, qs1: Seq<Query>) -> bool {
    &&& qs1.len() == qs0.len()
    &&& forall|i: int|
        0 <= i < qs0.len() ==> {
            &&& (#[trigger] qs1[i]).id == qs0[i].id
            &&& qs1[i].query == qs0[i].query
            &&& qs1[i].physical_plan == qs0[i].physical_plan
            &&& qs1[i].status == qs0[i].status
            &&& qs1[i].operator_instances@.len() == qs0[i].operator_instances@.len()
        }
    &&& forall|i: int, j: int|
        0 <= i < qs0.len() && 0 <= j < qs0[i].operator_instances@.len() ==> {
            &&& (#[trigger] qs1[i].operator_instances@[j]).pipeline_id
                == qs0[i].operator_instances@[j].pipeline_id
            &&& qs1[i].operator_instances@[j].operator == qs0[i].operator_instances@[j].operator
            &&& qs1[i].operator_instances@[j].instances@.len()
                == qs0[i].operator_instances@[j].instances@.len()
        }
    &&& forall|i: int, j: int, k: int|
        valid_loc(qs0, i, j, k) ==> {
            &&& (#[trigger] instance_at(qs1, i, j, k)).id == instance_at(qs0, i, j, k).id
            &&& instance_at(qs1, i, j, k).assigned_worker_id == instance_at(
                qs0,
                i,
                j,
                k,
            ).assigned_worker_id
            &&& (instance_at(qs1, i, j, k).status@ == instance_at(qs0, i, j, k).status@
                || (instance_at(qs0, i, j, k).status@ is Queued && instance_at(
                qs1,
                i,
                j,
                k,
            ).status@ is Running))
        }
}

/// States related by claims have the same instance-id map, so
/// well-formedness carries over.
pub proof fn lemma_wf_preserved_by_claims(qs0: Seq<Query>, qs1: Seq<Query>)
    requires
        state_wf(qs0),
        state_claims_only(qs0, qs1),
    ensures
        state_wf(qs1),
{
    assert forall|i: int, iid: u128|
        0 <= i < qs1.len() implies #[trigger] query_has_instance(qs1[i], iid)
        == query_has_instance(qs0[i], iid) by {
        if query_has_instance(qs1[i], iid) {
            let j = choose|j: int|
                0 <= j < qs1[i].operator_instances@.len() && group_has_instance(
                    #[trigger] qs1[i].operator_instances@[j],
                    iid,
                );
            let k = choose|k: int|
                0 <= k < qs1[i].operator_instances@[j].instances@.len()
                    && qs1[i].operator_instances@[j].instances@[k].id == iid;
            assert(valid_loc(qs0, i, j, k));
            assert(instance_at(qs1, i, j, k).id == iid);
            assert(instance_at(qs0, i, j, k).id == iid);
            assert(qs0[i].operator_instances@[j].instances@[k].id == iid);
            assert(group_has_instance(qs0[i].operator_instances@[j], iid));
        }
        if query_has_instance(qs0[i], iid) {
            let j = choose|j: int|
                0 <= j < qs0[i].operator_instances@.len() && group_has_instance(
                    #[trigger] qs0[i].operator_instances@[j],
                    iid,
                );
            let k = choose|k: int|
                0 <= k < qs0[i].operator_instances@[j].instances@.len()
                    && qs0[i].operator_instances@[j].instances@[k].id == iid;
            assert(valid_loc(qs0, i, j, k));
            assert(instance_at(qs0, i, j, k).id == iid);
            assert(instance_at(qs1, i, j, k).id == iid);
            assert(qs1[i].operator_instances@[j].instances@[k].id == iid);
            assert(group_has_instance(qs1[i].operator_instances@[j], iid));
        }
    }
    assert forall|i1: int, i2: int|
        0 <= i1 < qs1.len() && 0 <= i2 < qs1.len() && #[trigger] qs1[i1].id
            == #[trigger] qs1[i2].id implies i1 == i2 by {
        assert(qs0[i1].id == qs1[i1].id && qs0[i2].id == qs1[i2].id);
    }
}

impl QueryHandlerState {
    /// The ids of the queued instances of a query, in catalog order:
    /// exactly the sequence of queued-instance ids, groups first to last,
    /// instances in group order.
    #[verifier::loop_isolation(false)]
    #[verifier::rlimit(100)]
    pub fn get_available_operator_instance_ids(&self, query_id: u128) -> (r: Result<
        Vec<u128>,
        QueryHandlerStateError,
    >)
        ensures
            (r is Ok) == has_query(self.queries@, query_id),
            match r {
                Ok(v) => exists|qi: int|
                    #[trigger] is_first_query(self.queries@, qi, query_id) && v@
                        == queued_ids_groups(self.queries@[qi].operator_instances@),
                Err(e) => {
                    &&& e == QueryHandlerStateError::QueryNotFound(query_id)
                    &&& !has_query(self.queries@, query_id)
                },
            },
    {
        let qi = match self.query_index(query_id) {
            Some(i) => i,
            None => {
                return Err(QueryHandlerStateError::QueryNotFound(query_id));
            },
        };
        let q = &self.queries[qi];
        let ghost gs = q.operator_instances@;
        let mut out: Vec<u128> = Vec::new();
        let mut j: usize = 0;
        proof {
            assert(gs.take(0) =~= Seq::<OperatorInstanceGroup>::empty());
        }
        while j < q.operator_instances.len()
            invariant
                j <= gs.len(),
                out@ == queued_ids_groups(gs.take(j as int)),
            decreases gs.len() - j,
        {
            let g = &q.operator_instances[j];
            let ghost base = out@;
            let mut k: usize = 0;
            proof {
                assert(g.instances@.take(0) =~= Seq::<OperatorInstance>::empty());
                assert(out@ =~= base + queued_ids_insts(g.instances@.take(0)));
            }
            while k < g.instances.len()
                invariant
                    0 <= j < gs.len(),
                    g == &q.operator_instances@[j as int],
                    k <= g.instances@.len(),
                    base == queued_ids_groups(gs.take(j as int)),
                    out@ == base + queued_ids_insts(g.instances@.take(k as int)),
                decreases g.instances@.len() - k,
            {
                let is_queued = match &g.instances[k].status {
                    Status::Queued => true,
                    _ => false,
                };
                proof {
                    lemma_queued_ids_insts_push(
                        g.instances@.take(k as int),
                        g.instances@[k as int],
                    );
                    assert(g.instances@.take(k + 1 as int) =~= g.instances@.take(
                        k as int,
                    ).push(g.instances@[k as int]));
                }
                if is_queued {
                    let ghost out0 = out@;
                    out.push(g.instances[k].id);
                    proof {
                        assert(out@ == out0.push(g.instances@[k as int].id));
                        assert(base + (queued_ids_insts(g.instances@.take(k as int)) + seq![
                        g.instances@[k as int].id]) =~= (base + queued_ids_insts(
                            g.instances@.take(k as int),
                        )).push(g.instances@[k as int].id));
                    }
                } else {
                    proof {
                        assert(queued_ids_insts(g.instances@.take(k + 1 as int))
                            =~= queued_ids_insts(g.instances@.take(k as int)));
                    }
                }
                k = k + 1;
            }
            proof {
                assert(g.instances@.take(g.instances@.len() as int) =~= g.instances@);
                lemma_queued_ids_groups_push(gs.take(j as int), gs[j as int]);
                assert(gs.take(j + 1 as int) =~= gs.take(j as int).push(gs[j as int]));
            }
            j = j + 1;
        }
        proof {
            assert(gs.take(gs.len() as int) =~= gs);
        }
        Ok(out)
    }

    /// True iff the query has a group whose operator carries this id.
    pub open spec fn query_has_group(&self, q: Query, operator_id: Seq<u8>) -> bool {
        exists|j: int|
            0 <= j < q.operator_instances@.len() && (#[trigger] q.operator_instances@[j]).operator.id@
                == operator_id
    }

    /// Copies of the instances of the group whose operator carries this id.
    #[verifier::loop_isolation(false)]
    pub fn get_operator_instances(&self, query_id: u128, operator_id: &Vec<u8>) -> (r: Result<
        Vec<OperatorInstance>,
        QueryHandlerStateError,
    >)
        ensures
            (r matches Err(e) && e == QueryHandlerStateError::QueryNotFound(query_id)) == !has_query(
                self.queries@,
                query_id,
            ),
            has_query(self.queries@, query_id) ==> exists|qi: int|
                #[trigger] is_first_query(self.queries@, qi, query_id) && (self.query_has_group(
                    self.queries@[qi],
                    operator_id@,
                ) == (r is Ok)),
            match r {
                Ok(v) => exists|qi: int, gj: int|
                    {
                        &&& 0 <= qi < self.queries@.len()
                        &&& 0 <= gj < self.queries@[qi].operator_instances@.len()
                        &&& is_first_query(self.queries@, qi, query_id)
                        &&& (#[trigger] self.queries@[qi].operator_instances@[gj]).operator.id@
                            == operator_id@
                        &&& v@.len() == self.queries@[qi].operator_instances@[gj].instances@.len()
                        &&& forall|k: int|
                            0 <= k < v@.len() ==> (#[trigger] v@[k]).id
                                == self.queries@[qi].operator_instances@[gj].instances@[k].id
                                && v@[k].status@
                                == self.queries@[qi].operator_instances@[gj].instances@[k].status@
                    },
                Err(e) => (e == QueryHandlerStateError::QueryNotFound(query_id) || e matches
                    QueryHandlerStateError::OperatorInstanceGroupNotFound(_, _)),
            },
    {
        let qi = match self.query_index(query_id) {
            Some(i) => i,
            None => {
                return Err(QueryHandlerStateError::QueryNotFound(query_id));
            },
        };
        let q = &self.queries[qi];
        let mut j: usize = 0;
        while j < q.operator_instances.len()
            invariant
                j <= q.operator_instances@.len(),
                q == &self.queries@[qi as int],
                0 <= qi < self.queries@.len(),
                forall|j0: int|
                    0 <= j0 < j ==> (#[trigger] q.operator_instances@[j0]).operator.id@
                        != operator_id@,
            decreases q.operator_instances@.len() - j,
        {
            if bytes_eq(&q.operator_instances[j].operator.id, operator_id) {
                let g = &q.operator_instances[j];
                let mut out: Vec<OperatorInstance> = Vec::new();
                let mut k: usize = 0;
                while k < g.instances.len()
                    invariant
                        0 <= j < q.operator_instances@.len(),
                        g == &q.operator_instances@[j as int],
                        q == &self.queries@[qi as int],
                        0 <= qi < self.queries@.len(),
                        k <= g.instances@.len(),
                        out@.len() == k,
                        forall|k0: int|
                            0 <= k0 < k ==> (#[trigger] out@[k0]).id == g.instances@[k0].id
                                && out@[k0].status@ == g.instances@[k0].status@,
                    decreases g.instances@.len() - k,
                {
                    let inst = &g.instances[k];
                    out.push(OperatorInstance {
                        id: inst.id,
                        status: clone_status(&inst.status),
                        assigned_worker_id: inst.assigned_worker_id,
                    });
                    k = k + 1;
                }
                proof {
                    assert((self.queries@[qi as int].operator_instances@[j as int]).operator.id@
                        == operator_id@);
                    assert(self.queries@[qi as int].id == query_id);
                }
                return Ok(out);
            }
            j = j + 1;
        }
        Err(QueryHandlerStateError::OperatorInstanceGroupNotFound(query_id, 0))
    }

    /// The ids of the exchanges of a query that no longer have any live
    /// producer: every returned id is such an exchange, and every such
    /// exchange's id is returned.
    #[verifier::loop_isolation(false)]
    #[verifier::rlimit(100)]
    pub fn get_exchange_ids_without_any_consumers(&self, query_id: u128) -> (r: Result<
        Vec<Vec<u8>>,
        QueryHandlerStateError,
    >)
        ensures
            match r {
                Ok(v) => exists|qi: int|
                    {
                        &&& 0 <= qi < self.queries@.len()
                        &&& (#[trigger] self.queries@[qi]).id == query_id
                        &&& forall|t: int|
                            0 <= t < v@.len() ==> query_has_exchange(
                                self.queries@[qi],
                                (#[trigger] v@[t])@,
                            ) && !exchange_has_live_producers(self.queries@[qi], v@[t]@)
                        &&& forall|j: int|
                            0 <= j < self.queries@[qi].operator_instances@.len() && (
                            #[trigger] self.queries@[qi].operator_instances@[j]).operator.operator_type@
                                is Exchange && !exchange_has_live_producers(
                                self.queries@[qi],
                                self.queries@[qi].operator_instances@[j].operator.id@,
                            ) ==> exists|t: int|
                                0 <= t < v@.len() && (#[trigger] v@[t])@
                                    == self.queries@[qi].operator_instances@[j].operator.id@
                    },
                Err(e) => {
                    &&& e == QueryHandlerStateError::QueryNotFound(query_id)
                    &&& !has_query(self.queries@, query_id)
                },
            },
            (r is Ok) == has_query(self.queries@, query_id),
    {
        let qi = match self.query_index(query_id) {
            Some(i) => i,
            None => {
                return Err(QueryHandlerStateError::QueryNotFound(query_id));
            },
        };
        let q = &self.queries[qi];
        let mut out: Vec<Vec<u8>> = Vec::new();
        let mut j: usize = 0;
        while j < q.operator_instances.len()
            invariant
                j <= q.operator_instances@.len(),
                q == &self.queries@[qi as int],
                0 <= qi < self.queries@.len(),
                forall|t: int|
                    0 <= t < out@.len() ==> query_has_exchange(
                        self.queries@[qi as int],
                        (#[trigger] out@[t])@,
                    ) && !exchange_has_live_producers(self.queries@[qi as int], out@[t]@),
                forall|j0: int|
                    0 <= j0 < j && (#[trigger] self.queries@[qi as int].operator_instances@[j0]).operator.operator_type@
                        is Exchange && !exchange_has_live_producers(
                        self.queries@[qi as int],
                        self.queries@[qi as int].operator_instances@[j0].operator.id@,
                    ) ==> exists|t: int|
                        0 <= t < out@.len() && (#[trigger] out@[t])@
                            == self.queries@[qi as int].operator_instances@[j0].operator.id@,
            decreases q.operator_instances@.len() - j,
    {
            let is_exchange = match &q.operator_instances[j].operator.operator_type {
                OperatorType::Exchange => true,
                _ => false,
            };
            if is_exchange {
                let exid = &q.operator_instances[j].operator.id;
                if !exchange_has_live_producers_exec(q, exid) {
                    let ghost out0 = out@;
                    let c = clone_bytes(exid);
                    proof {
                        assert(c@ == q.operator_instances@[j as int].operator.id@);
                    }
                    out.push(c);
                    proof {
                        assert(query_has_exchange(
                            self.queries@[qi as int],
                            q.operator_instances@[j as int].operator.id@,
                        ));
                        assert(forall|t: int| 0 <= t < out0.len() ==> out@[t] == out0[t]);
                        assert((out@[out0.len() as int])@
                            == q.operator_instances@[j as int].operator.id@);
                    }
                }
            }
            j = j + 1;
        }
        proof {
            let qv = qi as int;
            assert(self.queries@[qv].id == query_id);
            assert(forall|t: int|
                0 <= t < out@.len() ==> query_has_exchange(self.queries@[qv], (
                #[trigger] out@[t])@) && !exchange_has_live_producers(
                    self.queries@[qv],
                    out@[t]@,
                ));
            assert(forall|j0: int|
                0 <= j0 < self.queries@[qv].operator_instances@.len() && (
                #[trigger] self.queries@[qv].operator_instances@[j0]).operator.operator_type@
                    is Exchange && !exchange_has_live_producers(
                    self.queries@[qv],
                    self.queries@[qv].operator_instances@[j0].operator.id@,
                ) ==> exists|t: int|
                    0 <= t < out@.len() && (#[trigger] out@[t])@
                        == self.queries@[qv].operator_instances@[j0].operator.id@);
            assert(exists|qi2: int|
                {
                    &&& 0 <= qi2 < self.queries@.len()
                    &&& (#[trigger] self.queries@[qi2]).id == query_id
                    &&& forall|t: int|
                        0 <= t < out@.len() ==> query_has_exchange(
                            self.queries@[qi2],
                            (#[trigger] out@[t])@,
                        ) && !exchange_has_live_producers(self.queries@[qi2], out@[t]@)
                    &&& forall|j0: int|
                        0 <= j0 < self.queries@[qi2].operator_instances@.len() && (
                        #[trigger] self.queries@[qi2].operator_instances@[j0]).operator.operator_type@
                            is Exchange && !exchange_has_live_producers(
                            self.queries@[qi2],
                            self.queries@[qi2].operator_instances@[j0].operator.id@,
                        ) ==> exists|t: int|
                            0 <= t < out@.len() && (#[trigger] out@[t])@
                                == self.queries@[qi2].operator_instances@[j0].operator.id@
                });
        }
        Ok(out)
    }
}

} // verus!

verus! {

/// A claim entry describes a queued instance of a non-terminal query of
/// the old state, together with its group's operator and pipeline.
pub open spec fn claim_describes(qs0: Seq<Query>, c: ClaimedInstance) -> bool {
    exists|qi: int, gj: int, ki: int|
        {
            &&& valid_loc(qs0, qi, gj, ki)
            &&& qs0[qi].id == c.query_id
            &&& !qs0[qi].status@.is_terminal()
            &&& (#[trigger] instance_at(qs0, qi, gj, ki)).id == c.op_instance_id
            &&& instance_at(qs0, qi, gj, ki).status@ is Queued
            &&& qs0[qi].operator_instances@[gj].operator@ == c.operator@
            &&& qs0[qi].operator_instances@[gj].pipeline_id@ == c.pipeline_id@
        }
}

/// A single queued-to-running flip on top of a claims-only change is still
/// a claims-only change.
pub proof fn lemma_claims_only_flip(
    qs0: Seq<Query>,
    qs1: Seq<Query>,
    qs2: Seq<Query>,
    qi: int,
    gj: int,
    ki: int,
)
    requires
        state_claims_only(qs0, qs1),
        instance_at(qs1, qi, gj, ki).status@ is Queued,
        state_updates_instance(qs1, qs2, qi, gj, ki, StatusV::Running),
    ensures
        state_claims_only(qs0, qs2),
{
    assert forall|i: int|
        0 <= i < qs0.len() implies {
        &&& (#[trigger] qs2[i]).id == qs0[i].id
        &&& qs2[i].query == qs0[i].query
        &&& qs2[i].physical_plan == qs0[i].physical_plan
        &&& qs2[i].status == qs0[i].status
        &&& qs2[i].operator_instances@.len() == qs0[i].operator_instances@.len()
    } by {
        if i != qi {
            assert(qs2[i] == qs1[i]);
        }
    }
    assert forall|i: int, j: int|
        0 <= i < qs0.len() && 0 <= j < qs0[i].operator_instances@.len() implies {
        &&& (#[trigger] qs2[i].operator_instances@[j]).pipeline_id
            == qs0[i].operator_instances@[j].pipeline_id
        &&& qs2[i].operator_instances@[j].operator == qs0[i].operator_instances@[j].operator
        &&& qs2[i].operator_instances@[j].instances@.len()
            == qs0[i].operator_instances@[j].instances@.len()
    } by {
        if i != qi {
            assert(qs2[i] == qs1[i]);
        } else if j != gj {
            assert(qs2[i].operator_instances@[j] == qs1[i].operator_instances@[j]);
        }
    }
    assert forall|i: int, j: int, k: int|
        valid_loc(qs0, i, j, k) implies {
        &&& (#[trigger] instance_at(qs2, i, j, k)).id == instance_at(qs0, i, j, k).id
        &&& instance_at(qs2, i, j, k).assigned_worker_id == instance_at(
            qs0,
            i,
            j,
            k,
        ).assigned_worker_id
        &&& (instance_at(qs2, i, j, k).status@ == instance_at(qs0, i, j, k).status@ || (
        instance_at(qs0, i, j, k).status@ is Queued && instance_at(qs2, i, j, k).status@
            is Running))
    } by {
        assert(valid_loc(qs1, i, j, k));
        if i == qi && j == gj && k == ki {
            assert(instance_at(qs1, i, j, k).status@ is Queued);
            assert(instance_at(qs0, i, j, k).status@ is Queued);
            assert(instance_at(qs2, i, j, k).status@ is Running);
            assert(instance_at(qs2, i, j, k).assigned_worker_id == instance_at(
                qs1,
                i,
                j,
                k,
            ).assigned_worker_id);
        } else if i != qi {
            assert(qs2[i] == qs1[i]);
        } else if j != gj {
            assert(qs2[i].operator_instances@[j] == qs1[i].operator_instances@[j]);
        } else {
            assert(qs2[i].operator_instances@[j].instances@[k]
                == qs1[i].operator_instances@[j].instances@[k]);
        }
    }
}

/// Strict lexicographic order on scan positions across the whole state.
pub open spec fn loc3_before(qi: int, gj: int, ki: int, i: int, j: int, k: int) -> bool {
    qi < i || (qi == i && (gj < j || (gj == j && ki < k)))
}

/// One more instance of this cost fits the remaining capacity.
pub open spec fn cost_fits(c: OperatorCompute, inst_left: int, mem_left: int, cpu_left: int) -> bool {
    &&& inst_left >= 1
    &&& c.memory_in_mib <= mem_left
    &&& c.cpu_in_thousandths <= cpu_left
}

/// No queued instance of a non-terminal query before the scan position
/// still fits the remaining capacity: the pass left nothing claimable
/// behind.
pub open spec fn no_missed_claims(
    qs0: Seq<Query>,
    qs1: Seq<Query>,
    rem: TotalOperatorCompute,
    i: int,
    j: int,
    k: int,
) -> bool {
    forall|qi: int, gj: int, ki: int|
        valid_loc(qs0, qi, gj, ki) && loc3_before(qi, gj, ki, i, j, k)
            && !qs0[qi].status@.is_terminal() && (#[trigger] instance_at(
            qs1,
            qi,
            gj,
            ki,
        )).status@ is Queued ==> !cost_fits(
            qs0[qi].operator_instances@[gj].operator.compute,
            rem.instances as int,
            rem.memory_in_mib as int,
            rem.cpu_in_thousandths as int,
        )
}

/// Every instance flipped from queued to running has a claim entry
/// carrying its id.
pub open spec fn flips_have_claims(
    qs0: Seq<Query>,
    qs1: Seq<Query>,
    claims: Seq<ClaimedInstance>,
) -> bool {
    forall|qi: int, gj: int, ki: int|
        valid_loc(qs0, qi, gj, ki) && instance_at(qs0, qi, gj, ki).status@ is Queued && (
        #[trigger] instance_at(qs1, qi, gj, ki)).status@ is Running ==> exists|t: int|
            0 <= t < claims.len() && (#[trigger] claims[t]).op_instance_id == instance_at(
                qs0,
                qi,
                gj,
                ki,
            ).id && claims[t].query_id == qs0[qi].id
}

impl QueryHandlerState {
    /// Claims queued instances of non-terminal queries greedily until the
    /// advertised capacity is used up. Every claimed instance was queued;
    /// the state changes only by flipping claimed instances to running; and
    /// the claims together fit the advertised capacity.
    #[verifier::rlimit(100)]
    #[verifier::loop_isolation(false)]
    pub fn claim_operator_instances_up_to_compute_available(
        &mut self,
        available_compute: &TotalOperatorCompute,
    ) -> (r: Vec<ClaimedInstance>)
        ensures
            state_claims_only(old(self).queries@, final(self).queries@),
            forall|t: int|
                0 <= t < r@.len() ==> claim_describes(old(self).queries@, #[trigger] r@[t]),
            flips_have_claims(old(self).queries@, final(self).queries@, r@),
            r@.len() <= available_compute.instances,
            claims_memory(r@) <= available_compute.memory_in_mib,
            claims_cpu(r@) <= available_compute.cpu_in_thousandths,
            forall|qi: int, gj: int, ki: int|
                valid_loc(old(self).queries@, qi, gj, ki) && !old(
                    self,
                ).queries@[qi].status@.is_terminal() && (#[trigger] instance_at(
                    final(self).queries@,
                    qi,
                    gj,
                    ki,
                )).status@ is Queued ==> !cost_fits(
                    old(self).queries@[qi].operator_instances@[gj].operator.compute,
                    available_compute.instances - r@.len(),
                    available_compute.memory_in_mib - claims_memory(r@),
                    available_compute.cpu_in_thousandths - claims_cpu(r@),
                ),
    {
        let mut out: Vec<ClaimedInstance> = Vec::new();
        let mut rem = *available_compute;
        let n = self.queries.len();
        let mut i: usize = 0;
        while i < n
            invariant
                n == self.queries@.len(),
                i <= n,
                state_claims_only(old(self).queries@, self.queries@),
                forall|t: int|
                    0 <= t < out@.len() ==> claim_describes(old(self).queries@, #[trigger] out@[t]),
                rem.instances + out@.len() == available_compute.instances,
                rem.memory_in_mib + claims_memory(out@) == available_compute.memory_in_mib,
                rem.cpu_in_thousandths + claims_cpu(out@) == available_compute.cpu_in_thousandths,
                flips_have_claims(old(self).queries@, self.queries@, out@),
                no_missed_claims(old(self).queries@, self.queries@, rem, i as int, 0, 0),
            decreases n - i,
        {
            let terminal = self.queries[i].status.terminal();
            if !terminal {
                let n_groups = self.queries[i].operator_instances.len();
                let mut j: usize = 0;
                while j < n_groups
                    invariant
                        0 <= i < self.queries@.len(),
                        n_groups == self.queries@[i as int].operator_instances@.len(),
                        j <= n_groups,
                        state_claims_only(old(self).queries@, self.queries@),
                        !self.queries@[i as int].status@.is_terminal(),
                        forall|t: int|
                            0 <= t < out@.len() ==> claim_describes(
                                old(self).queries@,
                                #[trigger] out@[t],
                            ),
                        rem.instances + out@.len() == available_compute.instances,
                        rem.memory_in_mib + claims_memory(out@)
                            == available_compute.memory_in_mib,
                        rem.cpu_in_thousandths + claims_cpu(out@)
                            == available_compute.cpu_in_thousandths,
                        flips_have_claims(old(self).queries@, self.queries@, out@),
                        no_missed_claims(old(self).queries@, self.queries@, rem, i as int, j as int, 0),
                    decreases n_groups - j,
                {
                    let n_insts = self.queries[i].operator_instances[j].instances.len();
                    let mut k: usize = 0;
                    while k < n_insts
                        invariant
                            0 <= i < self.queries@.len(),
                            0 <= j < self.queries@[i as int].operator_instances@.len(),
                            n_insts == self.queries@[i as int].operator_instances@[j as int].instances@.len(),
                            k <= n_insts,
                            state_claims_only(old(self).queries@, self.queries@),
                            !self.queries@[i as int].status@.is_terminal(),
                            forall|t: int|
                                0 <= t < out@.len() ==> claim_describes(
                                    old(self).queries@,
                                    #[trigger] out@[t],
                                ),
                            rem.instances + out@.len() == available_compute.instances,
                            rem.memory_in_mib + claims_memory(out@)
                                == available_compute.memory_in_mib,
                            rem.cpu_in_thousandths + claims_cpu(out@)
                                == available_compute.cpu_in_thousandths,
                            flips_have_claims(old(self).queries@, self.queries@, out@),
                            no_missed_claims(
                                old(self).queries@,
                                self.queries@,
                                rem,
                                i as int,
                                j as int,
                                k as int,
                            ),
                        decreases n_insts - k,
                    {
                        let is_queued = match &self.queries[i].operator_instances[j].instances[k].status {
                            Status::Queued => true,
                            _ => false,
                        };
                        if is_queued {
                            let cost = self.queries[i].operator_instances[j].operator.compute;
                            let fits = rem.instances >= 1 && rem.memory_in_mib
                                >= cost.memory_in_mib && rem.cpu_in_thousandths
                                >= cost.cpu_in_thousandths;
                            if fits {
                                let ghost qs_before = self.queries@;
                                let claim = ClaimedInstance {
                                    query_id: self.queries[i].id,
                                    op_instance_id: self.queries[i].operator_instances[j].instances[k].id,
                                    pipeline_id: clone_bytes(
                                        &self.queries[i].operator_instances[j].pipeline_id,
                                    ),
                                    operator: clone_operator(
                                        &self.queries[i].operator_instances[j].operator,
                                    ),
                                };
                                let ghost cv = claim;
                                self.queries[i].operator_instances[j].instances[k].status =
                                    Status::Running;
                                proof {
                                    assert(state_updates_instance(
                                        qs_before,
                                        self.queries@,
                                        i as int,
                                        j as int,
                                        k as int,
                                        StatusV::Running,
                                    ));
                                    lemma_claims_only_flip(
                                        old(self).queries@,
                                        qs_before,
                                        self.queries@,
                                        i as int,
                                        j as int,
                                        k as int,
                                    );
                                    assert(instance_at(old(self).queries@, i as int, j as int, k as int).status@
                                        is Queued);
                                    assert(instance_at(old(self).queries@, i as int, j as int, k as int).id
                                        == cv.op_instance_id);
                                    assert(old(self).queries@[i as int].id == cv.query_id);
                                    assert(old(self).queries@[i as int].operator_instances@[j as int].operator@
                                        == cv.operator@);
                                    assert(old(self).queries@[i as int].operator_instances@[j as int].pipeline_id@
                                        == cv.pipeline_id@);
                                    assert(claim_describes(old(self).queries@, cv));
                                }
                                let ghost out0 = out@;
                                out.push(claim);
                                proof {
                                    assert(out@ == out0.push(cv));
                                    assert(out@.drop_last() =~= out0);
                                    assert(out@.last() == cv);
                                    assert(forall|t0: int|
                                        0 <= t0 < out0.len() ==> out@[t0] == out0[t0]);
                                }
                                let ghost rem0 = rem;
                                rem.subtract_single_operator_compute(&cost);
                                proof {
                                    let o = old(self).queries@;
                                    let cur = self.queries@;
                                    let ii = i as int;
                                    let jj = j as int;
                                    let kk = k as int;
                                    assert forall|qi: int, gj: int, ki: int|
                                        valid_loc(o, qi, gj, ki) && instance_at(
                                            o,
                                            qi,
                                            gj,
                                            ki,
                                        ).status@ is Queued && (#[trigger] instance_at(
                                            cur,
                                            qi,
                                            gj,
                                            ki,
                                        )).status@ is Running implies exists|t: int|
                                        0 <= t < out@.len() && (
                                        #[trigger] out@[t]).op_instance_id == instance_at(
                                            o,
                                            qi,
                                            gj,
                                            ki,
                                        ).id && out@[t].query_id == o[qi].id by {
                                        if qi == ii && gj == jj && ki == kk {
                                            assert(out@[out0.len() as int] == cv);
                                        } else {
                                            assert(instance_at(cur, qi, gj, ki) == instance_at(
                                                qs_before,
                                                qi,
                                                gj,
                                                ki,
                                            ));
                                            let t0 = choose|t0: int|
                                                0 <= t0 < out0.len() && (
                                                #[trigger] out0[t0]).op_instance_id == instance_at(
                                                    o,
                                                    qi,
                                                    gj,
                                                    ki,
                                                ).id && out0[t0].query_id == o[qi].id;
                                            assert(out@[t0] == out0[t0]);
                                        }
                                    }
                                    assert forall|qi: int, gj: int, ki: int|
                                        valid_loc(o, qi, gj, ki) && loc3_before(
                                            qi,
                                            gj,
                                            ki,
                                            ii,
                                            jj,
                                            kk + 1,
                                        ) && !o[qi].status@.is_terminal() && (
                                        #[trigger] instance_at(cur, qi, gj, ki)).status@
                                            is Queued implies !cost_fits(
                                            o[qi].operator_instances@[gj].operator.compute,
                                            rem.instances as int,
                                            rem.memory_in_mib as int,
                                            rem.cpu_in_thousandths as int,
                                        ) by {
                                        if qi == ii && gj == jj && ki == kk {
                                            assert(instance_at(cur, qi, gj, ki).status@
                                                is Running);
                                        } else {
                                            assert(instance_at(cur, qi, gj, ki) == instance_at(
                                                qs_before,
                                                qi,
                                                gj,
                                                ki,
                                            ));
                                            assert(loc3_before(qi, gj, ki, ii, jj, kk));
                                            assert(!cost_fits(
                                                o[qi].operator_instances@[gj].operator.compute,
                                                rem0.instances as int,
                                                rem0.memory_in_mib as int,
                                                rem0.cpu_in_thousandths as int,
                                            ));
                                            assert(rem.instances <= rem0.instances
                                                && rem.memory_in_mib <= rem0.memory_in_mib
                                                && rem.cpu_in_thousandths
                                                <= rem0.cpu_in_thousandths);
                                        }
                                    }
                                }
                            } else {
                                proof {
                                    let o = old(self).queries@;
                                    let cur = self.queries@;
                                    assert(cur[i as int].operator_instances@[j as int].operator
                                        == o[i as int].operator_instances@[j as int].operator);
                                    assert(!cost_fits(
                                        o[i as int].operator_instances@[j as int].operator.compute,
                                        rem.instances as int,
                                        rem.memory_in_mib as int,
                                        rem.cpu_in_thousandths as int,
                                    ));
                                }
                            }
                        }
                        k = k + 1;
                    }
                    proof {
                        let o = old(self).queries@;
                        let cur = self.queries@;
                        let ii = i as int;
                        let jj = j as int;
                        assert forall|qi: int, gj: int, ki: int|
                            valid_loc(o, qi, gj, ki) && loc3_before(qi, gj, ki, ii, jj + 1, 0)
                                && !o[qi].status@.is_terminal() && (#[trigger] instance_at(
                                cur,
                                qi,
                                gj,
                                ki,
                            )).status@ is Queued implies !cost_fits(
                                o[qi].operator_instances@[gj].operator.compute,
                                rem.instances as int,
                                rem.memory_in_mib as int,
                                rem.cpu_in_thousandths as int,
                            ) by {
                            if qi == ii && gj == jj {
                                assert(ki < o[qi].operator_instances@[gj].instances@.len());
                                assert(loc3_before(qi, gj, ki, ii, jj, n_insts as int));
                            } else {
                                assert(loc3_before(qi, gj, ki, ii, jj, n_insts as int));
                            }
                        }
                    }
                    j = j + 1;
                }
                proof {
                    let o = old(self).queries@;
                    let cur = self.queries@;
                    let ii = i as int;
                    assert forall|qi: int, gj: int, ki: int|
                        valid_loc(o, qi, gj, ki) && loc3_before(qi, gj, ki, ii + 1, 0, 0) && !o[
                        qi].status@.is_terminal() && (#[trigger] instance_at(
                            cur,
                            qi,
                            gj,
                            ki,
                        )).status@ is Queued implies !cost_fits(
                            o[qi].operator_instances@[gj].operator.compute,
                            rem.instances as int,
                            rem.memory_in_mib as int,
                            rem.cpu_in_thousandths as int,
                        ) by {
                        if qi == ii {
                            assert(gj < o[qi].operator_instances@.len());
                            assert(loc3_before(qi, gj, ki, ii, n_groups as int, 0));
                        } else {
                            assert(loc3_before(qi, gj, ki, ii, n_groups as int, 0));
                        }
                    }
                }
            } else {
                proof {
                    let o = old(self).queries@;
                    let cur = self.queries@;
                    let ii = i as int;
                    assert(cur[ii].status == o[ii].status);
                    assert forall|qi: int, gj: int, ki: int|
                        valid_loc(o, qi, gj, ki) && loc3_before(qi, gj, ki, ii + 1, 0, 0) && !o[
                        qi].status@.is_terminal() && (#[trigger] instance_at(
                            cur,
                            qi,
                            gj,
                            ki,
                        )).status@ is Queued implies !cost_fits(
                            o[qi].operator_instances@[gj].operator.compute,
                            rem.instances as int,
                            rem.memory_in_mib as int,
                            rem.cpu_in_thousandths as int,
                        ) by {
                        if qi == ii {
                            assert(o[ii].status@.is_terminal());
                        } else {
                            assert(loc3_before(qi, gj, ki, ii, 0, 0));
                        }
                    }
                }
            }
            i = i + 1;
        }
        out
    }
}

} // verus!

verus! {

impl QueryHandlerState {
    /// Records which worker an instance was assigned to; the instance's
    /// status is untouched. No-op when the ids do not resolve.
    pub fn record_assignment(
        &mut self,
        query_id: u128,
        op_instance_id: u128,
        worker: Option<u128>,
    ) -> (r: bool)
        ensures
            !r ==> *final(self) == *old(self),
            r ==> exists|qi: int, gj: int, ki: int|
                {
                    &&& is_first_query(old(self).queries@, qi, query_id)
                    &&& is_first_iloc(old(self).queries@[qi], gj, ki, op_instance_id)
                    &&& instance_at(old(self).queries@, qi, gj, ki).id == op_instance_id
                    &&& #[trigger] state_updates_assignment(
                        old(self).queries@,
                        final(self).queries@,
                        qi,
                        gj,
                        ki,
                        worker,
                    )
                },
            (r == (has_query(old(self).queries@, query_id) && exists|qi: int|
                #[trigger] is_first_query(old(self).queries@, qi, query_id)
                    && query_has_instance(old(self).queries@[qi], op_instance_id))),
    {
        let qi = match self.query_index(query_id) {
            Some(i) => i,
            None => {
                return false;
            },
        };
        let loc = match locate_instance(&self.queries[qi], op_instance_id) {
            Some(l) => l,
            None => {
                return false;
            },
        };
        let (gj, ki) = loc;
        proof {
            assert(group_has_instance(
                self.queries@[qi as int].operator_instances@[gj as int],
                op_instance_id,
            ));
            assert(query_has_instance(self.queries@[qi as int], op_instance_id));
        }
        let ghost qs0 = self.queries@;
        self.queries[qi].operator_instances[gj].instances[ki].assigned_worker_id = worker;
        proof {
            assert(old(self).queries@ == qs0);
            assert(state_updates_assignment(
                old(self).queries@,
                self.queries@,
                qi as int,
                gj as int,
                ki as int,
                worker,
            ));
        }
        true
    }

    /// Moves an instance to `SentShutdown` iff it is still queued or
    /// running; a missing or no-longer-live instance is left untouched.
    /// Returns whether the shutdown was recorded.
    pub fn mark_sent_shutdown_if_available(
        &mut self,
        query_id: u128,
        op_instance_id: u128,
        now: u64,
    ) -> (r: bool)
        ensures
            !r ==> *final(self) == *old(self),
            r ==> exists|qi: int, gj: int, ki: int|
                {
                    &&& is_first_query(old(self).queries@, qi, query_id)
                    &&& instance_at(old(self).queries@, qi, gj, ki).id == op_instance_id
                    &&& instance_at(old(self).queries@, qi, gj, ki).status@.is_available()
                    &&& #[trigger] state_updates_instance(
                        old(self).queries@,
                        final(self).queries@,
                        qi,
                        gj,
                        ki,
                        StatusV::SentShutdown(now),
                    )
                },
    {
        let qi = match self.query_index(query_id) {
            Some(i) => i,
            None => {
                return false;
            },
        };
        let loc = match locate_instance(&self.queries[qi], op_instance_id) {
            Some(l) => l,
            None => {
                return false;
            },
        };
        let (gj, ki) = loc;
        let available = self.queries[qi].operator_instances[gj].instances[ki].status.available();
        if !available {
            return false;
        }
        let ghost qs0 = self.queries@;
        self.queries[qi].operator_instances[gj].instances[ki].status = Status::SentShutdown(now);
        proof {
            assert(old(self).queries@ == qs0);
            assert(instance_at(old(self).queries@, qi as int, gj as int, ki as int).id
                == op_instance_id);
            assert(state_updates_instance(
                old(self).queries@,
                self.queries@,
                qi as int,
                gj as int,
                ki as int,
                StatusV::SentShutdown(now),
            ));
        }
        true
    }
}

} // verus!
