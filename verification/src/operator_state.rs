//! The operator runtime's state on one worker: the running instances and
//! their claimed compute, kept within the worker's allowance.

use vstd::prelude::*;
use crate::compute::TotalOperatorCompute;
use crate::plan::Operator;

verus! {

/// The lifecycle status of an instance hosted on this worker.
#[derive(Debug, Clone, PartialEq, Eq)]
pub enum Status {
    Queued,
    Running,
    Complete,
    Error(Vec<u8>),
}

/// An operator instance hosted on this worker.
#[derive(Debug, Clone, PartialEq, Eq)]
pub struct OperatorInstance {
    pub id: u128,
    pub status: Status,
    pub query_id: u128,
    pub pipeline_id: Vec<u8>,
    pub operator: Operator,
}

/// The summed memory of the hosted instances.
pub open spec fn hosted_memory(insts: Seq<OperatorInstance>) -> int
    decreases insts.len(),
{
    if insts.len() == 0 {
        0
    } else {
        hosted_memory(insts.drop_last()) + insts.last().operator.compute.memory_in_mib
    }
}

/// The summed CPU of the hosted instances.
pub open spec fn hosted_cpu(insts: Seq<OperatorInstance>) -> int
    decreases insts.len(),
{
    if insts.len() == 0 {
        0
    } else {
        hosted_cpu(insts.drop_last()) + insts.last().operator.compute.cpu_in_thousandths
    }
}

/// The sum of the hosted instances' declared compute stays within the
/// worker's allowance: one instance slot each, plus declared memory and
/// CPU.
pub open spec fn within_allowance(
    insts: Seq<OperatorInstance>,
    allowed: TotalOperatorCompute,
) -> bool {
    &&& insts.len() <= allowed.instances
    &&& hosted_memory(insts) <= allowed.memory_in_mib
    &&& hosted_cpu(insts) <= allowed.cpu_in_thousandths
}

/// The operator runtime's state.
#[derive(Debug, Clone, PartialEq, Eq)]
pub struct OperatorHandlerState {
    pub operator_instances: Vec<OperatorInstance>,
    pub allowed_compute: TotalOperatorCompute,
}

impl OperatorHandlerState {
    /// A fresh state with the configured allowance and nothing hosted.
    pub fn new(allowed_compute: TotalOperatorCompute) -> (r: OperatorHandlerState)
        ensures
            r.operator_instances@.len() == 0,
            r.allowed_compute == allowed_compute,
            within_allowance(r.operator_instances@, r.allowed_compute),
    {
        OperatorHandlerState { operator_instances: Vec::new(), allowed_compute }
    }

    /// Accepts an instance iff its declared cost still fits the remaining
    /// allowance; the sum of hosted compute never exceeds the allowance.
    pub fn add_operator_instance(&mut self, op_in: OperatorInstance) -> (r: Result<(), ()>)
        requires
            within_allowance(old(self).operator_instances@, old(self).allowed_compute),
        ensures
            final(self).allowed_compute == old(self).allowed_compute,
            within_allowance(final(self).operator_instances@, final(self).allowed_compute),
            (r is Ok) == ({
                &&& old(self).operator_instances@.len() + 1 <= old(self).allowed_compute.instances
                &&& hosted_memory(old(self).operator_instances@)
                    + op_in.operator.compute.memory_in_mib <= old(
                    self,
                ).allowed_compute.memory_in_mib
                &&& hosted_cpu(old(self).operator_instances@)
                    + op_in.operator.compute.cpu_in_thousandths <= old(
                    self,
                ).allowed_compute.cpu_in_thousandths
            }),
            r is Ok ==> final(self).operator_instances@ == old(self).operator_instances@.push(
                op_in,
            ),
            r is Err ==> final(self).operator_instances == old(self).operator_instances,
    {
        let used = self.total_operator_compute();
        let cost = op_in.operator.compute;
        let fits = used.instances < self.allowed_compute.instances && cost.memory_in_mib
            <= self.allowed_compute.memory_in_mib - used.memory_in_mib && cost.cpu_in_thousandths
            <= self.allowed_compute.cpu_in_thousandths - used.cpu_in_thousandths;
        if fits {
            let ghost i0 = self.operator_instances@;
            let ghost ov = op_in;
            self.operator_instances.push(op_in);
            proof {
                assert(self.operator_instances@ == i0.push(ov));
                assert(self.operator_instances@.drop_last() =~= i0);
                assert(self.operator_instances@.last() == ov);
            }
            Ok(())
        } else {
            Err(())
        }
    }

    /// The sum of the hosted instances' declared compute.
    pub fn total_operator_compute(&self) -> (r: TotalOperatorCompute)
        requires
            within_allowance(self.operator_instances@, self.allowed_compute),
        ensures
            r.instances == self.operator_instances@.len(),
            r.memory_in_mib == hosted_memory(self.operator_instances@),
            r.cpu_in_thousandths == hosted_cpu(self.operator_instances@),
    {
        let mut total = TotalOperatorCompute {
            instances: 0,
            memory_in_mib: 0,
            cpu_in_thousandths: 0,
        };
        let mut i: usize = 0;
        let n = self.operator_instances.len();
        while i < n
            invariant
                n == self.operator_instances@.len(),
                i <= n,
                within_allowance(self.operator_instances@, self.allowed_compute),
                total.instances == i,
                total.memory_in_mib == hosted_memory(self.operator_instances@.take(i as int)),
                total.cpu_in_thousandths == hosted_cpu(self.operator_instances@.take(i as int)),
            decreases n - i,
        {
            proof {
                let insts = self.operator_instances@;
                assert(insts.take(i + 1 as int).drop_last() =~= insts.take(i as int));
                assert(insts.take(i + 1 as int).last() == insts[i as int]);
                lemma_hosted_split(insts, i + 1 as int);
                lemma_sum_from_nonneg(insts, i + 1 as int);
            }
            let c = self.operator_instances[i].operator.compute;
            total.instances = total.instances + 1;
            total.memory_in_mib = total.memory_in_mib + c.memory_in_mib;
            total.cpu_in_thousandths = total.cpu_in_thousandths + c.cpu_in_thousandths;
            i = i + 1;
        }
        proof {
            assert(self.operator_instances@.take(n as int) =~= self.operator_instances@);
        }
        total
    }

    /// The worker's configured allowance.
    pub fn get_allowed_compute(&self) -> (r: TotalOperatorCompute)
        ensures
            r == self.allowed_compute,
    {
        self.allowed_compute
    }
}

/// Splitting the sum at a position: prefix plus suffix is the whole.
proof fn lemma_hosted_split(insts: Seq<OperatorInstance>, i: int)
    requires
        0 <= i <= insts.len(),
    ensures
        hosted_memory(insts.take(i)) + sum_memory_from(insts, i) == hosted_memory(insts),
        hosted_cpu(insts.take(i)) + sum_cpu_from(insts, i) == hosted_cpu(insts),
    decreases insts.len() - i,
{
    if i == insts.len() {
        assert(insts.take(i) =~= insts);
    } else {
        lemma_hosted_split(insts, i + 1);
        assert(insts.take(i + 1).drop_last() =~= insts.take(i));
        assert(insts.take(i + 1).last() == insts[i]);
    }
}

/// The suffix sums are nonnegative.
proof fn lemma_sum_from_nonneg(insts: Seq<OperatorInstance>, i: int)
    ensures
        0 <= sum_memory_from(insts, i),
        0 <= sum_cpu_from(insts, i),
    decreases insts.len() - i,
{
    if 0 <= i < insts.len() {
        lemma_sum_from_nonneg(insts, i + 1);
    }
}

/// The summed memory of the instances from position `i` on.
pub open spec fn sum_memory_from(insts: Seq<OperatorInstance>, i: int) -> int
    decreases insts.len() - i,
{
    if i < 0 || i >= insts.len() {
        0
    } else {
        insts[i].operator.compute.memory_in_mib + sum_memory_from(insts, i + 1)
    }
}

/// The summed CPU of the instances from position `i` on.
pub open spec fn sum_cpu_from(insts: Seq<OperatorInstance>, i: int) -> int
    decreases insts.len() - i,
{
    if i < 0 || i >= insts.len() {
        0
    } else {
        insts[i].operator.compute.cpu_in_thousandths + sum_cpu_from(insts, i + 1)
    }
}

} // verus!
