//! Compute-capacity accounting for operator instances.
//!
//! A worker advertises a bounded [`TotalOperatorCompute`]; every operator of a
//! physical plan declares an [`OperatorCompute`] cost. The operator runtime
//! keeps the sum of the running instances' declared compute below the
//! worker's allowance.

use vstd::prelude::*;

verus! {

/// The compute cost declared by a single operator of a physical plan:
/// how many instances it wants, and the memory and CPU budget of each.
#[derive(Debug, Clone, Copy, PartialEq, Eq, Structural)]
pub struct OperatorCompute {
    pub instances: u64,
    pub memory_in_mib: u64,
    pub cpu_in_thousandths: u64,
}

/// A capacity triple used for accounting: either a worker's allowance or
/// the total claimed by a set of operator instances.
#[derive(Debug, Clone, Copy, PartialEq, Eq, Structural)]
pub struct TotalOperatorCompute {
    pub instances: u64,
    pub memory_in_mib: u64,
    pub cpu_in_thousandths: u64,
}

impl TotalOperatorCompute {
    /// True iff some component of `self` exceeds the same component of `c`.
    pub fn any_greater_than(&self, c: &TotalOperatorCompute) -> (r: bool)
        ensures
            r == (self.instances > c.instances || self.memory_in_mib > c.memory_in_mib
                || self.cpu_in_thousandths > c.cpu_in_thousandths),
    {
        if self.instances > c.instances {
            true
        } else if self.memory_in_mib > c.memory_in_mib {
            true
        } else if self.cpu_in_thousandths > c.cpu_in_thousandths {
            true
        } else {
            false
        }
    }

    /// Componentwise sum.
    pub fn add(&mut self, c: &TotalOperatorCompute)
        requires
            old(self).instances + c.instances <= u64::MAX,
            old(self).memory_in_mib + c.memory_in_mib <= u64::MAX,
            old(self).cpu_in_thousandths + c.cpu_in_thousandths <= u64::MAX,
        ensures
            final(self).instances == old(self).instances + c.instances,
            final(self).memory_in_mib == old(self).memory_in_mib + c.memory_in_mib,
            final(self).cpu_in_thousandths == old(self).cpu_in_thousandths + c.cpu_in_thousandths,
    {
        self.instances = self.instances + c.instances;
        self.memory_in_mib = self.memory_in_mib + c.memory_in_mib;
        self.cpu_in_thousandths = self.cpu_in_thousandths + c.cpu_in_thousandths;
    }

    /// Componentwise saturating difference.
    pub fn subtract(&mut self, c: &TotalOperatorCompute)
        ensures
            final(self).instances == sat_sub(old(self).instances, c.instances),
            final(self).memory_in_mib == sat_sub(old(self).memory_in_mib, c.memory_in_mib),
            final(self).cpu_in_thousandths == sat_sub(old(self).cpu_in_thousandths, c.cpu_in_thousandths),
    {
        self.instances = if self.instances > c.instances {
            self.instances - c.instances
        } else {
            0
        };
        self.memory_in_mib = if self.memory_in_mib > c.memory_in_mib {
            self.memory_in_mib - c.memory_in_mib
        } else {
            0
        };
        self.cpu_in_thousandths = if self.cpu_in_thousandths > c.cpu_in_thousandths {
            self.cpu_in_thousandths - c.cpu_in_thousandths
        } else {
            0
        };
    }

    /// Saturating subtraction of the cost of one instance of an operator:
    /// one instance slot, plus the operator's declared memory and CPU.
    pub fn subtract_single_operator_compute(&mut self, c: &OperatorCompute)
        ensures
            final(self).instances == sat_sub(old(self).instances, 1),
            final(self).memory_in_mib == sat_sub(old(self).memory_in_mib, c.memory_in_mib),
            final(self).cpu_in_thousandths == sat_sub(old(self).cpu_in_thousandths, c.cpu_in_thousandths),
    {
        self.instances = if self.instances != 0 {
            self.instances - 1
        } else {
            0
        };
        self.memory_in_mib = if self.memory_in_mib > c.memory_in_mib {
            self.memory_in_mib - c.memory_in_mib
        } else {
            0
        };
        self.cpu_in_thousandths = if self.cpu_in_thousandths > c.cpu_in_thousandths {
            self.cpu_in_thousandths - c.cpu_in_thousandths
        } else {
            0
        };
    }

    /// Adds the cost of one instance of an operator: one instance slot, plus
    /// the operator's declared memory and CPU.
    pub fn add_single_operator_compute(&mut self, c: &OperatorCompute)
        requires
            old(self).instances + 1 <= u64::MAX,
            old(self).memory_in_mib + c.memory_in_mib <= u64::MAX,
            old(self).cpu_in_thousandths + c.cpu_in_thousandths <= u64::MAX,
        ensures
            final(self).instances == old(self).instances + 1,
            final(self).memory_in_mib == old(self).memory_in_mib + c.memory_in_mib,
            final(self).cpu_in_thousandths == old(self).cpu_in_thousandths + c.cpu_in_thousandths,
    {
        self.instances = self.instances + 1;
        self.memory_in_mib = self.memory_in_mib + c.memory_in_mib;
        self.cpu_in_thousandths = self.cpu_in_thousandths + c.cpu_in_thousandths;
    }

    /// True iff some component is exhausted: no further instance fits.
    pub fn any_depleated(&self) -> (r: bool)
        ensures
            r == (self.instances == 0 || self.memory_in_mib == 0 || self.cpu_in_thousandths == 0),
    {
        self.instances == 0 || self.memory_in_mib == 0 || self.cpu_in_thousandths == 0
    }
}

/// Saturating subtraction on u64, the model of the executable saturating updates.
pub open spec fn sat_sub(a: u64, b: u64) -> u64 {
    if a > b {
        (a - b) as u64
    } else {
        0
    }
}

} // verus!
