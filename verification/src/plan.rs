//! The physical plan: an ordered list of pipelines, each an ordered list of
//! operators with declared compute.

use vstd::prelude::*;
use crate::compute::OperatorCompute;

verus! {

/// The kind of an operator: a producer feeds its outbound exchange; an
/// exchange buffers records between producers and their consumers.
#[derive(Debug, Clone, PartialEq, Eq)]
pub enum OperatorType {
    Producer { outbound_exchange_id: Vec<u8> },
    Exchange,
}

pub enum OperatorTypeV {
    Producer { outbound_exchange_id: Seq<u8> },
    Exchange,
}

impl View for OperatorType {
    type V = OperatorTypeV;

    open spec fn view(&self) -> OperatorTypeV {
        match self {
            OperatorType::Producer { outbound_exchange_id } => OperatorTypeV::Producer {
                outbound_exchange_id: outbound_exchange_id@,
            },
            OperatorType::Exchange => OperatorTypeV::Exchange,
        }
    }
}

/// A node of the physical plan: a stable id, a kind, and the declared
/// compute cost together with the declared instance count.
#[derive(Debug, Clone, PartialEq, Eq)]
pub struct Operator {
    pub id: Vec<u8>,
    pub operator_type: OperatorType,
    pub compute: OperatorCompute,
}

pub struct OperatorV {
    pub id: Seq<u8>,
    pub operator_type: OperatorTypeV,
    pub compute: OperatorCompute,
}

impl View for Operator {
    type V = OperatorV;

    open spec fn view(&self) -> OperatorV {
        OperatorV { id: self.id@, operator_type: self.operator_type@, compute: self.compute }
    }
}

/// An ordered list of operators.
#[derive(Debug, Clone, PartialEq, Eq)]
pub struct Pipeline {
    pub id: Vec<u8>,
    pub operators: Vec<Operator>,
}

pub struct PipelineV {
    pub id: Seq<u8>,
    pub operators: Seq<OperatorV>,
}

impl View for Pipeline {
    type V = PipelineV;

    open spec fn view(&self) -> PipelineV {
        PipelineV { id: self.id@, operators: self.operators@.map_values(|op: Operator| op@) }
    }
}

/// An ordered list of pipelines.
#[derive(Debug, Clone, PartialEq, Eq)]
pub struct PhysicalPlan {
    pub pipelines: Vec<Pipeline>,
}

pub struct PhysicalPlanV {
    pub pipelines: Seq<PipelineV>,
}

impl View for PhysicalPlan {
    type V = PhysicalPlanV;

    open spec fn view(&self) -> PhysicalPlanV {
        PhysicalPlanV { pipelines: self.pipelines@.map_values(|p: Pipeline| p@) }
    }
}

impl PhysicalPlan {
    pub fn get_pipelines_ref(&self) -> (r: &Vec<Pipeline>)
        ensures
            r@ == self.pipelines@,
    {
        &self.pipelines
    }
}

impl Pipeline {
    pub fn get_operators_ref(&self) -> (r: &Vec<Operator>)
        ensures
            r@ == self.operators@,
    {
        &self.operators
    }
}

} // verus!
