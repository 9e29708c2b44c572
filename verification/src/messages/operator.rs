//! Messages addressed to a running operator instance.

use vstd::prelude::*;

verus! {

/// Orders an operator instance to stop at once.
#[derive(Debug, Clone, Copy, PartialEq, Eq, Structural)]
pub enum Shutdown {
    Immediate,
}

/// A task's report to its host that it finished, with the error text on
/// failure.
#[derive(Debug, Clone, PartialEq, Eq)]
pub enum OperatorInstanceStatusChange {
    Complete,
    Error(Vec<u8>),
}

pub enum OperatorInstanceStatusChangeV {
    Complete,
    Error(Seq<u8>),
}

impl View for OperatorInstanceStatusChange {
    type V = OperatorInstanceStatusChangeV;

    open spec fn view(&self) -> OperatorInstanceStatusChangeV {
        match self {
            OperatorInstanceStatusChange::Complete => OperatorInstanceStatusChangeV::Complete,
            OperatorInstanceStatusChange::Error(e) => OperatorInstanceStatusChangeV::Error(e@),
        }
    }
}

} // verus!
