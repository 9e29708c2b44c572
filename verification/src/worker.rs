//! The worker's configuration: where it listens and which peers it dials.

use vstd::prelude::*;
use crate::ids::new_id;

verus! {

/// The worker's configuration.
#[derive(Debug, Clone, PartialEq, Eq)]
pub struct QueryWorkerConfig {
    pub address: String,
    pub connect_to_addresses: Vec<String>,
    pub allowed_compute: crate::compute::TotalOperatorCompute,
}

impl QueryWorkerConfig {
    pub fn new(
        address: String,
        connect_to_addresses: Vec<String>,
        allowed_compute: crate::compute::TotalOperatorCompute,
    ) -> (r: QueryWorkerConfig)
        ensures
            r.address == address,
            r.connect_to_addresses == connect_to_addresses,
            r.allowed_compute == allowed_compute,
    {
        QueryWorkerConfig { address, connect_to_addresses, allowed_compute }
    }
}

/// The identity of one worker process.
#[derive(Debug, Clone, PartialEq, Eq)]
pub struct QueryWorker {
    pub worker_id: u128,
    pub config: QueryWorkerConfig,
}

impl QueryWorker {
    /// A fresh worker around the configuration, with a new id.
    pub fn new(config: QueryWorkerConfig) -> (r: QueryWorker)
        ensures
            r.config == config,
    {
        QueryWorker { worker_id: new_id(), config }
    }
}

} // verus!
