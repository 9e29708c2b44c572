//! A distributed SQL query engine core: a typed message fabric with a binary
//! wire codec, a capacity-aware query-handler state machine, an operator
//! runtime with compute accounting, and the exchange protocol that carries
//! record batches between pipeline stages.

pub mod codec;
pub mod clock;
pub mod comms;
pub mod compute;
pub mod data_read;
pub mod exchange_finder;
pub mod exchange_state;
pub mod ids;
pub mod messages;
pub mod operator_state;
pub mod operators;
pub mod plan;
pub mod query_handler;
pub mod query_state;
pub mod registry;
pub mod router;
pub mod worker;
pub mod wire;

pub use compute::TotalOperatorCompute;
