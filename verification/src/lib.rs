//! Client, codec and node-administration logic of the timestamp oracle.
pub mod attempt;
pub mod attempt_laws;
pub mod budget;
pub mod channel_pool;
pub mod client;
pub mod codec;
pub mod driver;
pub mod driver_laws;
pub mod endpoint_map;
pub mod error;
pub mod leader_hint;
pub mod leader_resolved;
pub mod node;
pub mod pool_laws;
pub mod response;
pub mod retry;
pub mod retry_laws;
pub mod retry_policy;
pub mod scan;
pub mod seq_attempt;
pub mod status;
pub mod text;
pub mod time;
pub mod timestamp;
pub mod toolkit;
pub mod transport;
pub mod view_laws;
pub mod worklist;
