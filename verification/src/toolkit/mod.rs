//! Building blocks around a raft instance: its record codec, its key layout, and its lifecycle.
pub mod bootstrap;
pub mod codec;
pub mod key_space;
pub mod leader;
pub mod log_store;
pub mod membership;
