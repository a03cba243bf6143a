//! What the `tsoracle` program decides: its arguments, its drivers, and the administration of a
//! cluster.
pub mod admin;
pub mod cli;
pub mod drivers;
pub mod logging;
pub mod members;
pub mod span;
pub mod tls;
