//! Per-connection state of a reliable, ordered stream carried over an
//! unreliable datagram transport: sequence-number allocation, delayed
//! acknowledgment bookkeeping, in-order reassembly and the decisions of the
//! congestion-control law.

pub mod clock;
pub mod connvars;
pub mod laws;
pub mod payload;
pub mod reassembly;

pub use clock::Moment;
pub use connvars::{Congestion, ConnVars};
