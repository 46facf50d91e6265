//! Connection supervision for an edge-tunnel client.
//!
//! Given a resolved set of edge servers, this crate maintains a pool of edge
//! endpoints with exclusive per-session checkout, caches per-protocol TLS
//! trust material, and drives the begin/finish phases of a tunnel session so
//! that a checked-out endpoint is released on every exit path.

pub mod edge;
pub mod tls;
pub mod types;
pub mod supervisor;
