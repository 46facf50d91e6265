//! Plain data shared across the supervision layer: transport protocols,
//! region descriptors, authentication credentials, and the error taxonomy.

use vstd::prelude::*;

verus! {

/// A transport protocol family, used as the key into the TLS trust cache.
/// The set of supported protocols is closed and small.
#[derive(Clone, Copy, PartialEq, Eq, Structural, Debug, Hash)]
pub enum Protocol {
    Quic,
    Http2,
}

/// Opaque identifier of the geographic/network region whose edge servers a
/// supervisor should connect to. Consumed by the resolver boundary.
#[derive(Clone, Debug)]
pub struct EdgeRegionLocation {
    pub region: String,
}

/// Opaque credential bundle identifying this client to the edge network;
/// immutable for the supervisor's lifetime and passed through unchanged to
/// every session.
#[derive(Clone, Debug)]
pub struct TunnelAuth {
    pub account_tag: String,
    pub tunnel_secret: Vec<u8>,
    pub tunnel_id: u128,
}

/// Opaque failure reported by the transport collaborator's serve operation;
/// passed through to the caller unchanged.
#[derive(Clone, PartialEq, Eq, Debug)]
pub struct TransportError {
    pub detail: String,
}

/// Failure to obtain trust material during cache population. Population is
/// fail-fast: a single missing or empty protocol aborts the whole load.
#[derive(Clone, Copy, PartialEq, Eq, Structural, Debug)]
pub enum TrustLoadError {
    /// The loader's output held no entry for this supported protocol.
    MissingProtocol(Protocol),
    /// The loader's output held an entry with no trust anchors for this
    /// supported protocol.
    EmptyMaterial(Protocol),
}

/// Failure to construct a supervisor. Construction is atomic: on any error no
/// partially initialized supervisor is returned.
#[derive(Clone, Copy, PartialEq, Eq, Structural, Debug)]
pub enum SupervisorError {
    /// The resolved edges flattened to an empty endpoint pool.
    EmptyPool,
    /// Trust material could not be obtained for every supported protocol.
    TrustLoad(TrustLoadError),
}

/// Failure while starting or finishing one tunnel session.
#[derive(Clone, PartialEq, Eq, Debug)]
pub enum SessionError {
    /// This session index already holds an endpoint and has not released it.
    AlreadyCheckedOut(u32),
    /// Every endpoint in the pool is checked out.
    PoolExhausted,
    /// The trust cache holds no material for the requested protocol.
    MissingTrustMaterial(Protocol),
    /// The transport collaborator's serve operation failed; carried through
    /// unchanged.
    Transport(TransportError),
}

} // verus!
