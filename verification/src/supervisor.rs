//! The supervisor: the top-level facade that turns resolved edge descriptors
//! and loaded trust material into a ready endpoint pool, and drives the
//! begin/finish phases of each tunnel session so that a checked-out endpoint
//! is released on every exit path.

use vstd::prelude::*;

use crate::edge::{flat_endpoints, flatten_edges, EdgeServerDescriptor, EdgeTracker, IpPortHost};
use crate::tls::{load_all_error, lookup, RootCert, TrustCache};
use crate::types::{Protocol, SessionError, SupervisorError, TransportError, TunnelAuth};

verus! {

/// Relies on uuid::Uuid::new_v4, read back through Uuid::as_u128: a fresh
/// version-4 identifier drawn from the process's entropy source. The value
/// depends on that source, so nothing is promised of it.
#[verifier::external_body]
fn fresh_supervisor_id() -> u128 {
    uuid::Uuid::new_v4().as_u128()
}

/// The top-level orchestrator: a process-unique identity, the endpoint pool,
/// the populated trust cache, and the client credential handed through to
/// every session.
#[derive(Debug)]
pub struct Supervisor {
    id: u128,
    tracker: EdgeTracker,
    tls: TrustCache,
    auth: TunnelAuth,
}

impl Supervisor {
    /// The endpoint pool and its assignment table.
    pub closed spec fn spec_tracker(self) -> EdgeTracker {
        self.tracker
    }

    /// The trust cache.
    pub closed spec fn spec_tls(self) -> TrustCache {
        self.tls
    }

    /// The credential supplied at construction.
    pub closed spec fn spec_auth(self) -> TunnelAuth {
        self.auth
    }

    /// The identity generated at construction.
    pub closed spec fn spec_id(self) -> u128 {
        self.id
    }

    /// A ready supervisor: a well-formed pool and a fully populated cache of
    /// non-empty trust material. Construction establishes this and every
    /// session operation preserves it.
    pub open spec fn wf(self) -> bool {
        &&& self.spec_tracker().wf()
        &&& forall|k: int|
            0 <= k < self.spec_tracker().pool().len() ==> (#[trigger] self.spec_tracker().pool()[k]).wf()
        &&& self.spec_tls().populated()
        &&& self.spec_tls().wf()
    }

    /// Builds a supervisor from the resolver boundary's edge descriptors and
    /// the loader boundary's trust material: flattens every descriptor's
    /// addresses into the endpoint pool, constructs the tracker, populates
    /// the trust cache, and generates a fresh identity. Construction is
    /// atomic: on an empty pool or incomplete trust material the respective
    /// error is returned and no partially initialized supervisor exists.
    pub fn new(edges: Vec<EdgeServerDescriptor>, fetched: Vec<(Protocol, RootCert)>, auth: TunnelAuth) -> (r:
        Result<Supervisor, SupervisorError>)
        ensures
            flat_endpoints(edges@).len() == 0 ==> r == Err::<Supervisor, SupervisorError>(
                SupervisorError::EmptyPool,
            ),
            flat_endpoints(edges@).len() > 0 ==> (load_all_error(fetched@) matches Some(e) ==> r
                == Err::<Supervisor, SupervisorError>(SupervisorError::TrustLoad(e))),
            r is Ok <==> flat_endpoints(edges@).len() > 0 && load_all_error(fetched@) is None,
            r matches Ok(s) ==> {
                &&& s.wf()
                &&& s.spec_tracker().pool() == flat_endpoints(edges@)
                &&& forall|i: u32| !s.spec_tracker().holds(i)
                &&& forall|p: Protocol| #[trigger] s.spec_tls().material(p) == lookup(fetched@, p)
                &&& s.spec_auth() == auth
            },
    {
        let ips = flatten_edges(&edges);
        let tracker = match EdgeTracker::new(ips) {
            Ok(t) => t,
            Err(e) => {
                return Err(e);
            },
        };
        let tls = match TrustCache::load_all(fetched) {
            Ok(c) => c,
            Err(e) => {
                return Err(SupervisorError::TrustLoad(e));
            },
        };
        let id = fresh_supervisor_id();
        Ok(Supervisor { id, tracker, tls, auth })
    }

    /// The identity generated when this supervisor was constructed.
    pub fn id(&self) -> (r: u128)
        ensures
            r == self.spec_id(),
    {
        self.id
    }

    /// The credential every session of this supervisor presents.
    pub fn auth(&self) -> (r: &TunnelAuth)
        ensures
            *r == self.spec_auth(),
    {
        &self.auth
    }

    /// The number of endpoints in the pool.
    pub fn pool_size(&self) -> (n: usize)
        ensures
            n == self.spec_tracker().pool().len(),
    {
        self.tracker.len()
    }

    /// Prepares one tunnel session: looks the trust material for `protocol`
    /// up in the cache, then checks an endpoint out of the pool for exclusive
    /// use by session `i`. Since a ready supervisor's cache covers every
    /// supported protocol, this fails only on the tracker's account —
    /// `AlreadyCheckedOut` or `PoolExhausted` — and on failure the supervisor
    /// is left unchanged, with nothing checked out for `i`.
    pub fn begin_session(&mut self, i: u32, protocol: Protocol) -> (r: Result<
        (IpPortHost, RootCert),
        SessionError,
    >)
        requires
            old(self).wf(),
        ensures
            final(self).wf(),
            final(self).spec_tracker().pool() == old(self).spec_tracker().pool(),
            final(self).spec_tls() == old(self).spec_tls(),
            final(self).spec_auth() == old(self).spec_auth(),
            final(self).spec_id() == old(self).spec_id(),
            r is Err ==> *final(self) == *old(self),
            old(self).spec_tracker().holds(i) ==> r == Err::<(IpPortHost, RootCert), SessionError>(
                SessionError::AlreadyCheckedOut(i),
            ),
            !old(self).spec_tracker().holds(i) && old(self).spec_tracker().full() ==> r == Err::<
                (IpPortHost, RootCert),
                SessionError,
            >(SessionError::PoolExhausted),
            !old(self).spec_tracker().holds(i) && !old(self).spec_tracker().full() ==> {
                let s = old(self).spec_tracker().chosen_slot(i);
                &&& 0 <= s < old(self).spec_tracker().owners().len()
                &&& old(self).spec_tracker().owners()[s] is None
                &&& r matches Ok((ep, cert)) && ep == old(self).spec_tracker().pool()[s]
                    && ep.wf() && old(self).spec_tls().material(protocol) == Some(cert@)
                &&& final(self).spec_tracker().owners() == old(self).spec_tracker().owners().update(
                    s,
                    Some(i),
                )
                &&& final(self).spec_tracker().holds(i)
            },
    {
        let cert = match self.tls.get(protocol) {
            Ok(c) => c,
            Err(e) => {
                return Err(e);
            },
        };
        let ep = match self.tracker.get(i) {
            Ok(ep) => ep,
            Err(e) => {
                return Err(e);
            },
        };
        proof {
            let s = old(self).spec_tracker().chosen_slot(i);
            assert(self.spec_tracker().owners()[s] == Some(i));
            assert(self.spec_tracker().holds(i));
        }
        Ok((ep, cert))
    }

    /// Completes one tunnel session: releases the endpoint held by session
    /// `i` back to the pool — unconditionally, whatever the transport outcome
    /// was, so no exit path leaks a checked-out endpoint — and then hands the
    /// outcome back, a transport failure carried through unchanged.
    pub fn finish_session(&mut self, i: u32, outcome: Result<(), TransportError>) -> (r: Result<
        (),
        SessionError,
    >)
        requires
            old(self).wf(),
        ensures
            final(self).wf(),
            final(self).spec_tracker().pool() == old(self).spec_tracker().pool(),
            final(self).spec_tls() == old(self).spec_tls(),
            final(self).spec_auth() == old(self).spec_auth(),
            final(self).spec_id() == old(self).spec_id(),
            !final(self).spec_tracker().holds(i),
            forall|k: u32| k != i ==> final(self).spec_tracker().holds(k) == old(
                self,
            ).spec_tracker().holds(k),
            old(self).spec_tracker().holds(i) ==> final(self).spec_tracker().owners() == old(
                self,
            ).spec_tracker().owners().update(old(self).spec_tracker().slot_of(i), None::<u32>),
            !old(self).spec_tracker().holds(i) ==> final(self).spec_tracker() == old(
                self,
            ).spec_tracker(),
            r is Ok <==> outcome is Ok,
            outcome matches Err(te) ==> r == Err::<(), SessionError>(SessionError::Transport(te)),
    {
        self.tracker.release(i);
        match outcome {
            Ok(()) => Ok(()),
            Err(te) => Err(SessionError::Transport(te)),
        }
    }
}

/// One full session leaves the pool as it was: if `mid` is the supervisor a
/// successful `begin_session(i, _)` leaves behind, then `finish_session(i, _)`
/// clears exactly the slot that checkout filled, and the assignment table
/// returns to its value before the session — whatever the transport outcome
/// was.
pub proof fn lemma_session_round_trip(pre: Supervisor, mid: Supervisor, i: u32)
    requires
        pre.wf(),
        !pre.spec_tracker().holds(i),
        !pre.spec_tracker().full(),
        mid.spec_tracker().pool() == pre.spec_tracker().pool(),
        mid.spec_tracker().owners() == pre.spec_tracker().owners().update(
            pre.spec_tracker().chosen_slot(i),
            Some(i),
        ),
    ensures
        mid.spec_tracker().wf(),
        mid.spec_tracker().holds(i),
        mid.spec_tracker().owners().update(mid.spec_tracker().slot_of(i), None::<u32>) == pre
            .spec_tracker().owners(),
{
    crate::edge::lemma_get_release_round_trip(pre.spec_tracker(), mid.spec_tracker(), i);
}

} // verus!
