//! The TLS trust cache: a protocol-keyed store of root trust material,
//! populated all-or-nothing from the loader boundary's output and only read
//! thereafter.

use vstd::prelude::*;

use crate::types::{Protocol, SessionError, TrustLoadError};

verus! {

/// Root trust material for one transport protocol: its validation anchors in
/// serialized form. Immutable once cached; shared by cloning a handle out.
#[derive(Debug)]
pub struct RootCert {
    pub anchors: Vec<u8>,
}

impl View for RootCert {
    type V = Seq<u8>;

    /// A trust material is its anchor bytes.
    closed spec fn view(&self) -> Seq<u8> {
        self.anchors@
    }
}

impl Clone for RootCert {
    fn clone(&self) -> (r: Self)
        ensures
            r@ == self@,
    {
        let anchors = self.anchors.clone();
        proof {
            assert forall|i: int| 0 <= i < self.anchors@.len() implies anchors@[i] == self.anchors@[i] by {
                assert(vstd::pervasive::cloned::<u8>(self.anchors@[i], anchors@[i]));
            }
            assert(anchors@ =~= self.anchors@);
        }
        RootCert { anchors }
    }
}

/// The anchors of the first entry for protocol `p` in the loader's output,
/// starting the scan at entry `k`.
pub open spec fn lookup_from(fetched: Seq<(Protocol, RootCert)>, k: int, p: Protocol) -> Option<
    Seq<u8>,
>
    decreases fetched.len() - k,
{
    if k < 0 || k >= fetched.len() {
        None
    } else if fetched[k].0 == p {
        Some(fetched[k].1@)
    } else {
        lookup_from(fetched, k + 1, p)
    }
}

/// The anchors of the first entry for protocol `p` in the loader's output.
pub open spec fn lookup(fetched: Seq<(Protocol, RootCert)>, p: Protocol) -> Option<Seq<u8>> {
    lookup_from(fetched, 0, p)
}

/// Why population from `fetched` fails for protocol `p`, if it does: no entry
/// at all, or an entry with no anchors.
pub open spec fn protocol_load_error(fetched: Seq<(Protocol, RootCert)>, p: Protocol) -> Option<
    TrustLoadError,
> {
    match lookup(fetched, p) {
        None => Some(TrustLoadError::MissingProtocol(p)),
        Some(a) => if a.len() == 0 {
            Some(TrustLoadError::EmptyMaterial(p))
        } else {
            None
        },
    }
}

/// The error population from `fetched` reports, if any: the first failing
/// protocol in the supported order.
pub open spec fn load_all_error(fetched: Seq<(Protocol, RootCert)>) -> Option<TrustLoadError> {
    if protocol_load_error(fetched, Protocol::Quic) is Some {
        protocol_load_error(fetched, Protocol::Quic)
    } else {
        protocol_load_error(fetched, Protocol::Http2)
    }
}

/// The protocol-keyed trust cache. It starts unpopulated and is populated at
/// most once, as a whole: `load_all` either fills every supported protocol's
/// slot or fails, so no reader ever observes a partially populated cache.
#[derive(Debug)]
pub struct TrustCache {
    quic: Option<RootCert>,
    http2: Option<RootCert>,
}

impl TrustCache {
    /// The anchors cached for one protocol.
    pub closed spec fn material(self, p: Protocol) -> Option<Seq<u8>> {
        match p {
            Protocol::Quic => match self.quic {
                Some(c) => Some(c@),
                None => None,
            },
            Protocol::Http2 => match self.http2 {
                Some(c) => Some(c@),
                None => None,
            },
        }
    }

    /// Whether every supported protocol's material is present.
    pub open spec fn populated(self) -> bool {
        forall|p: Protocol| (#[trigger] self.material(p)) is Some
    }

    /// Every cached material carries at least one anchor byte.
    pub open spec fn wf(self) -> bool {
        forall|p: Protocol| (#[trigger] self.material(p)) matches Some(a) ==> a.len() > 0
    }

    /// The unpopulated cache, holding material for no protocol.
    pub fn empty() -> (c: TrustCache)
        ensures
            forall|p: Protocol| (#[trigger] c.material(p)) is None,
    {
        TrustCache { quic: None, http2: None }
    }

    /// Populates the cache from the loader boundary's output, fail-fast: the
    /// whole cache is built only when every supported protocol has non-empty
    /// material in `fetched`, and otherwise the first failing protocol's
    /// error is reported and nothing is exposed.
    pub fn load_all(fetched: Vec<(Protocol, RootCert)>) -> (r: Result<TrustCache, TrustLoadError>)
        ensures
            r is Err <==> load_all_error(fetched@) is Some,
            r matches Err(e) ==> load_all_error(fetched@) == Some(e),
            r matches Ok(c) ==> {
                &&& c.populated()
                &&& c.wf()
                &&& forall|p: Protocol| #[trigger] c.material(p) == lookup(fetched@, p)
            },
    {
        let quic = find_material(&fetched, Protocol::Quic);
        let http2 = find_material(&fetched, Protocol::Http2);
        match quic {
            None => Err(TrustLoadError::MissingProtocol(Protocol::Quic)),
            Some(qc) => {
                if qc.anchors.len() == 0 {
                    return Err(TrustLoadError::EmptyMaterial(Protocol::Quic));
                }
                match http2 {
                    None => Err(TrustLoadError::MissingProtocol(Protocol::Http2)),
                    Some(hc) => {
                        if hc.anchors.len() == 0 {
                            return Err(TrustLoadError::EmptyMaterial(Protocol::Http2));
                        }
                        Ok(TrustCache { quic: Some(qc), http2: Some(hc) })
                    },
                }
            },
        }
    }

    /// Returns a handle to the trust material cached for `p`: a clone of the
    /// stored anchors, which are themselves never mutated. Fails exactly when
    /// the cache holds nothing for `p`.
    pub fn get(&self, p: Protocol) -> (r: Result<RootCert, SessionError>)
        ensures
            self.material(p) matches Some(a) ==> r matches Ok(c) && c@ == a,
            self.material(p) is None ==> r == Err::<RootCert, SessionError>(
                SessionError::MissingTrustMaterial(p),
            ),
    {
        let entry = match p {
            Protocol::Quic => &self.quic,
            Protocol::Http2 => &self.http2,
        };
        match entry {
            Some(c) => Ok(c.clone()),
            None => Err(SessionError::MissingTrustMaterial(p)),
        }
    }
}

/// The first entry for protocol `p` in the loader's output, as `lookup`
/// describes it.
fn find_material(fetched: &Vec<(Protocol, RootCert)>, p: Protocol) -> (r: Option<RootCert>)
    ensures
        match r {
            Some(c) => lookup(fetched@, p) == Some(c@),
            None => lookup(fetched@, p) is None,
        },
{
    let mut k: usize = 0;
    while k < fetched.len()
        invariant
            k <= fetched@.len(),
            forall|t: int| 0 <= t < k ==> (#[trigger] fetched@[t]).0 != p,
        decreases fetched@.len() - k,
    {
        if fetched[k].0 == p {
            let c = fetched[k].1.clone();
            proof {
                lemma_lookup_found(fetched@, k as int, p);
            }
            return Some(c);
        }
        k += 1;
    }
    proof {
        lemma_lookup_missing(fetched@, 0, p);
    }
    None
}

/// If no entry before `k` matches `p` and entry `k` does, the lookup yields
/// entry `k`'s anchors.
proof fn lemma_lookup_found(fetched: Seq<(Protocol, RootCert)>, k: int, p: Protocol)
    requires
        0 <= k < fetched.len(),
        forall|t: int| 0 <= t < k ==> (#[trigger] fetched[t]).0 != p,
        fetched[k].0 == p,
    ensures
        lookup(fetched, p) == Some(fetched[k].1@),
{
    lemma_lookup_found_from(fetched, 0, k, p);
}

proof fn lemma_lookup_found_from(fetched: Seq<(Protocol, RootCert)>, lo: int, k: int, p: Protocol)
    requires
        0 <= lo <= k < fetched.len(),
        forall|t: int| lo <= t < k ==> (#[trigger] fetched[t]).0 != p,
        fetched[k].0 == p,
    ensures
        lookup_from(fetched, lo, p) == Some(fetched[k].1@),
    decreases k - lo,
{
    if lo < k {
        lemma_lookup_found_from(fetched, lo + 1, k, p);
    }
}

/// If no entry from `lo` on matches `p`, the lookup from `lo` yields nothing.
proof fn lemma_lookup_missing(fetched: Seq<(Protocol, RootCert)>, lo: int, p: Protocol)
    requires
        forall|t: int| lo <= t < fetched.len() ==> (#[trigger] fetched[t]).0 != p,
    ensures
        lookup_from(fetched, lo, p) is None,
    decreases fetched.len() - lo,
{
    if 0 <= lo < fetched.len() {
        lemma_lookup_missing(fetched, lo + 1, p);
    }
}

/// Population then lookup: after a successful `load_all`, every supported
/// protocol's material is present in the cache and non-empty, so `get`
/// returns a non-empty trust material handle for it.
pub proof fn lemma_load_all_then_get(fetched: Seq<(Protocol, RootCert)>, c: TrustCache, p: Protocol)
    requires
        load_all_error(fetched) is None,
        forall|q: Protocol| #[trigger] c.material(q) == lookup(fetched, q),
    ensures
        c.material(p) matches Some(a) && a.len() > 0,
{
    assert(protocol_load_error(fetched, Protocol::Quic) is None);
    assert(protocol_load_error(fetched, Protocol::Http2) is None);
    assert(c.material(p) == lookup(fetched, p));
}

} // verus!
