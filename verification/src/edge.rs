//! Edge endpoints and the endpoint tracker: the flattened pool of resolved
//! edge addresses, with exclusive checkout by session index and release back
//! to the pool.

use vstd::prelude::*;
use vstd::assert_seqs_equal;

use crate::types::{SessionError, SupervisorError};

verus! {

/// An IP address in plain form: the four octets of a v4 address or the
/// sixteen octets of a v6 address, packed big-endian into one integer.
#[derive(Clone, Copy, PartialEq, Eq, Structural, Debug)]
pub enum EdgeIp {
    V4(u32),
    V6(u128),
}

/// Tag telling the transport which IP family an endpoint's address belongs to.
#[derive(Clone, Copy, PartialEq, Eq, Structural, Debug)]
pub enum IpVersion {
    Ipv4,
    Ipv6,
}

impl EdgeIp {
    /// The IP family an address belongs to.
    pub open spec fn spec_version(self) -> IpVersion {
        if self is V6 {
            IpVersion::Ipv6
        } else {
            IpVersion::Ipv4
        }
    }

    /// Whether this is a v6 address.
    pub fn is_ipv6(&self) -> (r: bool)
        ensures
            r == (self is V6),
    {
        match self {
            EdgeIp::V6(_) => true,
            EdgeIp::V4(_) => false,
        }
    }

    /// The version tag for this address.
    pub fn version(&self) -> (v: IpVersion)
        ensures
            v == self.spec_version(),
    {
        if self.is_ipv6() {
            IpVersion::Ipv6
        } else {
            IpVersion::Ipv4
        }
    }
}

/// One edge endpoint, the atomic unit of the pool: an IP address paired with
/// its owning hostname, port, and IP-version tag. Immutable once created.
#[derive(Debug)]
pub struct IpPortHost {
    pub ip: EdgeIp,
    pub hostname: String,
    pub port: u16,
    pub version: IpVersion,
}

impl IpPortHost {
    /// The version tag agrees with the address it was derived from.
    pub open spec fn wf(self) -> bool {
        self.version == self.ip.spec_version()
    }
}

impl Clone for IpPortHost {
    fn clone(&self) -> (r: Self)
        ensures
            r == *self,
    {
        IpPortHost { ip: self.ip, hostname: self.hostname.clone(), port: self.port, version: self.version }
    }
}

/// One resolved edge server: its hostname and port together with every IP
/// address discovered for it. Produced by the resolver boundary and consumed
/// once to build the endpoint pool.
#[derive(Clone, Debug)]
pub struct EdgeServerDescriptor {
    pub hostname: String,
    pub port: u16,
    pub addrs: Vec<EdgeIp>,
}

/// The endpoints one descriptor contributes to the pool: one per address, in
/// the order the addresses were discovered.
pub open spec fn endpoints_of(e: EdgeServerDescriptor) -> Seq<IpPortHost> {
    e.addrs@.map(|j: int, ip: EdgeIp| IpPortHost {
        ip,
        hostname: e.hostname,
        port: e.port,
        version: ip.spec_version(),
    })
}

/// The whole pool contributed by a descriptor list: each descriptor's
/// endpoints, in descriptor order.
pub open spec fn flat_endpoints(edges: Seq<EdgeServerDescriptor>) -> Seq<IpPortHost>
    decreases edges.len(),
{
    if edges.len() == 0 {
        Seq::empty()
    } else {
        flat_endpoints(edges.drop_last()) + endpoints_of(edges.last())
    }
}

/// The number of endpoints a descriptor list flattens to: the sum of the
/// descriptors' address counts.
pub open spec fn flat_len(edges: Seq<EdgeServerDescriptor>) -> nat
    decreases edges.len(),
{
    if edges.len() == 0 {
        0
    } else {
        (flat_len(edges.drop_last()) + edges.last().addrs.len()) as nat
    }
}

/// The flattened pool is exactly `flat_len` long: the sum of the address
/// counts across descriptors.
pub proof fn lemma_flat_endpoints_len(edges: Seq<EdgeServerDescriptor>)
    ensures
        flat_endpoints(edges).len() == flat_len(edges),
    decreases edges.len(),
{
    if edges.len() > 0 {
        lemma_flat_endpoints_len(edges.drop_last());
    }
}

/// Every non-empty descriptor list in which each descriptor carries at least
/// one address (the resolver's own guarantee) flattens to a pool whose size
/// is the sum of the descriptors' address counts and is positive, so tracker
/// construction from it succeeds.
pub proof fn lemma_nonempty_edges_give_nonempty_pool(edges: Seq<EdgeServerDescriptor>)
    requires
        edges.len() > 0,
        forall|k: int| 0 <= k < edges.len() ==> #[trigger] edges[k].addrs@.len() > 0,
    ensures
        flat_endpoints(edges).len() == flat_len(edges),
        flat_endpoints(edges).len() > 0,
{
    lemma_flat_endpoints_len(edges);
    lemma_flat_len_lower_bound(edges);
}

/// The flattened length is at least the last descriptor's address count.
proof fn lemma_flat_len_lower_bound(edges: Seq<EdgeServerDescriptor>)
    requires
        edges.len() > 0,
    ensures
        flat_len(edges) >= edges.last().addrs@.len(),
{
}

/// Flattens resolved edge descriptors into the endpoint pool: one endpoint
/// per discovered address, tagged with its IP version and owning host.
pub fn flatten_edges(edges: &Vec<EdgeServerDescriptor>) -> (out: Vec<IpPortHost>)
    ensures
        out@ == flat_endpoints(edges@),
        forall|k: int| 0 <= k < out@.len() ==> #[trigger] out@[k].wf(),
{
    let mut out: Vec<IpPortHost> = Vec::new();
    let mut i: usize = 0;
    while i < edges.len()
        invariant
            i <= edges.len(),
            out@ == flat_endpoints(edges@.take(i as int)),
            forall|k: int| 0 <= k < out@.len() ==> #[trigger] out@[k].wf(),
        decreases edges.len() - i,
    {
        let edge = &edges[i];
        let mut j: usize = 0;
        while j < edge.addrs.len()
            invariant
                i < edges.len(),
                j <= edge.addrs.len(),
                edge == &edges@[i as int],
                out@ == flat_endpoints(edges@.take(i as int)) + endpoints_of(edges@[i as int]).take(j as int),
                forall|k: int| 0 <= k < out@.len() ==> #[trigger] out@[k].wf(),
            decreases edge.addrs.len() - j,
        {
            let ip = edge.addrs[j];
            let version = ip.version();
            out.push(IpPortHost { ip, hostname: edge.hostname.clone(), port: edge.port, version });
            proof {
                assert_seqs_equal!(
                    endpoints_of(edges@[i as int]).take(j + 1)
                        == endpoints_of(edges@[i as int]).take(j as int).push(out@.last())
                );
                assert_seqs_equal!(
                    out@ == flat_endpoints(edges@.take(i as int))
                        + endpoints_of(edges@[i as int]).take(j + 1)
                );
            }
            j += 1;
        }
        proof {
            assert(endpoints_of(edges@[i as int]).take(edge.addrs@.len() as int)
                =~= endpoints_of(edges@[i as int]));
            assert(edges@.take(i + 1).drop_last() =~= edges@.take(i as int));
            assert(edges@.take(i + 1).last() == edges@[i as int]);
            assert(out@ =~= flat_endpoints(edges@.take(i + 1)));
        }
        i += 1;
    }
    proof {
        assert(edges@.take(edges@.len() as int) =~= edges@);
    }
    out
}

/// The index of the first free slot of `w` in the range `[lo, hi)`, or -1 if
/// every slot there is occupied.
pub open spec fn first_free_in(w: Seq<Option<u32>>, lo: int, hi: int) -> int
    decreases hi - lo,
{
    if lo < 0 || hi > w.len() || lo >= hi {
        -1
    } else if w[lo] is None {
        lo
    } else {
        first_free_in(w, lo + 1, hi)
    }
}

/// If every slot in `[lo, m)` is occupied and slot `m` is free, the first
/// free slot in `[lo, hi)` is `m`.
proof fn lemma_first_free_in_found(w: Seq<Option<u32>>, lo: int, hi: int, m: int)
    requires
        0 <= lo <= m < hi <= w.len(),
        forall|t: int| lo <= t < m ==> (#[trigger] w[t]) is Some,
        w[m] is None,
    ensures
        first_free_in(w, lo, hi) == m,
    decreases m - lo,
{
    if lo < m {
        lemma_first_free_in_found(w, lo + 1, hi, m);
    }
}

/// If every slot in `[lo, hi)` is occupied, there is no first free slot.
proof fn lemma_first_free_in_none(w: Seq<Option<u32>>, lo: int, hi: int)
    requires
        forall|t: int| lo <= t < hi ==> (#[trigger] w[t]) is Some,
    ensures
        first_free_in(w, lo, hi) == -1,
    decreases hi - lo,
{
    if 0 <= lo && hi <= w.len() && lo < hi {
        lemma_first_free_in_none(w, lo + 1, hi);
    }
}

/// The pool of edge endpoints, arbitrating exclusive use: each slot is either
/// free or owned by exactly one session index, and one session index owns at
/// most one slot.
#[derive(Debug)]
pub struct EdgeTracker {
    endpoints: Vec<IpPortHost>,
    owner: Vec<Option<u32>>,
}

impl EdgeTracker {
    /// The immutable endpoints of the pool, one per slot.
    pub closed spec fn pool(self) -> Seq<IpPortHost> {
        self.endpoints@
    }

    /// The assignment table: slot `j` is free iff `owners()[j]` is `None`,
    /// and owned by session `i` iff it is `Some(i)`.
    pub closed spec fn owners(self) -> Seq<Option<u32>> {
        self.owner@
    }

    /// Pool well-formedness: one assignment slot per endpoint, a non-empty
    /// pool, and no session index owning two slots at once.
    pub open spec fn wf(self) -> bool {
        &&& self.owners().len() == self.pool().len()
        &&& self.pool().len() > 0
        &&& forall|a: int, b: int|
            #![trigger self.owners()[a], self.owners()[b]]
            0 <= a < self.owners().len() && 0 <= b < self.owners().len()
                && self.owners()[a] is Some && self.owners()[a] == self.owners()[b] ==> a == b
    }

    /// Whether session `i` currently holds an endpoint.
    pub open spec fn holds(self, i: u32) -> bool {
        exists|j: int| 0 <= j < self.owners().len() && self.owners()[j] == Some(i)
    }

    /// The slot session `i` holds; meaningful only when `holds(i)`.
    pub open spec fn slot_of(self, i: u32) -> int {
        choose|j: int| 0 <= j < self.owners().len() && self.owners()[j] == Some(i)
    }

    /// Whether every endpoint in the pool is checked out.
    pub open spec fn full(self) -> bool {
        forall|j: int| 0 <= j < self.owners().len() ==> (#[trigger] self.owners()[j]) is Some
    }

    /// The load-spreading scan origin for session `i`: its index modulo the
    /// pool size.
    pub open spec fn start_slot(self, i: u32) -> int {
        i as int % (self.pool().len() as int)
    }

    /// The slot the deterministic checkout policy assigns to session `i`: the
    /// first free slot scanning cyclically from `start_slot(i)`, or -1 when
    /// the pool is full.
    pub open spec fn chosen_slot(self, i: u32) -> int {
        let w = self.owners();
        let s = self.start_slot(i);
        if first_free_in(w, s, w.len() as int) != -1 {
            first_free_in(w, s, w.len() as int)
        } else {
            first_free_in(w, 0, s)
        }
    }

    /// Constructs the tracker from the flattened endpoint list, every slot
    /// free; fails when the list is empty, since an empty pool can serve no
    /// session.
    pub fn new(endpoints: Vec<IpPortHost>) -> (r: Result<EdgeTracker, SupervisorError>)
        ensures
            r is Err <==> endpoints@.len() == 0,
            endpoints@.len() == 0 <==> r == Err::<EdgeTracker, SupervisorError>(SupervisorError::EmptyPool),
            r matches Ok(t) ==> {
                &&& t.wf()
                &&& t.pool() == endpoints@
                &&& forall|i: u32| !t.holds(i)
            },
    {
        if endpoints.len() == 0 {
            return Err(SupervisorError::EmptyPool);
        }
        let mut owner: Vec<Option<u32>> = Vec::new();
        let mut j: usize = 0;
        while j < endpoints.len()
            invariant
                j <= endpoints@.len(),
                owner@.len() == j,
                forall|t: int| 0 <= t < j ==> (#[trigger] owner@[t]) is None,
            decreases endpoints@.len() - j,
        {
            owner.push(None);
            j += 1;
        }
        let t = EdgeTracker { endpoints, owner };
        proof {
            assert forall|i: u32| !t.holds(i) by {
                assert(forall|j: int| 0 <= j < t.owners().len() ==> (#[trigger] t.owners()[j]) is None);
            }
        }
        Ok(t)
    }

    /// The number of endpoints in the pool.
    pub fn len(&self) -> (n: usize)
        ensures
            n == self.pool().len(),
    {
        self.endpoints.len()
    }

    /// Checks out one endpoint for exclusive use by session `i`: the first
    /// free slot scanning cyclically from `i` modulo the pool size, so that
    /// concurrently active sessions with different indices spread across
    /// different endpoints whenever the pool size allows. Fails with
    /// `AlreadyCheckedOut` when `i` has not released its previous checkout,
    /// and with `PoolExhausted` exactly when every endpoint is held; on any
    /// failure the pool is left unchanged.
    pub fn get(&mut self, i: u32) -> (r: Result<IpPortHost, SessionError>)
        requires
            old(self).wf(),
        ensures
            final(self).wf(),
            final(self).pool() == old(self).pool(),
            r is Err ==> *final(self) == *old(self),
            old(self).holds(i) ==> r == Err::<IpPortHost, SessionError>(SessionError::AlreadyCheckedOut(i)),
            !old(self).holds(i) && old(self).full() ==> r == Err::<IpPortHost, SessionError>(
                SessionError::PoolExhausted,
            ),
            !old(self).holds(i) && !old(self).full() ==> {
                let s = old(self).chosen_slot(i);
                &&& 0 <= s < old(self).owners().len()
                &&& old(self).owners()[s] is None
                &&& r == Ok::<IpPortHost, SessionError>(old(self).pool()[s])
                &&& final(self).owners() == old(self).owners().update(s, Some(i))
            },
    {
        let n = self.endpoints.len();
        let mut j: usize = 0;
        while j < n
            invariant
                old(self).wf(),
                n == self.owners().len(),
                *self == *old(self),
                forall|t: int| 0 <= t < j ==> #[trigger] self.owners()[t] != Some(i),
            decreases n - j,
        {
            match self.owner[j] {
                Some(k) => {
                    if k == i {
                        return Err(SessionError::AlreadyCheckedOut(i));
                    }
                },
                None => {},
            }
            j += 1;
        }
        assert(!self.holds(i));

        let start = (i as usize) % n;
        let mut s: usize = start;
        while s < n && self.owner[s].is_some()
            invariant
                old(self).wf(),
                n == self.owners().len(),
                *self == *old(self),
                start <= s <= n,
                forall|t: int| start <= t < s ==> (#[trigger] self.owners()[t]) is Some,
            decreases n - s,
        {
            s += 1;
        }
        if s < n {
            proof {
                lemma_first_free_in_found(self.owners(), start as int, n as int, s as int);
            }
            let ep = self.endpoints[s].clone();
            self.owner.set(s, Some(i));
            proof {
                lemma_update_keeps_wf(*old(self), *self, s as int, i);
            }
            return Ok(ep);
        }
        proof {
            lemma_first_free_in_none(self.owners(), start as int, n as int);
        }
        let mut t: usize = 0;
        while t < start && self.owner[t].is_some()
            invariant
                old(self).wf(),
                n == self.owners().len(),
                *self == *old(self),
                start <= n,
                t <= start,
                forall|u: int| 0 <= u < t ==> (#[trigger] self.owners()[u]) is Some,
            decreases start - t,
        {
            t += 1;
        }
        if t < start {
            proof {
                lemma_first_free_in_found(self.owners(), 0, start as int, t as int);
            }
            let ep = self.endpoints[t].clone();
            self.owner.set(t, Some(i));
            proof {
                lemma_update_keeps_wf(*old(self), *self, t as int, i);
            }
            return Ok(ep);
        }
        proof {
            lemma_first_free_in_none(self.owners(), 0, start as int);
            assert(self.full());
        }
        Err(SessionError::PoolExhausted)
    }

    /// Releases the endpoint held by session `i` back to the pool; a release
    /// of an index that holds nothing is a harmless no-op, so release is
    /// idempotent and never disturbs other sessions' checkouts.
    pub fn release(&mut self, i: u32)
        requires
            old(self).wf(),
        ensures
            final(self).wf(),
            final(self).pool() == old(self).pool(),
            old(self).holds(i) ==> final(self).owners() == old(self).owners().update(
                old(self).slot_of(i),
                None::<u32>,
            ),
            !old(self).holds(i) ==> *final(self) == *old(self),
            !final(self).holds(i),
            forall|k: u32| k != i ==> final(self).holds(k) == old(self).holds(k),
    {
        let n = self.endpoints.len();
        let mut j: usize = 0;
        while j < n
            invariant
                old(self).wf(),
                n == self.owners().len(),
                *self == *old(self),
                forall|t: int| 0 <= t < j ==> #[trigger] self.owners()[t] != Some(i),
            decreases n - j,
        {
            let found = match self.owner[j] {
                Some(k) => k == i,
                None => false,
            };
            if found {
                proof {
                    lemma_release_frees(*old(self), j as int, i);
                }
                self.owner.set(j, None);
                proof {
                    assert forall|k: u32| k != i implies self.holds(k) == old(self).holds(k) by {
                        lemma_clear_keeps_other_holds(*old(self), *self, j as int, i, k);
                    }
                    assert(!self.holds(i));
                }
                return;
            }
            j += 1;
        }
        assert(!self.holds(i));
    }
}

/// If `first_free_in` found a slot, the slot lies in the range and is free.
proof fn lemma_first_free_in_valid(w: Seq<Option<u32>>, lo: int, hi: int)
    requires
        first_free_in(w, lo, hi) != -1,
    ensures
        lo <= first_free_in(w, lo, hi) < hi <= w.len(),
        w[first_free_in(w, lo, hi)] is None,
    decreases hi - lo,
{
    if !(lo < 0 || hi > w.len() || lo >= hi) && !(w[lo] is None) {
        lemma_first_free_in_valid(w, lo + 1, hi);
    }
}

/// If `first_free_in` found no slot, every slot in the range is occupied.
proof fn lemma_first_free_in_occupied(w: Seq<Option<u32>>, lo: int, hi: int)
    requires
        0 <= lo,
        hi <= w.len(),
        first_free_in(w, lo, hi) == -1,
    ensures
        forall|t: int| lo <= t < hi ==> (#[trigger] w[t]) is Some,
    decreases hi - lo,
{
    if lo < hi {
        lemma_first_free_in_occupied(w, lo + 1, hi);
    }
}

/// Whenever the pool is not full, the checkout policy picks a slot: it lies
/// in the pool and is free.
pub proof fn lemma_chosen_slot_valid(t: EdgeTracker, i: u32)
    requires
        t.wf(),
        !t.full(),
    ensures
        0 <= t.chosen_slot(i) < t.owners().len(),
        t.owners()[t.chosen_slot(i)] is None,
{
    let w = t.owners();
    let n = w.len() as int;
    let s = t.start_slot(i);
    assert(0 <= s < n) by {
        vstd::arithmetic::div_mod::lemma_mod_bound(i as int, n);
    }
    if first_free_in(w, s, n) != -1 {
        lemma_first_free_in_valid(w, s, n);
    } else {
        lemma_first_free_in_occupied(w, s, n);
        if first_free_in(w, 0, s) == -1 {
            lemma_first_free_in_occupied(w, 0, s);
            assert(t.full());
        }
        lemma_first_free_in_valid(w, 0, s);
    }
}

/// Mutual exclusion: in a well-formed pool, two live sessions with distinct
/// indices never hold the same endpoint slot at the same time.
pub proof fn lemma_mutual_exclusion(t: EdgeTracker, i: u32, k: u32)
    requires
        t.wf(),
        t.holds(i),
        t.holds(k),
        i != k,
    ensures
        t.slot_of(i) != t.slot_of(k),
        t.owners()[t.slot_of(i)] == Some(i),
        t.owners()[t.slot_of(k)] == Some(k),
{
    let a = choose|j: int| 0 <= j < t.owners().len() && t.owners()[j] == Some(i);
    let b = choose|j: int| 0 <= j < t.owners().len() && t.owners()[j] == Some(k);
    assert(t.owners()[a] == Some(i));
    assert(t.owners()[b] == Some(k));
}

/// A checkout followed at once by its release restores the pool exactly: if
/// `mid` is the pool `get(i)` leaves behind on success, then the release of
/// `i` clears the very slot that checkout filled, and the assignment table
/// returns to its prior value, so subsequent checkouts behave as if the pair
/// of calls had never happened.
pub proof fn lemma_get_release_round_trip(pre: EdgeTracker, mid: EdgeTracker, i: u32)
    requires
        pre.wf(),
        !pre.holds(i),
        !pre.full(),
        mid.pool() == pre.pool(),
        mid.owners() == pre.owners().update(pre.chosen_slot(i), Some(i)),
    ensures
        mid.wf(),
        mid.holds(i),
        mid.slot_of(i) == pre.chosen_slot(i),
        mid.owners().update(mid.slot_of(i), None::<u32>) == pre.owners(),
{
    let s = pre.chosen_slot(i);
    lemma_chosen_slot_valid(pre, i);
    lemma_update_keeps_wf(pre, mid, s, i);
    assert(mid.owners()[s] == Some(i));
    assert(mid.holds(i));
    let c = mid.slot_of(i);
    assert(mid.owners()[c] == Some(i));
    assert(c == s);
    assert_seqs_equal!(mid.owners().update(s, None::<u32>) == pre.owners());
}

/// Assigning a free slot to a session that holds nothing preserves the
/// tracker's well-formedness and its other sessions' checkouts.
proof fn lemma_update_keeps_wf(pre: EdgeTracker, post: EdgeTracker, s: int, i: u32)
    requires
        pre.wf(),
        !pre.holds(i),
        0 <= s < pre.owners().len(),
        pre.owners()[s] is None,
        post.pool() == pre.pool(),
        post.owners() == pre.owners().update(s, Some(i)),
    ensures
        post.wf(),
{
    assert forall|a: int, b: int|
        0 <= a < post.owners().len() && 0 <= b < post.owners().len()
            && (#[trigger] post.owners()[a]) is Some && post.owners()[a] == #[trigger] post.owners()[b]
        implies a == b by {
        if a != b {
            if a == s {
                assert(pre.owners()[b] == Some(i));
            } else if b == s {
                assert(pre.owners()[a] == Some(i));
            } else {
                assert(pre.owners()[a] == pre.owners()[b]);
            }
        }
    }
}

/// In a well-formed tracker, the slot found by a linear scan for session `i`
/// is the one and only slot `i` holds.
proof fn lemma_release_frees(pre: EdgeTracker, j: int, i: u32)
    requires
        pre.wf(),
        0 <= j < pre.owners().len(),
        pre.owners()[j] == Some(i),
    ensures
        pre.holds(i),
        pre.slot_of(i) == j,
        forall|t: int|
            0 <= t < pre.owners().len() && t != j ==> #[trigger] pre.owners()[t] != Some(i),
{
    assert(pre.holds(i));
    let c = pre.slot_of(i);
    assert(pre.owners()[c] == Some(i));
}

/// Clearing the single slot of session `i` does not change whether any other
/// session holds an endpoint.
proof fn lemma_clear_keeps_other_holds(pre: EdgeTracker, post: EdgeTracker, j: int, i: u32, k: u32)
    requires
        pre.wf(),
        0 <= j < pre.owners().len(),
        pre.owners()[j] == Some(i),
        post.owners() == pre.owners().update(j, None::<u32>),
        k != i,
    ensures
        post.holds(k) == pre.holds(k),
{
    if pre.holds(k) {
        let c = pre.slot_of(k);
        assert(pre.owners()[c] == Some(k));
        assert(c != j);
        assert(post.owners()[c] == Some(k));
    }
    if post.holds(k) {
        let c = post.slot_of(k);
        assert(post.owners()[c] == Some(k));
        assert(c != j);
        assert(pre.owners()[c] == Some(k));
    }
}

} // verus!
