//! A router profile with seed router support.
//!
//! The router manages up to `N` directly connected downstream (edge) interfaces,
//! each on a network of its own, and up to `S` seed-assigned routes for bridge
//! devices behind them. Network IDs come from one monotonic counter, so no network
//! ID is ever handed out twice.
//!
//! The router decides; it does not hold the interfaces' sinks. Its send methods
//! return which interface (by ident) gets which header, and the caller hands the
//! message to that interface. Time is given in milliseconds of a monotonic clock,
//! and refresh tokens are given by the caller, who draws them from its generator.
use vstd::prelude::*;

use crate::interface_manager::{
    InterfaceSendError, InterfaceState, SeedAssignmentError, SeedNetAssignment, SeedRefreshError,
    SendPlan, SetStateError,
};
use crate::interface_manager::profiles::direct_edge::{CENTRAL_NODE_ID, EDGE_NODE_ID};
use crate::{Address, Header, HeaderSeq};
use vstd::set_lib::{lemma_int_range, lemma_len_subset, set_int_range};

verus! {

/// Initial lease duration for a newly assigned seed net_id (seconds).
pub const INITIAL_SEED_ASSIGN_TIMEOUT: u16 = 30;

/// Maximum lease duration after refresh (seconds).
pub const MAX_SEED_ASSIGN_TIMEOUT: u16 = 120;

/// Refresh is allowed only when less than this remains of a lease (seconds).
pub const MIN_SEED_REFRESH: u16 = 62;

/// How long a revoked net_id is kept before reuse (milliseconds).
pub const TOMBSTONE_DURATION_MS: u64 = 30000;

/// Initial lease duration in milliseconds.
pub const INITIAL_SEED_ASSIGN_MS: u64 = 30000;

/// Lease duration after a refresh, in milliseconds.
pub const MAX_SEED_ASSIGN_MS: u64 = 120000;

/// The largest remaining lease, in milliseconds, at which a refresh is allowed.
pub const MIN_SEED_REFRESH_MS: u64 = 62000;

/// The latest time at which the router can be asked anything: every deadline it
/// computes must fit in a `u64`.
pub open spec fn time_ok(now: u64) -> bool {
    now + MAX_SEED_ASSIGN_MS <= u64::MAX
}

/// A directly connected downstream interface slot.
#[derive(Clone, Copy, Debug, PartialEq, Eq, Structural)]
pub struct Slot {
    /// The reusable identifier of the interface.
    pub ident: u8,
    /// The network ID assigned to this interface's link.
    pub net_id: u16,
    /// The state of the interface.
    pub state: InterfaceState,
}

/// The state of a seed-assigned route.
#[derive(Clone, Copy, Debug, PartialEq, Eq, Structural)]
pub enum SeedRouteKind {
    /// Active lease.
    Active { source_net_id: u16, expiration: u64, refresh_token: u64 },
    /// Revoked: the net_id is kept for a grace period to avoid stale routing.
    Tombstone { clear_time: u64 },
}

/// A seed-assigned route for a bridge device's downstream network.
#[derive(Clone, Copy, Debug, PartialEq, Eq, Structural)]
pub struct SeedRoute {
    /// The assigned net_id.
    pub net_id: u16,
    /// The direct interface ident through which this route is reachable.
    pub via_ident: u8,
    /// Route state.
    pub kind: SeedRouteKind,
}

/// Errors from [`NoStdRouter::register_interface`].
#[derive(Debug, PartialEq, Eq, Clone, Copy, Structural)]
pub enum RegisterError {
    /// All `N` slots are occupied.
    Full,
    /// The monotonic net_id counter has been exhausted.
    NetIdsExhausted,
}

/// Errors from [`NoStdRouter::deregister_interface`].
#[derive(Debug, PartialEq, Eq, Clone, Copy, Structural)]
pub enum DeregisterError {
    /// No interface with the given ident exists.
    NotFound,
}

/// The idents of the slots.
pub open spec fn idents_of(slots: Seq<Slot>) -> Seq<int> {
    slots.map_values(|s: Slot| s.ident as int)
}

/// Some slot has the given ident.
pub open spec fn has_ident(slots: Seq<Slot>, ident: u8) -> bool {
    exists|i: int| 0 <= i < slots.len() && slots[i].ident == ident
}

/// Some slot has the given net id.
pub open spec fn has_net(slots: Seq<Slot>, net: u16) -> bool {
    exists|i: int| 0 <= i < slots.len() && slots[i].net_id == net
}

/// The net id of the slot with the given ident (meaningful when there is one).
pub open spec fn net_of_ident(slots: Seq<Slot>, ident: u8) -> u16 {
    slots[choose|i: int| 0 <= i < slots.len() && slots[i].ident == ident].net_id
}

/// The state of the slot with the given ident (meaningful when there is one).
pub open spec fn state_of_ident(slots: Seq<Slot>, ident: u8) -> InterfaceState {
    slots[choose|i: int| 0 <= i < slots.len() && slots[i].ident == ident].state
}

/// Idents are distinct, so the slot with an ident is the one found at `i`.
proof fn lemma_slot_of_ident(slots: Seq<Slot>, ident: u8, i: int)
    requires
        0 <= i < slots.len(),
        slots[i].ident == ident,
        forall|a: int, b: int|
            0 <= a < slots.len() && 0 <= b < slots.len() && a != b ==> (#[trigger] slots[a]).ident
                != (#[trigger] slots[b]).ident,
    ensures
        has_ident(slots, ident),
        state_of_ident(slots, ident) == slots[i].state,
        net_of_ident(slots, ident) == slots[i].net_id,
{
    let k = choose|k: int| 0 <= k < slots.len() && slots[k].ident == ident;
    if k != i {
        assert(slots[k].ident != slots[i].ident);
    }
}

/// The ident of the slot with the given net id (meaningful when there is one).
pub open spec fn ident_of_net(slots: Seq<Slot>, net: u16) -> u8 {
    slots[choose|i: int| 0 <= i < slots.len() && slots[i].net_id == net].ident
}

/// Whether a seed route survives garbage collection at time `now`: active routes
/// do, tombstones until their clear time has passed.
pub open spec fn route_kept(sr: SeedRoute, now: u64) -> bool {
    match sr.kind {
        SeedRouteKind::Active { .. } => true,
        SeedRouteKind::Tombstone { clear_time } => clear_time > now,
    }
}

/// The seed routes that survive garbage collection at time `now`, in order.
pub open spec fn gc_routes(routes: Seq<SeedRoute>, now: u64) -> Seq<SeedRoute>
    decreases routes.len(),
{
    if routes.len() == 0 {
        Seq::empty()
    } else {
        let rest = gc_routes(routes.drop_last(), now);
        if route_kept(routes.last(), now) {
            rest.push(routes.last())
        } else {
            rest
        }
    }
}

/// The seed route net ids are pairwise distinct.
pub open spec fn routes_distinct(routes: Seq<SeedRoute>) -> bool {
    forall|k: int, l: int|
        0 <= k < routes.len() && 0 <= l < routes.len() && k != l ==> (#[trigger] routes[k]).net_id
            != (#[trigger] routes[l]).net_id
}

/// Garbage collection keeps a sub-collection: no more routes, each one of those
/// it was given, and distinct net ids stay distinct.
pub proof fn lemma_gc_routes(routes: Seq<SeedRoute>, now: u64)
    ensures
        gc_routes(routes, now).len() <= routes.len(),
        forall|j: int|
            0 <= j < gc_routes(routes, now).len() ==> exists|k: int|
                0 <= k < routes.len() && routes[k] == #[trigger] gc_routes(routes, now)[j],
        forall|k: int|
            0 <= k < routes.len() && route_kept(#[trigger] routes[k], now) ==> gc_routes(
                routes,
                now,
            ).contains(routes[k]),
        routes_distinct(routes) ==> routes_distinct(gc_routes(routes, now)),
    decreases routes.len(),
{
    if routes.len() > 0 {
        let init = routes.drop_last();
        lemma_gc_routes(init, now);
        let g = gc_routes(routes, now);
        let gi = gc_routes(init, now);
        assert forall|j: int| 0 <= j < g.len() implies exists|k: int|
            0 <= k < routes.len() && routes[k] == #[trigger] g[j] by {
            if j < gi.len() {
                let k = choose|k: int| 0 <= k < init.len() && init[k] == gi[j];
                assert(routes[k] == g[j]);
            } else {
                assert(routes[routes.len() - 1] == g[j]);
            }
        }
        assert forall|k: int| 0 <= k < routes.len() && route_kept(#[trigger] routes[k], now) implies g.contains(routes[k]) by {
            if k < routes.len() - 1 {
                assert(init[k] == routes[k]);
                assert(gi.contains(routes[k]));
                let j = choose|j: int| 0 <= j < gi.len() && gi[j] == routes[k];
                assert(g[j] == routes[k]);
            } else {
                assert(g[g.len() - 1] == routes[k]);
            }
        }
        if routes_distinct(routes) {
            assert(routes_distinct(init));
            assert forall|k: int, l: int|
                0 <= k < g.len() && 0 <= l < g.len() && k != l implies (#[trigger] g[k]).net_id != (
            #[trigger] g[l]).net_id by {
                if k < gi.len() && l < gi.len() {
                } else if k < gi.len() {
                    let kk = choose|kk: int| 0 <= kk < init.len() && init[kk] == gi[k];
                    assert(routes[kk] == g[k]);
                    assert(g[l] == routes[routes.len() - 1]);
                } else {
                    let ll = choose|ll: int| 0 <= ll < init.len() && init[ll] == gi[l];
                    assert(routes[ll] == g[l]);
                    assert(g[k] == routes[routes.len() - 1]);
                }
            }
        }
    }
}

/// Some seed route has the given net id.
pub open spec fn has_route(routes: Seq<SeedRoute>, net: u16) -> bool {
    exists|k: int| 0 <= k < routes.len() && routes[k].net_id == net
}

/// The index of the seed route with the given net id (meaningful when there is one).
pub open spec fn route_index(routes: Seq<SeedRoute>, net: u16) -> int {
    choose|k: int| 0 <= k < routes.len() && routes[k].net_id == net
}

/// The route as a tombstone that clears at the given time.
pub open spec fn tombstoned(sr: SeedRoute, clear_time: u64) -> SeedRoute {
    SeedRoute { kind: SeedRouteKind::Tombstone { clear_time }, ..sr }
}

/// Choosing where a unicast message goes, given the slots, the (already
/// collected) seed routes, the header, the interface it came in on and the time:
/// the ident of the interface to send it out of, or why not; and the seed routes
/// afterwards (an expired lease found on the way is turned into a tombstone).
pub open spec fn find_spec(
    slots: Seq<Slot>,
    routes: Seq<SeedRoute>,
    hdr: Header,
    source: Option<u8>,
    now: u64,
) -> (Result<u8, InterfaceSendError>, Seq<SeedRoute>) {
    let dst = hdr.dst;
    if has_net(slots, dst.network_id) {
        let id = ident_of_net(slots, dst.network_id);
        if dst.node_id == CENTRAL_NODE_ID {
            (Err(InterfaceSendError::DestinationLocal), routes)
        } else if source == Some(id) {
            (Err(InterfaceSendError::RoutingLoop), routes)
        } else {
            (Ok(id), routes)
        }
    } else if !has_route(routes, dst.network_id) {
        (Err(InterfaceSendError::NoRouteToDest), routes)
    } else {
        let k = route_index(routes, dst.network_id);
        let sr = routes[k];
        match sr.kind {
            SeedRouteKind::Tombstone { .. } => (Err(InterfaceSendError::NoRouteToDest), routes),
            SeedRouteKind::Active { expiration, .. } => {
                if expiration <= now {
                    (
                        Err(InterfaceSendError::NoRouteToDest),
                        routes.update(k, tombstoned(sr, (now + TOMBSTONE_DURATION_MS) as u64)),
                    )
                } else if source == Some(sr.via_ident) {
                    (Err(InterfaceSendError::RoutingLoop), routes)
                } else if !has_ident(slots, sr.via_ident) {
                    (Err(InterfaceSendError::NoRouteToDest), routes)
                } else {
                    (Ok(sr.via_ident), routes)
                }
            },
        }
    }
}

/// The seed routes with every route through the given interface turned into a
/// tombstone that clears at the given time.
pub open spec fn tombstone_via(routes: Seq<SeedRoute>, ident: u8, clear_time: u64) -> Seq<SeedRoute> {
    Seq::new(
        routes.len(),
        |k: int|
            if routes[k].via_ident == ident {
                tombstoned(routes[k], clear_time)
            } else {
                routes[k]
            },
    )
}

/// The header rewritten to reach the edge device of the given network.
pub open spec fn retarget(h: Header, net: u16) -> Header {
    Header { dst: Address { network_id: net, node_id: EDGE_NODE_ID, port_id: h.dst.port_id }, ..h }
}

/// The sequenced header rewritten to reach the edge device of the given network.
pub open spec fn retarget_seq(h: HeaderSeq, net: u16) -> HeaderSeq {
    HeaderSeq { dst: Address { network_id: net, node_id: EDGE_NODE_ID, port_id: h.dst.port_id }, ..h }
}

/// Where a locally originated broadcast goes: every interface, in slot order,
/// except the one on the destination's own network, each with the header
/// rewritten to reach its edge device.
pub open spec fn bcast_targets(slots: Seq<Slot>, h: Header) -> Seq<(u8, Header)>
    decreases slots.len(),
{
    if slots.len() == 0 {
        Seq::empty()
    } else {
        let rest = bcast_targets(slots.drop_last(), h);
        if slots.last().net_id == h.dst.network_id {
            rest
        } else {
            rest.push((slots.last().ident, retarget(h, slots.last().net_id)))
        }
    }
}

/// Where a forwarded broadcast goes: every interface, in slot order, except the
/// one it came in on, each with the header rewritten to reach its edge device.
pub open spec fn bcast_targets_raw(slots: Seq<Slot>, h: HeaderSeq, source: u8) -> Seq<(u8, HeaderSeq)>
    decreases slots.len(),
{
    if slots.len() == 0 {
        Seq::empty()
    } else {
        let rest = bcast_targets_raw(slots.drop_last(), h, source);
        if slots.last().ident == source {
            rest
        } else {
            rest.push((slots.last().ident, retarget_seq(h, slots.last().net_id)))
        }
    }
}

/// The assignment reported for a lease of the given net id, lasting the given
/// number of seconds, with the given token.
pub open spec fn assignment(net_id: u16, expires_seconds: u16, refresh_token: u64) -> SeedNetAssignment {
    SeedNetAssignment {
        net_id,
        expires_seconds,
        max_refresh_seconds: MAX_SEED_ASSIGN_TIMEOUT,
        min_refresh_seconds: MIN_SEED_REFRESH,
        refresh_token,
    }
}

/// Refreshing the lease of `refresh_net`, asked for by the network `source_net`
/// with token `token` at time `now`, with `new_token` as the next token: the
/// answer and the seed routes afterwards.
pub open spec fn refresh_spec(
    routes: Seq<SeedRoute>,
    source_net: u16,
    refresh_net: u16,
    token: u64,
    now: u64,
    new_token: u64,
) -> (Result<SeedNetAssignment, SeedRefreshError>, Seq<SeedRoute>) {
    if !has_route(routes, refresh_net) {
        (Err(SeedRefreshError::UnknownNetId), routes)
    } else {
        let k = route_index(routes, refresh_net);
        let sr = routes[k];
        match sr.kind {
            SeedRouteKind::Tombstone { .. } => (Err(SeedRefreshError::AlreadyExpired), routes),
            SeedRouteKind::Active { source_net_id, expiration, refresh_token } => {
                if source_net_id != source_net || refresh_token != token {
                    (Err(SeedRefreshError::BadRequest), routes)
                } else if expiration <= now {
                    (
                        Err(SeedRefreshError::AlreadyExpired),
                        routes.update(k, tombstoned(sr, (now + TOMBSTONE_DURATION_MS) as u64)),
                    )
                } else if expiration - now > MIN_SEED_REFRESH_MS {
                    (Err(SeedRefreshError::TooSoon), routes)
                } else {
                    (
                        Ok(assignment(refresh_net, MAX_SEED_ASSIGN_TIMEOUT, new_token)),
                        routes.update(
                            k,
                            SeedRoute {
                                kind: SeedRouteKind::Active {
                                    source_net_id,
                                    expiration: (now + MAX_SEED_ASSIGN_MS) as u64,
                                    refresh_token: new_token,
                                },
                                ..sr
                            },
                        ),
                    )
                }
            },
        }
    }
}

/// A `no_std` router profile with seed router capability.
pub struct NoStdRouter<const N: usize, const S: usize> {
    net_id_ctr: u16,
    slots: Vec<Slot>,
    seed_routes: Vec<SeedRoute>,
}

impl<const N: usize, const S: usize> NoStdRouter<N, S> {
    /// The registered downstream interfaces.
    pub closed spec fn slots(&self) -> Seq<Slot> {
        self.slots@
    }

    /// The seed-assigned routes.
    pub closed spec fn seed_routes(&self) -> Seq<SeedRoute> {
        self.seed_routes@
    }

    /// The next net id the counter would hand out.
    pub closed spec fn next_net_id(&self) -> u16 {
        self.net_id_ctr
    }

    /// The router's invariant: at most `N` slots and `S` seed routes; idents
    /// below `N` and distinct; every net id handed out is below the counter and
    /// distinct from every other one, among slots and seed routes alike.
    pub open spec fn wf(&self) -> bool {
        &&& N <= 255
        &&& self.slots().len() <= N
        &&& self.seed_routes().len() <= S
        &&& 1 <= self.next_net_id()
        &&& forall|i: int| 0 <= i < self.slots().len() ==> (self.slots()[i].ident as int) < N
        &&& forall|i: int|
            0 <= i < self.slots().len() ==> 1 <= #[trigger] self.slots()[i].net_id < self.next_net_id()
        &&& forall|k: int|
            0 <= k < self.seed_routes().len() ==> 1 <= #[trigger] self.seed_routes()[k].net_id
                < self.next_net_id()
        &&& forall|i: int, j: int|
            0 <= i < self.slots().len() && 0 <= j < self.slots().len() && i != j ==> (
            #[trigger] self.slots()[i]).ident != (#[trigger] self.slots()[j]).ident && self.slots()[i].net_id
                != self.slots()[j].net_id
        &&& forall|k: int, l: int|
            0 <= k < self.seed_routes().len() && 0 <= l < self.seed_routes().len() && k != l
                ==> (#[trigger] self.seed_routes()[k]).net_id != (#[trigger] self.seed_routes()[l]).net_id
        &&& forall|i: int, k: int|
            0 <= i < self.slots().len() && 0 <= k < self.seed_routes().len() ==> (
            #[trigger] self.slots()[i]).net_id != (#[trigger] self.seed_routes()[k]).net_id
    }

    /// Create a new empty router.
    pub fn new() -> (r: Self)
        requires
            N <= 255,
        ensures
            r.wf(),
            r.slots().len() == 0,
            r.seed_routes().len() == 0,
            r.next_net_id() == 1,
    {
        Self { net_id_ctr: 1, slots: Vec::new(), seed_routes: Vec::new() }
    }

    /// Allocate the next unique net_id; refused when the counter is at 0 or 65535.
    fn alloc_net_id(&mut self) -> (r: Result<u16, ()>)
        ensures
            old(self).next_net_id() == 0 || old(self).next_net_id() == u16::MAX ==> r is Err
                && final(self).next_net_id() == old(self).next_net_id(),
            old(self).next_net_id() != 0 && old(self).next_net_id() != u16::MAX ==> r
                == Ok::<u16, ()>(old(self).next_net_id()) && final(self).next_net_id()
                == old(self).next_net_id() + 1,
            final(self).slots() == old(self).slots(),
            final(self).seed_routes() == old(self).seed_routes(),
    {
        let net_id = self.net_id_ctr;
        if net_id == 0 || net_id == u16::MAX {
            return Err(());
        }
        self.net_id_ctr = net_id + 1;
        Ok(net_id)
    }

    /// Register a new downstream interface: it gets the lowest free ident and a
    /// fresh net id. Returns the ident.
    pub fn register_interface(&mut self) -> (r: Result<u8, RegisterError>)
        requires
            old(self).wf(),
        ensures
            final(self).wf(),
            final(self).seed_routes() == old(self).seed_routes(),
            old(self).slots().len() >= N ==> r == Err::<u8, RegisterError>(RegisterError::Full)
                && *final(self) == *old(self),
            old(self).slots().len() < N && old(self).next_net_id() == u16::MAX ==> r == Err::<
                u8,
                RegisterError,
            >(RegisterError::NetIdsExhausted) && final(self).slots() == old(self).slots(),
            old(self).slots().len() < N && old(self).next_net_id() < u16::MAX ==> (r matches Ok(
                ident,
            ) && !has_ident(old(self).slots(), ident) && (forall|id: u8|
                id < ident ==> has_ident(old(self).slots(), id)) && final(self).slots()
                == old(self).slots().push(
                Slot {
                    ident,
                    net_id: old(self).next_net_id(),
                    state: InterfaceState::Active {
                        net_id: old(self).next_net_id(),
                        node_id: CENTRAL_NODE_ID,
                    },
                },
            )
                && final(self).next_net_id() == old(self).next_net_id() + 1),
    {
        if self.slots.len() >= N {
            return Err(RegisterError::Full);
        }
        // Find the lowest ident in 0..N that no slot uses.
        let mut cand: u8 = 0;
        let mut found = false;
        while !found && (cand as usize) < N
            invariant
                self.wf(),
                self.slots().len() < N,
                !found ==> forall|id: u8| id < cand ==> has_ident(self.slots(), id),
                found ==> !has_ident(self.slots(), cand) && forall|id: u8|
                    id < cand ==> has_ident(self.slots(), id),
                cand as int <= N,
                found ==> (cand as int) < N,
            decreases N - cand + (if found { 0int } else { 1int }),
        {
            let mut used = false;
            let mut i: usize = 0;
            while i < self.slots.len()
                invariant
                    i <= self.slots().len(),
                    used == exists|j: int| 0 <= j < i && self.slots()[j].ident == cand,
                decreases self.slots().len() - i,
            {
                if self.slots[i].ident == cand {
                    used = true;
                }
                i = i + 1;
            }
            if used {
                cand = cand + 1;
            } else {
                found = true;
            }
        }
        if !found {
            // Every ident below N is taken, by fewer than N slots: impossible.
            proof {
                let ids = idents_of(self.slots());
                assert forall|x: int| set_int_range(0, N as int).contains(x) implies ids.to_set().contains(x) by {
                    assert(has_ident(self.slots(), x as u8));
                    let j = choose|j: int| 0 <= j < self.slots().len() && self.slots()[j].ident == x as u8;
                    assert(ids[j] == x);
                }
                lemma_int_range(0, N as int);
                ids.lemma_cardinality_of_set();
                lemma_len_subset(set_int_range(0, N as int), ids.to_set());
            }
            assert(false);
        }
        let ident = cand;
        let net_id = match self.alloc_net_id() {
            Ok(n) => n,
            Err(()) => return Err(RegisterError::NetIdsExhausted),
        };
        self.slots.push(
            Slot { ident, net_id, state: InterfaceState::Active { net_id, node_id: CENTRAL_NODE_ID } },
        );
        proof {
            let s = self.slots();
            assert forall|i: int, j: int| 0 <= i < s.len() && 0 <= j < s.len() && i != j implies (
            #[trigger] s[i]).ident != (#[trigger] s[j]).ident && s[i].net_id != s[j].net_id by {
                if i == s.len() - 1 {
                    assert(s[j] == old(self).slots()[j]);
                } else if j == s.len() - 1 {
                    assert(s[i] == old(self).slots()[i]);
                }
            }
            assert forall|i: int, k: int|
                0 <= i < s.len() && 0 <= k < self.seed_routes().len() implies (
            #[trigger] s[i]).net_id != (#[trigger] self.seed_routes()[k]).net_id by {
                if i < s.len() - 1 {
                    assert(s[i] == old(self).slots()[i]);
                }
            }
            assert forall|i: int| 0 <= i < s.len() implies 1 <= #[trigger] s[i].net_id < self.next_net_id() by {
                if i < s.len() - 1 {
                    assert(s[i] == old(self).slots()[i]);
                }
            }
        }
        Ok(ident)
    }


    /// Remove a downstream interface by ident; every seed route through it
    /// becomes a tombstone.
    pub fn deregister_interface(&mut self, ident: u8, now: u64) -> (r: Result<(), DeregisterError>)
        requires
            old(self).wf(),
            time_ok(now),
        ensures
            final(self).wf(),
            final(self).next_net_id() == old(self).next_net_id(),
            !has_ident(old(self).slots(), ident) ==> r == Err::<(), DeregisterError>(
                DeregisterError::NotFound,
            ) && *final(self) == *old(self),
            has_ident(old(self).slots(), ident) ==> r is Ok && !has_ident(final(self).slots(), ident)
                && final(self).slots().len() == old(self).slots().len() - 1 && (forall|x: Slot|
                final(self).slots().contains(x) <==> old(self).slots().contains(x) && x.ident != ident)
                && final(self).seed_routes() == tombstone_via(
                old(self).seed_routes(),
                ident,
                (now + TOMBSTONE_DURATION_MS) as u64,
            ),
            has_ident(old(self).slots(), ident) ==> exists|p: int|
                0 <= p < old(self).slots().len() && old(self).slots()[p].ident == ident
                    && final(self).slots() == old(self).slots().update(
                    p,
                    old(self).slots().last(),
                ).drop_last(),
    {
        let mut pos: usize = 0;
        while pos < self.slots.len() && self.slots[pos].ident != ident
            invariant
                pos <= self.slots().len(),
                forall|j: int| 0 <= j < pos ==> self.slots()[j].ident != ident,
            decreases self.slots().len() - pos,
        {
            pos = pos + 1;
        }
        if pos == self.slots.len() {
            return Err(DeregisterError::NotFound);
        }
        let ghost old_slots = self.slots@;
        self.slots.swap_remove(pos);
        proof {
            let s = self.slots@;
            assert forall|x: Slot| s.contains(x) <==> old_slots.contains(x) && x.ident != ident by {
                if s.contains(x) {
                    let j = choose|j: int| 0 <= j < s.len() && s[j] == x;
                    if j == pos {
                        assert(x == old_slots[old_slots.len() - 1]);
                        assert(old_slots.len() - 1 != pos);
                    } else {
                        assert(x == old_slots[j]);
                        assert(j != pos);
                    }
                }
                if old_slots.contains(x) && x.ident != ident {
                    let j = choose|j: int| 0 <= j < old_slots.len() && old_slots[j] == x;
                    assert(j != pos);
                    if j == old_slots.len() - 1 {
                        assert(s[pos as int] == x);
                    } else {
                        assert(s[j] == x);
                    }
                }
            }
            assert forall|i: int| 0 <= i < s.len() implies s[i].ident != ident by {
                assert(s.contains(s[i]));
            }
        }
        let clear_time = now + TOMBSTONE_DURATION_MS;
        let ghost old_routes = self.seed_routes@;
        let ghost slots_now = self.slots@;
        let ghost ctr = self.net_id_ctr;
        let mut k: usize = 0;
        while k < self.seed_routes.len()
            invariant
                self.slots@ == slots_now,
                self.net_id_ctr == ctr,
                slots_now == old_slots.update(pos as int, old_slots.last()).drop_last(),
                pos < old_slots.len(),
                k <= self.seed_routes@.len(),
                self.seed_routes@.len() == old_routes.len(),
                forall|j: int| k <= j < old_routes.len() ==> self.seed_routes@[j] == old_routes[j],
                forall|j: int|
                    0 <= j < k ==> self.seed_routes@[j] == (if old_routes[j].via_ident == ident {
                        tombstoned(old_routes[j], clear_time)
                    } else {
                        old_routes[j]
                    }),
            decreases self.seed_routes@.len() - k,
        {
            let sr = self.seed_routes[k];
            if sr.via_ident == ident {
                self.seed_routes.set(
                    k,
                    SeedRoute {
                        net_id: sr.net_id,
                        via_ident: sr.via_ident,
                        kind: SeedRouteKind::Tombstone { clear_time },
                    },
                );
            }
            k = k + 1;
        }
        assert(self.seed_routes@ =~= tombstone_via(old_routes, ident, clear_time));
        proof {
            let s = self.slots@;
            assert forall|i: int, j: int| 0 <= i < s.len() && 0 <= j < s.len() && i != j implies (
            #[trigger] s[i]).ident != (#[trigger] s[j]).ident && s[i].net_id != s[j].net_id by {
                let oi = if i == pos { old_slots.len() - 1 } else { i };
                let oj = if j == pos { old_slots.len() - 1 } else { j };
                assert(s[i] == old_slots[oi]);
                assert(s[j] == old_slots[oj]);
            }
            assert forall|i: int| 0 <= i < s.len() implies 1 <= #[trigger] s[i].net_id < self.next_net_id() && (s[i].ident as int) < N by {
                let oi = if i == pos { old_slots.len() - 1 } else { i };
                assert(s[i] == old_slots[oi]);
            }
            let r = self.seed_routes@;
            assert forall|a: int, b: int| 0 <= a < r.len() && 0 <= b < r.len() && a != b implies (#[trigger] r[a]).net_id != (#[trigger] r[b]).net_id by {
                assert(r[a].net_id == old_routes[a].net_id);
                assert(r[b].net_id == old_routes[b].net_id);
            }
            assert forall|i: int, a: int| 0 <= i < s.len() && 0 <= a < r.len() implies (#[trigger] s[i]).net_id != (#[trigger] r[a]).net_id by {
                let oi = if i == pos { old_slots.len() - 1 } else { i };
                assert(s[i] == old_slots[oi]);
                assert(r[a].net_id == old_routes[a].net_id);
            }
            assert forall|a: int| 0 <= a < r.len() implies 1 <= #[trigger] r[a].net_id < self.next_net_id() by {
                assert(r[a].net_id == old_routes[a].net_id);
            }
        }
        Ok(())
    }

    /// Garbage-collect tombstones whose clear time has passed.
    pub fn gc_seed_routes(&mut self, now: u64)
        requires
            old(self).wf(),
        ensures
            final(self).wf(),
            final(self).slots() == old(self).slots(),
            final(self).next_net_id() == old(self).next_net_id(),
            final(self).seed_routes() == gc_routes(old(self).seed_routes(), now),
    {
        let ghost old_routes = self.seed_routes@;
        let mut kept: Vec<SeedRoute> = Vec::new();
        let mut i: usize = 0;
        while i < self.seed_routes.len()
            invariant
                self.seed_routes@ == old_routes,
                i <= old_routes.len(),
                kept@ == gc_routes(old_routes.take(i as int), now),
            decreases old_routes.len() - i,
        {
            let sr = self.seed_routes[i];
            let keep = match sr.kind {
                SeedRouteKind::Active { .. } => true,
                SeedRouteKind::Tombstone { clear_time } => clear_time > now,
            };
            if keep {
                kept.push(sr);
            }
            assert(old_routes.take(i + 1 as int).drop_last() =~= old_routes.take(i as int));
            i = i + 1;
        }
        assert(old_routes.take(old_routes.len() as int) =~= old_routes);
        self.seed_routes = kept;
        proof {
            lemma_gc_routes(old_routes, now);
            let g = self.seed_routes@;
            assert forall|j: int| 0 <= j < g.len() implies 1 <= #[trigger] g[j].net_id < self.next_net_id() by {
                let k = choose|k: int| 0 <= k < old_routes.len() && old_routes[k] == g[j];
            }
            assert forall|i: int, j: int| 0 <= i < self.slots().len() && 0 <= j < g.len() implies (
            #[trigger] self.slots()[i]).net_id != (#[trigger] g[j]).net_id by {
                let k = choose|k: int| 0 <= k < old_routes.len() && old_routes[k] == g[j];
            }
        }
    }


    /// Find the interface to send a unicast message out of: direct links first,
    /// then seed routes (collecting expired tombstones first).
    pub fn find(&mut self, hdr: &Header, source: Option<u8>, now: u64) -> (r: Result<
        u8,
        InterfaceSendError,
    >)
        requires
            old(self).wf(),
            time_ok(now),
        ensures
            final(self).wf(),
            final(self).slots() == old(self).slots(),
            final(self).next_net_id() == old(self).next_net_id(),
            hdr.dst.port_id == 0 && hdr.any_all is None ==> r == Err::<u8, InterfaceSendError>(
                InterfaceSendError::AnyPortMissingKey,
            ) && *final(self) == *old(self),
            !(hdr.dst.port_id == 0 && hdr.any_all is None) ==> (r, final(self).seed_routes())
                == find_spec(
                old(self).slots(),
                gc_routes(old(self).seed_routes(), now),
                *hdr,
                source,
                now,
            ),
    {
        if hdr.dst.port_id == 0 && hdr.any_all.is_none() {
            return Err(InterfaceSendError::AnyPortMissingKey);
        }
        self.gc_seed_routes(now);
        let net = hdr.dst.network_id;
        let ghost slots = self.slots@;
        let ghost routes = self.seed_routes@;

        // 1. Direct link lookup
        let mut i: usize = 0;
        while i < self.slots.len() && self.slots[i].net_id != net
            invariant
                i <= self.slots().len(),
                forall|j: int| 0 <= j < i ==> self.slots()[j].net_id != net,
            decreases self.slots().len() - i,
        {
            i = i + 1;
        }
        if i < self.slots.len() {
            let slot = self.slots[i];
            proof {
                let j = choose|j: int| 0 <= j < slots.len() && slots[j].net_id == net;
                if j != i {
                    assert(slots[j].net_id != slots[i as int].net_id);
                }
            }
            if hdr.dst.node_id == CENTRAL_NODE_ID {
                return Err(InterfaceSendError::DestinationLocal);
            }
            if let Some(src_ident) = source {
                if slot.ident == src_ident {
                    return Err(InterfaceSendError::RoutingLoop);
                }
            }
            return Ok(slot.ident);
        }

        // 2. Seed route lookup
        let mut k: usize = 0;
        while k < self.seed_routes.len() && self.seed_routes[k].net_id != net
            invariant
                k <= self.seed_routes().len(),
                forall|j: int| 0 <= j < k ==> self.seed_routes()[j].net_id != net,
            decreases self.seed_routes().len() - k,
        {
            k = k + 1;
        }
        if k == self.seed_routes.len() {
            return Err(InterfaceSendError::NoRouteToDest);
        }
        proof {
            let j = route_index(routes, net);
            if j != k {
                assert(routes[j].net_id != routes[k as int].net_id);
            }
        }
        let sr = self.seed_routes[k];
        match sr.kind {
            SeedRouteKind::Active { expiration, .. } => {
                if expiration <= now {
                    self.seed_routes.set(
                        k,
                        SeedRoute {
                            net_id: sr.net_id,
                            via_ident: sr.via_ident,
                            kind: SeedRouteKind::Tombstone { clear_time: now + TOMBSTONE_DURATION_MS },
                        },
                    );
                    proof {
                        let r = self.seed_routes@;
                        assert forall|a: int, b: int| 0 <= a < r.len() && 0 <= b < r.len() && a != b implies (#[trigger] r[a]).net_id != (#[trigger] r[b]).net_id by {
                            assert(r[a].net_id == routes[a].net_id);
                            assert(r[b].net_id == routes[b].net_id);
                        }
                        assert forall|i: int, a: int| 0 <= i < self.slots().len() && 0 <= a < r.len() implies (#[trigger] self.slots()[i]).net_id != (#[trigger] r[a]).net_id by {
                            assert(r[a].net_id == routes[a].net_id);
                        }
                        assert forall|a: int| 0 <= a < r.len() implies 1 <= #[trigger] r[a].net_id < self.next_net_id() by {
                            assert(r[a].net_id == routes[a].net_id);
                        }
                    }
                    return Err(InterfaceSendError::NoRouteToDest);
                }
            },
            SeedRouteKind::Tombstone { .. } => {
                return Err(InterfaceSendError::NoRouteToDest);
            },
        }
        let via_ident = sr.via_ident;
        if let Some(src_ident) = source {
            if via_ident == src_ident {
                return Err(InterfaceSendError::RoutingLoop);
            }
        }
        let mut p: usize = 0;
        while p < self.slots.len() && self.slots[p].ident != via_ident
            invariant
                p <= self.slots().len(),
                forall|j: int| 0 <= j < p ==> self.slots()[j].ident != via_ident,
            decreases self.slots().len() - p,
        {
            p = p + 1;
        }
        if p == self.slots.len() {
            return Err(InterfaceSendError::NoRouteToDest);
        }
        Ok(via_ident)
    }


    /// Decide where a locally originated message goes. One hop is taken off its
    /// time-to-live; a message with none left has no route.
    pub fn plan_send(&mut self, hdr: &Header, now: u64) -> (r: Result<SendPlan<u8, Header>, InterfaceSendError>)
        requires
            old(self).wf(),
            time_ok(now),
        ensures
            final(self).wf(),
            final(self).slots() == old(self).slots(),
            final(self).next_net_id() == old(self).next_net_id(),
            hdr.ttl == 0 ==> r == Err::<SendPlan<u8, Header>, InterfaceSendError>(
                InterfaceSendError::NoRouteToDest,
            ) && *final(self) == *old(self),
            hdr.ttl > 0 && hdr.dst.port_id == 255 && hdr.any_all is None ==> r == Err::<
                SendPlan<u8, Header>,
                InterfaceSendError,
            >(InterfaceSendError::AnyPortMissingKey) && *final(self) == *old(self),
            hdr.ttl > 0 && hdr.dst.port_id == 255 && hdr.any_all is Some ==> *final(self) == *old(self)
                && (r matches Ok(SendPlan::Broadcast { targets, if_none_sent }) && targets@
                == bcast_targets(old(self).slots(), Header { ttl: (hdr.ttl - 1) as u8, ..*hdr })
                && if_none_sent == InterfaceSendError::NoRouteToDest),
            hdr.ttl > 0 && hdr.dst.port_id != 255 ==> ({
                let h = Header { ttl: (hdr.ttl - 1) as u8, ..*hdr };
                if h.dst.port_id == 0 && h.any_all is None {
                    r == Err::<SendPlan<u8, Header>, InterfaceSendError>(
                        InterfaceSendError::AnyPortMissingKey,
                    ) && *final(self) == *old(self)
                } else {
                    let (f, routes) = find_spec(
                        old(self).slots(),
                        gc_routes(old(self).seed_routes(), now),
                        h,
                        None,
                        now,
                    );
                    final(self).seed_routes() == routes && match f {
                        Ok(ident) => r matches Ok(SendPlan::Unicast { ident: i, hdr: x }) && i == ident
                            && x == h,
                        Err(e) => r == Err::<SendPlan<u8, Header>, InterfaceSendError>(e),
                    }
                }
            }),
    {
        let mut hdr = *hdr;
        if hdr.decrement_ttl().is_err() {
            return Err(InterfaceSendError::NoRouteToDest);
        }
        if hdr.dst.port_id == 255 {
            if hdr.any_all.is_none() {
                return Err(InterfaceSendError::AnyPortMissingKey);
            }
            let mut targets: Vec<(u8, Header)> = Vec::new();
            let mut i: usize = 0;
            while i < self.slots.len()
                invariant
                    i <= self.slots().len(),
                    targets@ == bcast_targets(self.slots().take(i as int), hdr),
                decreases self.slots().len() - i,
            {
                let slot = self.slots[i];
                assert(self.slots().take(i + 1 as int).drop_last() =~= self.slots().take(i as int));
                if hdr.dst.network_id != slot.net_id {
                    let mut bhdr = hdr;
                    bhdr.dst.network_id = slot.net_id;
                    bhdr.dst.node_id = EDGE_NODE_ID;
                    targets.push((slot.ident, bhdr));
                }
                i = i + 1;
            }
            assert(self.slots().take(self.slots().len() as int) =~= self.slots());
            Ok(SendPlan::Broadcast { targets, if_none_sent: InterfaceSendError::NoRouteToDest })
        } else {
            let ident = self.find(&hdr, None, now)?;
            Ok(SendPlan::Unicast { ident, hdr })
        }
    }

    /// Decide where a protocol error goes. One hop is taken off its time-to-live;
    /// an error with none left has no route.
    pub fn plan_send_err(&mut self, hdr: &Header, source: Option<u8>, now: u64) -> (r: Result<
        (u8, Header),
        InterfaceSendError,
    >)
        requires
            old(self).wf(),
            time_ok(now),
        ensures
            final(self).wf(),
            final(self).slots() == old(self).slots(),
            final(self).next_net_id() == old(self).next_net_id(),
            hdr.ttl == 0 ==> r == Err::<(u8, Header), InterfaceSendError>(
                InterfaceSendError::NoRouteToDest,
            ) && *final(self) == *old(self),
            hdr.ttl > 0 ==> ({
                let h = Header { ttl: (hdr.ttl - 1) as u8, ..*hdr };
                if h.dst.port_id == 0 && h.any_all is None {
                    r == Err::<(u8, Header), InterfaceSendError>(InterfaceSendError::AnyPortMissingKey)
                        && *final(self) == *old(self)
                } else {
                    let (f, routes) = find_spec(
                        old(self).slots(),
                        gc_routes(old(self).seed_routes(), now),
                        h,
                        source,
                        now,
                    );
                    final(self).seed_routes() == routes && match f {
                        Ok(ident) => r == Ok::<(u8, Header), InterfaceSendError>((ident, h)),
                        Err(e) => r == Err::<(u8, Header), InterfaceSendError>(e),
                    }
                }
            }),
    {
        let mut hdr = *hdr;
        if hdr.decrement_ttl().is_err() {
            return Err(InterfaceSendError::NoRouteToDest);
        }
        let ident = self.find(&hdr, source, now)?;
        Ok((ident, hdr))
    }

    /// Decide where a message received on interface `source` goes. One hop is
    /// taken off its time-to-live; a message with none left has no route.
    pub fn plan_send_raw(&mut self, hdr: &HeaderSeq, source: u8, now: u64) -> (r: Result<
        SendPlan<u8, HeaderSeq>,
        InterfaceSendError,
    >)
        requires
            old(self).wf(),
            time_ok(now),
        ensures
            final(self).wf(),
            final(self).slots() == old(self).slots(),
            final(self).next_net_id() == old(self).next_net_id(),
            hdr.ttl == 0 ==> r == Err::<SendPlan<u8, HeaderSeq>, InterfaceSendError>(
                InterfaceSendError::NoRouteToDest,
            ) && *final(self) == *old(self),
            hdr.ttl > 0 && hdr.dst.port_id == 255 && hdr.any_all is None ==> r == Err::<
                SendPlan<u8, HeaderSeq>,
                InterfaceSendError,
            >(InterfaceSendError::AnyPortMissingKey) && *final(self) == *old(self),
            hdr.ttl > 0 && hdr.dst.port_id == 255 && hdr.any_all is Some && old(self).slots().len()
                == 0 ==> r == Err::<SendPlan<u8, HeaderSeq>, InterfaceSendError>(
                InterfaceSendError::NoRouteToDest,
            ) && *final(self) == *old(self),
            hdr.ttl > 0 && hdr.dst.port_id == 255 && hdr.any_all is Some && old(self).slots().len()
                > 0 ==> *final(self) == *old(self) && ({
                let t = bcast_targets_raw(
                    old(self).slots(),
                    HeaderSeq { ttl: (hdr.ttl - 1) as u8, ..*hdr },
                    source,
                );
                r matches Ok(SendPlan::Broadcast { targets, if_none_sent }) && targets@ == t
                    && if_none_sent == (if t.len() == 0 {
                    InterfaceSendError::RoutingLoop
                } else {
                    InterfaceSendError::NoRouteToDest
                })
            }),
            hdr.ttl > 0 && hdr.dst.port_id != 255 ==> ({
                let h = HeaderSeq { ttl: (hdr.ttl - 1) as u8, ..*hdr };
                if h.dst.port_id == 0 && h.any_all is None {
                    r == Err::<SendPlan<u8, HeaderSeq>, InterfaceSendError>(
                        InterfaceSendError::AnyPortMissingKey,
                    ) && *final(self) == *old(self)
                } else {
                    let (f, routes) = find_spec(
                        old(self).slots(),
                        gc_routes(old(self).seed_routes(), now),
                        crate::header_of_seq(h),
                        Some(source),
                        now,
                    );
                    final(self).seed_routes() == routes && match f {
                        Ok(ident) => r matches Ok(SendPlan::Unicast { ident: i, hdr: x }) && i == ident
                            && x == h,
                        Err(e) => r == Err::<SendPlan<u8, HeaderSeq>, InterfaceSendError>(e),
                    }
                }
            }),
    {
        let mut hdr = *hdr;
        if hdr.decrement_ttl().is_err() {
            return Err(InterfaceSendError::NoRouteToDest);
        }
        if hdr.dst.port_id == 255 {
            if hdr.any_all.is_none() {
                return Err(InterfaceSendError::AnyPortMissingKey);
            }
            if self.slots.len() == 0 {
                return Err(InterfaceSendError::NoRouteToDest);
            }
            let mut default_error = InterfaceSendError::RoutingLoop;
            let mut targets: Vec<(u8, HeaderSeq)> = Vec::new();
            let mut i: usize = 0;
            while i < self.slots.len()
                invariant
                    i <= self.slots().len(),
                    targets@ == bcast_targets_raw(self.slots().take(i as int), hdr, source),
                    default_error == (if targets@.len() == 0 {
                        InterfaceSendError::RoutingLoop
                    } else {
                        InterfaceSendError::NoRouteToDest
                    }),
                decreases self.slots().len() - i,
            {
                let slot = self.slots[i];
                assert(self.slots().take(i + 1 as int).drop_last() =~= self.slots().take(i as int));
                if source != slot.ident {
                    default_error = InterfaceSendError::NoRouteToDest;
                    let mut bhdr = hdr;
                    bhdr.dst.network_id = slot.net_id;
                    bhdr.dst.node_id = EDGE_NODE_ID;
                    targets.push((slot.ident, bhdr));
                }
                i = i + 1;
            }
            assert(self.slots().take(self.slots().len() as int) =~= self.slots());
            Ok(SendPlan::Broadcast { targets, if_none_sent: default_error })
        } else {
            let nshdr: Header = Header::from(hdr);
            let ident = self.find(&nshdr, Some(source), now)?;
            Ok(SendPlan::Unicast { ident, hdr })
        }
    }


    /// Assign a new net id to a bridge behind the interface on network
    /// `source_net`, with a short first lease, so that the bridge can refresh it
    /// right away as an acknowledgement. `refresh_token` is the token for the lease.
    pub fn request_seed_net_assign(&mut self, source_net: u16, now: u64, refresh_token: u64) -> (r:
        Result<SeedNetAssignment, SeedAssignmentError>)
        requires
            old(self).wf(),
            time_ok(now),
        ensures
            final(self).wf(),
            final(self).slots() == old(self).slots(),
            ({
                let g = gc_routes(old(self).seed_routes(), now);
                if !has_net(old(self).slots(), source_net) {
                    r == Err::<SeedNetAssignment, SeedAssignmentError>(
                        SeedAssignmentError::UnknownSource,
                    ) && final(self).seed_routes() == g && final(self).next_net_id()
                        == old(self).next_net_id()
                } else if g.len() >= S || old(self).next_net_id() == u16::MAX {
                    r == Err::<SeedNetAssignment, SeedAssignmentError>(
                        SeedAssignmentError::NetIdsExhausted,
                    ) && final(self).seed_routes() == g && final(self).next_net_id()
                        == old(self).next_net_id()
                } else {
                    r == Ok::<SeedNetAssignment, SeedAssignmentError>(
                        assignment(old(self).next_net_id(), INITIAL_SEED_ASSIGN_TIMEOUT, refresh_token),
                    ) && final(self).seed_routes() == g.push(
                        SeedRoute {
                            net_id: old(self).next_net_id(),
                            via_ident: ident_of_net(old(self).slots(), source_net),
                            kind: SeedRouteKind::Active {
                                source_net_id: source_net,
                                expiration: (now + INITIAL_SEED_ASSIGN_MS) as u64,
                                refresh_token,
                            },
                        },
                    ) && final(self).next_net_id() == old(self).next_net_id() + 1
                }
            }),
    {
        self.gc_seed_routes(now);
        let mut i: usize = 0;
        while i < self.slots.len() && self.slots[i].net_id != source_net
            invariant
                i <= self.slots().len(),
                forall|j: int| 0 <= j < i ==> self.slots()[j].net_id != source_net,
            decreases self.slots().len() - i,
        {
            i = i + 1;
        }
        if i == self.slots.len() {
            return Err(SeedAssignmentError::UnknownSource);
        }
        let via_ident = self.slots[i].ident;
        proof {
            let slots = self.slots();
            let j = choose|j: int| 0 <= j < slots.len() && slots[j].net_id == source_net;
            if j != i {
                assert(slots[j].net_id != slots[i as int].net_id);
            }
        }
        if self.seed_routes.len() >= S {
            return Err(SeedAssignmentError::NetIdsExhausted);
        }
        let net_id = match self.alloc_net_id() {
            Ok(n) => n,
            Err(()) => return Err(SeedAssignmentError::NetIdsExhausted),
        };
        let expiration = now + INITIAL_SEED_ASSIGN_MS;
        let ghost routes = self.seed_routes@;
        self.seed_routes.push(
            SeedRoute {
                net_id,
                via_ident,
                kind: SeedRouteKind::Active { source_net_id: source_net, expiration, refresh_token },
            },
        );
        proof {
            let r = self.seed_routes@;
            assert forall|a: int, b: int| 0 <= a < r.len() && 0 <= b < r.len() && a != b implies (#[trigger] r[a]).net_id != (#[trigger] r[b]).net_id by {
                if a < routes.len() {
                    assert(r[a] == routes[a]);
                }
                if b < routes.len() {
                    assert(r[b] == routes[b]);
                }
            }
            assert forall|i: int, a: int| 0 <= i < self.slots().len() && 0 <= a < r.len() implies (#[trigger] self.slots()[i]).net_id != (#[trigger] r[a]).net_id by {
                if a < routes.len() {
                    assert(r[a] == routes[a]);
                }
            }
            assert forall|a: int| 0 <= a < r.len() implies 1 <= #[trigger] r[a].net_id < self.next_net_id() by {
                if a < routes.len() {
                    assert(r[a] == routes[a]);
                }
            }
        }
        Ok(
            SeedNetAssignment {
                net_id,
                expires_seconds: INITIAL_SEED_ASSIGN_TIMEOUT,
                max_refresh_seconds: MAX_SEED_ASSIGN_TIMEOUT,
                min_refresh_seconds: MIN_SEED_REFRESH,
                refresh_token,
            },
        )
    }

    /// Refresh the lease of `refresh_net` for the network `source_net`, which
    /// presents `refresh_token`. A refresh is allowed only in the last
    /// `MIN_SEED_REFRESH` seconds of a lease; it renews the lease for
    /// `MAX_SEED_ASSIGN_TIMEOUT` seconds and rotates the token to `new_token`.
    pub fn refresh_seed_net_assignment(
        &mut self,
        source_net: u16,
        refresh_net: u16,
        refresh_token: u64,
        now: u64,
        new_token: u64,
    ) -> (r: Result<SeedNetAssignment, SeedRefreshError>)
        requires
            old(self).wf(),
            time_ok(now),
        ensures
            final(self).wf(),
            final(self).slots() == old(self).slots(),
            final(self).next_net_id() == old(self).next_net_id(),
            (r, final(self).seed_routes()) == refresh_spec(
                old(self).seed_routes(),
                source_net,
                refresh_net,
                refresh_token,
                now,
                new_token,
            ),
    {
        let ghost routes = self.seed_routes@;
        let mut k: usize = 0;
        while k < self.seed_routes.len() && self.seed_routes[k].net_id != refresh_net
            invariant
                k <= self.seed_routes().len(),
                forall|j: int| 0 <= j < k ==> self.seed_routes()[j].net_id != refresh_net,
            decreases self.seed_routes().len() - k,
        {
            k = k + 1;
        }
        if k == self.seed_routes.len() {
            return Err(SeedRefreshError::UnknownNetId);
        }
        proof {
            let j = route_index(routes, refresh_net);
            if j != k {
                assert(routes[j].net_id != routes[k as int].net_id);
            }
        }
        let sr = self.seed_routes[k];
        match sr.kind {
            SeedRouteKind::Tombstone { .. } => Err(SeedRefreshError::AlreadyExpired),
            SeedRouteKind::Active { source_net_id, expiration, refresh_token: stored_token } => {
                if source_net_id != source_net || stored_token != refresh_token {
                    return Err(SeedRefreshError::BadRequest);
                }
                let new_kind = if expiration <= now {
                    SeedRouteKind::Tombstone { clear_time: now + TOMBSTONE_DURATION_MS }
                } else if expiration - now > MIN_SEED_REFRESH_MS {
                    return Err(SeedRefreshError::TooSoon);
                } else {
                    SeedRouteKind::Active {
                        source_net_id,
                        expiration: now + MAX_SEED_ASSIGN_MS,
                        refresh_token: new_token,
                    }
                };
                self.seed_routes.set(k, SeedRoute { net_id: sr.net_id, via_ident: sr.via_ident, kind: new_kind });
                proof {
                    let r = self.seed_routes@;
                    assert forall|a: int, b: int| 0 <= a < r.len() && 0 <= b < r.len() && a != b implies (#[trigger] r[a]).net_id != (#[trigger] r[b]).net_id by {
                        assert(r[a].net_id == routes[a].net_id);
                        assert(r[b].net_id == routes[b].net_id);
                    }
                    assert forall|i: int, a: int| 0 <= i < self.slots().len() && 0 <= a < r.len() implies (#[trigger] self.slots()[i]).net_id != (#[trigger] r[a]).net_id by {
                        assert(r[a].net_id == routes[a].net_id);
                    }
                    assert forall|a: int| 0 <= a < r.len() implies 1 <= #[trigger] r[a].net_id < self.next_net_id() by {
                        assert(r[a].net_id == routes[a].net_id);
                    }
                }
                if expiration <= now {
                    return Err(SeedRefreshError::AlreadyExpired);
                }
                Ok(
                    SeedNetAssignment {
                        net_id: refresh_net,
                        expires_seconds: MAX_SEED_ASSIGN_TIMEOUT,
                        max_refresh_seconds: MAX_SEED_ASSIGN_TIMEOUT,
                        min_refresh_seconds: MIN_SEED_REFRESH,
                        refresh_token: new_token,
                    },
                )
            },
        }
    }

    /// Get the net_id for a given ident, if it exists.
    pub fn net_id_of(&self, ident: u8) -> (r: Option<u16>)
        requires
            self.wf(),
        ensures
            has_ident(self.slots(), ident) ==> r == Some(net_of_ident(self.slots(), ident)),
            !has_ident(self.slots(), ident) ==> r is None,
    {
        let mut i: usize = 0;
        while i < self.slots.len()
            invariant
                self.wf(),
                i <= self.slots().len(),
                forall|j: int| 0 <= j < i ==> self.slots()[j].ident != ident,
            decreases self.slots().len() - i,
        {
            if self.slots[i].ident == ident {
                proof {
                    let k = choose|k: int| 0 <= k < self.slots().len() && self.slots()[k].ident == ident;
                    if k != i {
                        assert(self.slots()[k].ident != self.slots()[i as int].ident);
                    }
                }
                return Some(self.slots[i].net_id);
            }
            i = i + 1;
        }
        None
    }

    /// The position of the slot with the given ident, if any.
    fn slot_position(&self, ident: u8) -> (r: Option<usize>)
        requires
            self.wf(),
        ensures
            match r {
                Some(i) => i < self.slots().len() && self.slots()[i as int].ident == ident,
                None => !has_ident(self.slots(), ident),
            },
    {
        let mut i: usize = 0;
        while i < self.slots.len()
            invariant
                i <= self.slots().len(),
                forall|j: int| 0 <= j < i ==> self.slots()[j].ident != ident,
            decreases self.slots().len() - i,
        {
            if self.slots[i].ident == ident {
                return Some(i);
            }
            i = i + 1;
        }
        None
    }

    /// The state of the interface with the given ident, if it is registered.
    pub fn interface_state(&self, ident: u8) -> (r: Option<InterfaceState>)
        requires
            self.wf(),
        ensures
            has_ident(self.slots(), ident) ==> r == Some(state_of_ident(self.slots(), ident)),
            !has_ident(self.slots(), ident) ==> r is None,
    {
        match self.slot_position(ident) {
            Some(i) => {
                proof {
                    lemma_slot_of_ident(self.slots(), ident, i as int);
                }
                Some(self.slots[i].state)
            },
            None => None,
        }
    }

    /// Set the state of the interface with the given ident; an unknown ident is
    /// refused. Nothing else changes.
    pub fn set_interface_state(&mut self, ident: u8, state: InterfaceState) -> (r: Result<
        (),
        SetStateError,
    >)
        requires
            old(self).wf(),
        ensures
            final(self).wf(),
            final(self).seed_routes() == old(self).seed_routes(),
            final(self).next_net_id() == old(self).next_net_id(),
            has_ident(old(self).slots(), ident) ==> r is Ok && exists|i: int|
                0 <= i < old(self).slots().len() && old(self).slots()[i].ident == ident
                    && final(self).slots() == old(self).slots().update(
                    i,
                    Slot { state, ..old(self).slots()[i] },
                ),
            !has_ident(old(self).slots(), ident) ==> r == Err::<(), SetStateError>(
                SetStateError::InterfaceNotFound,
            ) && final(self).slots() == old(self).slots(),
    {
        match self.slot_position(ident) {
            Some(i) => {
                let old_slot = self.slots[i];
                let ghost before = self.slots@;
                self.slots.set(i, Slot { state, ..old_slot });
                proof {
                    assert(self.slots@ == before.update(i as int, Slot { state, ..before[i as int] }));
                    assert forall|a: int, b: int|
                        0 <= a < self.slots().len() && 0 <= b < self.slots().len() && a != b implies (
                        #[trigger] self.slots()[a]).ident != (#[trigger] self.slots()[b]).ident
                            && self.slots()[a].net_id != self.slots()[b].net_id by {
                        assert(before[a].ident != before[b].ident);
                    }
                    assert forall|a: int, k: int|
                        0 <= a < self.slots().len() && 0 <= k < self.seed_routes().len() implies (
                        #[trigger] self.slots()[a]).net_id != (#[trigger] self.seed_routes()[k]).net_id by {
                        assert(before[a].net_id == self.slots()[a].net_id);
                    }
                }
                Ok(())
            },
            None => Err(SetStateError::InterfaceNotFound),
        }
    }
}

/// Frame processor for the router's links: each knows its pre-assigned net id
/// and does no net id discovery.
#[derive(Debug, Clone, Copy, PartialEq, Eq, Structural)]
pub struct RouterFrameProcessor {
    net_id: u16,
}

impl RouterFrameProcessor {
    /// The net id of the processor's link.
    pub closed spec fn spec_net_id(&self) -> u16 {
        self.net_id
    }

    /// A processor for the link with the given pre-assigned net id.
    pub fn new(net_id: u16) -> (r: Self)
        ensures
            r.spec_net_id() == net_id,
    {
        Self { net_id }
    }

    /// The net id of the processor's link.
    pub fn net_id(&self) -> (r: u16)
        ensures
            r == self.spec_net_id(),
    {
        self.net_id
    }

    /// Process the header of one received frame, as
    /// [`router_frame_spec`](crate::interface_manager::profiles::direct_router::router_frame_spec)
    /// says for this link's net id.
    pub fn process_frame(&self, hdr: &HeaderSeq) -> (r: Option<HeaderSeq>)
        ensures
            r == crate::interface_manager::profiles::direct_router::router_frame_spec(
                self.spec_net_id(),
                *hdr,
            ),
    {
        process_frame(self.net_id, hdr)
    }

    /// Forget what was learned from the link: the net id is pre-assigned, so
    /// nothing changes.
    pub fn reset(&mut self)
        ensures
            *final(self) == *old(self),
    {
    }
}

/// Process the header of one frame received on the link with network `net_id`,
/// as [`router_frame_spec`](crate::interface_manager::profiles::direct_router::router_frame_spec)
/// says.
pub fn process_frame(net_id: u16, hdr: &HeaderSeq) -> (r: Option<HeaderSeq>)
    ensures
        r == crate::interface_manager::profiles::direct_router::router_frame_spec(net_id, *hdr),
{
    crate::interface_manager::profiles::direct_router::process_frame(net_id, hdr)
}

} // verus!

verus! {

/// A lease can be refreshed with its token by the network it was assigned
/// through, once no more than `MIN_SEED_REFRESH` seconds of it remain (a first
/// lease of `INITIAL_SEED_ASSIGN_TIMEOUT` seconds qualifies at once), and the
/// refresh renews it for `MAX_SEED_ASSIGN_TIMEOUT` seconds with the new token.
pub proof fn lemma_lease_refresh_succeeds(
    routes: Seq<SeedRoute>,
    net_id: u16,
    via_ident: u8,
    source_net: u16,
    expiration: u64,
    token: u64,
    now: u64,
    new_token: u64,
)
    requires
        routes_distinct(routes),
        !has_route(routes, net_id),
        now < expiration,
        expiration - now <= MIN_SEED_REFRESH_MS,
        time_ok(now),
    ensures
        ({
            let lease = SeedRoute {
                net_id,
                via_ident,
                kind: SeedRouteKind::Active { source_net_id: source_net, expiration, refresh_token: token },
            };
            refresh_spec(routes.push(lease), source_net, net_id, token, now, new_token) == (
                Ok::<SeedNetAssignment, SeedRefreshError>(
                    assignment(net_id, MAX_SEED_ASSIGN_TIMEOUT, new_token),
                ),
                routes.push(
                    SeedRoute {
                        net_id,
                        via_ident,
                        kind: SeedRouteKind::Active {
                            source_net_id: source_net,
                            expiration: (now + MAX_SEED_ASSIGN_MS) as u64,
                            refresh_token: new_token,
                        },
                    },
                ),
            )
        }),
{
    let lease = SeedRoute {
        net_id,
        via_ident,
        kind: SeedRouteKind::Active { source_net_id: source_net, expiration, refresh_token: token },
    };
    let rs = routes.push(lease);
    assert(rs[routes.len() as int].net_id == net_id);
    let k = route_index(rs, net_id);
    if k != routes.len() {
        assert(rs[k] == routes[k]);
        assert(has_route(routes, net_id));
    }
    assert(rs.update(
        k,
        SeedRoute {
            kind: SeedRouteKind::Active {
                source_net_id: source_net,
                expiration: (now + MAX_SEED_ASSIGN_MS) as u64,
                refresh_token: new_token,
            },
            ..lease
        },
    ) =~= routes.push(
        SeedRoute {
            net_id,
            via_ident,
            kind: SeedRouteKind::Active {
                source_net_id: source_net,
                expiration: (now + MAX_SEED_ASSIGN_MS) as u64,
                refresh_token: new_token,
            },
        },
    ));
}

/// A refresh that presents a token other than the lease's, or that comes from
/// another network than the one the lease was assigned through, is refused as a
/// bad request and changes nothing.
pub proof fn lemma_refresh_wrong_token_refused(
    routes: Seq<SeedRoute>,
    k: int,
    source_net: u16,
    token: u64,
    now: u64,
    new_token: u64,
)
    requires
        routes_distinct(routes),
        0 <= k < routes.len(),
        routes[k].kind matches SeedRouteKind::Active { source_net_id, refresh_token, .. } && (
        source_net_id != source_net || refresh_token != token),
    ensures
        refresh_spec(routes, source_net, routes[k].net_id, token, now, new_token) == (
            Err::<SeedNetAssignment, SeedRefreshError>(SeedRefreshError::BadRequest),
            routes,
        ),
{
    let j = route_index(routes, routes[k].net_id);
    if j != k {
        assert(routes[j].net_id != routes[k].net_id);
    }
}

/// A refresh that comes while more than `MIN_SEED_REFRESH` seconds of the lease
/// remain is refused as too soon and changes nothing; so right after a refresh,
/// which renews the lease for longer than that, the next one is too soon.
pub proof fn lemma_refresh_too_soon(
    routes: Seq<SeedRoute>,
    k: int,
    source_net: u16,
    token: u64,
    now: u64,
    new_token: u64,
)
    requires
        routes_distinct(routes),
        0 <= k < routes.len(),
        routes[k].kind matches SeedRouteKind::Active { source_net_id, refresh_token, expiration } && (
        source_net_id == source_net && refresh_token == token && expiration > now && expiration - now
            > MIN_SEED_REFRESH_MS),
    ensures
        refresh_spec(routes, source_net, routes[k].net_id, token, now, new_token) == (
            Err::<SeedNetAssignment, SeedRefreshError>(SeedRefreshError::TooSoon),
            routes,
        ),
{
    let j = route_index(routes, routes[k].net_id);
    if j != k {
        assert(routes[j].net_id != routes[k].net_id);
    }
}

/// A run-out lease cannot be refreshed: a refresh with the right source and
/// token of an active lease whose expiration is at or before `now` is refused as
/// already expired, and the lease becomes a tombstone that clears
/// `TOMBSTONE_DURATION_MS` after `now`; nothing else changes.
pub proof fn lemma_expired_lease_not_refreshed(
    routes: Seq<SeedRoute>,
    k: int,
    source_net: u16,
    token: u64,
    now: u64,
    new_token: u64,
)
    requires
        routes_distinct(routes),
        0 <= k < routes.len(),
        routes[k].kind matches SeedRouteKind::Active { source_net_id, refresh_token, expiration } && (
        source_net_id == source_net && refresh_token == token && expiration <= now),
    ensures
        refresh_spec(routes, source_net, routes[k].net_id, token, now, new_token) == (
            Err::<SeedNetAssignment, SeedRefreshError>(SeedRefreshError::AlreadyExpired),
            routes.update(
                k,
                SeedRoute {
                    kind: SeedRouteKind::Tombstone { clear_time: (now + TOMBSTONE_DURATION_MS) as u64 },
                    ..routes[k]
                },
            ),
        ),
{
    let j = route_index(routes, routes[k].net_id);
    if j != k {
        assert(routes[j].net_id != routes[k].net_id);
    }
}

/// A refresh succeeds only for a lease that is still running: whenever it gives
/// `Ok`, the refreshed network has an active lease, held by the asking network
/// with the presented token, that runs out after `now`, and the answer is for
/// that network with the new token.
pub proof fn lemma_refresh_ok_only_live(
    routes: Seq<SeedRoute>,
    source_net: u16,
    refresh_net: u16,
    token: u64,
    now: u64,
    new_token: u64,
)
    requires
        refresh_spec(routes, source_net, refresh_net, token, now, new_token).0 is Ok,
    ensures
        exists|k: int|
            0 <= k < routes.len() && routes[k].net_id == refresh_net && (routes[k].kind matches SeedRouteKind::Active {
                source_net_id,
                refresh_token,
                expiration,
            } && source_net_id == source_net && refresh_token == token && now < expiration),
        refresh_spec(routes, source_net, refresh_net, token, now, new_token).0 matches Ok(a) && a.net_id
            == refresh_net && a.refresh_token == new_token,
{
    let k = route_index(routes, refresh_net);
    assert(0 <= k < routes.len() && routes[k].net_id == refresh_net);
}

/// A live seed lease routes: a message for any node of a seed-assigned network
/// whose lease has not run out, and whose interface is registered and is not
/// the one the message came in on, goes out of that interface. The router's own
/// address is on its links' networks only, so even node `CENTRAL_NODE_ID` of a
/// seed network is reached through the interface.
pub proof fn lemma_seed_route_delivers<const N: usize, const S: usize>(
    r: NoStdRouter<N, S>,
    k: int,
    hdr: Header,
    source: Option<u8>,
    now: u64,
)
    requires
        r.wf(),
        0 <= k < r.seed_routes().len(),
        r.seed_routes()[k].kind matches SeedRouteKind::Active { expiration, .. } && now < expiration,
        has_ident(r.slots(), r.seed_routes()[k].via_ident),
        hdr.dst.network_id == r.seed_routes()[k].net_id,
        source != Some(r.seed_routes()[k].via_ident),
    ensures
        find_spec(r.slots(), r.seed_routes(), hdr, source, now).0 == Ok::<u8, InterfaceSendError>(
            r.seed_routes()[k].via_ident,
        ),
{
    let routes = r.seed_routes();
    let slots = r.slots();
    if has_net(slots, hdr.dst.network_id) {
        let i = choose|i: int| 0 <= i < slots.len() && slots[i].net_id == hdr.dst.network_id;
        assert(slots[i].net_id != routes[k].net_id);
    }
    let j = route_index(routes, routes[k].net_id);
    if j != k {
        assert(routes[j].net_id != routes[k].net_id);
    }
}

/// A message is taken as addressed to the router itself only when it is for
/// node `CENTRAL_NODE_ID` of the network of one of the router's own slots.
pub proof fn lemma_destination_local_only_on_slots(
    slots: Seq<Slot>,
    routes: Seq<SeedRoute>,
    hdr: Header,
    source: Option<u8>,
    now: u64,
)
    requires
        find_spec(slots, routes, hdr, source, now).0 == Err::<u8, InterfaceSendError>(
            InterfaceSendError::DestinationLocal,
        ),
    ensures
        hdr.dst.node_id == CENTRAL_NODE_ID,
        exists|i: int| 0 <= i < slots.len() && slots[i].net_id == hdr.dst.network_id,
{
}

/// The lease chain: a lease just granted (by a seed request at `t`, with token
/// `a`, for `INITIAL_SEED_ASSIGN_TIMEOUT` seconds) is refreshed by its holder at
/// any `t2` before it runs out, for `MAX_SEED_ASSIGN_TIMEOUT` seconds with the new
/// token `b`; until more than `MIN_SEED_REFRESH` seconds of that have passed, a
/// second refresh with `b` is too soon, and one with the old token `a` (when it
/// differs from `b`) is refused: the token rotates, and an old one cannot be
/// replayed. Nothing changes on a refused refresh.
pub proof fn lemma_lease_chain(
    routes: Seq<SeedRoute>,
    net_id: u16,
    via_ident: u8,
    source_net: u16,
    t: u64,
    a: u64,
    t2: u64,
    b: u64,
    t3: u64,
    c: u64,
)
    requires
        routes_distinct(routes),
        !has_route(routes, net_id),
        time_ok(t2),
        t <= t2 < t + INITIAL_SEED_ASSIGN_MS,
        t2 <= t3 < t2 + (MAX_SEED_ASSIGN_MS - MIN_SEED_REFRESH_MS),
    ensures
        ({
            let lease = SeedRoute {
                net_id,
                via_ident,
                kind: SeedRouteKind::Active {
                    source_net_id: source_net,
                    expiration: (t + INITIAL_SEED_ASSIGN_MS) as u64,
                    refresh_token: a,
                },
            };
            let renewed = routes.push(
                SeedRoute {
                    net_id,
                    via_ident,
                    kind: SeedRouteKind::Active {
                        source_net_id: source_net,
                        expiration: (t2 + MAX_SEED_ASSIGN_MS) as u64,
                        refresh_token: b,
                    },
                },
            );
            &&& refresh_spec(routes.push(lease), source_net, net_id, a, t2, b) == (
                Ok::<SeedNetAssignment, SeedRefreshError>(
                    assignment(net_id, MAX_SEED_ASSIGN_TIMEOUT, b),
                ),
                renewed,
            )
            &&& refresh_spec(renewed, source_net, net_id, b, t3, c) == (
                Err::<SeedNetAssignment, SeedRefreshError>(SeedRefreshError::TooSoon),
                renewed,
            )
            &&& a != b ==> refresh_spec(renewed, source_net, net_id, a, t3, c) == (
                Err::<SeedNetAssignment, SeedRefreshError>(SeedRefreshError::BadRequest),
                renewed,
            )
        }),
{
    lemma_lease_refresh_succeeds(
        routes,
        net_id,
        via_ident,
        source_net,
        (t + INITIAL_SEED_ASSIGN_MS) as u64,
        a,
        t2,
        b,
    );
    let renewed = routes.push(
        SeedRoute {
            net_id,
            via_ident,
            kind: SeedRouteKind::Active {
                source_net_id: source_net,
                expiration: (t2 + MAX_SEED_ASSIGN_MS) as u64,
                refresh_token: b,
            },
        },
    );
    let k = routes.len() as int;
    assert forall|i: int, j: int|
        0 <= i < renewed.len() && 0 <= j < renewed.len() && i != j implies (#[trigger] renewed[i]).net_id
        != (#[trigger] renewed[j]).net_id by {
        if i < k && j < k {
            assert(renewed[i] == routes[i] && renewed[j] == routes[j]);
        } else if i < k {
            assert(renewed[i] == routes[i]);
        } else {
            assert(renewed[j] == routes[j]);
        }
    }
    assert(renewed[k].net_id == net_id);
    lemma_refresh_too_soon(renewed, k, source_net, b, t3, c);
    if a != b {
        lemma_refresh_wrong_token_refused(renewed, k, source_net, a, t3, c);
    }
}

/// A forwarded broadcast is never sent back out of the interface it came in on,
/// and every copy is addressed to the edge device of its interface's network.
pub proof fn lemma_broadcast_not_back_to_source(slots: Seq<Slot>, h: HeaderSeq, source: u8)
    ensures
        forall|t: int|
            0 <= t < bcast_targets_raw(slots, h, source).len() ==> (#[trigger] bcast_targets_raw(
                slots,
                h,
                source,
            )[t]).0 != source && bcast_targets_raw(slots, h, source)[t].1.dst.node_id == EDGE_NODE_ID,
    decreases slots.len(),
{
    if slots.len() > 0 {
        lemma_broadcast_not_back_to_source(slots.drop_last(), h, source);
    }
}

/// A locally originated broadcast is never sent to the network it is addressed
/// to, and every copy is addressed to the edge device of another network.
pub proof fn lemma_broadcast_skips_destination_net(slots: Seq<Slot>, h: Header)
    ensures
        forall|t: int|
            0 <= t < bcast_targets(slots, h).len() ==> (#[trigger] bcast_targets(slots, h)[t]).1.dst.network_id
                != h.dst.network_id && bcast_targets(slots, h)[t].1.dst.node_id == EDGE_NODE_ID,
    decreases slots.len(),
{
    if slots.len() > 0 {
        lemma_broadcast_skips_destination_net(slots.drop_last(), h);
    }
}

} // verus!
