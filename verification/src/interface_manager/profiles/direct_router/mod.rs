//! The Direct Router profile.
//!
//! A simple router that manages several directly connected edge devices, each on
//! a network of its own. It routes messages between its edge devices and between
//! itself and them, and acts as a seed router for bridges behind its edge devices.
//! It does not do multi-hop routing.
//!
//! The router decides; it does not hold the interfaces' sinks. Its send methods
//! return which interface (by ident) gets which header, and the caller hands the
//! message to that interface. Time is given in milliseconds of a monotonic clock,
//! and refresh tokens are given by the caller, who draws them from its generator.
//!
//! The routing table is kept ordered by net id, which is what makes the net id
//! search find the lowest free id.
use vstd::prelude::*;

pub mod nusb_0_1;
pub mod tokio_serial_5;
pub mod tokio_stream;
pub mod tokio_tcp;
pub mod tokio_udp;

use crate::interface_manager::profiles::direct_edge::{CENTRAL_NODE_ID, EDGE_NODE_ID};
use crate::interface_manager::profiles::no_std_router::{
    assignment, retarget, retarget_seq, time_ok,
    INITIAL_SEED_ASSIGN_MS, INITIAL_SEED_ASSIGN_TIMEOUT, MAX_SEED_ASSIGN_MS,
    MAX_SEED_ASSIGN_TIMEOUT, MIN_SEED_REFRESH_MS, TOMBSTONE_DURATION_MS,
};
use crate::interface_manager::{
    DeregisterError, InterfaceSendError, InterfaceState, SeedAssignmentError, SeedNetAssignment, SeedRefreshError,
    SendPlan, SetStateError,
};
use crate::{Address, Header, HeaderSeq};

verus! {

/// The largest number of routes (and so of net ids) the router hands out.
pub const MAX_ROUTES: usize = 65534;

/// The kind of a route.
#[derive(Clone, Copy, Debug, PartialEq, Eq, Structural)]
pub enum RouteKind {
    /// The network of a directly connected edge device, assigned by us.
    DirectAssigned,
    /// A network assigned by us as a seed router, leased until `expiration_time`.
    SeedAssigned { source_net_id: u16, expiration_time: u64, refresh_token: u64 },
    /// An inactive network, kept out of use until `clear_time`.
    Tombstone { clear_time: u64 },
}

/// One entry of the routing table.
#[derive(Clone, Copy, Debug, PartialEq, Eq, Structural)]
pub struct Route {
    /// The network this route leads to.
    pub net_id: u16,
    /// The interface through which the network is reached.
    pub ident: u64,
    /// The kind of the route.
    pub kind: RouteKind,
}

/// A directly connected interface.
#[derive(Clone, Copy, Debug, PartialEq, Eq, Structural)]
pub struct Link {
    /// The interface's identifier, never reused.
    pub ident: u64,
    /// The network of the interface's link.
    pub net_id: u16,
    /// The state of the interface.
    pub state: InterfaceState,
}

/// The routing table is ordered by net id, without repeats, and every net id in it
/// lies in `1..=65534`.
pub open spec fn routes_sorted(routes: Seq<Route>) -> bool {
    &&& forall|i: int, j: int|
        #![trigger routes[i], routes[j]]
        0 <= i < j < routes.len() ==> routes[i].net_id < routes[j].net_id
    &&& forall|i: int| 0 <= i < routes.len() ==> 1 <= #[trigger] routes[i].net_id <= 65534
}

/// Some route leads to the given network.
pub open spec fn has_route(routes: Seq<Route>, net: u16) -> bool {
    exists|k: int| 0 <= k < routes.len() && routes[k].net_id == net
}

/// The position of the route to the given network (meaningful when there is one).
pub open spec fn route_idx(routes: Seq<Route>, net: u16) -> int {
    choose|k: int| 0 <= k < routes.len() && routes[k].net_id == net
}

/// Some link has the given ident.
pub open spec fn has_link(links: Seq<Link>, ident: u64) -> bool {
    exists|i: int| 0 <= i < links.len() && links[i].ident == ident
}

/// The link with the given ident (meaningful when there is one).
pub open spec fn link_of(links: Seq<Link>, ident: u64) -> Link {
    links[choose|i: int| 0 <= i < links.len() && links[i].ident == ident]
}

/// The route made into a tombstone that clears at the given time.
pub open spec fn tombstoned(r: Route, clear_time: u64) -> Route {
    Route { kind: RouteKind::Tombstone { clear_time }, ..r }
}

/// A seed lease that has run out by `now` becomes a tombstone for the grace
/// period; any other route stays as it is.
pub open spec fn expire(r: Route, now: u64) -> Route {
    match r.kind {
        RouteKind::SeedAssigned { expiration_time, .. } => {
            if expiration_time <= now {
                tombstoned(r, (now + TOMBSTONE_DURATION_MS) as u64)
            } else {
                r
            }
        },
        _ => r,
    }
}

/// A tombstone whose grace period is over by `now`: its net id can be reused.
pub open spec fn reclaimable(r: Route, now: u64) -> bool {
    match r.kind {
        RouteKind::Tombstone { clear_time } => clear_time <= now,
        _ => false,
    }
}

/// From position `i` on, the end of the run of routes numbered `i + 1, i + 2, ...`:
/// the first position whose route does not carry its position plus one.
pub open spec fn run_end(routes: Seq<Route>, i: nat) -> nat
    decreases routes.len() - i,
{
    if i < routes.len() && routes[i as int].net_id == i + 1 {
        run_end(routes, i + 1)
    } else {
        i
    }
}

/// The net id search looks at each route of the run that starts the table, and at
/// the route just after it: the first of these that is a reclaimable tombstone,
/// from position `i` on.
pub open spec fn first_reclaim(routes: Seq<Route>, now: u64, i: nat) -> Option<nat>
    decreases routes.len() - i,
{
    if i >= routes.len() {
        None
    } else if reclaimable(routes[i as int], now) {
        Some(i)
    } else if routes[i as int].net_id == i + 1 {
        first_reclaim(routes, now, i + 1)
    } else {
        None
    }
}

/// The routes with the leases among the first `n` expired at `now`.
pub open spec fn expire_upto(routes: Seq<Route>, now: u64, n: int) -> Seq<Route> {
    Seq::new(routes.len(), |i: int| if i < n { expire(routes[i], now) } else { routes[i] })
}

/// Finding a free net id at time `now`: the id, or `None` when all are taken, and
/// the table afterwards. The search walks the run of routes numbered `1, 2, ...`
/// and the route just after it, turning run-out leases into tombstones. The first
/// reclaimable tombstone it meets is removed and its id reused; without one, the
/// id is the one just after the run, which is the lowest id not in use.
pub open spec fn free_net_spec(routes: Seq<Route>, now: u64) -> (Option<u16>, Seq<Route>) {
    if routes.len() == 0 {
        (Some(1u16), routes)
    } else if routes.len() == MAX_ROUTES {
        (None, routes)
    } else {
        match first_reclaim(routes, now, 0) {
            Some(e) => (
                Some(routes[e as int].net_id),
                expire_upto(routes, now, e as int).remove(e as int),
            ),
            None => {
                let p = run_end(routes, 0);
                (Some((p + 1) as u16), expire_upto(routes, now, p + 1 as int))
            },
        }
    }
}

/// The route of the directly connected link.
pub open spec fn link_route(l: Link) -> Route {
    Route { net_id: l.net_id, ident: l.ident, kind: RouteKind::DirectAssigned }
}

/// In an ordered table, each route's net id is at least its position plus one.
pub proof fn lemma_sorted_ids_above_positions(routes: Seq<Route>, i: int)
    requires
        routes_sorted(routes),
        0 <= i < routes.len(),
    ensures
        routes[i].net_id >= i + 1,
    decreases i,
{
    if i > 0 {
        lemma_sorted_ids_above_positions(routes, i - 1);
        assert(routes[i - 1].net_id < routes[i].net_id);
    }
}

/// An ordered table holds at most `MAX_ROUTES` routes.
pub proof fn lemma_sorted_len(routes: Seq<Route>)
    requires
        routes_sorted(routes),
    ensures
        routes.len() <= MAX_ROUTES,
{
    if routes.len() > 0 {
        lemma_sorted_ids_above_positions(routes, routes.len() - 1);
    }
}

/// The run that starts at position `i` ends between `i` and the end of the table;
/// inside it each route carries its position plus one, and the route just after
/// it (if any) does not.
pub proof fn lemma_run_end(routes: Seq<Route>, i: nat)
    requires
        i <= routes.len(),
    ensures
        i <= run_end(routes, i) <= routes.len(),
        forall|j: int| i <= j < run_end(routes, i) ==> #[trigger] routes[j].net_id == j + 1,
        run_end(routes, i) < routes.len() ==> routes[run_end(routes, i) as int].net_id != run_end(
            routes,
            i,
        ) + 1,
    decreases routes.len() - i,
{
    if i < routes.len() && routes[i as int].net_id == i + 1 {
        lemma_run_end(routes, i + 1);
    }
}

/// A seed lease that has run out by `now`.
pub open spec fn lease_over(r: Route, now: u64) -> bool {
    match r.kind {
        RouteKind::SeedAssigned { expiration_time, .. } => expiration_time <= now,
        _ => false,
    }
}

/// Choosing where a unicast message goes, given the links, the table, the
/// header, the interface it came in on and the time: the ident of the interface
/// to send it out of, or why not; and the table afterwards. A run-out lease met on
/// the way becomes a tombstone; a tombstone whose grace period is over, or a route
/// whose interface is gone, is removed.
pub open spec fn find_spec(
    links: Seq<Link>,
    routes: Seq<Route>,
    hdr: Header,
    source: Option<u64>,
    now: u64,
) -> (Result<u64, InterfaceSendError>, Seq<Route>) {
    let dst = hdr.dst;
    if dst.port_id == 0 && hdr.any_all is None {
        (Err(InterfaceSendError::AnyPortMissingKey), routes)
    } else if !has_route(routes, dst.network_id) {
        (Err(InterfaceSendError::NoRouteToDest), routes)
    } else {
        let k = route_idx(routes, dst.network_id);
        let r = routes[k];
        if r.kind is Tombstone {
            (
                Err(InterfaceSendError::NoRouteToDest),
                if reclaimable(r, now) {
                    routes.remove(k)
                } else {
                    routes
                },
            )
        } else if lease_over(r, now) {
            (Err(InterfaceSendError::NoRouteToDest), routes.update(k, expire(r, now)))
        } else if !has_link(links, r.ident) {
            (Err(InterfaceSendError::NoRouteToDest), routes.remove(k))
        } else {
            let l = link_of(links, r.ident);
            if dst.network_id == l.net_id && dst.node_id == CENTRAL_NODE_ID {
                (Err(InterfaceSendError::DestinationLocal), routes)
            } else if source == Some(l.ident) {
                (Err(InterfaceSendError::RoutingLoop), routes)
            } else {
                (Ok(l.ident), routes)
            }
        }
    }
}

/// Where a locally originated broadcast goes: every link, in order, except the
/// one on the destination's own network, each with the header rewritten to reach
/// its edge device.
pub open spec fn link_bcast(links: Seq<Link>, h: Header) -> Seq<(u64, Header)>
    decreases links.len(),
{
    if links.len() == 0 {
        Seq::empty()
    } else {
        let rest = link_bcast(links.drop_last(), h);
        if links.last().net_id == h.dst.network_id {
            rest
        } else {
            rest.push((links.last().ident, retarget(h, links.last().net_id)))
        }
    }
}

/// Where a forwarded broadcast goes: every link, in order, except the one it came
/// in on, each with the header rewritten to reach its edge device.
pub open spec fn link_bcast_raw(links: Seq<Link>, h: HeaderSeq, source: u64) -> Seq<(u64, HeaderSeq)>
    decreases links.len(),
{
    if links.len() == 0 {
        Seq::empty()
    } else {
        let rest = link_bcast_raw(links.drop_last(), h, source);
        if links.last().ident == source {
            rest
        } else {
            rest.push((links.last().ident, retarget_seq(h, links.last().net_id)))
        }
    }
}

/// Removing the route at position `k` of an ordered table keeps it ordered.
proof fn lemma_sorted_remove(routes: Seq<Route>, k: int)
    requires
        routes_sorted(routes),
        0 <= k < routes.len(),
    ensures
        routes_sorted(routes.remove(k)),
{
    let rs = routes.remove(k);
    assert forall|a: int, b: int|
        #![trigger rs[a], rs[b]]
        0 <= a < b < rs.len() implies rs[a].net_id < rs[b].net_id by {
        let oa = if a < k { a } else { a + 1 };
        let ob = if b < k { b } else { b + 1 };
        assert(rs[a] == routes[oa]);
        assert(rs[b] == routes[ob]);
        assert(routes[oa].net_id < routes[ob].net_id);
    }
    assert forall|a: int| 0 <= a < rs.len() implies 1 <= #[trigger] rs[a].net_id <= 65534 by {
        let oa = if a < k { a } else { a + 1 };
        assert(rs[a] == routes[oa]);
    }
}

/// In an ordered table, a net id sits at one position only.
proof fn lemma_route_idx(routes: Seq<Route>, k: int)
    requires
        routes_sorted(routes),
        0 <= k < routes.len(),
    ensures
        has_route(routes, routes[k].net_id),
        route_idx(routes, routes[k].net_id) == k,
{
    let j = route_idx(routes, routes[k].net_id);
    if j < k {
        assert(routes[j].net_id < routes[k].net_id);
    } else if j > k {
        assert(routes[k].net_id < routes[j].net_id);
    }
}

/// The reclaimable tombstone the search finds, if any, lies at or after where it
/// starts, within the table.
proof fn lemma_first_reclaim(routes: Seq<Route>, now: u64, i: nat)
    ensures
        first_reclaim(routes, now, i) matches Some(e) ==> i <= e < routes.len() && reclaimable(
            routes[e as int],
            now,
        ),
    decreases routes.len() - i,
{
    if i < routes.len() && !reclaimable(routes[i as int], now) && routes[i as int].net_id == i + 1 {
        lemma_first_reclaim(routes, now, i + 1);
    }
}

/// The net id the search gives is in range and, in the table it leaves behind, is
/// used by no route; that table is still ordered and keeps every direct route.
pub proof fn lemma_free_net_unused(routes: Seq<Route>, now: u64)
    requires
        routes_sorted(routes),
    ensures
        free_net_spec(routes, now).0 matches Some(net) ==> 1 <= net <= 65534 && !has_route(
            free_net_spec(routes, now).1,
            net,
        ),
        routes_sorted(free_net_spec(routes, now).1),
        forall|x: Route|
            x.kind == RouteKind::DirectAssigned && routes.contains(x) ==> free_net_spec(
                routes,
                now,
            ).1.contains(x),
{
    let (f, rs) = free_net_spec(routes, now);
    lemma_sorted_len(routes);
    if routes.len() == 0 || routes.len() == MAX_ROUTES {
        return;
    }
    let n = routes.len();
    lemma_first_reclaim(routes, now, 0);
    lemma_run_end(routes, 0);
    let p = run_end(routes, 0);
    let m: int = match first_reclaim(routes, now, 0) {
        Some(e) => e as int,
        None => p + 1 as int,
    };
    let ex = expire_upto(routes, now, m);
    assert forall|a: int| 0 <= a < n implies (#[trigger] ex[a]).net_id == routes[a].net_id
        && ex[a].ident == routes[a].ident && (routes[a].kind == RouteKind::DirectAssigned ==> ex[a]
        == routes[a]) by {}
    assert(routes_sorted(ex)) by {
        assert forall|a: int, b: int|
            #![trigger ex[a], ex[b]]
            0 <= a < b < n implies ex[a].net_id < ex[b].net_id by {
            assert(routes[a].net_id < routes[b].net_id);
        }
    }
    match first_reclaim(routes, now, 0) {
        Some(e) => {
            lemma_sorted_remove(ex, e as int);
            let net = routes[e as int].net_id;
            if has_route(rs, net) {
                let j = choose|j: int| 0 <= j < rs.len() && rs[j].net_id == net;
                let oj = if j < e { j } else { j + 1 };
                assert(rs[j] == ex[oj]);
                if oj < e {
                    assert(routes[oj].net_id < routes[e as int].net_id);
                } else {
                    assert(routes[e as int].net_id < routes[oj].net_id);
                }
            }
            assert forall|x: Route|
                x.kind == RouteKind::DirectAssigned && routes.contains(x) implies rs.contains(x) by {
                let j = choose|j: int| 0 <= j < n && routes[j] == x;
                assert(j != e);
                if j < e {
                    assert(rs[j] == x);
                } else {
                    assert(rs[j - 1] == x);
                }
            }
        },
        None => {
            let net = (p + 1) as u16;
            if p < n {
                lemma_sorted_ids_above_positions(routes, p as int);
            }
            assert(p + 1 <= 65534);
            if has_route(rs, net) {
                let j = choose|j: int| 0 <= j < rs.len() && rs[j].net_id == net;
                assert(rs[j].net_id == routes[j].net_id);
                if j < p {
                    assert(routes[j].net_id == j + 1);
                } else if j == p {
                } else {
                    assert(routes[p as int].net_id < routes[j].net_id);
                }
            }
            assert forall|x: Route|
                x.kind == RouteKind::DirectAssigned && routes.contains(x) implies rs.contains(x) by {
                let j = choose|j: int| 0 <= j < n && routes[j] == x;
                assert(rs[j] == x);
            }
        },
    }
}

/// Add a route for a network that has none, keeping the table ordered.
fn insert_route(routes: &mut Vec<Route>, r: Route)
    requires
        routes_sorted(old(routes)@),
        !has_route(old(routes)@, r.net_id),
        1 <= r.net_id <= 65534,
    ensures
        routes_sorted(final(routes)@),
        final(routes)@.len() == old(routes)@.len() + 1,
        forall|x: Route| final(routes)@.contains(x) <==> (old(routes)@.contains(x) || x == r),
{
    let ghost before = routes@;
    let mut pos: usize = 0;
    while pos < routes.len() && routes[pos].net_id < r.net_id
        invariant
            routes@ == before,
            pos <= routes@.len(),
            forall|j: int| 0 <= j < pos ==> #[trigger] routes@[j].net_id < r.net_id,
        decreases routes@.len() - pos,
    {
        pos = pos + 1;
    }
    if pos < routes.len() {
        assert(routes@[pos as int].net_id != r.net_id);
    }
    routes.insert(pos, r);
    proof {
        let rs = routes@;
        assert(rs == before.insert(pos as int, r));
        assert forall|a: int, b: int|
            #![trigger rs[a], rs[b]]
            0 <= a < b < rs.len() implies rs[a].net_id < rs[b].net_id by {
            if b < pos {
                assert(before[a].net_id < before[b].net_id);
            } else if b == pos {
            } else if a < pos {
                assert(before[b - 1].net_id > r.net_id) by {
                    if pos < before.len() {
                        if b - 1 > pos {
                            assert(before[pos as int].net_id < before[b - 1].net_id);
                        }
                    }
                }
            } else if a == pos {
                if b - 1 > pos {
                    assert(before[pos as int].net_id < before[b - 1].net_id);
                }
            } else {
                assert(before[a - 1].net_id < before[b - 1].net_id);
            }
        }
        assert forall|a: int| 0 <= a < rs.len() implies 1 <= #[trigger] rs[a].net_id <= 65534 by {
            if a > pos {
                assert(rs[a] == before[a - 1]);
            } else if a < pos {
                assert(rs[a] == before[a]);
            }
        }
        assert forall|x: Route| rs.contains(x) <==> (before.contains(x) || x == r) by {
            if rs.contains(x) {
                let j = choose|j: int| 0 <= j < rs.len() && rs[j] == x;
                if j < pos {
                    assert(before[j] == x);
                } else if j > pos {
                    assert(before[j - 1] == x);
                }
            }
            if before.contains(x) {
                let j = choose|j: int| 0 <= j < before.len() && before[j] == x;
                if j < pos {
                    assert(rs[j] == x);
                } else {
                    assert(rs[j + 1] == x);
                }
            }
            if x == r {
                assert(rs[pos as int] == x);
            }
        }
    }
}

/// Refreshing the lease of `refresh_net`, asked for by the network `source_net`
/// with token `token` at time `now`: the answer and the table afterwards. Only a
/// live seed lease whose source and token match, and of which at most
/// `MIN_SEED_REFRESH` seconds remain, is extended, to `MAX_SEED_ASSIGN_TIMEOUT`
/// seconds from now, with the same token.
pub open spec fn refresh_spec(
    routes: Seq<Route>,
    source_net: u16,
    refresh_net: u16,
    token: u64,
    now: u64,
) -> (Result<SeedNetAssignment, SeedRefreshError>, Seq<Route>) {
    if !has_route(routes, refresh_net) {
        (Err(SeedRefreshError::UnknownNetId), routes)
    } else {
        let k = route_idx(routes, refresh_net);
        let r = routes[k];
        match r.kind {
            RouteKind::DirectAssigned => (Err(SeedRefreshError::NotAssigned), routes),
            RouteKind::Tombstone { .. } => (Err(SeedRefreshError::AlreadyExpired), routes),
            RouteKind::SeedAssigned { source_net_id, expiration_time, refresh_token } => {
                if source_net_id != source_net || refresh_token != token {
                    (Err(SeedRefreshError::BadRequest), routes)
                } else if expiration_time <= now {
                    (Err(SeedRefreshError::AlreadyExpired), routes.update(k, expire(r, now)))
                } else if expiration_time - now > MIN_SEED_REFRESH_MS {
                    (Err(SeedRefreshError::TooSoon), routes)
                } else {
                    (
                        Ok(assignment(refresh_net, MAX_SEED_ASSIGN_TIMEOUT, token)),
                        routes.update(
                            k,
                            Route {
                                kind: RouteKind::SeedAssigned {
                                    source_net_id,
                                    expiration_time: (now + MAX_SEED_ASSIGN_MS) as u64,
                                    refresh_token,
                                },
                                ..r
                            },
                        ),
                    )
                }
            },
        }
    }
}

/// Changing the kind of the route at position `k`, but not its net id, keeps
/// the table ordered, and keeps the direct routes when `k` held none.
proof fn lemma_sorted_rekind(routes: Seq<Route>, k: int, r: Route)
    requires
        routes_sorted(routes),
        0 <= k < routes.len(),
        r.net_id == routes[k].net_id,
    ensures
        routes_sorted(routes.update(k, r)),
        forall|x: Route|
            routes.contains(x) && x != routes[k] ==> #[trigger] routes.update(k, r).contains(x),
{
    let rs = routes.update(k, r);
    assert forall|a: int, b: int|
        #![trigger rs[a], rs[b]]
        0 <= a < b < rs.len() implies rs[a].net_id < rs[b].net_id by {
        assert(routes[a].net_id < routes[b].net_id);
    }
    assert forall|x: Route| routes.contains(x) && x != routes[k] implies #[trigger] rs.contains(x) by {
        let j = choose|j: int| 0 <= j < routes.len() && routes[j] == x;
        assert(rs[j] == x);
    }
}

/// What becomes of a frame received from the edge device on network `net_id`: a
/// frame whose source names no network comes from the edge device, so it gets
/// this network; one that claims another node on the link (node 0, the router
/// itself, or any other) is dropped.
pub open spec fn router_frame_spec(net_id: u16, hdr: HeaderSeq) -> Option<HeaderSeq> {
    if hdr.src.network_id == 0 {
        if hdr.src.node_id == EDGE_NODE_ID {
            Some(HeaderSeq { src: Address { network_id: net_id, ..hdr.src }, ..hdr })
        } else {
            None
        }
    } else {
        Some(hdr)
    }
}

/// Process the header of one frame received on the link with network `net_id`,
/// as [`router_frame_spec`] says: the header to hand to the net stack, or `None`
/// when the frame is dropped.
pub fn process_frame(net_id: u16, hdr: &HeaderSeq) -> (r: Option<HeaderSeq>)
    ensures
        r == router_frame_spec(net_id, *hdr),
{
    let mut hdr = *hdr;
    if hdr.src.network_id == 0 {
        if hdr.src.node_id != EDGE_NODE_ID {
            return None;
        }
        hdr.src.network_id = net_id;
    }
    Some(hdr)
}

/// The most bytes COBS encoding adds to a message of `n` bytes: one for an empty
/// message, otherwise one for each started run of 254 bytes.
pub open spec fn cobs_overhead(n: nat) -> nat {
    if n == 0 {
        1
    } else {
        ((n + 253) / 254) as nat
    }
}

/// `cobs::max_encoding_overhead`: the most bytes that COBS encoding adds to a
/// message of `source_len` bytes; claimed to be [`cobs_overhead`], which is what
/// the function computes.
#[verifier::external_body]
fn max_encoding_overhead(source_len: usize) -> (r: usize)
    ensures
        r == cobs_overhead(source_len as nat),
{
    cobs::max_encoding_overhead(source_len)
}

/// The size of the buffer that collects the COBS-encoded frames of a link whose
/// frames are at most `max_ergot_packet_size` bytes: that size plus the most COBS
/// can add to it.
pub fn cobs_buf_size(max_ergot_packet_size: u16) -> (r: usize)
    ensures
        r == max_ergot_packet_size + cobs_overhead(max_ergot_packet_size as nat),
{
    let overhead = max_encoding_overhead(max_ergot_packet_size as usize);
    max_ergot_packet_size as usize + overhead
}

/// The networks of the links whose states are given, in order: those of the
/// active ones.
pub open spec fn active_nets_spec(states: Seq<InterfaceState>) -> Seq<u16>
    decreases states.len(),
{
    if states.len() == 0 {
        Seq::empty()
    } else {
        let rest = active_nets_spec(states.drop_last());
        match states.last() {
            InterfaceState::Active { net_id, .. } => rest.push(net_id),
            _ => rest,
        }
    }
}

/// The networks of the active links, given the links' states, as
/// [`active_nets_spec`] says.
pub fn active_nets(states: &[InterfaceState]) -> (r: Vec<u16>)
    ensures
        r@ == active_nets_spec(states@),
{
    let mut out: Vec<u16> = Vec::new();
    let mut i: usize = 0;
    while i < states.len()
        invariant
            i <= states@.len(),
            out@ == active_nets_spec(states@.take(i as int)),
        decreases states@.len() - i,
    {
        assert(states@.take(i + 1 as int).drop_last() =~= states@.take(i as int));
        match states[i] {
            InterfaceState::Active { net_id, node_id: _ } => out.push(net_id),
            _ => {},
        }
        i = i + 1;
    }
    assert(states@.take(states@.len() as int) =~= states@);
    out
}

/// A Direct Router.
pub struct DirectRouter {
    interface_ctr: u64,
    routes: Vec<Route>,
    links: Vec<Link>,
}

impl DirectRouter {
    /// The routing table, ordered by net id.
    pub closed spec fn routes(&self) -> Seq<Route> {
        self.routes@
    }

    /// The directly connected interfaces.
    pub closed spec fn links(&self) -> Seq<Link> {
        self.links@
    }

    /// The ident the next registered interface gets.
    pub closed spec fn next_ident(&self) -> u64 {
        self.interface_ctr
    }

    /// The router's invariant: the table is ordered; links have distinct idents,
    /// all handed out already, and distinct networks; each link's network has a
    /// direct route through it.
    pub open spec fn wf(&self) -> bool {
        &&& routes_sorted(self.routes())
        &&& forall|i: int, j: int|
            0 <= i < self.links().len() && 0 <= j < self.links().len() && i != j ==> (
            #[trigger] self.links()[i]).ident != (#[trigger] self.links()[j]).ident
                && self.links()[i].net_id != self.links()[j].net_id
        &&& forall|i: int|
            0 <= i < self.links().len() ==> (#[trigger] self.links()[i]).ident < self.next_ident()
                && self.routes().contains(link_route(self.links()[i]))
    }

    /// The network of the interface with the given ident, if it is registered.
    pub fn net_id_of(&self, ident: u64) -> (r: Option<u16>)
        requires
            self.wf(),
        ensures
            has_link(self.links(), ident) ==> r == Some(link_of(self.links(), ident).net_id),
            !has_link(self.links(), ident) ==> r is None,
    {
        match self.link_position(ident) {
            Some(i) => Some(self.links[i].net_id),
            None => None,
        }
    }

    /// The state of the interface with the given ident, if it is registered.
    pub fn interface_state(&self, ident: u64) -> (r: Option<InterfaceState>)
        requires
            self.wf(),
        ensures
            has_link(self.links(), ident) ==> r == Some(link_of(self.links(), ident).state),
            !has_link(self.links(), ident) ==> r is None,
    {
        match self.link_position(ident) {
            Some(i) => Some(self.links[i].state),
            None => None,
        }
    }

    /// Set the state of the interface with the given ident; an unknown ident is
    /// refused. Nothing else changes.
    pub fn set_interface_state(&mut self, ident: u64, state: InterfaceState) -> (r: Result<
        (),
        SetStateError,
    >)
        requires
            old(self).wf(),
        ensures
            final(self).wf(),
            final(self).routes() == old(self).routes(),
            final(self).next_ident() == old(self).next_ident(),
            has_link(old(self).links(), ident) ==> r is Ok && exists|i: int|
                0 <= i < old(self).links().len() && old(self).links()[i].ident == ident
                    && final(self).links() == old(self).links().update(
                    i,
                    Link { state, ..old(self).links()[i] },
                ),
            !has_link(old(self).links(), ident) ==> r == Err::<(), SetStateError>(
                SetStateError::InterfaceNotFound,
            ) && final(self).links() == old(self).links(),
    {
        match self.link_position(ident) {
            Some(i) => {
                let old_link = self.links[i];
                let ghost before = self.links@;
                self.links.set(i, Link { state, ..old_link });
                proof {
                    assert(self.links@ == before.update(i as int, Link { state, ..before[i as int] }));
                    assert forall|a: int, b: int|
                        0 <= a < self.links().len() && 0 <= b < self.links().len() && a != b implies (
                        #[trigger] self.links()[a]).ident != (#[trigger] self.links()[b]).ident
                            && self.links()[a].net_id != self.links()[b].net_id by {
                        assert(before[a].ident != before[b].ident);
                    }
                    assert forall|a: int| 0 <= a < self.links().len() implies (
                    #[trigger] self.links()[a]).ident < self.next_ident() && self.routes().contains(
                        link_route(self.links()[a]),
                    ) by {
                        assert(link_route(self.links()[a]) == link_route(before[a]));
                    }
                }
                Ok(())
            },
            None => Err(SetStateError::InterfaceNotFound),
        }
    }

    /// The networks of the active interfaces, in the order of the links.
    pub fn get_nets(&self) -> (r: Vec<u16>)
        ensures
            r@ == active_nets_spec(self.links().map_values(|l: Link| l.state)),
    {
        let mut out: Vec<u16> = Vec::new();
        let mut i: usize = 0;
        while i < self.links.len()
            invariant
                i <= self.links@.len(),
                out@ == active_nets_spec(self.links@.take(i as int).map_values(|l: Link| l.state)),
            decreases self.links@.len() - i,
        {
            assert(self.links@.take(i + 1 as int).map_values(|l: Link| l.state).drop_last()
                =~= self.links@.take(i as int).map_values(|l: Link| l.state));
            match self.links[i].state {
                InterfaceState::Active { net_id, node_id: _ } => {
                    out.push(net_id);
                },
                _ => {},
            }
            i = i + 1;
        }
        assert(self.links@.take(i as int) =~= self.links@);
        out
    }

    /// The ident the next registered interface gets.
    pub fn ident_counter(&self) -> (r: u64)
        ensures
            r == self.next_ident(),
    {
        self.interface_ctr
    }

    /// A router with no interfaces and no routes.
    pub fn new() -> (r: Self)
        ensures
            r.wf(),
            r.routes().len() == 0,
            r.links().len() == 0,
            r.next_ident() == 0,
    {
        DirectRouter { interface_ctr: 0, routes: Vec::new(), links: Vec::new() }
    }

    /// Find a free net id, as [`free_net_spec`] says.
    fn find_free_net_id(&mut self, now: u64) -> (r: Option<u16>)
        requires
            old(self).wf(),
            time_ok(now),
        ensures
            final(self).wf(),
            r == free_net_spec(old(self).routes(), now).0,
            final(self).routes() == free_net_spec(old(self).routes(), now).1,
            final(self).links() == old(self).links(),
            final(self).next_ident() == old(self).next_ident(),
    {
        if self.routes.len() == 0 {
            return Some(1);
        }
        if self.routes.len() == MAX_ROUTES {
            return None;
        }
        let ghost old_routes = self.routes@;
        proof {
            lemma_sorted_len(old_routes);
            lemma_run_end(old_routes, 0);
        }
        let mut new_net_id: u16 = 1;
        let mut i: usize = 0;
        while i < self.routes.len()
            invariant
                self.wf(),
                self.links@ == old(self).links@,
                self.interface_ctr == old(self).interface_ctr,
                old_routes == old(self).routes@,
                routes_sorted(old_routes),
                0 < old_routes.len() < MAX_ROUTES,
                time_ok(now),
                i <= old_routes.len(),
                new_net_id == i + 1,
                self.routes@ == expire_upto(old_routes, now, i as int),
                forall|j: int| 0 <= j < i ==> #[trigger] old_routes[j].net_id == j + 1,
                run_end(old_routes, 0) == run_end(old_routes, i as nat),
                first_reclaim(old_routes, now, 0) == first_reclaim(old_routes, now, i as nat),
            decreases old_routes.len() - i,
        {
            let rte = self.routes[i];
            assert(rte == old_routes[i as int]);
            match rte.kind {
                RouteKind::DirectAssigned => {},
                RouteKind::SeedAssigned { expiration_time, .. } => {
                    if expiration_time <= now {
                        let ghost before = self.routes@;
                        self.routes.set(
                            i,
                            Route {
                                net_id: rte.net_id,
                                ident: rte.ident,
                                kind: RouteKind::Tombstone { clear_time: now + TOMBSTONE_DURATION_MS },
                            },
                        );
                        proof {
                            let rs = self.routes@;
                            assert forall|a: int, b: int|
                                #![trigger rs[a], rs[b]]
                                0 <= a < b < rs.len() implies rs[a].net_id < rs[b].net_id by {
                                assert(rs[a].net_id == old_routes[a].net_id);
                                assert(rs[b].net_id == old_routes[b].net_id);
                                assert(old_routes[a].net_id < old_routes[b].net_id);
                            }
                            assert forall|a: int| 0 <= a < rs.len() implies 1 <= #[trigger] rs[a].net_id <= 65534 by {
                                assert(rs[a].net_id == old_routes[a].net_id);
                            }
                            assert forall|l: int| 0 <= l < self.links@.len() implies rs.contains(
                                link_route(#[trigger] self.links@[l]),
                            ) by {
                                assert(before.contains(link_route(self.links@[l])));
                                let k = choose|k: int| 0 <= k < before.len() && before[k] == link_route(self.links@[l]);
                                assert(k != i);
                                assert(rs[k] == before[k]);
                            }
                        }
                    }
                },
                RouteKind::Tombstone { clear_time } => {
                    if clear_time <= now {
                        proof {
                            assert(first_reclaim(old_routes, now, i as nat) == Some(i as nat));
                        }
                        let ghost before = self.routes@;
                        let evicted = self.routes.remove(i);
                        proof {
                            let rs = self.routes@;
                            assert(rs =~= expire_upto(old_routes, now, i as int).remove(i as int));
                            assert forall|a: int, b: int|
                                #![trigger rs[a], rs[b]]
                                0 <= a < b < rs.len() implies rs[a].net_id < rs[b].net_id by {
                                let oa = if a < i { a } else { a + 1 };
                                let ob = if b < i { b } else { b + 1 };
                                assert(rs[a].net_id == old_routes[oa].net_id);
                                assert(rs[b].net_id == old_routes[ob].net_id);
                                assert(old_routes[oa].net_id < old_routes[ob].net_id);
                            }
                            assert forall|a: int| 0 <= a < rs.len() implies 1 <= #[trigger] rs[a].net_id <= 65534 by {
                                let oa = if a < i { a } else { a + 1 };
                                assert(rs[a].net_id == old_routes[oa].net_id);
                            }
                            assert forall|l: int| 0 <= l < self.links@.len() implies rs.contains(
                                link_route(#[trigger] self.links@[l]),
                            ) by {
                                assert(before.contains(link_route(self.links@[l])));
                                let k = choose|k: int| 0 <= k < before.len() && before[k] == link_route(self.links@[l]);
                                assert(k != i);
                                if k < i {
                                    assert(rs[k] == before[k]);
                                } else {
                                    assert(rs[k - 1] == before[k]);
                                }
                            }
                        }
                        return Some(evicted.net_id);
                    }
                },
            }
            proof {
                lemma_sorted_ids_above_positions(old_routes, i as int);
            }
            assert(self.routes@ =~= expire_upto(old_routes, now, i + 1));
            if rte.net_id > new_net_id {
                assert(run_end(old_routes, i as nat) == i);
                assert(first_reclaim(old_routes, now, i as nat) == None::<nat>);
                return Some(new_net_id);
            }
            assert(run_end(old_routes, i as nat) == run_end(old_routes, (i + 1) as nat));
            assert(first_reclaim(old_routes, now, i as nat) == first_reclaim(old_routes, now, (i + 1) as nat));
            new_net_id = new_net_id + 1;
            i = i + 1;
        }
        assert(run_end(old_routes, i as nat) == i);
        assert(first_reclaim(old_routes, now, i as nat) == None::<nat>);
        assert(self.routes@ =~= expire_upto(old_routes, now, i + 1));
        Some(new_net_id)
    }

    /// The position of the route to the given network, if any.
    fn route_position(&self, net: u16) -> (r: Option<usize>)
        requires
            routes_sorted(self.routes()),
        ensures
            match r {
                Some(k) => k < self.routes().len() && has_route(self.routes(), net) && route_idx(
                    self.routes(),
                    net,
                ) == k,
                None => !has_route(self.routes(), net),
            },
    {
        let mut k: usize = 0;
        while k < self.routes.len()
            invariant
                routes_sorted(self.routes()),
                k <= self.routes().len(),
                forall|j: int| 0 <= j < k ==> #[trigger] self.routes()[j].net_id != net,
            decreases self.routes().len() - k,
        {
            if self.routes[k].net_id == net {
                proof {
                    lemma_route_idx(self.routes(), k as int);
                }
                return Some(k);
            }
            k = k + 1;
        }
        None
    }

    /// The position of the link with the given ident, if any.
    fn link_position(&self, ident: u64) -> (r: Option<usize>)
        requires
            self.wf(),
        ensures
            match r {
                Some(i) => i < self.links().len() && has_link(self.links(), ident) && link_of(
                    self.links(),
                    ident,
                ) == self.links()[i as int],
                None => !has_link(self.links(), ident),
            },
    {
        let mut i: usize = 0;
        while i < self.links.len()
            invariant
                self.wf(),
                i <= self.links().len(),
                forall|j: int| 0 <= j < i ==> #[trigger] self.links()[j].ident != ident,
            decreases self.links().len() - i,
        {
            if self.links[i].ident == ident {
                proof {
                    let j = choose|j: int| 0 <= j < self.links().len() && self.links()[j].ident == ident;
                    if j != i {
                        assert(self.links()[j].ident != self.links()[i as int].ident);
                    }
                }
                return Some(i);
            }
            i = i + 1;
        }
        None
    }

    /// Choose the interface for a unicast message, as [`find_spec`] says.
    fn find(&mut self, hdr: &Header, source: Option<u64>, now: u64) -> (r: Result<u64, InterfaceSendError>)
        requires
            old(self).wf(),
            time_ok(now),
        ensures
            final(self).wf(),
            final(self).links() == old(self).links(),
            final(self).next_ident() == old(self).next_ident(),
            r == find_spec(old(self).links(), old(self).routes(), *hdr, source, now).0,
            final(self).routes() == find_spec(old(self).links(), old(self).routes(), *hdr, source, now).1,
    {
        if hdr.dst.port_id == 0 && hdr.any_all.is_none() {
            return Err(InterfaceSendError::AnyPortMissingKey);
        }
        let net = hdr.dst.network_id;
        let k = match self.route_position(net) {
            Some(k) => k,
            None => {
                return Err(InterfaceSendError::NoRouteToDest);
            },
        };
        let ghost before = self.routes@;
        let rte = self.routes[k];
        match rte.kind {
            RouteKind::DirectAssigned => {},
            RouteKind::SeedAssigned { expiration_time, .. } => {
                if expiration_time <= now {
                    self.routes.set(
                        k,
                        Route {
                            net_id: rte.net_id,
                            ident: rte.ident,
                            kind: RouteKind::Tombstone { clear_time: now + TOMBSTONE_DURATION_MS },
                        },
                    );
                    proof {
                        let rs = self.routes@;
                        assert forall|a: int, b: int|
                            #![trigger rs[a], rs[b]]
                            0 <= a < b < rs.len() implies rs[a].net_id < rs[b].net_id by {
                            assert(rs[a].net_id == before[a].net_id);
                            assert(rs[b].net_id == before[b].net_id);
                            assert(before[a].net_id < before[b].net_id);
                        }
                        assert forall|a: int| 0 <= a < rs.len() implies 1 <= #[trigger] rs[a].net_id <= 65534 by {
                            assert(rs[a].net_id == before[a].net_id);
                        }
                        assert forall|l: int| 0 <= l < self.links@.len() implies rs.contains(
                            link_route(#[trigger] self.links@[l]),
                        ) by {
                            let j = choose|j: int| 0 <= j < before.len() && before[j] == link_route(self.links@[l]);
                            assert(j != k);
                            assert(rs[j] == before[j]);
                        }
                    }
                    return Err(InterfaceSendError::NoRouteToDest);
                }
            },
            RouteKind::Tombstone { clear_time } => {
                if clear_time <= now {
                    self.routes.remove(k);
                    proof {
                        lemma_sorted_remove(before, k as int);
                        let rs = self.routes@;
                        assert forall|l: int| 0 <= l < self.links@.len() implies rs.contains(
                            link_route(#[trigger] self.links@[l]),
                        ) by {
                            let j = choose|j: int| 0 <= j < before.len() && before[j] == link_route(self.links@[l]);
                            assert(j != k);
                            if j < k {
                                assert(rs[j] == before[j]);
                            } else {
                                assert(rs[j - 1] == before[j]);
                            }
                        }
                    }
                }
                return Err(InterfaceSendError::NoRouteToDest);
            },
        }
        let i = match self.link_position(rte.ident) {
            Some(i) => i,
            None => {
                self.routes.remove(k);
                proof {
                    lemma_sorted_remove(before, k as int);
                    let rs = self.routes@;
                    assert forall|l: int| 0 <= l < self.links@.len() implies rs.contains(
                        link_route(#[trigger] self.links@[l]),
                    ) by {
                        let j = choose|j: int| 0 <= j < before.len() && before[j] == link_route(self.links@[l]);
                        assert(self.links@[l].ident != rte.ident);
                        assert(j != k);
                        if j < k {
                            assert(rs[j] == before[j]);
                        } else {
                            assert(rs[j - 1] == before[j]);
                        }
                    }
                }
                return Err(InterfaceSendError::NoRouteToDest);
            },
        };
        let link = self.links[i];
        if net == link.net_id && hdr.dst.node_id == CENTRAL_NODE_ID {
            return Err(InterfaceSendError::DestinationLocal);
        }
        if let Some(src) = source {
            if link.ident == src {
                return Err(InterfaceSendError::RoutingLoop);
            }
        }
        Ok(link.ident)
    }

    /// Decide where a locally originated message goes. One hop is taken off its
    /// time-to-live; a message with none left has no route. A message for the
    /// "all" port goes to every edge device but the one on its destination network.
    pub fn plan_send(&mut self, hdr: &Header, now: u64) -> (r: Result<SendPlan<u64, Header>, InterfaceSendError>)
        requires
            old(self).wf(),
            time_ok(now),
        ensures
            final(self).wf(),
            final(self).links() == old(self).links(),
            final(self).next_ident() == old(self).next_ident(),
            hdr.ttl == 0 ==> r == Err::<SendPlan<u64, Header>, InterfaceSendError>(
                InterfaceSendError::NoRouteToDest,
            ) && final(self).routes() == old(self).routes(),
            hdr.ttl > 0 && hdr.dst.port_id == 255 && hdr.any_all is None ==> r == Err::<
                SendPlan<u64, Header>,
                InterfaceSendError,
            >(InterfaceSendError::AnyPortMissingKey) && final(self).routes() == old(self).routes(),
            hdr.ttl > 0 && hdr.dst.port_id == 255 && hdr.any_all is Some ==> final(self).routes()
                == old(self).routes() && (r matches Ok(SendPlan::Broadcast { targets, if_none_sent })
                && targets@ == link_bcast(old(self).links(), Header { ttl: (hdr.ttl - 1) as u8, ..*hdr })
                && if_none_sent == InterfaceSendError::NoRouteToDest),
            hdr.ttl > 0 && hdr.dst.port_id != 255 ==> ({
                let h = Header { ttl: (hdr.ttl - 1) as u8, ..*hdr };
                let (f, routes) = find_spec(old(self).links(), old(self).routes(), h, None, now);
                final(self).routes() == routes && match f {
                    Ok(ident) => r matches Ok(SendPlan::Unicast { ident: i, hdr: x }) && i == ident && x
                        == h,
                    Err(e) => r == Err::<SendPlan<u64, Header>, InterfaceSendError>(e),
                }
            }),
    {
        let mut hdr = *hdr;
        if hdr.decrement_ttl().is_err() {
            return Err(InterfaceSendError::NoRouteToDest);
        }
        if hdr.dst.port_id == 255 {
            if hdr.any_all.is_none() {
                return Err(InterfaceSendError::AnyPortMissingKey);
            }
            let mut targets: Vec<(u64, Header)> = Vec::new();
            let mut i: usize = 0;
            while i < self.links.len()
                invariant
                    i <= self.links().len(),
                    targets@ == link_bcast(self.links().take(i as int), hdr),
                decreases self.links().len() - i,
            {
                let link = self.links[i];
                assert(self.links().take(i + 1 as int).drop_last() =~= self.links().take(i as int));
                if hdr.dst.network_id != link.net_id {
                    let mut bhdr = hdr;
                    bhdr.dst.network_id = link.net_id;
                    bhdr.dst.node_id = EDGE_NODE_ID;
                    targets.push((link.ident, bhdr));
                }
                i = i + 1;
            }
            assert(self.links().take(self.links().len() as int) =~= self.links());
            Ok(SendPlan::Broadcast { targets, if_none_sent: InterfaceSendError::NoRouteToDest })
        } else {
            let ident = self.find(&hdr, None, now)?;
            Ok(SendPlan::Unicast { ident, hdr })
        }
    }

    /// Decide where a protocol error goes. One hop is taken off its time-to-live;
    /// an error with none left has no route.
    pub fn plan_send_err(&mut self, hdr: &Header, source: Option<u64>, now: u64) -> (r: Result<
        (u64, Header),
        InterfaceSendError,
    >)
        requires
            old(self).wf(),
            time_ok(now),
        ensures
            final(self).wf(),
            final(self).links() == old(self).links(),
            final(self).next_ident() == old(self).next_ident(),
            hdr.ttl == 0 ==> r == Err::<(u64, Header), InterfaceSendError>(
                InterfaceSendError::NoRouteToDest,
            ) && final(self).routes() == old(self).routes(),
            hdr.ttl > 0 ==> ({
                let h = Header { ttl: (hdr.ttl - 1) as u8, ..*hdr };
                let (f, routes) = find_spec(old(self).links(), old(self).routes(), h, source, now);
                final(self).routes() == routes && match f {
                    Ok(ident) => r == Ok::<(u64, Header), InterfaceSendError>((ident, h)),
                    Err(e) => r == Err::<(u64, Header), InterfaceSendError>(e),
                }
            }),
    {
        let mut hdr = *hdr;
        if hdr.decrement_ttl().is_err() {
            return Err(InterfaceSendError::NoRouteToDest);
        }
        let ident = self.find(&hdr, source, now)?;
        Ok((ident, hdr))
    }

    /// Decide where a message received on interface `source` goes. One hop is
    /// taken off its time-to-live; a message with none left has no route. A message
    /// for the "all" port goes to every edge device but the one it came from.
    pub fn plan_send_raw(&mut self, hdr: &HeaderSeq, source: u64, now: u64) -> (r: Result<
        SendPlan<u64, HeaderSeq>,
        InterfaceSendError,
    >)
        requires
            old(self).wf(),
            time_ok(now),
        ensures
            final(self).wf(),
            final(self).links() == old(self).links(),
            final(self).next_ident() == old(self).next_ident(),
            hdr.ttl == 0 ==> r == Err::<SendPlan<u64, HeaderSeq>, InterfaceSendError>(
                InterfaceSendError::NoRouteToDest,
            ) && final(self).routes() == old(self).routes(),
            hdr.ttl > 0 && hdr.dst.port_id == 255 && hdr.any_all is None ==> r == Err::<
                SendPlan<u64, HeaderSeq>,
                InterfaceSendError,
            >(InterfaceSendError::AnyPortMissingKey) && final(self).routes() == old(self).routes(),
            hdr.ttl > 0 && hdr.dst.port_id == 255 && hdr.any_all is Some && old(self).links().len()
                == 0 ==> r == Err::<SendPlan<u64, HeaderSeq>, InterfaceSendError>(
                InterfaceSendError::NoRouteToDest,
            ) && final(self).routes() == old(self).routes(),
            hdr.ttl > 0 && hdr.dst.port_id == 255 && hdr.any_all is Some && old(self).links().len()
                > 0 ==> final(self).routes() == old(self).routes() && ({
                let t = link_bcast_raw(
                    old(self).links(),
                    HeaderSeq { ttl: (hdr.ttl - 1) as u8, ..*hdr },
                    source,
                );
                r matches Ok(SendPlan::Broadcast { targets, if_none_sent }) && targets@ == t
                    && if_none_sent == (if t.len() == 0 {
                    InterfaceSendError::RoutingLoop
                } else {
                    InterfaceSendError::NoRouteToDest
                })
            }),
            hdr.ttl > 0 && hdr.dst.port_id != 255 ==> ({
                let h = HeaderSeq { ttl: (hdr.ttl - 1) as u8, ..*hdr };
                let (f, routes) = find_spec(
                    old(self).links(),
                    old(self).routes(),
                    crate::header_of_seq(h),
                    Some(source),
                    now,
                );
                final(self).routes() == routes && match f {
                    Ok(ident) => r matches Ok(SendPlan::Unicast { ident: i, hdr: x }) && i == ident && x
                        == h,
                    Err(e) => r == Err::<SendPlan<u64, HeaderSeq>, InterfaceSendError>(e),
                }
            }),
    {
        let mut hdr = *hdr;
        if hdr.decrement_ttl().is_err() {
            return Err(InterfaceSendError::NoRouteToDest);
        }
        if hdr.dst.port_id == 255 {
            if hdr.any_all.is_none() {
                return Err(InterfaceSendError::AnyPortMissingKey);
            }
            if self.links.len() == 0 {
                return Err(InterfaceSendError::NoRouteToDest);
            }
            let mut default_error = InterfaceSendError::RoutingLoop;
            let mut targets: Vec<(u64, HeaderSeq)> = Vec::new();
            let mut i: usize = 0;
            while i < self.links.len()
                invariant
                    i <= self.links().len(),
                    targets@ == link_bcast_raw(self.links().take(i as int), hdr, source),
                    default_error == (if targets@.len() == 0 {
                        InterfaceSendError::RoutingLoop
                    } else {
                        InterfaceSendError::NoRouteToDest
                    }),
                decreases self.links().len() - i,
            {
                let link = self.links[i];
                assert(self.links().take(i + 1 as int).drop_last() =~= self.links().take(i as int));
                if source != link.ident {
                    default_error = InterfaceSendError::NoRouteToDest;
                    let mut bhdr = hdr;
                    bhdr.dst.network_id = link.net_id;
                    bhdr.dst.node_id = EDGE_NODE_ID;
                    targets.push((link.ident, bhdr));
                }
                i = i + 1;
            }
            assert(self.links().take(self.links().len() as int) =~= self.links());
            Ok(SendPlan::Broadcast { targets, if_none_sent: default_error })
        } else {
            let nshdr: Header = Header::from(hdr);
            let ident = self.find(&nshdr, Some(source), now)?;
            Ok(SendPlan::Unicast { ident, hdr })
        }
    }

    /// Register a new directly connected interface: it gets the next ident and a
    /// free net id (see [`free_net_spec`]), with a direct route to it. `None` when
    /// no net id is free.
    pub fn register_interface(&mut self, now: u64) -> (r: Option<u64>)
        requires
            old(self).wf(),
            time_ok(now),
            old(self).next_ident() < u64::MAX,
        ensures
            final(self).wf(),
            ({
                let (f, rs) = free_net_spec(old(self).routes(), now);
                match f {
                    None => r is None && final(self).routes() == rs && final(self).links() == old(
                        self,
                    ).links() && final(self).next_ident() == old(self).next_ident(),
                    Some(net) => {
                        let ident = old(self).next_ident();
                        &&& r == Some(ident)
                        &&& final(self).next_ident() == ident + 1
                        &&& final(self).links() == old(self).links().push(
                            Link {
                                ident,
                                net_id: net,
                                state: InterfaceState::Active { net_id: net, node_id: CENTRAL_NODE_ID },
                            },
                        )
                        &&& forall|x: Route|
                            final(self).routes().contains(x) <==> (rs.contains(x) || x == Route {
                                net_id: net,
                                ident,
                                kind: RouteKind::DirectAssigned,
                            })
                    },
                }
            }),
    {
        proof {
            lemma_free_net_unused(self.routes@, now);
        }
        let net_id = match self.find_free_net_id(now) {
            Some(n) => n,
            None => {
                return None;
            },
        };
        let intfc_id = self.interface_ctr;
        self.interface_ctr = self.interface_ctr + 1;
        let ghost old_links = self.links@;
        let ghost mid = self.routes@;
        let link = Link {
            ident: intfc_id,
            net_id,
            state: InterfaceState::Active { net_id, node_id: CENTRAL_NODE_ID },
        };
        self.links.push(link);
        insert_route(
            &mut self.routes,
            Route { net_id, ident: intfc_id, kind: RouteKind::DirectAssigned },
        );
        proof {
            let ls = self.links@;
            let rs = self.routes@;
            assert forall|i: int, j: int|
                0 <= i < ls.len() && 0 <= j < ls.len() && i != j implies (#[trigger] ls[i]).ident
                != (#[trigger] ls[j]).ident && ls[i].net_id != ls[j].net_id by {
                if i == ls.len() - 1 || j == ls.len() - 1 {
                    let o = if i == ls.len() - 1 { j } else { i };
                    assert(ls[o] == old_links[o]);
                    assert(mid.contains(link_route(old_links[o])));
                    let k = choose|k: int| 0 <= k < mid.len() && mid[k] == link_route(old_links[o]);
                    assert(mid[k].net_id == old_links[o].net_id);
                }
            }
            assert forall|i: int| 0 <= i < ls.len() implies (#[trigger] ls[i]).ident < self.interface_ctr
                && rs.contains(link_route(ls[i])) by {
                if i < ls.len() - 1 {
                    assert(ls[i] == old_links[i]);
                    assert(mid.contains(link_route(old_links[i])));
                }
            }
        }
        Some(intfc_id)
    }

    /// Remove a directly connected interface. Every route through it is dropped,
    /// and its own network becomes a tombstone for the grace period.
    pub fn deregister_interface(&mut self, ident: u64, now: u64) -> (r: Result<(), DeregisterError>)
        requires
            old(self).wf(),
            time_ok(now),
        ensures
            final(self).wf(),
            final(self).next_ident() == old(self).next_ident(),
            !has_link(old(self).links(), ident) ==> r == Err::<(), DeregisterError>(
                DeregisterError::NoSuchInterface,
            ) && final(self).routes() == old(self).routes() && final(self).links() == old(
                self,
            ).links(),
            has_link(old(self).links(), ident) ==> r is Ok && final(self).links().len() == old(
                self,
            ).links().len() - 1 && (forall|x: Link|
                final(self).links().contains(x) <==> old(self).links().contains(x) && x.ident != ident)
                && (forall|x: Route|
                final(self).routes().contains(x) <==> (old(self).routes().contains(x) && x.ident
                    != ident || x == Route {
                    net_id: link_of(old(self).links(), ident).net_id,
                    ident,
                    kind: RouteKind::Tombstone { clear_time: (now + TOMBSTONE_DURATION_MS) as u64 },
                })),
    {
        let pos = match self.link_position(ident) {
            Some(p) => p,
            None => {
                return Err(DeregisterError::NoSuchInterface);
            },
        };
        let ghost old_links = self.links@;
        let ghost old_routes = self.routes@;
        let link = self.links.remove(pos);
        proof {
            let ls = self.links@;
            assert(ls == old_links.remove(pos as int));
            assert forall|x: Link| ls.contains(x) <==> old_links.contains(x) && x.ident != ident by {
                if ls.contains(x) {
                    let j = choose|j: int| 0 <= j < ls.len() && ls[j] == x;
                    let oj = if j < pos { j } else { j + 1 };
                    assert(old_links[oj] == x);
                    assert(oj != pos);
                }
                if old_links.contains(x) && x.ident != ident {
                    let j = choose|j: int| 0 <= j < old_links.len() && old_links[j] == x;
                    assert(j != pos);
                    if j < pos {
                        assert(ls[j] == x);
                    } else {
                        assert(ls[j - 1] == x);
                    }
                }
            }
            // The interface's own network has its direct route.
            assert(old_routes.contains(link_route(link)));
        }
        // Drop every route through this interface, its direct route among them.
        let mut kept: Vec<Route> = Vec::new();
        let mut k: usize = 0;
        while k < self.routes.len()
            invariant
                self.routes@ == old_routes,
                routes_sorted(old_routes),
                k <= old_routes.len(),
                routes_sorted(kept@),
                forall|a: int, j: int|
                    0 <= a < kept@.len() && k <= j < old_routes.len() ==> (#[trigger] kept@[a]).net_id
                        < (#[trigger] old_routes[j]).net_id,
                forall|x: Route|
                    kept@.contains(x) <==> (old_routes.take(k as int).contains(x) && x.ident != ident),
            decreases old_routes.len() - k,
        {
            let rte = self.routes[k];
            let ghost kb = kept@;
            if rte.ident != ident {
                kept.push(rte);
            }
            proof {
                let kn = kept@;
                assert(old_routes.take(k + 1 as int) == old_routes.take(k as int).push(rte));
                assert forall|x: Route| kn.contains(x) <==> (old_routes.take(k + 1 as int).contains(x) && x.ident != ident) by {
                    let t = old_routes.take(k as int);
                    if kn.contains(x) {
                        let j = choose|j: int| 0 <= j < kn.len() && kn[j] == x;
                        if j < kb.len() {
                            assert(kb.contains(x));
                            let i2 = choose|i2: int| 0 <= i2 < t.len() && t[i2] == x;
                            assert(old_routes.take(k + 1 as int)[i2] == x);
                        } else {
                            assert(old_routes.take(k + 1 as int)[k as int] == x);
                        }
                    }
                    if old_routes.take(k + 1 as int).contains(x) && x.ident != ident {
                        let tk = old_routes.take(k + 1 as int);
                        let j = choose|j: int| 0 <= j < tk.len() && tk[j] == x;
                        if j < k {
                            assert(t[j] == x);
                            assert(kb.contains(x));
                            let i2 = choose|i2: int| 0 <= i2 < kb.len() && kb[i2] == x;
                            assert(kn[i2] == x);
                        } else {
                            assert(kn[kn.len() - 1] == x);
                        }
                    }
                }
                assert forall|a: int, b: int|
                    #![trigger kn[a], kn[b]]
                    0 <= a < b < kn.len() implies kn[a].net_id < kn[b].net_id by {
                    if b < kb.len() {
                        assert(kb[a].net_id < kb[b].net_id);
                    } else {
                        assert(kn[a] == kb[a]);
                        assert(kb[a].net_id < old_routes[k as int].net_id);
                    }
                }
                assert forall|a: int| 0 <= a < kn.len() implies 1 <= #[trigger] kn[a].net_id <= 65534 by {
                    if a < kb.len() {
                        assert(kn[a] == kb[a]);
                    }
                }
                assert forall|a: int, j: int|
                    0 <= a < kn.len() && k + 1 <= j < old_routes.len() implies (#[trigger] kn[a]).net_id
                        < (#[trigger] old_routes[j]).net_id by {
                    assert(old_routes[k as int].net_id < old_routes[j].net_id);
                    if a < kb.len() {
                        assert(kn[a] == kb[a]);
                        assert(kb[a].net_id < old_routes[k as int].net_id);
                    }
                }
            }
            k = k + 1;
        }
        assert(old_routes.take(old_routes.len() as int) =~= old_routes);
        let tomb = Route {
            net_id: link.net_id,
            ident,
            kind: RouteKind::Tombstone { clear_time: now + TOMBSTONE_DURATION_MS },
        };
        proof {
            assert(link == link_of(old_links, ident));
            if has_route(kept@, link.net_id) {
                let j = choose|j: int| 0 <= j < kept@.len() && kept@[j].net_id == link.net_id;
                assert(kept@.contains(kept@[j]));
                let oj = choose|oj: int| 0 <= oj < old_routes.len() && old_routes[oj] == kept@[j];
                let lk = choose|lk: int| 0 <= lk < old_routes.len() && old_routes[lk] == link_route(link);
                if oj < lk {
                    assert(old_routes[oj].net_id < old_routes[lk].net_id);
                } else if oj > lk {
                    assert(old_routes[lk].net_id < old_routes[oj].net_id);
                }
            }
            assert(1 <= link.net_id <= 65534) by {
                let lk = choose|lk: int| 0 <= lk < old_routes.len() && old_routes[lk] == link_route(link);
            }
        }
        insert_route(&mut kept, tomb);
        self.routes = kept;
        proof {
            let ls = self.links@;
            let rs = self.routes@;
            assert forall|i: int, j: int|
                0 <= i < ls.len() && 0 <= j < ls.len() && i != j implies (#[trigger] ls[i]).ident
                != (#[trigger] ls[j]).ident && ls[i].net_id != ls[j].net_id by {
                let oi = if i < pos { i } else { i + 1 };
                let oj = if j < pos { j } else { j + 1 };
                assert(ls[i] == old_links[oi]);
                assert(ls[j] == old_links[oj]);
            }
            assert forall|i: int| 0 <= i < ls.len() implies (#[trigger] ls[i]).ident < self.interface_ctr
                && rs.contains(link_route(ls[i])) by {
                let oi = if i < pos { i } else { i + 1 };
                assert(ls[i] == old_links[oi]);
                assert(oi != pos);
                assert(old_links[oi].ident != ident);
                assert(old_routes.contains(link_route(old_links[oi])));
            }
        }
        Ok(())
    }

    /// Assign a new net id to a bridge behind the network `source_net`, with a
    /// short first lease, so that the bridge can refresh it right away as an
    /// acknowledgement. The new route goes through the source network's interface;
    /// `refresh_token` is the token for the lease.
    pub fn request_seed_net_assign(&mut self, source_net: u16, now: u64, refresh_token: u64) -> (r:
        Result<SeedNetAssignment, SeedAssignmentError>)
        requires
            old(self).wf(),
            time_ok(now),
        ensures
            final(self).wf(),
            final(self).links() == old(self).links(),
            final(self).next_ident() == old(self).next_ident(),
            !has_route(old(self).routes(), source_net) ==> r == Err::<
                SeedNetAssignment,
                SeedAssignmentError,
            >(SeedAssignmentError::UnknownSource) && final(self).routes() == old(self).routes(),
            has_route(old(self).routes(), source_net) ==> ({
                let via = old(self).routes()[route_idx(old(self).routes(), source_net)].ident;
                let (f, rs) = free_net_spec(old(self).routes(), now);
                match f {
                    None => r == Err::<SeedNetAssignment, SeedAssignmentError>(
                        SeedAssignmentError::NetIdsExhausted,
                    ) && final(self).routes() == rs,
                    Some(net) => r == Ok::<SeedNetAssignment, SeedAssignmentError>(
                        assignment(net, INITIAL_SEED_ASSIGN_TIMEOUT, refresh_token),
                    ) && (forall|x: Route|
                        final(self).routes().contains(x) <==> (rs.contains(x) || x == Route {
                            net_id: net,
                            ident: via,
                            kind: RouteKind::SeedAssigned {
                                source_net_id: source_net,
                                expiration_time: (now + INITIAL_SEED_ASSIGN_MS) as u64,
                                refresh_token,
                            },
                        })),
                }
            }),
    {
        let k = match self.route_position(source_net) {
            Some(k) => k,
            None => {
                return Err(SeedAssignmentError::UnknownSource);
            },
        };
        let via = self.routes[k].ident;
        proof {
            lemma_free_net_unused(self.routes@, now);
        }
        let new_net_id = match self.find_free_net_id(now) {
            Some(n) => n,
            None => {
                return Err(SeedAssignmentError::NetIdsExhausted);
            },
        };
        let ghost mid = self.routes@;
        insert_route(
            &mut self.routes,
            Route {
                net_id: new_net_id,
                ident: via,
                kind: RouteKind::SeedAssigned {
                    source_net_id: source_net,
                    expiration_time: now + INITIAL_SEED_ASSIGN_MS,
                    refresh_token,
                },
            },
        );
        proof {
            assert forall|i: int| 0 <= i < self.links@.len() implies (#[trigger] self.links@[i]).ident
                < self.interface_ctr && self.routes@.contains(link_route(self.links@[i])) by {
                assert(mid.contains(link_route(self.links@[i])));
            }
        }
        Ok(SeedNetAssignment {
            net_id: new_net_id,
            expires_seconds: INITIAL_SEED_ASSIGN_TIMEOUT,
            max_refresh_seconds: MAX_SEED_ASSIGN_TIMEOUT,
            min_refresh_seconds: crate::interface_manager::profiles::no_std_router::MIN_SEED_REFRESH,
            refresh_token,
        })
    }

    /// Refresh a seed lease, as [`refresh_spec`] says.
    pub fn refresh_seed_net_assignment(
        &mut self,
        req_source_net: u16,
        req_refresh_net: u16,
        req_refresh_token: u64,
        now: u64,
    ) -> (r: Result<SeedNetAssignment, SeedRefreshError>)
        requires
            old(self).wf(),
            time_ok(now),
        ensures
            final(self).wf(),
            final(self).links() == old(self).links(),
            final(self).next_ident() == old(self).next_ident(),
            r == refresh_spec(old(self).routes(), req_source_net, req_refresh_net, req_refresh_token, now).0,
            final(self).routes() == refresh_spec(
                old(self).routes(),
                req_source_net,
                req_refresh_net,
                req_refresh_token,
                now,
            ).1,
    {
        let k = match self.route_position(req_refresh_net) {
            Some(k) => k,
            None => {
                return Err(SeedRefreshError::UnknownNetId);
            },
        };
        let ghost before = self.routes@;
        let rte = self.routes[k];
        match rte.kind {
            RouteKind::DirectAssigned => Err(SeedRefreshError::NotAssigned),
            RouteKind::Tombstone { .. } => Err(SeedRefreshError::AlreadyExpired),
            RouteKind::SeedAssigned { source_net_id, expiration_time, refresh_token } => {
                if source_net_id != req_source_net || refresh_token != req_refresh_token {
                    return Err(SeedRefreshError::BadRequest);
                }
                if expiration_time <= now {
                    let t = Route {
                        net_id: rte.net_id,
                        ident: rte.ident,
                        kind: RouteKind::Tombstone { clear_time: now + TOMBSTONE_DURATION_MS },
                    };
                    self.routes.set(k, t);
                    proof {
                        lemma_sorted_rekind(before, k as int, t);
                        assert forall|i: int| 0 <= i < self.links@.len() implies (#[trigger] self.links@[i]).ident
                            < self.interface_ctr && self.routes@.contains(link_route(self.links@[i])) by {
                            assert(before.contains(link_route(self.links@[i])));
                        }
                    }
                    return Err(SeedRefreshError::AlreadyExpired);
                }
                if expiration_time - now > MIN_SEED_REFRESH_MS {
                    return Err(SeedRefreshError::TooSoon);
                }
                let t = Route {
                    net_id: rte.net_id,
                    ident: rte.ident,
                    kind: RouteKind::SeedAssigned {
                        source_net_id,
                        expiration_time: now + MAX_SEED_ASSIGN_MS,
                        refresh_token,
                    },
                };
                self.routes.set(k, t);
                proof {
                    lemma_sorted_rekind(before, k as int, t);
                    assert forall|i: int| 0 <= i < self.links@.len() implies (#[trigger] self.links@[i]).ident
                        < self.interface_ctr && self.routes@.contains(link_route(self.links@[i])) by {
                        assert(before.contains(link_route(self.links@[i])));
                    }
                }
                Ok(SeedNetAssignment {
                    net_id: req_refresh_net,
                    expires_seconds: MAX_SEED_ASSIGN_TIMEOUT,
                    max_refresh_seconds: MAX_SEED_ASSIGN_TIMEOUT,
                    min_refresh_seconds: crate::interface_manager::profiles::no_std_router::MIN_SEED_REFRESH,
                    refresh_token: req_refresh_token,
                })
            },
        }
    }
}

} // verus!

verus! {

/// A lease can be refreshed with its token, by the network it was assigned
/// through, once no more than `MIN_SEED_REFRESH` seconds of it remain; the refresh
/// renews it for `MAX_SEED_ASSIGN_TIMEOUT` seconds with the same token.
pub proof fn lemma_lease_refresh_succeeds(routes: Seq<Route>, k: int, source_net: u16, token: u64, now: u64)
    requires
        routes_sorted(routes),
        0 <= k < routes.len(),
        routes[k].kind matches RouteKind::SeedAssigned { source_net_id, expiration_time, refresh_token }
            && source_net_id == source_net && refresh_token == token && now < expiration_time
            && expiration_time - now <= MIN_SEED_REFRESH_MS,
    ensures
        refresh_spec(routes, source_net, routes[k].net_id, token, now) == (
            Ok::<SeedNetAssignment, SeedRefreshError>(
                assignment(routes[k].net_id, MAX_SEED_ASSIGN_TIMEOUT, token),
            ),
            routes.update(
                k,
                Route {
                    kind: RouteKind::SeedAssigned {
                        source_net_id: source_net,
                        expiration_time: (now + MAX_SEED_ASSIGN_MS) as u64,
                        refresh_token: token,
                    },
                    ..routes[k]
                },
            ),
        ),
{
    lemma_route_idx(routes, k);
}

/// A lease just handed out can be refreshed at once, as its acknowledgement: its
/// first term is shorter than the refresh threshold.
pub proof fn lemma_fresh_lease_refreshable(
    routes: Seq<Route>,
    net: u16,
    via: u64,
    source_net: u16,
    token: u64,
    assigned_at: u64,
    now: u64,
)
    requires
        routes_sorted(routes),
        routes.contains(
            Route {
                net_id: net,
                ident: via,
                kind: RouteKind::SeedAssigned {
                    source_net_id: source_net,
                    expiration_time: (assigned_at + INITIAL_SEED_ASSIGN_MS) as u64,
                    refresh_token: token,
                },
            },
        ),
        time_ok(assigned_at),
        assigned_at <= now < assigned_at + INITIAL_SEED_ASSIGN_MS,
    ensures
        refresh_spec(routes, source_net, net, token, now).0 == Ok::<SeedNetAssignment, SeedRefreshError>(
            assignment(net, MAX_SEED_ASSIGN_TIMEOUT, token),
        ),
{
    let k = choose|k: int| 0 <= k < routes.len() && routes[k] == Route {
        net_id: net,
        ident: via,
        kind: RouteKind::SeedAssigned {
            source_net_id: source_net,
            expiration_time: (assigned_at + INITIAL_SEED_ASSIGN_MS) as u64,
            refresh_token: token,
        },
    };
    lemma_lease_refresh_succeeds(routes, k, source_net, token, now);
}

/// A refresh that presents a token other than the lease's, or that comes from
/// another network than the one the lease was assigned through, is refused as a
/// bad request and changes nothing.
pub proof fn lemma_refresh_wrong_token_refused(routes: Seq<Route>, k: int, source_net: u16, token: u64, now: u64)
    requires
        routes_sorted(routes),
        0 <= k < routes.len(),
        routes[k].kind matches RouteKind::SeedAssigned { source_net_id, refresh_token, .. } && (
        source_net_id != source_net || refresh_token != token),
    ensures
        refresh_spec(routes, source_net, routes[k].net_id, token, now) == (
            Err::<SeedNetAssignment, SeedRefreshError>(SeedRefreshError::BadRequest),
            routes,
        ),
{
    lemma_route_idx(routes, k);
}

/// A refresh that comes while more than `MIN_SEED_REFRESH` seconds of the lease
/// remain is refused as too soon and changes nothing; so right after a refresh,
/// which renews the lease for longer than that, the next one is too soon.
pub proof fn lemma_refresh_too_soon(routes: Seq<Route>, k: int, source_net: u16, token: u64, now: u64)
    requires
        routes_sorted(routes),
        0 <= k < routes.len(),
        routes[k].kind matches RouteKind::SeedAssigned { source_net_id, refresh_token, expiration_time }
            && source_net_id == source_net && refresh_token == token && expiration_time > now
            && expiration_time - now > MIN_SEED_REFRESH_MS,
    ensures
        refresh_spec(routes, source_net, routes[k].net_id, token, now) == (
            Err::<SeedNetAssignment, SeedRefreshError>(SeedRefreshError::TooSoon),
            routes,
        ),
{
    lemma_route_idx(routes, k);
}

/// When no tombstone is reclaimed, the net id the search gives is the lowest one
/// not in use: every lower id has a route, and it has none.
pub proof fn lemma_free_net_lowest(routes: Seq<Route>, now: u64)
    requires
        routes_sorted(routes),
        routes.len() < MAX_ROUTES,
        first_reclaim(routes, now, 0) is None,
    ensures
        free_net_spec(routes, now).0 matches Some(q) && !has_route(routes, q) && forall|x: u16|
            1 <= x < q ==> has_route(routes, x),
{
    lemma_free_net_unused(routes, now);
    lemma_run_end(routes, 0);
    let p = run_end(routes, 0);
    if routes.len() > 0 {
        let q = (p + 1) as u16;
        assert forall|x: u16| 1 <= x < q implies has_route(routes, x) by {
            assert(routes[x - 1].net_id == x);
        }
        let rs = free_net_spec(routes, now).1;
        if has_route(routes, q) {
            let j = choose|j: int| 0 <= j < routes.len() && routes[j].net_id == q;
            assert(rs[j].net_id == routes[j].net_id);
        }
    }
}

/// A network whose route is a tombstone (such as that of a removed interface) is
/// not routable: a message for it has no route.
pub proof fn lemma_tombstone_unroutable(
    links: Seq<Link>,
    routes: Seq<Route>,
    k: int,
    hdr: Header,
    source: Option<u64>,
    now: u64,
)
    requires
        routes_sorted(routes),
        0 <= k < routes.len(),
        routes[k].kind is Tombstone,
        hdr.dst.network_id == routes[k].net_id,
        !(hdr.dst.port_id == 0 && hdr.any_all is None),
    ensures
        find_spec(links, routes, hdr, source, now).0 == Err::<u64, InterfaceSendError>(
            InterfaceSendError::NoRouteToDest,
        ),
{
    lemma_route_idx(routes, k);
}

/// A tombstone holds its network for the whole grace period: until its clear
/// time, a search for a free net id neither hands that network out nor drops the
/// tombstone, a message for the network has no route, and routing it keeps the
/// tombstone. So after an interface is removed at `t` (its route becomes a
/// tombstone clearing at `t + TOMBSTONE_DURATION_MS`), any registrations and
/// messages before that time leave its network unused and unroutable.
pub proof fn lemma_tombstone_held(
    links: Seq<Link>,
    routes: Seq<Route>,
    x: Route,
    hdr: Header,
    source: Option<u64>,
    now: u64,
)
    requires
        routes_sorted(routes),
        routes.contains(x),
        x.kind matches RouteKind::Tombstone { clear_time } && now < clear_time,
        hdr.dst.network_id == x.net_id,
        !(hdr.dst.port_id == 0 && hdr.any_all is None),
    ensures
        free_net_spec(routes, now).0 != Some(x.net_id),
        free_net_spec(routes, now).1.contains(x),
        find_spec(links, routes, hdr, source, now).0 == Err::<u64, InterfaceSendError>(
            InterfaceSendError::NoRouteToDest,
        ),
        find_spec(links, routes, hdr, source, now).1.contains(x),
{
    let k = choose|k: int| 0 <= k < routes.len() && routes[k] == x;
    lemma_route_idx(routes, k);
    lemma_free_net_unused(routes, now);
    let (f, rs) = free_net_spec(routes, now);
    if routes.len() != 0 && routes.len() != MAX_ROUTES {
        match first_reclaim(routes, now, 0) {
            Some(e) => {
                lemma_first_reclaim(routes, now, 0);
                assert(e != k);
                let ex = expire_upto(routes, now, e as int);
                assert(ex[k] == x);
                if k < e {
                    assert(rs[k] == x);
                } else {
                    assert(rs[k - 1] == x);
                }
            },
            None => {
                let p = run_end(routes, 0);
                assert(rs[k] == x);
            },
        }
    }
    assert(rs.contains(x));
    if f == Some(x.net_id) {
        let j = choose|j: int| 0 <= j < rs.len() && rs[j] == x;
        assert(has_route(rs, x.net_id));
    }
}

/// A message for the edge device of a registered interface goes out of that
/// interface, unless it came in on it; one for the router's own address on that
/// network is local.
pub proof fn lemma_link_delivery(r: DirectRouter, i: int, hdr: Header, source: Option<u64>, now: u64)
    requires
        r.wf(),
        0 <= i < r.links().len(),
        hdr.dst.network_id == r.links()[i].net_id,
        !(hdr.dst.port_id == 0 && hdr.any_all is None),
    ensures
        ({
            let l = r.links()[i];
            let f = find_spec(r.links(), r.routes(), hdr, source, now).0;
            if hdr.dst.node_id == CENTRAL_NODE_ID {
                f == Err::<u64, InterfaceSendError>(InterfaceSendError::DestinationLocal)
            } else if source == Some(l.ident) {
                f == Err::<u64, InterfaceSendError>(InterfaceSendError::RoutingLoop)
            } else {
                f == Ok::<u64, InterfaceSendError>(l.ident)
            }
        }),
{
    let l = r.links()[i];
    let routes = r.routes();
    let k = choose|k: int| 0 <= k < routes.len() && routes[k] == link_route(l);
    lemma_route_idx(routes, k);
    let j = choose|j: int| 0 <= j < r.links().len() && r.links()[j].ident == l.ident;
    if j != i {
        assert(r.links()[j].ident != r.links()[i].ident);
    }
}

/// A forwarded broadcast is never sent back out of the interface it came in on,
/// and every copy is addressed to the edge device of its interface's network.
pub proof fn lemma_broadcast_not_back_to_source(links: Seq<Link>, h: HeaderSeq, source: u64)
    ensures
        forall|t: int|
            0 <= t < link_bcast_raw(links, h, source).len() ==> (#[trigger] link_bcast_raw(
                links,
                h,
                source,
            )[t]).0 != source && link_bcast_raw(links, h, source)[t].1.dst.node_id == EDGE_NODE_ID,
    decreases links.len(),
{
    if links.len() > 0 {
        lemma_broadcast_not_back_to_source(links.drop_last(), h, source);
    }
}

/// A locally originated broadcast is never sent to the network it is addressed
/// to, and every copy is addressed to the edge device of another network.
pub proof fn lemma_broadcast_skips_destination_net(links: Seq<Link>, h: Header)
    ensures
        forall|t: int|
            0 <= t < link_bcast(links, h).len() ==> (#[trigger] link_bcast(links, h)[t]).1.dst.network_id
                != h.dst.network_id && link_bcast(links, h)[t].1.dst.node_id == EDGE_NODE_ID,
    decreases links.len(),
{
    if links.len() > 0 {
        lemma_broadcast_skips_destination_net(links.drop_last(), h);
    }
}

/// A message for the "any" port is never routed without the any/all appendix
/// that carries its key.
pub proof fn lemma_any_port_needs_key(
    links: Seq<Link>,
    routes: Seq<Route>,
    hdr: Header,
    source: Option<u64>,
    now: u64,
)
    ensures
        find_spec(links, routes, hdr, source, now).0 is Ok ==> !(hdr.dst.port_id == 0
            && hdr.any_all is None),
        hdr.dst.port_id == 0 && hdr.any_all is None ==> find_spec(links, routes, hdr, source, now)
            == (Err::<u64, InterfaceSendError>(InterfaceSendError::AnyPortMissingKey), routes),
{
}

/// A live seed lease routes: a message for any node of a seed-assigned network
/// whose lease has not run out, and whose interface is registered, goes out of
/// that interface, unless it came in on it. The router's own address is on its
/// links' networks only, so even node `CENTRAL_NODE_ID` of a seed network (a
/// bridge behind the interface) is reached through the interface.
pub proof fn lemma_seed_route_delivers(r: DirectRouter, k: int, hdr: Header, source: Option<u64>, now: u64)
    requires
        r.wf(),
        0 <= k < r.routes().len(),
        r.routes()[k].kind matches RouteKind::SeedAssigned { expiration_time, .. } && now
            < expiration_time,
        has_link(r.links(), r.routes()[k].ident),
        hdr.dst.network_id == r.routes()[k].net_id,
        !(hdr.dst.port_id == 0 && hdr.any_all is None),
        source != Some(r.routes()[k].ident),
    ensures
        find_spec(r.links(), r.routes(), hdr, source, now).0 == Ok::<u64, InterfaceSendError>(
            r.routes()[k].ident,
        ),
{
    let routes = r.routes();
    let links = r.links();
    lemma_route_idx(routes, k);
    let l = link_of(links, routes[k].ident);
    let li = choose|li: int| 0 <= li < links.len() && links[li].ident == routes[k].ident;
    assert(l == links[li]);
    assert(routes.contains(link_route(l)));
    let j = choose|j: int| 0 <= j < routes.len() && routes[j] == link_route(l);
    assert(j != k);
    if j < k {
        assert(routes[j].net_id < routes[k].net_id);
    } else {
        assert(routes[k].net_id < routes[j].net_id);
    }
}

/// A message is taken as addressed to the router itself only when it is for
/// node `CENTRAL_NODE_ID` of the network of one of the router's own links.
pub proof fn lemma_destination_local_only_on_links(
    r: DirectRouter,
    hdr: Header,
    source: Option<u64>,
    now: u64,
)
    requires
        r.wf(),
        find_spec(r.links(), r.routes(), hdr, source, now).0 == Err::<u64, InterfaceSendError>(
            InterfaceSendError::DestinationLocal,
        ),
    ensures
        hdr.dst.node_id == CENTRAL_NODE_ID,
        exists|i: int| 0 <= i < r.links().len() && r.links()[i].net_id == hdr.dst.network_id,
{
    let links = r.links();
    let routes = r.routes();
    let k = route_idx(routes, hdr.dst.network_id);
    let l = link_of(links, routes[k].ident);
    let li = choose|li: int| 0 <= li < links.len() && links[li].ident == routes[k].ident;
    assert(l == links[li]);
}

} // verus!

