//! A TCP interface manager: COBS framing of frames over byte streams, and the
//! allocation of network IDs to connections.
//!
//! The manager acts as the only seed router of its network: each TCP connection
//! gets a network of its own, and the manager is node 1 on each of them. This
//! module keeps the manager's table of connections and makes its decisions; the
//! sockets and the tasks that serve them live with the caller.
use vstd::prelude::*;

pub mod acc;
pub mod frame;

pub use acc::{CobsAccumulator, FeedResult};

use acc::{
    cobs_decoded, feed_step, first_zero, lemma_feed_split, lemma_first_zero, lemma_first_zero_concat,
    lemma_first_zero_some, FeedStep,
};
use frame::{de_frame, frame_decode, frame_model, FrameModel, OwnedFrame};

use crate::interface_manager::InterfaceSendError;
use crate::{Address, Key};

verus! {

/// What a connection's receiver makes of a chunk of the byte stream, with
/// `pending` bytes buffered and room for `cap`: it feeds the chunk to the
/// accumulator again and again, on what each feed hands back, until the chunk
/// is used up. An overfull frame is dropped, a frame that does not COBS-decode is
/// skipped, and a decoded frame is delivered when its bytes read as a frame and
/// skipped otherwise. The frames delivered, in order, and the bytes left pending.
pub open spec fn drain_spec(pending: Seq<u8>, cap: nat, input: Seq<u8>) -> (Seq<FrameModel>, Seq<u8>)
    decreases input.len(), pending.len(),
{
    if input.len() == 0 || cap == 0 || pending.len() > cap {
        (Seq::empty(), pending)
    } else {
        proof {
            lemma_first_zero_some(input);
        }
        let (step, p2) = feed_step(pending, cap, input);
        match step {
            FeedStep::Consumed => (Seq::empty(), p2),
            FeedStep::OverFull(rest) => drain_spec(p2, cap, rest),
            FeedStep::DeserError(rest) => drain_spec(p2, cap, rest),
            FeedStep::Success(d, rest) => {
                let (fs, p3) = drain_spec(p2, cap, rest);
                match frame_decode(d) {
                    Some(m) => (seq![m] + fs, p3),
                    None => (fs, p3),
                }
            },
        }
    }
}

/// No frame of the stream overflows the buffer: fed after `pending`, each
/// zero-terminated segment of `s` (its zero included), and the unterminated tail,
/// fits in `cap` bytes.
pub open spec fn fits(pending: Seq<u8>, cap: nat, s: Seq<u8>) -> bool
    decreases s.len(),
{
    proof {
        lemma_first_zero_some(s);
    }
    match first_zero(s) {
        Some(n) => pending.len() + n + 1 <= cap && fits(Seq::empty(), cap, s.skip(n + 1 as int)),
        None => pending.len() + s.len() <= cap,
    }
}

/// How a stream is split into chunks does not matter: draining `s1` and then
/// `s2` delivers the same frames, and leaves the same bytes pending, as draining
/// `s1 + s2` at once, as long as no frame overflows the buffer. (A frame that
/// overflows is cut where the buffer fills, and the cut depends on the chunks.)
pub proof fn lemma_drain_split(pending: Seq<u8>, cap: nat, s1: Seq<u8>, s2: Seq<u8>)
    requires
        cap > 0,
        fits(pending, cap, s1 + s2),
    ensures
        ({
            let (f1, p1) = drain_spec(pending, cap, s1);
            let (f2, p2) = drain_spec(p1, cap, s2);
            drain_spec(pending, cap, s1 + s2) == (f1 + f2, p2)
        }),
    decreases s1.len(),
{
    let s = s1 + s2;
    lemma_first_zero_some(s);
    lemma_first_zero_some(s1);
    assert(pending.len() <= cap);
    if s1.len() == 0 {
        assert(s =~= s2);
        let (f2, p2) = drain_spec(pending, cap, s2);
        assert(Seq::<FrameModel>::empty() + f2 =~= f2);
    } else {
        match first_zero(s1) {
            None => {
                lemma_first_zero_concat(s1, s2);
                assert(pending.len() + s1.len() <= cap);
                assert(drain_spec(pending, cap, s1) == (Seq::<FrameModel>::empty(), pending + s1));
                if s2.len() == 0 {
                    assert(s =~= s1);
                } else {
                    lemma_feed_split(pending, cap, s1, s2);
                }
                let (f2, p2) = drain_spec(pending + s1, cap, s2);
                assert(Seq::<FrameModel>::empty() + f2 =~= f2);
            },
            Some(n) => {
                assert forall|j: int| 0 <= j < n implies s[j] != 0 by {
                    assert(s[j] == s1[j]);
                }
                assert(s[n as int] == s1[n as int]);
                lemma_first_zero(s, n);
                let b = s1.skip(n + 1 as int);
                assert(s.take(n + 1 as int) =~= s1.take(n + 1 as int));
                assert(s.skip(n + 1 as int) =~= b + s2);
                assert(fits(Seq::empty(), cap, b + s2));
                lemma_drain_split(Seq::empty(), cap, b, s2);
                let (fb, pb) = drain_spec(Seq::empty(), cap, b);
                let (f2, p2) = drain_spec(pb, cap, s2);
                let d = cobs_decoded(pending + s1.take(n + 1 as int));
                match d {
                    Some(x) => match frame_decode(x) {
                        Some(m) => {
                            assert(seq![m] + (fb + f2) =~= (seq![m] + fb) + f2);
                        },
                        None => {},
                    },
                    None => {},
                }
            },
        }
    }
}

/// The values of a list of frames.
pub open spec fn frame_models(fs: Seq<OwnedFrame>) -> Seq<FrameModel> {
    fs.map_values(|f: OwnedFrame| frame_model(&f))
}

/// Take a chunk of a connection's byte stream, as [`drain_spec`] says: the frames
/// it completes, in order; the accumulator keeps what is left of an unfinished
/// frame. (An accumulator without room would never use up a chunk.)
pub fn drain(acc: &mut CobsAccumulator, input: &[u8]) -> (r: Vec<OwnedFrame>)
    requires
        old(acc).wf(),
        old(acc).capacity() > 0,
    ensures
        final(acc).wf(),
        final(acc).capacity() == old(acc).capacity(),
        frame_models(r@) == drain_spec(old(acc).pending(), old(acc).capacity(), input@).0,
        final(acc).pending() == drain_spec(old(acc).pending(), old(acc).capacity(), input@).1,
{
    let ghost cap = acc.capacity();
    let ghost total = drain_spec(acc.pending(), cap, input@);
    let mut out: Vec<OwnedFrame> = Vec::new();
    let mut window: &[u8] = input;
    loop
        invariant_except_break
            frame_models(out@) + drain_spec(acc.pending(), cap, window@).0 == total.0,
            drain_spec(acc.pending(), cap, window@).1 == total.1,
        invariant
            acc.wf(),
            acc.capacity() == cap,
            cap > 0,
        ensures
            frame_models(out@) == total.0,
            acc.pending() == total.1,
        decreases window@.len(), acc.pending().len(),
    {
        if window.len() == 0 {
            assert(frame_models(out@) + Seq::<FrameModel>::empty() =~= frame_models(out@));
            break;
        }
        proof {
            acc.lemma_pending_fits();
            lemma_first_zero_some(window@);
        }
        let ghost p0 = acc.pending();
        let ghost w0 = window@;
        let ghost before = frame_models(out@);
        match acc.feed_raw(window) {
            FeedResult::Consumed => {
                assert(before + Seq::<FrameModel>::empty() =~= before);
                break;
            },
            FeedResult::OverFull(rest) => {
                window = rest;
            },
            FeedResult::DeserError(rest) => {
                window = rest;
            },
            FeedResult::Success { data, remaining } => {
                let decoded = de_frame(data);
                match decoded {
                    Some(f) => {
                        out.push(f);
                        proof {
                            assert(frame_models(out@) =~= before.push(frame_model(&f)));
                            let tail = drain_spec(acc.pending(), cap, remaining@).0;
                            assert(before.push(frame_model(&f)) + tail =~= before + (seq![frame_model(&f)] + tail));
                        }
                    },
                    None => {},
                }
                window = remaining;
            },
        }
    }
    out
}

/// Why a connection could not be registered.
#[derive(Debug, Clone, Copy, PartialEq, Eq, Structural)]
pub enum Error {
    OutOfNetIds,
}

/// Why a connection's receiver stopped.
#[derive(Debug, Clone, Copy, PartialEq, Eq, Structural)]
pub enum ReceiverError {
    SocketClosed,
}

/// The node id of the manager on each of its networks.
pub const LOCAL_NODE_ID: u8 = 1;

/// The most connections (and so networks) the manager serves at once.
pub const MAX_INTERFACES: usize = 65534;

/// One connection: its network, and whether it has been closed.
#[derive(Debug, Clone, Copy, PartialEq, Eq, Structural)]
pub struct StdTcpInterface {
    pub net_id: u16,
    pub closed: bool,
}

/// The connections are ordered by network, without repeats, and every network
/// id lies in `1..=65534`.
pub open spec fn ifaces_sorted(s: Seq<StdTcpInterface>) -> bool {
    &&& forall|i: int, j: int|
        #![trigger s[i], s[j]]
        0 <= i < j < s.len() ==> s[i].net_id < s[j].net_id
    &&& forall|i: int| 0 <= i < s.len() ==> 1 <= #[trigger] s[i].net_id <= 65534
}

/// Some connection is on the given network.
pub open spec fn has_net(s: Seq<StdTcpInterface>, net: u16) -> bool {
    exists|i: int| 0 <= i < s.len() && s[i].net_id == net
}

/// A connection survives the collection of closed ones when there was nothing to
/// collect (no receiver has stopped since), or when it is open.
pub open spec fn survives(x: StdTcpInterface, any_closed: bool) -> bool {
    !any_closed || !x.closed
}

/// Some connection that survives the collection is on the given network.
pub open spec fn live_net(s: Seq<StdTcpInterface>, any_closed: bool, net: u16) -> bool {
    exists|i: int| 0 <= i < s.len() && s[i].net_id == net && survives(s[i], any_closed)
}

/// `q` is the lowest network id that no surviving connection uses.
pub open spec fn is_lowest_free(s: Seq<StdTcpInterface>, any_closed: bool, q: u16) -> bool {
    &&& 1 <= q
    &&& !live_net(s, any_closed, q)
    &&& forall|y: u16| 1 <= y < q ==> #[trigger] live_net(s, any_closed, y)
}

/// Where a frame from `src` to `dst` goes with the connections `s` and the next
/// sequence number `seq_no`: the network of the connection, the source to put on
/// the frame, and its sequence number; or why not. A destination that is the
/// manager itself is local. A local source (network and node zero) is given the
/// manager's address on the destination's network, so that answers find their way
/// back.
pub open spec fn route_spec(s: Seq<StdTcpInterface>, seq_no: u16, src: Address, dst: Address) -> Result<
    (u16, Address, u16),
    InterfaceSendError,
> {
    if !has_net(s, dst.network_id) {
        Err(InterfaceSendError::NoRouteToDest)
    } else if dst.node_id == LOCAL_NODE_ID {
        Err(InterfaceSendError::DestinationLocal)
    } else {
        let src2 = if src.network_id == 0 && src.node_id == 0 {
            Address { network_id: dst.network_id, node_id: LOCAL_NODE_ID, port_id: src.port_id }
        } else {
            src
        };
        Ok((dst.network_id, src2, seq_no))
    }
}

/// Keep the open connections, in order.
fn collect_open(v: &Vec<StdTcpInterface>) -> (r: Vec<StdTcpInterface>)
    requires
        ifaces_sorted(v@),
    ensures
        ifaces_sorted(r@),
        forall|x: StdTcpInterface| r@.contains(x) <==> (v@.contains(x) && !x.closed),
{
    let mut kept: Vec<StdTcpInterface> = Vec::new();
    let mut k: usize = 0;
    while k < v.len()
        invariant
            ifaces_sorted(v@),
            k <= v@.len(),
            ifaces_sorted(kept@),
            forall|a: int, j: int|
                0 <= a < kept@.len() && k <= j < v@.len() ==> (#[trigger] kept@[a]).net_id < (
                #[trigger] v@[j]).net_id,
            forall|x: StdTcpInterface| kept@.contains(x) <==> (v@.take(k as int).contains(x) && !x.closed),
        decreases v@.len() - k,
    {
        let it = v[k];
        let ghost kb = kept@;
        if !it.closed {
            kept.push(it);
        }
        proof {
            let kn = kept@;
            let t = v@.take(k as int);
            let tk = v@.take(k + 1 as int);
            assert(tk == t.push(it));
            assert forall|x: StdTcpInterface| kn.contains(x) <==> (tk.contains(x) && !x.closed) by {
                if kn.contains(x) {
                    let j = choose|j: int| 0 <= j < kn.len() && kn[j] == x;
                    if j < kb.len() {
                        assert(kb.contains(x));
                        let i2 = choose|i2: int| 0 <= i2 < t.len() && t[i2] == x;
                        assert(tk[i2] == x);
                    } else {
                        assert(tk[k as int] == x);
                    }
                }
                if tk.contains(x) && !x.closed {
                    let j = choose|j: int| 0 <= j < tk.len() && tk[j] == x;
                    if j < k {
                        assert(t[j] == x);
                        assert(kb.contains(x));
                        let i2 = choose|i2: int| 0 <= i2 < kb.len() && kb[i2] == x;
                        assert(kn[i2] == x);
                    } else {
                        assert(kn[kn.len() - 1] == x);
                    }
                }
            }
            assert forall|a: int, b: int|
                #![trigger kn[a], kn[b]]
                0 <= a < b < kn.len() implies kn[a].net_id < kn[b].net_id by {
                if b < kb.len() {
                    assert(kb[a].net_id < kb[b].net_id);
                } else {
                    assert(kn[a] == kb[a]);
                    assert(kb[a].net_id < v@[k as int].net_id);
                }
            }
            assert forall|a: int| 0 <= a < kn.len() implies 1 <= #[trigger] kn[a].net_id <= 65534 by {
                if a < kb.len() {
                    assert(kn[a] == kb[a]);
                }
            }
            assert forall|a: int, j: int|
                0 <= a < kn.len() && k + 1 <= j < v@.len() implies (#[trigger] kn[a]).net_id < (
                #[trigger] v@[j]).net_id by {
                assert(v@[k as int].net_id < v@[j].net_id);
                if a < kb.len() {
                    assert(kn[a] == kb[a]);
                    assert(kb[a].net_id < v@[k as int].net_id);
                }
            }
        }
        k = k + 1;
    }
    assert(v@.take(v@.len() as int) =~= v@);
    kept
}

/// Add a connection on a network that has none, keeping the order.
fn insert_iface(v: &mut Vec<StdTcpInterface>, x: StdTcpInterface)
    requires
        ifaces_sorted(old(v)@),
        !has_net(old(v)@, x.net_id),
        1 <= x.net_id <= 65534,
    ensures
        ifaces_sorted(final(v)@),
        final(v)@.len() == old(v)@.len() + 1,
        forall|y: StdTcpInterface| final(v)@.contains(y) <==> (old(v)@.contains(y) || y == x),
{
    let ghost before = v@;
    let mut pos: usize = 0;
    while pos < v.len() && v[pos].net_id < x.net_id
        invariant
            v@ == before,
            pos <= v@.len(),
            forall|j: int| 0 <= j < pos ==> #[trigger] v@[j].net_id < x.net_id,
        decreases v@.len() - pos,
    {
        pos = pos + 1;
    }
    if pos < v.len() {
        assert(v@[pos as int].net_id != x.net_id);
    }
    v.insert(pos, x);
    proof {
        let rs = v@;
        assert(rs == before.insert(pos as int, x));
        assert forall|a: int, b: int|
            #![trigger rs[a], rs[b]]
            0 <= a < b < rs.len() implies rs[a].net_id < rs[b].net_id by {
            if b < pos {
                assert(before[a].net_id < before[b].net_id);
            } else if b == pos {
            } else if a < pos {
                if b - 1 > pos {
                    assert(before[pos as int].net_id < before[b - 1].net_id);
                }
            } else if a == pos {
                if b - 1 > pos {
                    assert(before[pos as int].net_id < before[b - 1].net_id);
                }
            } else {
                assert(before[a - 1].net_id < before[b - 1].net_id);
            }
        }
        assert forall|a: int| 0 <= a < rs.len() implies 1 <= #[trigger] rs[a].net_id <= 65534 by {
            if a > pos {
                assert(rs[a] == before[a - 1]);
            } else if a < pos {
                assert(rs[a] == before[a]);
            }
        }
        assert forall|y: StdTcpInterface| rs.contains(y) <==> (before.contains(y) || y == x) by {
            if rs.contains(y) {
                let j = choose|j: int| 0 <= j < rs.len() && rs[j] == y;
                if j < pos {
                    assert(before[j] == y);
                } else if j > pos {
                    assert(before[j - 1] == y);
                }
            }
            if before.contains(y) {
                let j = choose|j: int| 0 <= j < before.len() && before[j] == y;
                if j < pos {
                    assert(rs[j] == y);
                } else {
                    assert(rs[j + 1] == y);
                }
            }
            if y == x {
                assert(rs[pos as int] == y);
            }
        }
    }
}

/// The table of a TCP interface manager.
pub struct StdTcpImInner {
    interfaces: Vec<StdTcpInterface>,
    seq_no: u16,
    any_closed: bool,
}

impl StdTcpImInner {
    /// The connections, ordered by network.
    pub closed spec fn interfaces(&self) -> Seq<StdTcpInterface> {
        self.interfaces@
    }

    /// The sequence number of the next frame sent.
    pub closed spec fn seq_no(&self) -> u16 {
        self.seq_no
    }

    /// Whether some receiver has stopped, so that closed connections are to be
    /// collected.
    pub closed spec fn any_closed(&self) -> bool {
        self.any_closed
    }

    /// The table's invariant: ordered by network, ids in `1..=65534`.
    pub open spec fn wf(&self) -> bool {
        ifaces_sorted(self.interfaces())
    }

    /// An empty table.
    pub fn new() -> (r: Self)
        ensures
            r.wf(),
            r.interfaces().len() == 0,
            r.seq_no() == 0,
            !r.any_closed(),
    {
        StdTcpImInner { interfaces: Vec::new(), seq_no: 0, any_closed: false }
    }

    /// Allocate a network for a new connection. The first connection gets network
    /// 1. Otherwise, unless 65534 connections are held already, closed connections
    /// are collected (if a receiver has stopped since the start) and the new one
    /// gets the lowest network id left free.
    pub fn alloc_intfc(&mut self) -> (r: Option<u16>)
        requires
            old(self).wf(),
        ensures
            final(self).wf(),
            final(self).seq_no() == old(self).seq_no(),
            final(self).any_closed() == old(self).any_closed(),
            old(self).interfaces().len() == 0 ==> r == Some(1u16) && final(self).interfaces() == seq![
                StdTcpInterface { net_id: 1, closed: false },
            ],
            old(self).interfaces().len() >= MAX_INTERFACES ==> r is None && final(self).interfaces()
                == old(self).interfaces(),
            0 < old(self).interfaces().len() < MAX_INTERFACES ==> (r matches Some(q) && is_lowest_free(
                old(self).interfaces(),
                old(self).any_closed(),
                q,
            ) && forall|x: StdTcpInterface|
                final(self).interfaces().contains(x) <==> (old(self).interfaces().contains(x) && survives(
                    x,
                    old(self).any_closed(),
                ) || x == StdTcpInterface { net_id: q, closed: false })),
    {
        if self.interfaces.len() == 0 {
            self.interfaces.push(StdTcpInterface { net_id: 1, closed: false });
            assert(self.interfaces@ =~= seq![StdTcpInterface { net_id: 1, closed: false }]);
            return Some(1);
        } else if self.interfaces.len() >= MAX_INTERFACES {
            return None;
        }
        let ghost old_ifs = self.interfaces@;
        if self.any_closed {
            self.interfaces = collect_open(&self.interfaces);
        }
        let ghost live = self.interfaces@;
        assert forall|x: StdTcpInterface| live.contains(x) <==> (old_ifs.contains(x) && survives(x, self.any_closed)) by {}
        // The live connections are no more than the old ones.
        assert(live.len() <= old_ifs.len()) by {
            assert(live.no_duplicates()) by {
                assert forall|a: int, b: int|
                    0 <= a < live.len() && 0 <= b < live.len() && a != b implies live[a] != live[b] by {
                    if a < b {
                        assert(live[a].net_id < live[b].net_id);
                    } else {
                        assert(live[b].net_id < live[a].net_id);
                    }
                }
            }
            live.unique_seq_to_set();
            old_ifs.lemma_cardinality_of_set();
            vstd::seq_lib::seq_to_set_is_finite(old_ifs);
            assert(live.to_set().subset_of(old_ifs.to_set()));
            vstd::set_lib::lemma_len_subset(live.to_set(), old_ifs.to_set());
        }
        let mut net_id: u16 = 1;
        let mut i: usize = 0;
        while i < self.interfaces.len() && self.interfaces[i].net_id <= net_id
            invariant
                self.interfaces@ == live,
                ifaces_sorted(live),
                live.len() < MAX_INTERFACES,
                i <= live.len(),
                net_id == i + 1,
                forall|j: int| 0 <= j < i ==> #[trigger] live[j].net_id == j + 1,
            decreases live.len() - i,
        {
            proof {
                lemma_ifaces_ids_above_positions(live, i as int);
            }
            net_id = net_id + 1;
            i = i + 1;
        }
        proof {
            if i < live.len() {
                lemma_ifaces_ids_above_positions(live, i as int);
            }
            if has_net(live, net_id) {
                let j = choose|j: int| 0 <= j < live.len() && live[j].net_id == net_id;
                if j < i {
                    assert(live[j].net_id == j + 1);
                } else if j > i {
                    assert(live[i as int].net_id < live[j].net_id);
                }
            }
            assert forall|y: u16| 1 <= y < net_id implies #[trigger] live_net(old_ifs, self.any_closed, y) by {
                assert(live[y - 1].net_id == y);
                assert(live.contains(live[y - 1]));
                let k = choose|k: int| 0 <= k < old_ifs.len() && old_ifs[k] == live[y - 1];
            }
            if live_net(old_ifs, self.any_closed, net_id) {
                let k = choose|k: int| 0 <= k < old_ifs.len() && old_ifs[k].net_id == net_id && survives(old_ifs[k], self.any_closed);
                assert(live.contains(old_ifs[k]));
                let j = choose|j: int| 0 <= j < live.len() && live[j] == old_ifs[k];
            }
        }
        insert_iface(&mut self.interfaces, StdTcpInterface { net_id, closed: false });
        Some(net_id)
    }

    /// Route a frame from `src` to `dst` (with its key, which a frame to the
    /// "any" port must carry), as [`route_spec`] says; a routed frame takes the
    /// next sequence number, and the counter moves on, wrapping.
    pub fn route(&mut self, src: Address, dst: Address, key: Option<Key>) -> (r: Result<
        (u16, Address, u16),
        InterfaceSendError,
    >)
        requires
            old(self).wf(),
            !(dst.port_id == 0 && key is None),
        ensures
            final(self).wf(),
            final(self).interfaces() == old(self).interfaces(),
            final(self).any_closed() == old(self).any_closed(),
            r == route_spec(old(self).interfaces(), old(self).seq_no(), src, dst),
            r is Ok ==> final(self).seq_no() == old(self).seq_no().wrapping_add(1),
            r is Err ==> final(self).seq_no() == old(self).seq_no(),
    {
        let mut idx: usize = 0;
        while idx < self.interfaces.len() && self.interfaces[idx].net_id != dst.network_id
            invariant
                idx <= self.interfaces@.len(),
                forall|j: int| 0 <= j < idx ==> #[trigger] self.interfaces@[j].net_id != dst.network_id,
            decreases self.interfaces@.len() - idx,
        {
            idx = idx + 1;
        }
        if idx == self.interfaces.len() {
            return Err(InterfaceSendError::NoRouteToDest);
        }
        let interface = self.interfaces[idx];
        if dst.network_id == interface.net_id && dst.node_id == LOCAL_NODE_ID {
            return Err(InterfaceSendError::DestinationLocal);
        }
        let mut src = src;
        if src.net_node_any() {
            src.network_id = interface.net_id;
            src.node_id = LOCAL_NODE_ID;
        }
        let seq_no = self.seq_no;
        self.seq_no = self.seq_no.wrapping_add(1);
        Ok((interface.net_id, src, seq_no))
    }

    /// Mark the connection on `net_id` closed, its receiver having stopped, so
    /// that it is collected at the next allocation.
    pub fn close_interface(&mut self, net_id: u16)
        requires
            old(self).wf(),
        ensures
            final(self).wf(),
            final(self).any_closed(),
            final(self).seq_no() == old(self).seq_no(),
            final(self).interfaces().len() == old(self).interfaces().len(),
            forall|i: int|
                0 <= i < old(self).interfaces().len() ==> #[trigger] final(self).interfaces()[i] == (
                if old(self).interfaces()[i].net_id == net_id {
                    StdTcpInterface { net_id, closed: true }
                } else {
                    old(self).interfaces()[i]
                }),
    {
        let mut i: usize = 0;
        while i < self.interfaces.len()
            invariant
                ifaces_sorted(self.interfaces@),
                self.seq_no == old(self).seq_no,
                i <= self.interfaces@.len(),
                self.interfaces@.len() == old(self).interfaces@.len(),
                forall|j: int|
                    0 <= j < self.interfaces@.len() ==> #[trigger] self.interfaces@[j] == (if j < i
                        && old(self).interfaces@[j].net_id == net_id {
                        StdTcpInterface { net_id, closed: true }
                    } else {
                        old(self).interfaces@[j]
                    }),
            decreases self.interfaces@.len() - i,
        {
            if self.interfaces[i].net_id == net_id {
                let ghost before = self.interfaces@;
                self.interfaces.set(i, StdTcpInterface { net_id, closed: true });
                proof {
                    let s = self.interfaces@;
                    assert forall|a: int, b: int|
                        #![trigger s[a], s[b]]
                        0 <= a < b < s.len() implies s[a].net_id < s[b].net_id by {
                        assert(s[a].net_id == before[a].net_id);
                        assert(s[b].net_id == before[b].net_id);
                    }
                    assert forall|a: int| 0 <= a < s.len() implies 1 <= #[trigger] s[a].net_id <= 65534 by {
                        assert(s[a].net_id == before[a].net_id);
                    }
                }
            }
            i = i + 1;
        }
        self.any_closed = true;
    }

    /// Remove the connection on `net_id`, whose queue was found closed; the
    /// removed connection, if there was one.
    pub fn remove_interface(&mut self, net_id: u16) -> (r: Option<StdTcpInterface>)
        requires
            old(self).wf(),
        ensures
            final(self).wf(),
            final(self).seq_no() == old(self).seq_no(),
            final(self).any_closed() == old(self).any_closed(),
            !has_net(old(self).interfaces(), net_id) ==> r is None && final(self).interfaces() == old(
                self,
            ).interfaces(),
            has_net(old(self).interfaces(), net_id) ==> (r matches Some(x) && x.net_id == net_id
                && old(self).interfaces().contains(x)) && final(self).interfaces().len() == old(
                self,
            ).interfaces().len() - 1 && forall|y: StdTcpInterface|
                final(self).interfaces().contains(y) <==> (old(self).interfaces().contains(y) && y.net_id
                    != net_id),
    {
        let mut i: usize = 0;
        while i < self.interfaces.len() && self.interfaces[i].net_id != net_id
            invariant
                i <= self.interfaces@.len(),
                forall|j: int| 0 <= j < i ==> #[trigger] self.interfaces@[j].net_id != net_id,
            decreases self.interfaces@.len() - i,
        {
            i = i + 1;
        }
        if i == self.interfaces.len() {
            return None;
        }
        let ghost before = self.interfaces@;
        let x = self.interfaces.remove(i);
        proof {
            let s = self.interfaces@;
            assert(s == before.remove(i as int));
            assert forall|a: int, b: int|
                #![trigger s[a], s[b]]
                0 <= a < b < s.len() implies s[a].net_id < s[b].net_id by {
                let oa = if a < i { a } else { a + 1 };
                let ob = if b < i { b } else { b + 1 };
                assert(before[oa].net_id < before[ob].net_id);
            }
            assert forall|a: int| 0 <= a < s.len() implies 1 <= #[trigger] s[a].net_id <= 65534 by {
                let oa = if a < i { a } else { a + 1 };
                assert(s[a] == before[oa]);
            }
            assert forall|y: StdTcpInterface| s.contains(y) <==> (before.contains(y) && y.net_id != net_id) by {
                if s.contains(y) {
                    let j = choose|j: int| 0 <= j < s.len() && s[j] == y;
                    let oj = if j < i { j } else { j + 1 };
                    assert(before[oj] == y);
                    if oj < i {
                        assert(before[oj].net_id < before[i as int].net_id);
                    } else {
                        assert(before[i as int].net_id < before[oj].net_id);
                    }
                }
                if before.contains(y) && y.net_id != net_id {
                    let j = choose|j: int| 0 <= j < before.len() && before[j] == y;
                    if j < i {
                        assert(s[j] == y);
                    } else {
                        assert(s[j - 1] == y);
                    }
                }
            }
            assert(before.contains(x));
        }
        Some(x)
    }

    /// The networks of the connections, in order.
    pub fn get_nets(&self) -> (r: Vec<u16>)
        ensures
            r@ == self.interfaces().map_values(|x: StdTcpInterface| x.net_id),
    {
        let mut out: Vec<u16> = Vec::new();
        let mut i: usize = 0;
        while i < self.interfaces.len()
            invariant
                i <= self.interfaces@.len(),
                out@ == self.interfaces@.take(i as int).map_values(|x: StdTcpInterface| x.net_id),
            decreases self.interfaces@.len() - i,
        {
            out.push(self.interfaces[i].net_id);
            i = i + 1;
            assert(out@ =~= self.interfaces@.take(i as int).map_values(|x: StdTcpInterface| x.net_id));
        }
        assert(self.interfaces@.take(i as int) =~= self.interfaces@);
        out
    }
}

/// In an ordered table, each connection's network id is at least its position
/// plus one.
proof fn lemma_ifaces_ids_above_positions(s: Seq<StdTcpInterface>, i: int)
    requires
        ifaces_sorted(s),
        0 <= i < s.len(),
    ensures
        s[i].net_id >= i + 1,
    decreases i,
{
    if i > 0 {
        lemma_ifaces_ids_above_positions(s, i - 1);
        assert(s[i - 1].net_id < s[i].net_id);
    }
}

/// A connection's network is routable: a frame for any node on it but the
/// manager goes to that connection, with the next sequence number.
pub proof fn lemma_connection_routable(
    s: Seq<StdTcpInterface>,
    x: StdTcpInterface,
    seq_no: u16,
    src: Address,
    dst: Address,
)
    requires
        s.contains(x),
        dst.network_id == x.net_id,
        dst.node_id != LOCAL_NODE_ID,
    ensures
        route_spec(s, seq_no, src, dst) matches Ok((net, _, seq)) && net == x.net_id && seq == seq_no,
{
    let i = choose|i: int| 0 <= i < s.len() && s[i] == x;
    assert(s[i].net_id == dst.network_id);
}

} // verus!
