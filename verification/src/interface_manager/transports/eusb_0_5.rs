//! The embassy-usb bulk transport, receive side: a frame arrives as a run of
//! full packets ended by a short one (possibly empty). A frame that does not fit
//! the receive buffer is dropped, with the rest of its packets.
use vstd::prelude::*;

use crate::interface_manager::interface_impls::embassy_usb::{chunks_of, usb_packets};

verus! {

/// What a packet completes.
pub enum UsbRx {
    /// The frame goes on.
    Pending,
    /// A whole frame.
    Frame(Vec<u8>),
    /// The frame did not fit, and is dropped.
    TooLarge,
}

/// What a packet completes, on the level of values.
pub enum RxOut {
    Pending,
    Frame(Seq<u8>),
    TooLarge,
}

/// The value of a result.
pub open spec fn rx_out(r: &UsbRx) -> RxOut {
    match r {
        UsbRx::Pending => RxOut::Pending,
        UsbRx::Frame(v) => RxOut::Frame(v@),
        UsbRx::TooLarge => RxOut::TooLarge,
    }
}

/// The receiver's state: the part of the frame received so far, and whether the
/// buffer ran full, so that the rest of the frame is being skipped.
pub struct RxModel {
    pub data: Seq<u8>,
    pub skipping: bool,
}

/// The state in which a frame starts: nothing received; with no buffer at all,
/// every frame is skipped.
pub open spec fn rx_start(cap: nat) -> RxModel {
    RxModel { data: Seq::empty(), skipping: cap == 0 }
}

/// One packet `p` arrives, with a buffer of `cap` bytes and packets of `mps`
/// bytes: the next state and what the packet completes. While filling, a packet
/// that does not fit in what is left of the buffer drops the frame; a short
/// packet ends it; a full packet that fills the buffer turns to skipping. While
/// skipping, full packets are passed over, and the short packet that ends the
/// frame drops it.
pub open spec fn rx_step(m: RxModel, cap: nat, mps: nat, p: Seq<u8>) -> (RxModel, RxOut) {
    if !m.skipping {
        if p.len() + m.data.len() > cap {
            (rx_start(cap), RxOut::TooLarge)
        } else {
            let d = m.data + p;
            if p.len() != mps {
                (rx_start(cap), RxOut::Frame(d))
            } else if d.len() == cap {
                (RxModel { data: d, skipping: true }, RxOut::Pending)
            } else {
                (RxModel { data: d, skipping: false }, RxOut::Pending)
            }
        }
    } else {
        if p.len() > cap {
            (rx_start(cap), RxOut::TooLarge)
        } else if p.len() == mps {
            (m, RxOut::Pending)
        } else {
            (rx_start(cap), RxOut::TooLarge)
        }
    }
}

/// What each of the packets `ps` completes, received in turn from state `m`.
pub open spec fn rx_run(m: RxModel, cap: nat, mps: nat, ps: Seq<Seq<u8>>) -> Seq<RxOut>
    decreases ps.len(),
{
    if ps.len() == 0 {
        Seq::empty()
    } else {
        let (m2, o) = rx_step(m, cap, mps, ps[0]);
        seq![o] + rx_run(m2, cap, mps, ps.drop_first())
    }
}

/// The receiver of one endpoint.
pub struct UsbFrameReceiver {
    buf: Vec<u8>,
    cap: usize,
    mps: usize,
    skipping: bool,
}

impl UsbFrameReceiver {
    /// The state.
    pub closed spec fn model(&self) -> RxModel {
        RxModel { data: self.buf@, skipping: self.skipping }
    }

    /// The buffer's size.
    pub closed spec fn spec_cap(&self) -> nat {
        self.cap as nat
    }

    /// The packet size.
    pub closed spec fn spec_mps(&self) -> nat {
        self.mps as nat
    }

    /// The receiver's invariant: what was received fits in the buffer.
    pub open spec fn wf(&self) -> bool {
        self.model().data.len() <= self.spec_cap()
    }

    /// A receiver with a buffer of `cap` bytes, for packets of `mps` bytes.
    pub fn new(cap: usize, mps: usize) -> (r: Self)
        ensures
            r.wf(),
            r.model() == rx_start(cap as nat),
            r.spec_cap() == cap,
            r.spec_mps() == mps,
    {
        UsbFrameReceiver { buf: Vec::new(), cap, mps, skipping: cap == 0 }
    }

    fn restart(&mut self)
        requires
            old(self).wf(),
        ensures
            final(self).wf(),
            final(self).model() == rx_start(old(self).spec_cap()),
            final(self).spec_cap() == old(self).spec_cap(),
            final(self).spec_mps() == old(self).spec_mps(),
    {
        self.buf = Vec::new();
        self.skipping = self.cap == 0;
    }

    /// Receive one packet, as [`rx_step`] says.
    pub fn on_packet(&mut self, pkt: &[u8]) -> (r: UsbRx)
        requires
            old(self).wf(),
        ensures
            final(self).wf(),
            final(self).spec_cap() == old(self).spec_cap(),
            final(self).spec_mps() == old(self).spec_mps(),
            (final(self).model(), rx_out(&r)) == rx_step(
                old(self).model(),
                old(self).spec_cap(),
                old(self).spec_mps(),
                pkt@,
            ),
    {
        if !self.skipping {
            if pkt.len() > self.cap - self.buf.len() {
                self.restart();
                return UsbRx::TooLarge;
            }
            let ghost before = self.buf@;
            let mut i: usize = 0;
            while i < pkt.len()
                invariant
                    i <= pkt@.len(),
                    self.buf@ =~= before + pkt@.take(i as int),
                    self.cap == old(self).cap,
                    self.mps == old(self).mps,
                    self.skipping == old(self).skipping,
                decreases pkt@.len() - i,
            {
                self.buf.push(pkt[i]);
                i = i + 1;
            }
            assert(pkt@.take(pkt@.len() as int) =~= pkt@);
            if pkt.len() != self.mps {
                let mut frame: Vec<u8> = Vec::new();
                std::mem::swap(&mut frame, &mut self.buf);
                self.skipping = self.cap == 0;
                return UsbRx::Frame(frame);
            }
            if self.buf.len() == self.cap {
                self.skipping = true;
            }
            UsbRx::Pending
        } else {
            if pkt.len() > self.cap {
                self.restart();
                return UsbRx::TooLarge;
            }
            if pkt.len() == self.mps {
                return UsbRx::Pending;
            }
            self.restart();
            UsbRx::TooLarge
        }
    }
}

/// Packets of a frame, received after `d` while filling, end the frame `d + s`:
/// every packet but the last leaves it pending.
proof fn lemma_rx_run_tail(d: Seq<u8>, s: Seq<u8>, cap: nat, mps: nat)
    requires
        mps > 0,
        s.len() > 0,
        d.len() + s.len() <= cap,
        !(d.len() + s.len() == cap && s.len() % mps == 0),
    ensures
        ({
            let ps = usb_packets(s, mps);
            let outs = rx_run(RxModel { data: d, skipping: false }, cap, mps, ps);
            &&& outs.len() == ps.len()
            &&& ps.len() > 0
            &&& outs.last() == RxOut::Frame(d + s)
            &&& forall|i: int| 0 <= i < outs.len() - 1 ==> outs[i] == RxOut::Pending
        }),
    decreases s.len(),
{
    let m = RxModel { data: d, skipping: false };
    let ps = usb_packets(s, mps);
    if s.len() < mps {
        assert(s.len() % mps == s.len()) by (nonlinear_arith)
            requires
                s.len() < mps,
        ;
        assert(ps =~= seq![s]);
        assert(ps.drop_first() =~= Seq::<Seq<u8>>::empty());
        reveal_with_fuel(rx_run, 2);
        let outs = rx_run(m, cap, mps, ps);
        assert(outs =~= seq![RxOut::Frame(d + s)]);
    } else if s.len() == mps {
        assert(s.len() % mps == 0) by (nonlinear_arith)
            requires
                s.len() == mps,
                mps > 0,
        ;
        assert(ps =~= seq![s, Seq::<u8>::empty()]);
        let d2 = d + s;
        assert(d2.len() < cap);
        let m2 = RxModel { data: d2, skipping: false };
        assert(rx_step(m, cap, mps, s) == (m2, RxOut::Pending));
        assert(ps.drop_first() =~= seq![Seq::<u8>::empty()]);
        assert(d2 + Seq::<u8>::empty() =~= d2);
        assert(ps.drop_first().drop_first() =~= Seq::<Seq<u8>>::empty());
        reveal_with_fuel(rx_run, 3);
        let m3 = rx_step(m2, cap, mps, Seq::<u8>::empty()).0;
        assert(rx_run(m3, cap, mps, ps.drop_first().drop_first()) =~= Seq::<RxOut>::empty());
        let outs = rx_run(m, cap, mps, ps);
        assert(outs =~= seq![RxOut::Pending, RxOut::Frame(d + s)]);
    } else {
        let head = s.take(mps as int);
        let rest = s.skip(mps as int);
        assert(s =~= head + rest);
        vstd::arithmetic::div_mod::lemma_mod_add_multiples_vanish(rest.len() as int, mps as int);
        assert(s.len() % mps == rest.len() % mps);
        assert(chunks_of(s, mps) =~= seq![head] + chunks_of(rest, mps));
        assert(ps =~= seq![head] + usb_packets(rest, mps));
        let d2 = d + head;
        let m2 = RxModel { data: d2, skipping: false };
        assert(d2.len() < cap);
        assert(rx_step(m, cap, mps, head) == (m2, RxOut::Pending));
        assert(ps.drop_first() =~= usb_packets(rest, mps));
        assert(d2 + rest =~= d + s);
        lemma_rx_run_tail(d2, rest, cap, mps);
        let outs = rx_run(m, cap, mps, ps);
        let tail_outs = rx_run(m2, cap, mps, usb_packets(rest, mps));
        assert(outs =~= seq![RxOut::Pending] + tail_outs);
    }
}

/// What the sender writes for a frame, the receiver gives back: the packets of a
/// nonempty frame that fits the receive buffer leave the frame pending until the
/// last, which delivers exactly the frame. (A frame that fills the buffer exactly
/// with full packets is not delivered: the buffer is full before the packet that
/// ends it.)
pub proof fn lemma_usb_frame_roundtrip(f: Seq<u8>, cap: nat, mps: nat)
    requires
        mps > 0,
        0 < f.len() <= cap,
        !(f.len() == cap && f.len() % mps == 0),
    ensures
        ({
            let ps = usb_packets(f, mps);
            let outs = rx_run(rx_start(cap), cap, mps, ps);
            &&& outs.len() == ps.len()
            &&& outs.last() == RxOut::Frame(f)
            &&& forall|i: int| 0 <= i < outs.len() - 1 ==> outs[i] == RxOut::Pending
        }),
{
    lemma_rx_run_tail(Seq::empty(), f, cap, mps);
    assert(Seq::<u8>::empty() + f =~= f);
    assert(rx_start(cap) == RxModel { data: Seq::<u8>::empty(), skipping: false });
}

} // verus!
