//! The embassy-usb interface: buffers for a USB device's descriptors.
use vstd::prelude::*;

verus! {

/// Default max packet size for USB Full Speed.
pub const USB_FS_MAX_PACKET_SIZE: usize = 64;

/// Storage for a USB device's descriptors and control buffer.
pub struct UsbDeviceBuffers<const CONFIG: usize, const BOS: usize, const CONTROL: usize, const MSOS: usize> {
    /// Config descriptor storage
    pub config_descriptor: [u8; CONFIG],
    /// BOS descriptor storage
    pub bos_descriptor: [u8; BOS],
    /// CONTROL endpoint buffer storage
    pub control_buf: [u8; CONTROL],
    /// MSOS descriptor buffer storage
    pub msos_descriptor: [u8; MSOS],
}

impl<const CONFIG: usize, const BOS: usize, const CONTROL: usize, const MSOS: usize> UsbDeviceBuffers<
    CONFIG,
    BOS,
    CONTROL,
    MSOS,
> {
    /// A new, empty (zeroed) set of buffers.
    pub fn new() -> (r: Self)
        ensures
            forall|i: int| 0 <= i < CONFIG ==> r.config_descriptor@[i] == 0,
            forall|i: int| 0 <= i < BOS ==> r.bos_descriptor@[i] == 0,
            forall|i: int| 0 <= i < CONTROL ==> r.control_buf@[i] == 0,
            forall|i: int| 0 <= i < MSOS ==> r.msos_descriptor@[i] == 0,
    {
        UsbDeviceBuffers {
            config_descriptor: [0u8; CONFIG],
            bos_descriptor: [0u8; BOS],
            control_buf: [0u8; CONTROL],
            msos_descriptor: [0u8; MSOS],
        }
    }
}

/// The USB language id of US English.
pub const ENGLISH_US: u16 = 0x0409;

/// The string index that stands for "no interface string registered yet".
pub const NO_STRING_INDEX: u8 = 0xFF;

/// The device's answer to a request for string `index` in language `lang_id`,
/// when its interface string was registered at `registered`: the interface's
/// name, "ergot", for that index in US English; nothing otherwise, and nothing
/// before the string is registered.
pub fn get_string(registered: u8, index: u8, lang_id: u16) -> (r: Option<&'static str>)
    ensures
        registered == NO_STRING_INDEX ==> r is None,
        registered != NO_STRING_INDEX && lang_id == ENGLISH_US && index == registered ==> (r matches Some(
            s,
        ) && s@ == "ergot"@),
        registered != NO_STRING_INDEX && !(lang_id == ENGLISH_US && index == registered) ==> r is None,
{
    if registered == NO_STRING_INDEX {
        return None;
    }
    if lang_id == ENGLISH_US && index == registered {
        Some("ergot")
    } else {
        None
    }
}

/// A power of two (as USB packet sizes are).
pub open spec fn is_pow2(n: usize) -> bool {
    n > 0 && n & ((n - 1) as usize) == 0
}

/// The data `s` cut into packets of `mps` bytes, the last one possibly shorter.
pub open spec fn chunks_of(s: Seq<u8>, mps: nat) -> Seq<Seq<u8>>
    decreases s.len(),
{
    if s.len() == 0 || mps == 0 {
        Seq::empty()
    } else if s.len() <= mps {
        seq![s]
    } else {
        seq![s.take(mps as int)] + chunks_of(s.skip(mps as int), mps)
    }
}

/// The packets that carry a frame `s` over a USB bulk endpoint with packets of
/// `mps` bytes: its chunks, and an empty packet after them when the last chunk
/// is full, since only a short packet ends a frame. An empty frame takes none.
pub open spec fn usb_packets(s: Seq<u8>, mps: nat) -> Seq<Seq<u8>> {
    if s.len() == 0 {
        Seq::empty()
    } else if s.len() % mps == 0 {
        chunks_of(s, mps).push(Seq::empty())
    } else {
        chunks_of(s, mps)
    }
}

/// The packets to write for the frame `out`, as [`usb_packets`] says.
pub fn usb_chunks(out: &[u8], max_usb_frame_size: usize) -> (r: Vec<Vec<u8>>)
    requires
        is_pow2(max_usb_frame_size),
    ensures
        r@.len() == usb_packets(out@, max_usb_frame_size as nat).len(),
        forall|i: int| 0 <= i < r@.len() ==> #[trigger] r@[i]@ == usb_packets(out@, max_usb_frame_size as nat)[i],
{
    let mps = max_usb_frame_size;
    let mut packets: Vec<Vec<u8>> = Vec::new();
    if out.len() == 0 {
        return packets;
    }
    let mut start: usize = 0;
    assert(out@.skip(0) =~= out@);
    assert(packets@.map_values(|v: Vec<u8>| v@) =~= Seq::<Seq<u8>>::empty());
    while start < out.len()
        invariant
            mps > 0,
            start <= out@.len(),
            out@.len() > 0,
            chunks_of(out@, mps as nat) =~= packets@.map_values(|v: Vec<u8>| v@) + chunks_of(out@.skip(start as int), mps as nat),
        decreases out@.len() - start,
    {
        let end = if out.len() - start <= mps {
            out.len()
        } else {
            start + mps
        };
        let mut chunk: Vec<u8> = Vec::new();
        let mut k: usize = start;
        while k < end
            invariant
                start <= k <= end,
                end <= out@.len(),
                chunk@ =~= out@.subrange(start as int, k as int),
            decreases end - k,
        {
            chunk.push(out[k]);
            k = k + 1;
        }
        proof {
            let rest = out@.skip(start as int);
            assert(rest.len() > 0);
            if rest.len() <= mps {
                assert(chunk@ =~= rest);
                assert(out@.skip(end as int).len() == 0);
                assert(chunks_of(out@.skip(end as int), mps as nat) =~= Seq::<Seq<u8>>::empty());
                assert(chunks_of(rest, mps as nat) =~= seq![chunk@]);
            } else {
                assert(chunk@ =~= rest.take(mps as int));
                assert(rest.skip(mps as int) =~= out@.skip(end as int));
                assert(chunks_of(rest, mps as nat) =~= seq![chunk@] + chunks_of(out@.skip(end as int), mps as nat));
            }
            assert(packets@.push(chunk).map_values(|v: Vec<u8>| v@) =~= packets@.map_values(|v: Vec<u8>| v@).push(chunk@));
        }
        packets.push(chunk);
        start = end;
    }
    proof {
        assert(out@.skip(start as int).len() == 0);
        assert(chunks_of(out@.skip(start as int), mps as nat) =~= Seq::<Seq<u8>>::empty());
    }
    if out.len() % mps == 0 {
        let ghost before = packets@;
        packets.push(Vec::new());
        assert(packets@.map_values(|v: Vec<u8>| v@) =~= before.map_values(|v: Vec<u8>| v@).push(Seq::empty()));
    }
    proof {
        let m = packets@.map_values(|v: Vec<u8>| v@);
        assert(m =~= usb_packets(out@, mps as nat));
        assert forall|i: int| 0 <= i < packets@.len() implies #[trigger] packets@[i]@ == usb_packets(out@, mps as nat)[i] by {
            assert(m[i] == packets@[i]@);
        }
    }
    packets
}

/// The number of packets, full or not, that `len` bytes take.
pub open spec fn packet_count(len: nat, mps: nat) -> nat {
    (len / mps + (if len % mps == 0 {
        0nat
    } else {
        1nat
    })) as nat
}

/// How long sending a frame of `len` bytes may take: a time per packet, for each
/// started packet.
pub fn send_timeout_ms(len: usize, max_usb_frame_size: usize, timeout_ms_per_frame: usize) -> (r: usize)
    requires
        max_usb_frame_size > 0,
        packet_count(len as nat, max_usb_frame_size as nat) * timeout_ms_per_frame <= usize::MAX,
    ensures
        r == packet_count(len as nat, max_usb_frame_size as nat) * timeout_ms_per_frame,
{
    let q = len / max_usb_frame_size;
    let frames = if len % max_usb_frame_size == 0 {
        q
    } else {
        assert(max_usb_frame_size >= 2);
        assert(q < usize::MAX) by (nonlinear_arith)
            requires
                max_usb_frame_size >= 2,
                q == len / max_usb_frame_size,
        ;
        q + 1
    };
    assert(frames == packet_count(len as nat, max_usb_frame_size as nat));
    frames * timeout_ms_per_frame
}

} // verus!
