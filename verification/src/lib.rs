//! A messaging library: addressing, frame headers, framing and routing.
use vstd::prelude::*;

pub mod address;
pub mod interface_manager;
pub mod logging;
pub mod nash;
pub mod net_stack;
pub mod conformance;

pub use address::Address;
pub use logging::fmtlog;
pub use net_stack::NetStackSendError;
use interface_manager::InterfaceSendError;
use nash::NameHash;

verus! {

/// The kind of a frame: which kind of socket it is meant for.
#[derive(Debug, Clone, Copy, PartialEq, Eq, Structural)]
pub struct FrameKind(pub u8);

/// The 8-byte key that names the type of a message.
#[derive(Debug, Clone, Copy, PartialEq)]
pub struct Key(pub [u8; 8]);

/// A protocol error code, carried in error frames.
#[derive(Debug, Clone, Copy, PartialEq, Eq, Structural)]
pub struct ProtocolError(pub u16);

/// The appendix of frames sent to an "any" (0) or "all" (255) port.
#[derive(Debug, Clone, Copy, PartialEq)]
pub struct AnyAllAppendix {
    pub key: Key,
    pub nash: Option<NameHash>,
}

/// A frame header whose sequence number may not be assigned yet.
#[derive(Debug, Clone, Copy, PartialEq)]
pub struct Header {
    pub src: Address,
    pub dst: Address,
    pub any_all: Option<AnyAllAppendix>,
    pub seq_no: Option<u16>,
    pub kind: FrameKind,
    pub ttl: u8,
}

/// A frame header with an assigned sequence number.
#[derive(Debug, Clone, Copy)]
pub struct HeaderSeq {
    pub src: Address,
    pub dst: Address,
    pub any_all: Option<AnyAllAppendix>,
    pub seq_no: u16,
    pub kind: FrameKind,
    pub ttl: u8,
}

impl FrameKind {
    pub fn reserved() -> (r: Self)
        ensures
            r.0 == 0,
    {
        Self(0)
    }
    pub fn endpoint_req() -> (r: Self)
        ensures
            r.0 == 1,
    {
        Self(1)
    }
    pub fn endpoint_resp() -> (r: Self)
        ensures
            r.0 == 2,
    {
        Self(2)
    }
    pub fn topic_msg() -> (r: Self)
        ensures
            r.0 == 3,
    {
        Self(3)
    }
    pub fn protocol_error() -> (r: Self)
        ensures
            r.0 == 255,
    {
        Self(255)
    }
}

impl ProtocolError {
    pub fn reserved() -> (r: Self)
        ensures
            r.0 == 0,
    {
        Self(0)
    }
    // 1..11: socket send errors
    pub fn sse_no_space() -> (r: Self)
        ensures
            r.0 == 1,
    {
        Self(1)
    }
    pub fn sse_deser_failed() -> (r: Self)
        ensures
            r.0 == 2,
    {
        Self(2)
    }
    pub fn sse_type_mismatch() -> (r: Self)
        ensures
            r.0 == 3,
    {
        Self(3)
    }
    pub fn sse_what_the_hell() -> (r: Self)
        ensures
            r.0 == 4,
    {
        Self(4)
    }
    // 11..21: interface send errors
    pub fn ise_destination_local() -> (r: Self)
        ensures
            r.0 == 11,
    {
        Self(11)
    }
    pub fn ise_no_route_to_dest() -> (r: Self)
        ensures
            r.0 == 12,
    {
        Self(12)
    }
    pub fn ise_interface_full() -> (r: Self)
        ensures
            r.0 == 13,
    {
        Self(13)
    }
    pub fn ise_internal_error() -> (r: Self)
        ensures
            r.0 == 14,
    {
        Self(14)
    }
    pub fn ise_any_port_missing_key() -> (r: Self)
        ensures
            r.0 == 15,
    {
        Self(15)
    }
    pub fn ise_ttl_expired() -> (r: Self)
        ensures
            r.0 == 16,
    {
        Self(16)
    }
    pub fn ise_routing_loop() -> (r: Self)
        ensures
            r.0 == 17,
    {
        Self(17)
    }
    // 21..31: net stack send errors
    pub fn nsse_no_route() -> (r: Self)
        ensures
            r.0 == 21,
    {
        Self(21)
    }
    pub fn nsse_any_port_missing_key() -> (r: Self)
        ensures
            r.0 == 22,
    {
        Self(22)
    }
    pub fn nsse_wrong_port_kind() -> (r: Self)
        ensures
            r.0 == 23,
    {
        Self(23)
    }
    pub fn nsse_any_port_not_unique() -> (r: Self)
        ensures
            r.0 == 24,
    {
        Self(24)
    }
    pub fn nsse_all_port_missing_key() -> (r: Self)
        ensures
            r.0 == 25,
    {
        Self(25)
    }
    pub fn nsse_would_deadlock() -> (r: Self)
        ensures
            r.0 == 26,
    {
        Self(26)
    }
}

/// The default time-to-live of a new frame: how many hops it may take.
pub const DEFAULT_TTL: u8 = 16;

/// The header with the given sequence number.
pub open spec fn header_with_seq(h: Header, seq_no: u16) -> HeaderSeq {
    HeaderSeq { src: h.src, dst: h.dst, any_all: h.any_all, seq_no, kind: h.kind, ttl: h.ttl }
}

/// The header of a sequenced header, with its sequence number kept.
pub open spec fn header_of_seq(h: HeaderSeq) -> Header {
    Header {
        src: h.src,
        dst: h.dst,
        any_all: h.any_all,
        seq_no: Some(h.seq_no),
        kind: h.kind,
        ttl: h.ttl,
    }
}

impl Header {
    /// This header with the given sequence number, replacing any it had.
    pub fn with_seq(self, seq_no: u16) -> (r: HeaderSeq)
        ensures
            r == header_with_seq(self, seq_no),
    {
        let Self { src, dst, any_all, seq_no: _, kind, ttl } = self;
        HeaderSeq { src, dst, any_all, seq_no, kind, ttl }
    }

    /// This header with its own sequence number, or with one from `f` when it has none.
    pub fn to_headerseq_or_with_seq<F: FnOnce() -> u16>(&self, f: F) -> (r: HeaderSeq)
        requires
            self.seq_no is None ==> f.requires(()),
        ensures
            r.src == self.src,
            r.dst == self.dst,
            r.any_all == self.any_all,
            r.kind == self.kind,
            r.ttl == self.ttl,
            self.seq_no matches Some(s) ==> r.seq_no == s,
            self.seq_no is None ==> f.ensures((), r.seq_no),
    {
        let seq_no = match self.seq_no {
            Some(s) => s,
            None => f(),
        };
        HeaderSeq {
            src: self.src,
            dst: self.dst,
            any_all: self.any_all,
            seq_no,
            kind: self.kind,
            ttl: self.ttl,
        }
    }

    /// Take one hop off the time-to-live; refused, with the header unchanged, when
    /// none is left.
    pub fn decrement_ttl(&mut self) -> (r: Result<(), InterfaceSendError>)
        ensures
            old(self).ttl == 0 ==> r == Err::<(), InterfaceSendError>(InterfaceSendError::TtlExpired)
                && *final(self) == *old(self),
            old(self).ttl > 0 ==> r is Ok && *final(self) == (Header { ttl: (old(self).ttl - 1) as u8, ..*old(self) }),
    {
        match self.ttl.checked_sub(1) {
            Some(t) => {
                self.ttl = t;
                Ok(())
            },
            None => Err(InterfaceSendError::TtlExpired),
        }
    }
}

impl HeaderSeq {
    /// Take one hop off the time-to-live; refused, with the header unchanged, when
    /// none is left.
    pub fn decrement_ttl(&mut self) -> (r: Result<(), InterfaceSendError>)
        ensures
            old(self).ttl == 0 ==> r == Err::<(), InterfaceSendError>(InterfaceSendError::TtlExpired)
                && *final(self) == *old(self),
            old(self).ttl > 0 ==> r is Ok && *final(self) == (HeaderSeq { ttl: (old(self).ttl - 1) as u8, ..*old(self) }),
    {
        match self.ttl.checked_sub(1) {
            Some(t) => {
                self.ttl = t;
                Ok(())
            },
            None => Err(InterfaceSendError::TtlExpired),
        }
    }
}

impl From<HeaderSeq> for Header {
    fn from(val: HeaderSeq) -> (r: Self) {
        Self {
            src: val.src,
            dst: val.dst,
            any_all: val.any_all,
            seq_no: Some(val.seq_no),
            kind: val.kind,
            ttl: val.ttl,
        }
    }
}

impl vstd::std_specs::convert::FromSpecImpl<HeaderSeq> for Header {
    open spec fn obeys_from_spec() -> bool {
        true
    }

    open spec fn from_spec(v: HeaderSeq) -> Header {
        header_of_seq(v)
    }
}

/// Giving a header a sequence number and turning it back into a header keeps
/// everything but the sequence number, which is then the one given.
pub proof fn lemma_with_seq_then_header(h: Header, seq_no: u16)
    ensures
        header_of_seq(header_with_seq(h, seq_no)) == (Header { seq_no: Some(seq_no), ..h }),
{
}

/// Turning a sequenced header into a header and giving it back its own sequence
/// number gives the sequenced header back.
pub proof fn lemma_header_of_seq_roundtrip(h: HeaderSeq)
    ensures
        header_with_seq(header_of_seq(h), h.seq_no) == h,
{
}

} // verus!
