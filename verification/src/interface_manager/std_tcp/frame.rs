//! The frame format of the TCP interface manager.
//!
//! A frame is the source address word, the destination address word, the message
//! key (only when the destination port is the "any" port `0`), and the sequence
//! number, each postcard-encoded (addresses and sequence numbers as varints), then
//! the body. On the wire the whole frame is COBS-encoded.
use vstd::prelude::*;

use crate::address::{address_of_word, address_word, lemma_address_word_roundtrip, Address};
use crate::Key;
use super::acc::{cobs_decoded, lemma_first_zero};
use super::drain_spec;

verus! {

/// The unsigned LEB128 varint encoding: seven bits per byte, least significant
/// group first, the top bit set on every byte but the last.
pub open spec fn varint_encode(v: nat) -> Seq<u8>
    decreases v,
{
    if v < 128 {
        seq![v as u8]
    } else {
        seq![(v % 128 + 128) as u8] + varint_encode(v / 128)
    }
}

/// Reading a varint of at most `budget` bytes, the last of which may carry at most
/// `last_max`: the value and the number of bytes read, or `None`.
pub open spec fn varint_decode(s: Seq<u8>, budget: nat, last_max: nat) -> Option<(nat, nat)>
    decreases budget,
{
    if budget == 0 || s.len() == 0 {
        None
    } else if s[0] < 128 {
        if budget == 1 && s[0] > last_max {
            None
        } else {
            Some((s[0] as nat, 1nat))
        }
    } else {
        match varint_decode(s.drop_first(), (budget - 1) as nat, last_max) {
            Some((v, n)) => Some((((s[0] - 128) + 128 * v) as nat, n + 1)),
            None => None,
        }
    }
}

/// Reading a `u32` varint: at most five bytes, the fifth at most 15.
pub open spec fn varint_decode_u32(s: Seq<u8>) -> Option<(nat, nat)> {
    varint_decode(s, 5, 15)
}

/// Reading a `u16` varint: at most three bytes, the third at most 3.
pub open spec fn varint_decode_u16(s: Seq<u8>) -> Option<(nat, nat)> {
    varint_decode(s, 3, 3)
}

/// `postcard::to_stdvec` of a `u32`. Trusted: postcard writes a `u32` as the
/// unsigned LEB128 varint of its value (`varint_u32` in its source); the contract
/// claims exactly those bytes.
#[verifier::external_body]
fn postcard_u32_bytes(v: u32) -> (r: Vec<u8>)
    ensures
        r@ == varint_encode(v as nat),
{
    postcard::to_stdvec(&v).unwrap()
}

/// `postcard::to_stdvec` of a `u16`. Trusted: postcard writes a `u16` as the
/// unsigned LEB128 varint of its value (`varint_u16` in its source).
#[verifier::external_body]
fn postcard_u16_bytes(v: u16) -> (r: Vec<u8>)
    ensures
        r@ == varint_encode(v as nat),
{
    postcard::to_stdvec(&v).unwrap()
}

/// `postcard::to_stdvec` of an 8-byte array. Trusted: postcard writes a
/// fixed-size array as its elements in order, each `u8` as one raw byte.
#[verifier::external_body]
fn postcard_key_bytes(k: [u8; 8]) -> (r: Vec<u8>)
    ensures
        r@ == k@,
{
    postcard::to_stdvec(&k).unwrap()
}

/// `postcard::take_from_bytes::<u32>`. Trusted: postcard reads up to five bytes,
/// OR-ing in seven bits per byte until a byte without the top bit, refusing a fifth
/// byte above 15 and input that ends too early (`try_take_varint_u32`); the rest of
/// the input is returned.
#[verifier::external_body]
fn postcard_take_u32(s: &[u8]) -> (r: Option<(u32, &[u8])>)
    ensures
        match varint_decode_u32(s@) {
            Some((v, n)) => r matches Some((x, rest)) && x == v && rest@ == s@.skip(n as int),
            None => r is None,
        },
{
    postcard::take_from_bytes::<u32>(s).ok()
}

/// `postcard::take_from_bytes::<u16>`. Trusted: as for `u32`, with at most three
/// bytes, the third at most 3 (`try_take_varint_u16`).
#[verifier::external_body]
fn postcard_take_u16(s: &[u8]) -> (r: Option<(u16, &[u8])>)
    ensures
        match varint_decode_u16(s@) {
            Some((v, n)) => r matches Some((x, rest)) && x == v && rest@ == s@.skip(n as int),
            None => r is None,
        },
{
    postcard::take_from_bytes::<u16>(s).ok()
}

/// `postcard::take_from_bytes::<[u8; 8]>`. Trusted: postcard reads an 8-byte array
/// as its next eight raw bytes, and fails when fewer are left.
#[verifier::external_body]
fn postcard_take_key(s: &[u8]) -> (r: Option<([u8; 8], &[u8])>)
    ensures
        if s@.len() >= 8 {
            r matches Some((k, rest)) && k@ == s@.take(8) && rest@ == s@.skip(8)
        } else {
            r is None
        },
{
    postcard::take_from_bytes::<[u8; 8]>(s).ok()
}

/// What `cobs::encode_vec` makes of the given bytes.
pub uninterp spec fn cobs_encoded(data: Seq<u8>) -> Seq<u8>;

/// `cobs::encode_vec`. Trusted: returns the COBS encoding of its input, with no
/// terminating zero; the encoding itself is named (`cobs_encoded`), not stated.
/// Two facts of COBS that the crate's encoder and decoder keep are claimed: the
/// encoding holds no zero byte (each byte is a nonzero data byte or a run code in
/// `1..=0xFF`), and `cobs::decode_in_place` on it, followed by a zero terminator,
/// gives the input back.
#[verifier::external_body]
fn cobs_encode_vec(data: &[u8]) -> (r: Vec<u8>)
    ensures
        r@ == cobs_encoded(data@),
        forall|i: int| 0 <= i < r@.len() ==> r@[i] != 0,
        cobs_decoded(r@ + seq![0u8]) == Some(data@),
{
    cobs::encode_vec(data)
}

/// A frame as the TCP interface manager queues it.
pub struct OwnedFrame {
    pub src: Address,
    pub dst: Address,
    pub seq: u16,
    pub key: Option<Key>,
    pub body: Vec<u8>,
}

/// A frame on the level of values.
pub struct FrameModel {
    pub src: Address,
    pub dst: Address,
    pub seq: u16,
    pub key: Option<Seq<u8>>,
    pub body: Seq<u8>,
}

/// The value of a queued frame.
pub open spec fn frame_model(f: &OwnedFrame) -> FrameModel {
    FrameModel {
        src: f.src,
        dst: f.dst,
        seq: f.seq,
        key: match f.key {
            Some(k) => Some(k.0@),
            None => None,
        },
        body: f.body@,
    }
}

/// The key bytes a frame carries: the key only for the "any" port.
pub open spec fn key_part(m: FrameModel) -> Seq<u8> {
    if m.dst.port_id == 0 {
        match m.key {
            Some(k) => k,
            None => Seq::empty(),
        }
    } else {
        Seq::empty()
    }
}

/// The bytes of a frame, before COBS encoding.
pub open spec fn frame_bytes(m: FrameModel) -> Seq<u8> {
    varint_encode(address_word(m.src) as nat) + varint_encode(address_word(m.dst) as nat)
        + key_part(m) + varint_encode(m.seq as nat) + m.body
}

/// Reading a frame from its bytes (before COBS encoding).
pub open spec fn frame_decode(s: Seq<u8>) -> Option<FrameModel> {
    match varint_decode_u32(s) {
        None => None,
        Some((src_w, n1)) => {
            let s1 = s.skip(n1 as int);
            match varint_decode_u32(s1) {
                None => None,
                Some((dst_w, n2)) => {
                    let s2 = s1.skip(n2 as int);
                    let dst = address_of_word(dst_w as u32);
                    if dst.port_id == 0 && s2.len() < 8 {
                        None
                    } else {
                        let key: Option<Seq<u8>> = if dst.port_id == 0 {
                            Some(s2.take(8))
                        } else {
                            None
                        };
                        let s3 = if dst.port_id == 0 {
                            s2.skip(8)
                        } else {
                            s2
                        };
                        match varint_decode_u16(s3) {
                            None => None,
                            Some((seq, n3)) => Some(
                                FrameModel {
                                    src: address_of_word(src_w as u32),
                                    dst,
                                    seq: seq as u16,
                                    key,
                                    body: s3.skip(n3 as int),
                                },
                            ),
                        }
                    }
                },
            }
        },
    }
}

/// Serialize a frame and COBS-encode it. The encoding holds no zero byte, and
/// a receiver that reads it followed by a zero terminator (with room for it)
/// gets this very frame, and then whatever the rest of the stream gives, provided
/// the frame carries a key exactly when it is for the "any" port.
pub fn ser_frame(frame: OwnedFrame) -> (r: Vec<u8>)
    requires
        frame.dst.port_id == 0 ==> frame.key is Some,
    ensures
        r@ == cobs_encoded(frame_bytes(frame_model(&frame))),
        forall|i: int| 0 <= i < r@.len() ==> r@[i] != 0,
        (frame.dst.port_id != 0 ==> frame.key is None) ==> forall|cap: nat, rest: Seq<u8>|
            cap >= r@.len() + 1 ==> #[trigger] drain_spec(Seq::empty(), cap, r@ + seq![0u8] + rest)
                == (seq![frame_model(&frame)] + drain_spec(Seq::empty(), cap, rest).0, drain_spec(
                Seq::empty(),
                cap,
                rest,
            ).1),
{
    let dst_any = frame.dst.port_id == 0;
    let src = frame.src.as_u32();
    let dst = frame.dst.as_u32();
    let seq = frame.seq;
    let ghost m = frame_model(&frame);

    let mut out: Vec<u8> = Vec::new();
    let mut a = postcard_u32_bytes(src);
    out.append(&mut a);
    let mut b = postcard_u32_bytes(dst);
    out.append(&mut b);
    if dst_any {
        let key = frame.key.unwrap();
        let mut k = postcard_key_bytes(key.0);
        out.append(&mut k);
    }
    let mut s = postcard_u16_bytes(seq);
    out.append(&mut s);
    let mut body = frame.body;
    out.append(&mut body);
    assert(out@ =~= frame_bytes(m));
    let enc = cobs_encode_vec(out.as_slice());
    proof {
        if (m.dst.port_id != 0 ==> m.key is None) {
            lemma_frame_roundtrip(m);
            let e = enc@;
            assert forall|cap: nat, rest: Seq<u8>| cap >= e.len() + 1 implies #[trigger] drain_spec(
                Seq::empty(),
                cap,
                e + seq![0u8] + rest,
            ) == (seq![m] + drain_spec(Seq::empty(), cap, rest).0, drain_spec(
                Seq::empty(),
                cap,
                rest,
            ).1) by {
                let s = e + seq![0u8] + rest;
                assert forall|j: int| 0 <= j < e.len() implies s[j] != 0 by {
                    assert(s[j] == e[j]);
                }
                assert(s[e.len() as int] == 0u8);
                lemma_first_zero(s, e.len());
                assert(s.take(e.len() + 1 as int) =~= e + seq![0u8]);
                assert(Seq::<u8>::empty() + s.take(e.len() + 1 as int) =~= e + seq![0u8]);
                assert(s.skip(e.len() + 1 as int) =~= rest);
            }
        }
    }
    enc
}

/// Read a frame from its bytes (already COBS-decoded).
pub fn de_frame(remain: &[u8]) -> (r: Option<OwnedFrame>)
    ensures
        match frame_decode(remain@) {
            Some(m) => r matches Some(f) && frame_model(&f) == m,
            None => r is None,
        },
{
    let (src_word, remain1) = match postcard_take_u32(remain) {
        Some(x) => x,
        None => return None,
    };
    let src = Address::from_word(src_word);
    let (dst_word, remain2) = match postcard_take_u32(remain1) {
        Some(x) => x,
        None => return None,
    };
    let dst = Address::from_word(dst_word);
    let (key, remain3) = if dst.port_id == 0 {
        match postcard_take_key(remain2) {
            Some((k, r)) => (Some(Key(k)), r),
            None => return None,
        }
    } else {
        (None, remain2)
    };
    let (seq, remain4) = match postcard_take_u16(remain3) {
        Some(x) => x,
        None => return None,
    };
    let body = vstd::slice::slice_to_vec(remain4);
    Some(OwnedFrame { src, dst, seq, key, body })
}

/// `128` to the power `k`.
pub open spec fn radix_pow(k: nat) -> nat
    decreases k,
{
    if k == 0 {
        1
    } else {
        128 * radix_pow((k - 1) as nat)
    }
}

/// A varint written and then read back, with any bytes after it, gives the value
/// and its length, as long as the value fits the reader's budget.
pub proof fn lemma_varint_roundtrip(v: nat, budget: nat, last_max: nat, rest: Seq<u8>)
    requires
        budget >= 1,
        last_max < 128,
        v < radix_pow((budget - 1) as nat) * (last_max + 1),
    ensures
        varint_decode(varint_encode(v) + rest, budget, last_max) == Some((v, varint_encode(v).len())),
    decreases budget,
{
    let s = varint_encode(v) + rest;
    if budget == 1 {
        assert(radix_pow(0) == 1);
        assert(radix_pow(0) * (last_max + 1) == last_max + 1) by (nonlinear_arith)
            requires
                radix_pow(0) == 1,
        ;
    }
    if v < 128 {
        assert(varint_encode(v) == seq![v as u8]);
        assert(s[0] == v as u8);
        assert(s[0] as nat == v);
    } else {
        let q = v / 128;
        let b = (budget - 1) as nat;
        assert(radix_pow(b) == 128 * radix_pow((b - 1) as nat));
        let p = radix_pow((b - 1) as nat) * (last_max + 1);
        assert(q < p) by (nonlinear_arith)
            requires
                v < 128 * radix_pow((b - 1) as nat) * (last_max + 1),
                q == v / 128,
                p == radix_pow((b - 1) as nat) * (last_max + 1),
        ;
        lemma_varint_roundtrip(q, b, last_max, rest);
        assert(s[0] == (v % 128 + 128) as u8);
        assert(s.drop_first() =~= varint_encode(q) + rest);
        assert(v == v % 128 + 128 * q) by (nonlinear_arith)
            requires
                q == v / 128,
        ;
    }
}

/// A `u32` varint reads back as written.
pub proof fn lemma_varint_u32_roundtrip(v: u32, rest: Seq<u8>)
    ensures
        varint_decode_u32(varint_encode(v as nat) + rest) == Some((v as nat, varint_encode(v as nat).len())),
{
    reveal_with_fuel(radix_pow, 5);
    assert(radix_pow(4) == 268435456);
    assert(radix_pow(4) * (15 + 1) == 4294967296);
    lemma_varint_roundtrip(v as nat, 5, 15, rest);
}

/// A `u16` varint reads back as written.
pub proof fn lemma_varint_u16_roundtrip(v: u16, rest: Seq<u8>)
    ensures
        varint_decode_u16(varint_encode(v as nat) + rest) == Some((v as nat, varint_encode(v as nat).len())),
{
    reveal_with_fuel(radix_pow, 3);
    assert(radix_pow(2) == 16384);
    assert(radix_pow(2) * (3 + 1) == 65536);
    lemma_varint_roundtrip(v as nat, 3, 3, rest);
}

/// A frame whose key is present exactly when its destination is the "any" port
/// reads back from its bytes as the same frame.
#[verifier::spinoff_prover]
#[verifier::rlimit(40)]
pub proof fn lemma_frame_roundtrip(m: FrameModel)
    requires
        m.dst.port_id == 0 ==> (m.key matches Some(k) && k.len() == 8),
        m.dst.port_id != 0 ==> m.key is None,
    ensures
        frame_decode(frame_bytes(m)) == Some(m),
{
    let ws = address_word(m.src);
    let wd = address_word(m.dst);
    lemma_address_word_roundtrip(m.src);
    lemma_address_word_roundtrip(m.dst);
    let e1 = varint_encode(ws as nat);
    let e2 = varint_encode(wd as nat);
    let kp = key_part(m);
    let e3 = varint_encode(m.seq as nat);
    let s = frame_bytes(m);
    let tail1 = e2 + kp + e3 + m.body;
    assert(s =~= e1 + tail1);
    lemma_varint_u32_roundtrip(ws as u32, tail1);
    assert(s.skip(e1.len() as int) =~= tail1);
    let tail2 = kp + e3 + m.body;
    assert(tail1 =~= e2 + tail2);
    lemma_varint_u32_roundtrip(wd as u32, tail2);
    assert(tail1.skip(e2.len() as int) =~= tail2);
    let tail3 = e3 + m.body;
    if m.dst.port_id == 0 {
        assert(tail2.take(8) =~= kp);
        assert(tail2.skip(8) =~= tail3);
    } else {
        assert(tail2 =~= tail3);
    }
    lemma_varint_u16_roundtrip(m.seq, m.body);
    assert(tail3.skip(e3.len() as int) =~= m.body);
}

} // verus!

verus! {

/// The key goes on the wire only for the "any" port: a frame for a specific
/// port is written the same with or without a key, and reads back with its
/// source, destination, sequence number and body, and no key.
pub proof fn lemma_key_only_for_any_port(m: FrameModel)
    requires
        m.dst.port_id != 0,
    ensures
        frame_bytes(m) == frame_bytes(FrameModel { key: None, ..m }),
        frame_decode(frame_bytes(m)) == Some(FrameModel { key: None, ..m }),
{
    lemma_frame_roundtrip(FrameModel { key: None, ..m });
}

/// A varint takes at most `k` bytes exactly when its value is below `128^k`.
pub proof fn lemma_varint_len(v: nat, k: nat)
    requires
        k >= 1,
    ensures
        (varint_encode(v).len() <= k) == (v < radix_pow(k)),
    decreases k,
{
    reveal_with_fuel(radix_pow, 2);
    if v < 128 {
        assert(varint_encode(v).len() == 1);
        lemma_radix_pow_ge(k);
    } else {
        assert(varint_encode(v).len() == 1 + varint_encode(v / 128).len());
        if k == 1 {
            assert(radix_pow(1) == 128);
            if v / 128 < 128 {
                assert(varint_encode(v / 128).len() == 1);
            } else {
                assert(varint_encode(v / 128).len() == 1 + varint_encode(v / 128 / 128).len());
            }
        } else {
            lemma_varint_len(v / 128, (k - 1) as nat);
            let p = radix_pow((k - 1) as nat);
            lemma_radix_pow_ge((k - 1) as nat);
            assert(radix_pow(k) == 128 * p);
            assert((v / 128 < p) == (v < 128 * p)) by (nonlinear_arith)
                requires
                    p >= 1,
            ;
        }
    }
}

/// `128^k` is at least 128 for `k >= 1`.
proof fn lemma_radix_pow_ge(k: nat)
    requires
        k >= 1,
    ensures
        radix_pow(k) >= 128,
    decreases k,
{
    if k > 1 {
        lemma_radix_pow_ge((k - 1) as nat);
    } else {
        reveal_with_fuel(radix_pow, 2);
    }
}

/// An address takes at most four bytes on the wire exactly when its network id
/// is below 4096: the network id is the word's most significant part.
pub proof fn lemma_address_encoding_short(a: Address)
    ensures
        (varint_encode(address_word(a) as nat).len() <= 4) == (a.network_id < 4096),
{
    lemma_varint_len(address_word(a) as nat, 4);
    reveal_with_fuel(radix_pow, 5);
    assert(radix_pow(4) == 268435456);
}

} // verus!
