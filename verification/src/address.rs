//! Addressing
//!
//! Addresses have three parts: a 16-bit Network ID, an 8-bit Node ID and an
//! 8-bit Port (socket) ID. On the wire an address is packed into a `u32`, with
//! the Network ID in the most significant bytes and the Port ID in the least
//! significant byte.
use vstd::prelude::*;

verus! {

/// The address of a socket: network segment, node on that segment, port on that node.
#[derive(Clone, Copy, Debug, PartialEq, Eq, Hash, Structural)]
pub struct Address {
    pub network_id: u16,
    pub node_id: u8,
    pub port_id: u8,
}

/// The packed 32-bit word of an address.
pub open spec fn address_word(a: Address) -> int {
    a.network_id * 65536 + a.node_id * 256 + a.port_id
}

/// The address that a packed 32-bit word stands for.
pub open spec fn address_of_word(w: u32) -> Address {
    Address {
        network_id: (w / 65536) as u16,
        node_id: ((w / 256) % 256) as u8,
        port_id: (w % 256) as u8,
    }
}

impl Address {
    /// The all-zero ("unknown", local) address.
    pub fn unknown() -> (r: Self)
        ensures
            r.network_id == 0,
            r.node_id == 0,
            r.port_id == 0,
    {
        Self { network_id: 0, node_id: 0, port_id: 0 }
    }

    /// True when both the Network ID and the Node ID are zero (a local destination).
    pub fn net_node_any(&self) -> (r: bool)
        ensures
            r == (self.network_id == 0 && self.node_id == 0),
    {
        self.network_id == 0 && self.node_id == 0
    }

    /// The address packed into one word.
    pub fn as_u32(&self) -> (r: u32)
        ensures
            r == address_word(*self),
    {
        let n = self.network_id as u32;
        let d = self.node_id as u32;
        let p = self.port_id as u32;
        let r = (n << 16u32) | (d << 8u32) | p;
        assert(r == n * 65536 + d * 256 + p) by (bit_vector)
            requires
                n < 65536,
                d < 256,
                p < 256,
                r == (n << 16u32) | (d << 8u32) | p,
        ;
        r
    }

    /// The address that a packed word stands for.
    pub fn from_word(word: u32) -> (r: Self)
        ensures
            r == address_of_word(word),
    {
        let n = (word >> 16u32) as u16;
        let d = (word >> 8u32) as u8;
        let p = word as u8;
        assert(n == word / 65536 && d == (word / 256) % 256 && p == word % 256) by (bit_vector)
            requires
                n == (word >> 16u32) as u16,
                d == (word >> 8u32) as u8,
                p == word as u8,
        ;
        Self { network_id: n, node_id: d, port_id: p }
    }
}

/// Packing an address into a word and reading it back gives the same address.
pub proof fn lemma_address_word_roundtrip(a: Address)
    ensures
        0 <= address_word(a) <= u32::MAX,
        address_of_word(address_word(a) as u32) == a,
{
    let w = address_word(a);
    assert(w / 65536 == a.network_id) by (nonlinear_arith)
        requires
            w == a.network_id * 65536 + a.node_id * 256 + a.port_id,
            0 <= a.node_id < 256,
            0 <= a.port_id < 256,
    ;
    assert(w / 256 == a.network_id * 256 + a.node_id) by (nonlinear_arith)
        requires
            w == a.network_id * 65536 + a.node_id * 256 + a.port_id,
            0 <= a.node_id < 256,
            0 <= a.port_id < 256,
    ;
    assert((a.network_id * 256 + a.node_id) % 256 == a.node_id) by (nonlinear_arith)
        requires
            0 <= a.node_id < 256,
            0 <= a.network_id,
    ;
    assert(w % 256 == a.port_id) by (nonlinear_arith)
        requires
            w == a.network_id * 65536 + a.node_id * 256 + a.port_id,
            0 <= a.node_id < 256,
            0 <= a.port_id < 256,
    ;
}

/// Reading a word as an address and packing it again gives the same word.
pub proof fn lemma_word_address_roundtrip(w: u32)
    ensures
        address_word(address_of_word(w)) == w,
{
    let a = address_of_word(w);
    assert(w == (w / 65536) * 65536 + ((w / 256) % 256) * 256 + w % 256) by (nonlinear_arith)
        requires
            0 <= w,
    ;
    assert(w / 65536 < 65536) by (nonlinear_arith)
        requires
            0 <= w <= u32::MAX,
    ;
}

} // verus!
