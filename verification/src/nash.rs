//! Name hashes: a non-zero 32-bit FNV-1a digest of a name.
use vstd::prelude::*;
use vstd::string::StringSliceAdditionalSpecFns;

verus! {

/// The 32-bit FNV-1a hash of a byte string: start from the offset basis, and for
/// each byte XOR it in and multiply by the FNV prime modulo 2^32.
pub open spec fn fnv1a_32(s: Seq<u8>) -> u32
    decreases s.len(),
{
    if s.len() == 0 {
        0x811c9dc5u32
    } else {
        ((((fnv1a_32(s.drop_last()) ^ (s.last() as u32)) as int) * 0x01000193) % 0x1_0000_0000) as u32
    }
}

/// `const_fnv1a_hash::fnv1a_hash_32(bytes, None)`. Trusted: the crate's loop XORs
/// each byte into the running hash and then does `wrapping_mul` by the 32-bit FNV
/// prime, starting from the 32-bit offset basis; the contract claims that the
/// result is exactly `fnv1a_32` of the bytes.
#[verifier::external_body]
fn fnv1a_hash_32(bytes: &[u8]) -> (r: u32)
    ensures
        r == fnv1a_32(bytes@),
{
    const_fnv1a_hash::fnv1a_hash_32(bytes, None)
}

/// The value that stands in for a zero hash: the length (clamped to 255) in the
/// low byte, followed by the first three bytes of the name (repeating the first
/// ones when the name is shorter), read as a little-endian word.
pub open spec fn zero_hash_fallback(s: Seq<u8>) -> u32 {
    let len: int = if s.len() > 255 { 255 } else { s.len() as int };
    let b1: int = if s.len() >= 1 { s[0] as int } else { 0 };
    let b2: int = if s.len() >= 2 { s[1] as int } else { b1 };
    let b3: int = if s.len() >= 3 { s[2] as int } else { b1 };
    (len + b1 * 256 + b2 * 65536 + b3 * 16777216) as u32
}

/// The name hash of a byte string: its FNV-1a hash, or the fallback when that is zero.
pub open spec fn name_hash_of(s: Seq<u8>) -> u32 {
    if fnv1a_32(s) != 0 {
        fnv1a_32(s)
    } else {
        zero_hash_fallback(s)
    }
}

/// A hash of a socket's name; never zero.
#[derive(Debug, PartialEq, Eq, Clone, Copy)]
pub struct NameHash {
    hash: u32,
}

impl NameHash {
    /// A name hash is never zero.
    #[verifier::type_invariant]
    spec fn wf(self) -> bool {
        self.hash != 0
    }

    /// The hash as a plain integer.
    pub closed spec fn value(self) -> u32 {
        self.hash
    }

    /// The name hash of a string: [`name_hash_of`] its bytes.
    pub fn new(s: &str) -> (r: Self)
        ensures
            r.value() == name_hash_of(s.spec_bytes()),
    {
        let bytes = s.as_bytes();
        let hash32 = fnv1a_hash_32(bytes);
        if hash32 != 0 {
            return Self { hash: hash32 };
        }
        assert(bytes@.len() > 0) by {
            if bytes@.len() == 0 {
                assert(fnv1a_32(bytes@) == 0x811c9dc5u32);
            }
        }
        let n = bytes.len();
        let len: u32 = if n > 255 { 255 } else { n as u32 };
        let one: u32 = bytes[0] as u32;
        let two: u32 = if n >= 2 { bytes[1] as u32 } else { one };
        let three: u32 = if n >= 3 { bytes[2] as u32 } else { one };
        let val: u32 = len + one * 256 + two * 65536 + three * 16777216;
        Self { hash: val }
    }

    /// The hash as a plain integer.
    pub fn to_u32(&self) -> (r: u32)
        ensures
            r == self.value(),
            r != 0,
    {
        proof {
            use_type_invariant(self);
        }
        self.hash
    }

    /// The name hash with the given value; `None` for zero.
    pub fn from_u32(val: u32) -> (r: Option<Self>)
        ensures
            if val == 0 {
                r is None
            } else {
                r matches Some(h) && h.value() == val
            },
    {
        if val == 0 {
            None
        } else {
            Some(Self { hash: val })
        }
    }
}

/// Two name hashes with the same value are the same hash.
pub proof fn lemma_name_hash_value_injective(a: NameHash, b: NameHash)
    requires
        a.value() == b.value(),
    ensures
        a == b,
{
}

} // verus!
