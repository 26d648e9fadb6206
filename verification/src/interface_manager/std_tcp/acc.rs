//! An accumulator that collects COBS-encoded bytes until a frame terminator
//! (a zero byte) arrives, then decodes the frame in place.
use vstd::prelude::*;

verus! {

/// What `cobs::decode_in_place` makes of the given bytes: `Some` of the decoded
/// frame, or `None` when the bytes are not a valid COBS frame.
pub uninterp spec fn cobs_decoded(encoded: Seq<u8>) -> Option<Seq<u8>>;

/// `cobs::decode_in_place` on the first `len` bytes of `buf`. Trusted: the crate
/// decodes the frame in place, writing the decoded bytes to the front of the
/// slice it is given and returning their number, which never exceeds the slice's
/// length; bytes past the slice are not touched. What the decoded frame is, the
/// contract names (`cobs_decoded`) rather than states.
#[verifier::external_body]
fn cobs_decode_in_place(buf: &mut Vec<u8>, len: usize) -> (r: Option<usize>)
    requires
        len <= old(buf)@.len(),
    ensures
        final(buf)@.len() == old(buf)@.len(),
        final(buf)@.skip(len as int) == old(buf)@.skip(len as int),
        match cobs_decoded(old(buf)@.take(len as int)) {
            Some(d) => r == Some(d.len() as usize) && d.len() <= len && final(buf)@.take(d.len() as int) == d,
            None => r is None,
        },
{
    match cobs::decode_in_place(&mut buf[..len]) {
        Ok(n) => Some(n),
        Err(_) => None,
    }
}

/// The position of the first zero byte, if any.
pub open spec fn first_zero(s: Seq<u8>) -> Option<nat>
    decreases s.len(),
{
    if s.len() == 0 {
        None
    } else if s[0] == 0 {
        Some(0)
    } else {
        match first_zero(s.drop_first()) {
            Some(n) => Some(n + 1),
            None => None,
        }
    }
}

/// When no byte before `i` is zero, and `i` is the end or holds a zero, then the
/// first zero is at `i` (or there is none).
pub proof fn lemma_first_zero(s: Seq<u8>, i: nat)
    requires
        i <= s.len(),
        forall|j: int| 0 <= j < i ==> s[j] != 0,
        i < s.len() ==> s[i as int] == 0,
    ensures
        first_zero(s) == (if i == s.len() { None } else { Some(i) }),
    decreases s.len(),
{
    if s.len() > 0 && i > 0 {
        let t = s.drop_first();
        assert forall|j: int| 0 <= j < i - 1 implies t[j] != 0 by {
            assert(t[j] == s[j + 1]);
        }
        if i < s.len() {
            assert(t[i - 1] == s[i as int]);
        }
        lemma_first_zero(t, (i - 1) as nat);
    }
}

/// The first zero lies inside the sequence, holds a zero, and no zero precedes it.
pub proof fn lemma_first_zero_some(s: Seq<u8>)
    ensures
        first_zero(s) matches Some(n) ==> n < s.len() && s[n as int] == 0 && forall|j: int|
            0 <= j < n ==> s[j] != 0,
        first_zero(s) is None ==> forall|j: int| 0 <= j < s.len() ==> s[j] != 0,
    decreases s.len(),
{
    if s.len() > 0 {
        let t = s.drop_first();
        lemma_first_zero_some(t);
        assert forall|j: int| 1 <= j < s.len() implies s[j] == t[j - 1] by {}
    }
}

/// A zero-free prefix moves the first zero of the whole by its length.
pub proof fn lemma_first_zero_concat(a: Seq<u8>, b: Seq<u8>)
    requires
        first_zero(a) is None,
    ensures
        first_zero(a + b) == (match first_zero(b) {
            Some(n) => Some(n + a.len()),
            None => None::<nat>,
        }),
    decreases a.len(),
{
    if a.len() > 0 {
        assert((a + b).drop_first() =~= a.drop_first() + b);
        lemma_first_zero_concat(a.drop_first(), b);
    } else {
        assert(a + b =~= b);
    }
}

/// What one feed does, on the level of byte strings.
pub enum FeedStep {
    /// All input was buffered; no frame ended.
    Consumed,
    /// The buffer overflowed; the input after the drop point is handed back.
    OverFull(Seq<u8>),
    /// A frame ended but did not decode; the input after the frame is handed back.
    DeserError(Seq<u8>),
    /// A frame ended and decoded to the first sequence; the input after it is handed back.
    Success(Seq<u8>, Seq<u8>),
}

/// Feeding `input` to an accumulator that holds `pending` bytes and has room for
/// `cap` bytes: the step taken and the bytes pending afterwards.
pub open spec fn feed_step(pending: Seq<u8>, cap: nat, input: Seq<u8>) -> (FeedStep, Seq<u8>) {
    if input.len() == 0 {
        (FeedStep::Consumed, pending)
    } else {
        match first_zero(input) {
            Some(n) => {
                if pending.len() + n + 1 <= cap {
                    match cobs_decoded(pending + input.take(n + 1 as int)) {
                        Some(d) => (FeedStep::Success(d, input.skip(n + 1 as int)), Seq::empty()),
                        None => (FeedStep::DeserError(input.skip(n + 1 as int)), Seq::empty()),
                    }
                } else {
                    (FeedStep::OverFull(input.skip(n + 1 as int)), Seq::empty())
                }
            },
            None => {
                if pending.len() + input.len() > cap {
                    (FeedStep::OverFull(input.skip(cap - pending.len() as int)), Seq::empty())
                } else {
                    (FeedStep::Consumed, pending + input)
                }
            },
        }
    }
}

/// The result of feeding the accumulator.
pub enum FeedResult<'input, 'buf> {
    /// Consumed all data, still pending.
    Consumed,
    /// Buffer was filled. Contains remaining section of input, if any.
    OverFull(&'input [u8]),
    /// Reached end of chunk, but deserialization failed. Contains remaining section of input.
    DeserError(&'input [u8]),
    /// A frame was decoded.
    Success {
        /// Decoded data.
        data: &'buf [u8],
        /// Remaining data left in the input after the frame.
        remaining: &'input [u8],
    },
}

/// The feed result stands for the given step.
pub open spec fn feed_result_is<'a, 'b>(r: FeedResult<'a, 'b>, step: FeedStep) -> bool {
    match step {
        FeedStep::Consumed => r is Consumed,
        FeedStep::OverFull(rest) => r matches FeedResult::OverFull(x) && x@ == rest,
        FeedStep::DeserError(rest) => r matches FeedResult::DeserError(x) && x@ == rest,
        FeedStep::Success(d, rest) => r matches FeedResult::Success { data, remaining } && data@ == d
            && remaining@ == rest,
    }
}

/// Accumulates COBS-encoded bytes in a fixed-size buffer.
pub struct CobsAccumulator {
    buf: Vec<u8>,
    idx: usize,
}

impl CobsAccumulator {
    /// The accumulator is well formed: the fill index lies within the buffer.
    pub closed spec fn wf(&self) -> bool {
        self.idx <= self.buf@.len()
    }

    /// The bytes received since the last frame ended.
    pub closed spec fn pending(&self) -> Seq<u8> {
        self.buf@.take(self.idx as int)
    }

    /// How many bytes the accumulator can hold.
    pub closed spec fn capacity(&self) -> nat {
        self.buf@.len()
    }

    /// The pending bytes never exceed the capacity.
    pub proof fn lemma_pending_fits(&self)
        requires
            self.wf(),
        ensures
            self.pending().len() <= self.capacity(),
    {
    }

    /// Create a new accumulator with room for `sz` bytes.
    pub fn new(sz: usize) -> (r: Self)
        ensures
            r.wf(),
            r.capacity() == sz,
            r.pending() == Seq::<u8>::empty(),
    {
        CobsAccumulator { buf: vec![0u8; sz], idx: 0 }
    }

    /// Forget the pending bytes, as a fresh accumulator of the same capacity.
    pub fn reset(&mut self)
        ensures
            final(self).wf(),
            final(self).capacity() == old(self).capacity(),
            final(self).pending() == Seq::<u8>::empty(),
    {
        let sz = self.buf.len();
        *self = CobsAccumulator::new(sz);
    }

    /// Append the input to the pending bytes.
    pub fn extend_unchecked(&mut self, input: &[u8])
        requires
            old(self).wf(),
            old(self).pending().len() + input@.len() <= old(self).capacity(),
        ensures
            final(self).wf(),
            final(self).capacity() == old(self).capacity(),
            final(self).pending() == old(self).pending() + input@,
    {
        let start = self.idx;
        let ghost old_buf = self.buf@;
        let blen = self.buf.len();
        let mut k: usize = 0;
        while k < input.len()
            invariant
                start == self.idx,
                start + input@.len() <= self.buf@.len(),
                self.buf@.len() == old_buf.len(),
                self.buf@.len() == blen,
                k <= input@.len(),
                forall|j: int| 0 <= j < start ==> self.buf@[j] == old_buf[j],
                forall|j: int| 0 <= j < k ==> self.buf@[start + j] == input@[j],
            decreases input@.len() - k,
        {
            self.buf.set(start + k, input[k]);
            k = k + 1;
        }
        self.idx = start + input.len();
        assert(self.buf@.take(self.idx as int) =~= old_buf.take(start as int) + input@);
    }

    /// Feed the input to the accumulator: buffer it, or finish (and decode) a frame
    /// at its first zero byte.
    pub fn feed_raw<'me, 'input>(&'me mut self, input: &'input [u8]) -> (r: FeedResult<'input, 'me>)
        requires
            old(self).wf(),
        ensures
            final(self).wf(),
            final(self).capacity() == old(self).capacity(),
            feed_result_is(r, feed_step(old(self).pending(), old(self).capacity(), input@).0),
            final(self).pending() == feed_step(old(self).pending(), old(self).capacity(), input@).1,
    {
        if input.len() == 0 {
            return FeedResult::Consumed;
        }
        let mut i: usize = 0;
        while i < input.len() && input[i] != 0
            invariant
                i <= input@.len(),
                forall|j: int| 0 <= j < i ==> input@[j] != 0,
            decreases input@.len() - i,
        {
            i = i + 1;
        }
        proof {
            lemma_first_zero(input@, i as nat);
        }
        let max_len = self.buf.len();
        let room = max_len - self.idx;
        if i < input.len() {
            let (take, release) = input.split_at(i + 1);
            if take.len() <= room {
                self.extend_unchecked(take);
                let len = self.idx;
                let res = cobs_decode_in_place(&mut self.buf, len);
                self.idx = 0;
                match res {
                    Some(ct) => {
                        let data = vstd::slice::slice_subrange(self.buf.as_slice(), 0, ct);
                        FeedResult::Success { data, remaining: release }
                    },
                    None => FeedResult::DeserError(release),
                }
            } else {
                self.idx = 0;
                FeedResult::OverFull(release)
            }
        } else {
            if input.len() > room {
                self.idx = 0;
                FeedResult::OverFull(vstd::slice::slice_subrange(input, room, input.len()))
            } else {
                self.extend_unchecked(input);
                FeedResult::Consumed
            }
        }
    }
}

/// Feeding a zero-free chunk that fits and then more input has the same outcome,
/// and leaves the same bytes pending, as feeding both at once: a frame may arrive
/// split across any number of reads.
pub proof fn lemma_feed_split(pending: Seq<u8>, cap: nat, a: Seq<u8>, b: Seq<u8>)
    requires
        a.len() > 0,
        b.len() > 0,
        first_zero(a) is None,
        pending.len() + a.len() <= cap,
    ensures
        feed_step(pending, cap, a).0 == FeedStep::Consumed,
        feed_step(pending, cap, a).1 == pending + a,
        feed_step(pending + a, cap, b) == feed_step(pending, cap, a + b),
{
    lemma_first_zero_concat(a, b);
    lemma_first_zero_some(b);
    let ab = a + b;
    assert(ab.len() > 0);
    match first_zero(b) {
        Some(n) => {
            assert(ab.take(n + a.len() + 1 as int) =~= a + b.take(n + 1 as int));
            assert(pending + ab.take(n + a.len() + 1 as int) =~= (pending + a) + b.take(n + 1 as int));
            assert(ab.skip(n + a.len() + 1 as int) =~= b.skip(n + 1 as int));
        },
        None => {
            assert((pending + a) + b =~= pending + ab);
            if pending.len() + ab.len() > cap {
                assert(ab.skip(cap - pending.len() as int) =~= b.skip(cap - (pending + a).len() as int));
            }
        },
    }
}

} // verus!
