//! The defmt sink: defmt's encoder writes a log message in several pieces, which
//! are gathered into one frame of a queue and committed whole. A frame that does
//! not fit is dropped rather than committed cut short, since a cut frame would
//! corrupt the host's decoding of the stream.
use vstd::prelude::*;

verus! {

/// The largest frame for a queue of `buf_size` bytes: half the queue, so that at
/// least two frames fit, unless the queue is tiny (16 bytes or less).
pub fn max_frame_size(buf_size: usize) -> (r: usize)
    ensures
        buf_size > 16 ==> r == buf_size / 2,
        buf_size <= 16 ==> r == buf_size,
{
    if buf_size > 16 {
        buf_size / 2
    } else {
        buf_size
    }
}

/// A frame being gathered in a grant of the queue.
pub struct FrameAccumulator {
    grant: Vec<u8>,
    pos: usize,
    truncated: bool,
}

impl FrameAccumulator {
    /// The bytes of the grant.
    pub closed spec fn spec_grant(&self) -> Seq<u8> {
        self.grant@
    }

    /// How many bytes have been written.
    pub closed spec fn spec_pos(&self) -> nat {
        self.pos as nat
    }

    /// Whether a write did not fit.
    pub closed spec fn spec_truncated(&self) -> bool {
        self.truncated
    }

    /// The accumulator's invariant: what was written fits in the grant.
    pub open spec fn wf(&self) -> bool {
        self.spec_pos() <= self.spec_grant().len()
    }

    /// The bytes written so far.
    pub open spec fn written(&self) -> Seq<u8> {
        self.spec_grant().take(self.spec_pos() as int)
    }

    /// Start a frame in a grant of the queue (its bytes as granted).
    pub fn try_new(grant: Vec<u8>) -> (r: Self)
        ensures
            r.wf(),
            r.spec_grant() == grant@,
            r.spec_pos() == 0,
            !r.spec_truncated(),
    {
        FrameAccumulator { grant, pos: 0, truncated: false }
    }

    /// The capacity of the frame.
    pub fn capacity(&self) -> (r: usize)
        ensures
            r == self.spec_grant().len(),
    {
        self.grant.len()
    }

    /// Append `data`; what does not fit is dropped, and the frame is then marked
    /// truncated.
    pub fn write(&mut self, data: &[u8])
        requires
            old(self).wf(),
        ensures
            final(self).wf(),
            final(self).spec_grant().len() == old(self).spec_grant().len(),
            final(self).spec_truncated() == (old(self).spec_truncated() || data@.len()
                > old(self).spec_grant().len() - old(self).spec_pos()),
            ({
                let room = old(self).spec_grant().len() - old(self).spec_pos();
                let n = if data@.len() <= room {
                    data@.len() as int
                } else {
                    room
                };
                final(self).written() == old(self).written() + data@.take(n)
            }),
    {
        let remaining = self.grant.len() - self.pos;
        if data.len() > remaining {
            self.truncated = true;
        }
        let to_write = if data.len() < remaining {
            data.len()
        } else {
            remaining
        };
        let ghost before = self.grant@;
        let ghost start = self.pos;
        let ghost trunc = self.truncated;
        assert(before.len() == self.grant.len());
        let mut i: usize = 0;
        while i < to_write
            invariant
                self.truncated == trunc,
                before.len() <= usize::MAX,
                to_write <= data@.len(),
                start + to_write <= before.len(),
                self.pos == start,
                i <= to_write,
                self.grant@.len() == before.len(),
                forall|j: int| 0 <= j < start ==> self.grant@[j] == before[j],
                forall|j: int| 0 <= j < i ==> self.grant@[start + j] == data@[j],
            decreases to_write - i,
        {
            self.grant.set(self.pos + i, data[i]);
            i = i + 1;
        }
        self.pos = self.pos + to_write;
        assert(self.grant@.take(self.pos as int) =~= before.take(start as int) + data@.take(
            to_write as int,
        ));
    }

    /// Finish the frame: the number of bytes to commit, or `None` when a write
    /// did not fit and the frame is dropped.
    pub fn commit(self) -> (r: Option<usize>)
        requires
            self.wf(),
        ensures
            self.spec_truncated() ==> r is None,
            !self.spec_truncated() ==> r == Some(self.spec_pos() as usize),
    {
        if self.truncated {
            None
        } else {
            Some(self.pos)
        }
    }

    /// The bytes of the frame to commit.
    pub fn frame(&self) -> (r: &[u8])
        requires
            self.wf(),
        ensures
            r@ == self.written(),
    {
        vstd::slice::slice_subrange(self.grant.as_slice(), 0, self.pos)
    }
}

/// The state of the defmt global logger: whether a message is being written
/// (between `acquire` and `release`), and the frame that gathers the message for
/// the network, when network output is on and the queue had room for it.
pub struct LoggerState {
    taken: bool,
    frame: Option<FrameAccumulator>,
}

impl LoggerState {
    /// Whether a message is being written.
    pub closed spec fn is_taken(&self) -> bool {
        self.taken
    }

    /// The frame gathering the current message, if any.
    pub closed spec fn frame_spec(&self) -> Option<FrameAccumulator> {
        self.frame
    }

    /// The state's invariant: a frame, when there is one, is well formed.
    pub open spec fn wf(&self) -> bool {
        self.frame_spec() matches Some(f) ==> f.wf()
    }

    /// An idle logger: no message, no frame.
    pub fn new() -> (r: Self)
        ensures
            r.wf(),
            !r.is_taken(),
            r.frame_spec() is None,
    {
        LoggerState { taken: false, frame: None }
    }

    /// Start a message. `grant` is the queue's grant for its frame: `None` when
    /// network output is off or the queue had no room, and the message then goes
    /// to no frame. Starting a message while one is being written is reentrant
    /// use, which the logger does not allow.
    pub fn acquire(&mut self, grant: Option<Vec<u8>>)
        requires
            !old(self).is_taken(),
        ensures
            final(self).wf(),
            final(self).is_taken(),
            match grant {
                Some(g) => final(self).frame_spec() matches Some(f) && f.spec_grant() == g@
                    && f.spec_pos() == 0 && !f.spec_truncated(),
                None => final(self).frame_spec() is None,
            },
    {
        self.taken = true;
        self.frame = match grant {
            Some(g) => Some(FrameAccumulator::try_new(g)),
            None => None,
        };
    }

    /// Write a piece of the current message: into its frame when there is one,
    /// otherwise nowhere.
    pub fn write(&mut self, data: &[u8])
        requires
            old(self).wf(),
        ensures
            final(self).wf(),
            final(self).is_taken() == old(self).is_taken(),
            match old(self).frame_spec() {
                Some(f0) => final(self).frame_spec() matches Some(f1) && f1.spec_grant().len()
                    == f0.spec_grant().len() && f1.spec_truncated() == (f0.spec_truncated()
                    || data@.len() > f0.spec_grant().len() - f0.spec_pos()) && f1.written()
                    == f0.written() + data@.take(
                    if data@.len() <= f0.spec_grant().len() - f0.spec_pos() {
                        data@.len() as int
                    } else {
                        f0.spec_grant().len() - f0.spec_pos()
                    },
                ),
                None => final(self).frame_spec() is None,
            },
    {
        match self.frame.take() {
            Some(mut acc) => {
                acc.write(data);
                self.frame = Some(acc);
            },
            None => {},
        }
    }

    /// End the current message: the bytes of its frame to commit to the queue, or
    /// `None` when there was no frame or a piece did not fit (the frame is then
    /// dropped whole). The logger is idle afterwards.
    pub fn release(&mut self) -> (r: Option<Vec<u8>>)
        requires
            old(self).wf(),
        ensures
            final(self).wf(),
            !final(self).is_taken(),
            final(self).frame_spec() is None,
            match old(self).frame_spec() {
                Some(f) => if f.spec_truncated() {
                    r is None
                } else {
                    r matches Some(v) && v@ == f.written()
                },
                None => r is None,
            },
    {
        let frame = self.frame.take();
        self.taken = false;
        match frame {
            Some(acc) => {
                if acc.truncated {
                    None
                } else {
                    let mut bytes = acc.grant;
                    bytes.truncate(acc.pos);
                    Some(bytes)
                }
            },
            None => None,
        }
    }
}

} // verus!
