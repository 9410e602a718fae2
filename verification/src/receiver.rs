//! The stream adapter: bridges a channel of pushed byte blocks to a
//! blocking, pull-style byte reader with internal buffering.
//!
//! The adapter keeps a growable backing buffer whose first `length` bytes
//! are the unread data. A read first serves already-buffered bytes; only
//! with an empty buffer does it block on the channel for the next block.
//! Two ghost sequences record every byte the adapter ever received from
//! the channel and every byte it ever handed out, and the adapter's
//! invariant ties them together: nothing is lost and nothing is reordered.

use vstd::prelude::*;

verus! {

/// A blocking, pull-style reader over a bounded channel of byte blocks.
pub struct ReadableReceiver {
    receiver: flume::Receiver<Vec<u8>>,
    buffer: Vec<u8>,
    length: usize,
    received: Ghost<Seq<u8>>,
    consumed: Ghost<Seq<u8>>,
}

/// Relies on `flume::Receiver::recv`: blocks until a block arrives or every
/// sender is dropped; `None` means the channel is closed and drained, the
/// sole end-of-stream signal. A block without bytes carries no data, so the
/// call is repeated past one; the block handed back is never empty. What a
/// block holds depends on the producer, so nothing more is stated of it.
#[verifier::external_body]
fn recv_block(r: &flume::Receiver<Vec<u8>>) -> (out: Option<Vec<u8>>)
    ensures
        out matches Some(b) ==> b@.len() > 0,
{
    loop {
        match r.recv() {
            Ok(b) => {
                if !b.is_empty() {
                    return Some(b);
                }
            }
            Err(_) => return None,
        }
    }
}

impl ReadableReceiver {
    /// The bytes received from the channel and not yet handed to a caller.
    pub closed spec fn unread(self) -> Seq<u8> {
        self.buffer@.take(self.length as int)
    }

    /// Every byte obtained from the channel so far, in arrival order.
    pub closed spec fn received(self) -> Seq<u8> {
        self.received@
    }

    /// Every byte handed out by `read` so far, in the order handed out.
    pub closed spec fn consumed(self) -> Seq<u8> {
        self.consumed@
    }

    /// The adapter's invariant: the unread count never exceeds the backing
    /// buffer, and the channel's bytes split exactly into the bytes already
    /// handed out followed by the bytes still buffered.
    pub closed spec fn wf(self) -> bool {
        &&& self.length <= self.buffer@.len()
        &&& self.received@ == self.consumed@ + self.unread()
    }

    /// The adapter never loses or reorders bytes: at any point, the
    /// concatenation of everything handed out, followed by what is still
    /// buffered, is exactly the concatenation of the blocks received from
    /// the channel.
    pub proof fn lemma_no_byte_loss(self)
        requires
            self.wf(),
        ensures
            self.received() == self.consumed() + self.unread(),
    {
    }

    /// At end of stream — nothing left buffered — the bytes handed out are
    /// exactly the bytes received: the concatenation of all reads equals
    /// the concatenation of all blocks the channel delivered.
    pub proof fn lemma_reads_equal_received_at_eof(self)
        requires
            self.wf(),
            self.unread().len() == 0,
        ensures
            self.consumed() == self.received(),
    {
        assert(self.consumed() + self.unread() =~= self.consumed());
    }

    /// Wraps a channel endpoint, allocating a zeroed backing buffer of the
    /// nominal size.
    pub fn new(receiver: flume::Receiver<Vec<u8>>, buffer_size: usize) -> (r: Self)
        ensures
            r.wf(),
            r.unread() == Seq::<u8>::empty(),
            r.received() == Seq::<u8>::empty(),
            r.consumed() == Seq::<u8>::empty(),
    {
        let mut buffer: Vec<u8> = Vec::new();
        let mut i: usize = 0;
        while i < buffer_size
            invariant
                buffer@.len() == i,
            decreases buffer_size - i,
        {
            buffer.push(0);
            i = i + 1;
        }
        let r = ReadableReceiver {
            receiver,
            buffer,
            length: 0,
            received: Ghost(Seq::empty()),
            consumed: Ghost(Seq::empty()),
        };
        proof {
            assert(r.unread() =~= Seq::<u8>::empty());
            assert(r.received@ =~= r.consumed@ + r.unread());
        }
        r
    }

    /// Appends one received block behind the unread bytes, growing the
    /// backing buffer when the block does not fit.
    fn append_block(&mut self, block: Vec<u8>)
        requires
            old(self).wf(),
        ensures
            final(self).wf(),
            final(self).unread() == old(self).unread() + block@,
            final(self).received() == old(self).received() + block@,
            final(self).consumed() == old(self).consumed(),
            final(self).receiver == old(self).receiver,
    {
        let ghost orig = *self;
        let n = block.len();
        let mut i: usize = 0;
        proof {
            assert(self.unread() =~= orig.unread() + block@.take(0));
        }
        while i < n
            invariant
                i <= n,
                n == block@.len(),
                self.length <= self.buffer@.len(),
                self.unread() == orig.unread() + block@.take(i as int),
                self.received@ == orig.received@,
                self.consumed@ == orig.consumed@,
                self.receiver == orig.receiver,
            decreases n - i,
        {
            let ghost bpre = *self;
            if self.length < self.buffer.len() {
                self.buffer.set(self.length, block[i]);
                self.length = self.length + 1;
                proof {
                    assert(self.unread() == self.buffer@.take(bpre.length + 1));
                    assert(self.unread() =~= bpre.unread() + seq![block@[i as int]]);
                }
            } else {
                self.buffer.push(block[i]);
                self.length = self.buffer.len();
                proof {
                    assert(self.unread() =~= bpre.unread() + seq![block@[i as int]]);
                }
            }
            proof {
                assert(block@.take(i + 1) =~= block@.take(i as int) + seq![block@[i as int]]);
                assert(self.unread() =~= orig.unread() + block@.take(i + 1));
            }
            i = i + 1;
        }
        self.received = Ghost(self.received@ + block@);
        proof {
            assert(block@.take(n as int) =~= block@);
            assert(self.received@ =~= self.consumed@ + self.unread());
        }
    }

    /// Reads up to `max_len` bytes. Already-buffered bytes are served at
    /// once; only with an empty buffer does the call block on the channel
    /// until a block arrives or the channel closes. An empty result with
    /// `max_len > 0` is the end-of-stream signal: the buffer is empty and
    /// no more bytes will ever arrive.
    pub fn read(&mut self, max_len: usize) -> (out: Vec<u8>)
        requires
            old(self).wf(),
        ensures
            final(self).wf(),
            out@.len() <= max_len,
            final(self).consumed() == old(self).consumed() + out@,
            old(self).received().is_prefix_of(final(self).received()),
            out@.len() == vstd::math::min(
                max_len as int,
                old(self).unread().len() + final(self).received().len()
                    - old(self).received().len(),
            ),
            old(self).unread().len() > 0 ==> final(self).received() == old(self).received(),
            max_len == 0 ==> *final(self) == *old(self),
    {
        let ghost pre = *self;
        if max_len == 0 {
            proof {
                assert(pre.consumed@ + Seq::<u8>::empty() =~= pre.consumed@);
                assert(pre.received@.is_prefix_of(pre.received@)) by {
                    assert(pre.received@.take(pre.received@.len() as int) =~= pre.received@);
                }
            }
            return Vec::new();
        }
        proof {
            assert(pre.received@.take(pre.received@.len() as int) =~= pre.received@);
        }
        if self.length == 0 {
            match recv_block(&self.receiver) {
                Some(block) => {
                    self.append_block(block);
                    proof {
                        assert(self.received@.take(pre.received@.len() as int)
                            =~= pre.received@);
                        assert(pre.unread() + block@ =~= block@);
                    }
                }
                None => {
                }
            }
        }
        let n = if self.length < max_len {
            self.length
        } else {
            max_len
        };
        let ghost mid = *self;
        let mut out: Vec<u8> = Vec::new();
        let mut i: usize = 0;
        proof {
            assert(out@ =~= mid.unread().take(0));
        }
        while i < n
            invariant
                i <= n,
                n <= mid.length,
                mid.length <= mid.buffer@.len(),
                self.buffer@ == mid.buffer@,
                self.length == mid.length,
                out@ == mid.unread().take(i as int),
            decreases n - i,
        {
            out.push(self.buffer[i]);
            proof {
                assert(out@ =~= mid.unread().take(i + 1));
            }
            i = i + 1;
        }
        let remaining = self.length - n;
        let mut j: usize = 0;
        while j < remaining
            invariant
                j <= remaining,
                remaining == mid.length - n,
                n <= mid.length,
                self.length == mid.length,
                self.buffer@.len() == mid.buffer@.len(),
                self.receiver == mid.receiver,
                self.received@ == mid.received@,
                self.consumed@ == mid.consumed@,
                mid.length <= mid.buffer@.len(),
                forall|k: int| 0 <= k < j ==> self.buffer@[k] == mid.buffer@[n + k],
                forall|k: int| j <= k < mid.buffer@.len() ==> self.buffer@[k] == mid.buffer@[k],
            decreases remaining - j,
        {
            let b = self.buffer[n + j];
            self.buffer.set(j, b);
            j = j + 1;
        }
        self.length = remaining;
        self.consumed = Ghost(self.consumed@ + out@);
        proof {
            assert(out@ =~= mid.unread().take(n as int));
            assert(self.unread() =~= mid.unread().skip(n as int));
            assert(mid.unread() =~= mid.unread().take(n as int) + mid.unread().skip(n as int));
            assert(self.received@ =~= self.consumed@ + self.unread());
        }
        out
    }
}

} // verus!
