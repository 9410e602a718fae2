//! The decode-and-chunk stage: windowed accumulation of decoded samples
//! under a variable resampling target, per-packet processing for one
//! track, and the bounded output queue's endpoints.
//!
//! The target window is fixed: `TARGET_SAMPLE_SIZE` samples at
//! `TARGET_SAMPLE_RATE` hertz define a duration in seconds. The samples
//! owed for the current chunk scale that duration by the active speed
//! multiplier and the track's native rate, rounded toward zero. A chunk is
//! emitted with exactly that many samples; the excess stays buffered for
//! the next window, and a trailing window that never fills is discarded.

use vstd::arithmetic::div_mod::lemma_div_is_ordered;
use vstd::prelude::*;
use crate::decode::{DecodeOutcome, DecoderSession};
use crate::distributions::{
    choose_random_step, lemma_speed_factor_in_range, spec_speed_q20, speed_q20, valid_step,
    SPEED_ONE_Q20,
};

verus! {

/// Samples in one window at the target rate.
pub const TARGET_SAMPLE_SIZE: u64 = 512 * 256 - 1;

/// The sample rate, in hertz, that the window duration is stated at.
pub const TARGET_SAMPLE_RATE: u64 = 16000;

/// Samples owed for one window: the window duration (target size over
/// target rate) times the active speed multiplier times the native rate,
/// rounded toward zero; exact over the integers with the Q20 multiplier.
pub open spec fn spec_required_samples(step: int, rate: u32) -> int {
    (TARGET_SAMPLE_SIZE * spec_speed_q20(step) * rate) / (TARGET_SAMPLE_RATE * SPEED_ONE_Q20)
}

/// Computes the samples owed for one window of the given step and rate.
pub fn required_samples(step: i32, rate: u32) -> (r: u64)
    requires
        valid_step(step as int),
    ensures
        r == spec_required_samples(step as int, rate),
{
    let q: u64 = speed_q20(step);
    proof {
        lemma_speed_factor_in_range(step as int);
        assert((TARGET_SAMPLE_SIZE as int) * (q as int) <= 131071 * 1321122) by (nonlinear_arith)
            requires
                q <= 1321122,
        ;
    }
    let a: u64 = TARGET_SAMPLE_SIZE * q;
    proof {
        assert((a as int) * (rate as int) <= 131071 * 1321122 * 0xffff_ffff) by (nonlinear_arith)
            requires
                a <= 131071 * 1321122,
                rate <= 0xffff_ffff,
        ;
    }
    let num: u128 = (a as u128) * (rate as u128);
    proof {
        assert((16000 as int) * (1048576 as int) == 16777216000) by (nonlinear_arith);
    }
    let den: u128 = (TARGET_SAMPLE_RATE as u128) * (SPEED_ONE_Q20 as u128);
    let r128: u128 = num / den;
    proof {
        lemma_div_is_ordered(num as int, (131071 * 1321122 * 0xffff_ffff) as int, den as int);
        assert(((131071 * 1321122 * 0xffff_ffff) as int) / (16777216000 as int)
            <= u64::MAX as int) by (nonlinear_arith);
    }
    r128 as u64
}

/// One emitted training chunk. The samples are the bit patterns of the
/// decoder's interleaved 32-bit float output, in decode order; the step
/// that produced the chunk's speed multiplier is kept alongside it.
pub struct AudioChunk {
    pub samples: Vec<u32>,
    pub sample_rate: u32,
    pub speed_factor_q20: u64,
    pub step_factor: i32,
}

impl AudioChunk {
    /// A chunk is well formed when its step lies in the configured set,
    /// its recorded multiplier is that step's, and it holds exactly the
    /// samples its own step and native rate require.
    pub open spec fn wf(self) -> bool {
        &&& valid_step(self.step_factor as int)
        &&& self.speed_factor_q20 == spec_speed_q20(self.step_factor as int)
        &&& self.samples@.len() == spec_required_samples(self.step_factor as int, self.sample_rate)
    }
}

/// Per-track accumulator: every sample decoded since the last emitted
/// chunk, the track's native rate, and the window target derived from the
/// active step.
pub struct DecodeState {
    pub samples: Vec<u32>,
    pub sample_rate: u32,
    pub step_factor: i32,
    pub required: u64,
}

impl DecodeState {
    /// The accumulator's invariant: the active step lies in the configured
    /// set and the stored target is the one its step and rate define.
    pub open spec fn wf(self) -> bool {
        &&& valid_step(self.step_factor as int)
        &&& self.required == spec_required_samples(self.step_factor as int, self.sample_rate)
    }

    /// A fresh accumulator for a track whose first decoded packet reported
    /// `sample_rate`, with `step` as the first window's step.
    pub fn new(sample_rate: u32, step: i32) -> (s: Self)
        requires
            valid_step(step as int),
        ensures
            s.wf(),
            s.samples@ == Seq::<u32>::empty(),
            s.sample_rate == sample_rate,
            s.step_factor == step,
    {
        let required = required_samples(step, sample_rate);
        DecodeState { samples: Vec::new(), sample_rate, step_factor: step, required }
    }

    /// Appends one packet's interleaved samples behind the buffered ones.
    pub fn push_samples(&mut self, new_samples: &Vec<u32>)
        requires
            old(self).wf(),
        ensures
            final(self).wf(),
            final(self).samples@ == old(self).samples@ + new_samples@,
            final(self).sample_rate == old(self).sample_rate,
            final(self).step_factor == old(self).step_factor,
            final(self).required == old(self).required,
    {
        self.samples.extend_from_slice(new_samples.as_slice());
        proof {
            assert(self.samples@ =~= old(self).samples@ + new_samples@);
        }
    }

    /// Whether the accumulator owes a chunk: it holds at least the samples
    /// the current window requires.
    pub fn ready(&self) -> (r: bool)
        ensures
            r == (self.samples@.len() >= self.required),
    {
        self.samples.len() as u64 >= self.required
    }

    /// Emits the current window as a chunk holding exactly the required
    /// samples; the excess stays buffered, shifted to the front, and
    /// `next_step` becomes the next window's step. Nothing is dropped: the
    /// old buffer splits exactly into the chunk and the remainder.
    pub fn take_chunk(&mut self, next_step: i32) -> (c: AudioChunk)
        requires
            old(self).wf(),
            valid_step(next_step as int),
            old(self).samples@.len() >= old(self).required,
        ensures
            c.wf(),
            c.sample_rate == old(self).sample_rate,
            c.step_factor == old(self).step_factor,
            c.samples@ == old(self).samples@.take(old(self).required as int),
            final(self).wf(),
            final(self).sample_rate == old(self).sample_rate,
            final(self).step_factor == next_step,
            final(self).samples@ == old(self).samples@.skip(old(self).required as int),
            old(self).samples@ == c.samples@ + final(self).samples@,
    {
        let ghost orig = *self;
        let sl = self.samples.len();
        let req: usize = self.required as usize;
        let mut cut: Vec<u32> = Vec::new();
        let mut i: usize = 0;
        proof {
            assert(cut@ =~= orig.samples@.take(0));
        }
        while i < req
            invariant
                i <= req,
                req <= self.samples@.len(),
                self.samples@ == orig.samples@,
                cut@ == orig.samples@.take(i as int),
            decreases req - i,
        {
            cut.push(self.samples[i]);
            proof {
                assert(cut@ =~= orig.samples@.take(i + 1));
            }
            i = i + 1;
        }
        let remaining = sl - req;
        let mut j: usize = 0;
        while j < remaining
            invariant
                j <= remaining,
                remaining == orig.samples@.len() - req,
                req + remaining <= usize::MAX,
                req <= orig.samples@.len(),
                self.samples@.len() == orig.samples@.len(),
                self.sample_rate == orig.sample_rate,
                self.step_factor == orig.step_factor,
                self.required == orig.required,
                forall|k: int| 0 <= k < j ==> self.samples@[k] == orig.samples@[req + k],
                forall|k: int| j <= k < orig.samples@.len() ==> self.samples@[k] == orig.samples@[k],
            decreases remaining - j,
        {
            let v = self.samples[req + j];
            self.samples.set(j, v);
            j = j + 1;
        }
        self.samples.truncate(remaining);
        let factor = speed_q20(self.step_factor);
        let chunk = AudioChunk {
            samples: cut,
            sample_rate: self.sample_rate,
            speed_factor_q20: factor,
            step_factor: self.step_factor,
        };
        let next_required = required_samples(next_step, self.sample_rate);
        self.step_factor = next_step;
        self.required = next_required;
        proof {
            assert(self.samples@ =~= orig.samples@.skip(req as int));
            assert(orig.samples@ =~= chunk.samples@ + self.samples@);
        }
        chunk
    }
}

/// Why a track aborted without producing further chunks.
#[derive(Debug, PartialEq, Eq, Structural)]
pub enum TrackError {
    /// The transport failed: reported by the download stage for its track.
    Network,
    /// No format was probed, no default track was found, or no decoder
    /// could be built for it.
    Format,
}

/// Relies on `flume::Sender::send`: blocks while the bounded output queue
/// is full — the backpressure that throttles decoding to the caller's
/// consumption rate — and returns whether the receiver still lives. A
/// dropped receiver is the consumer-gone signal, not a failure.
#[verifier::external_body]
fn send_chunk(sender: &flume::Sender<AudioChunk>, chunk: AudioChunk) -> (ok: bool) {
    sender.send(chunk).is_ok()
}

/// Relies on `flume::Receiver::recv`: blocks until a chunk arrives;
/// `None` exactly when the queue is closed and drained, which happens once
/// every worker has dropped its sender — and then `None` forever after.
#[verifier::external_body]
pub fn next_chunk(receiver: &flume::Receiver<AudioChunk>) -> (out: Option<AudioChunk>) {
    receiver.recv().ok()
}

/// The decode-and-chunk stage for one track: probing happens at `open`,
/// then each `step` call consumes one container packet until the track
/// finishes. The driver owning the thread loops over `step`.
pub struct TrackProcessor {
    session: DecoderSession,
    track_id: u32,
    state: Option<DecodeState>,
    emitted: Ghost<Seq<AudioChunk>>,
}

impl TrackProcessor {
    /// Every chunk this processor has handed to the output queue, in
    /// emission order.
    pub closed spec fn emitted(self) -> Seq<AudioChunk> {
        self.emitted@
    }

    /// The processor's invariant: once the accumulator exists it is well
    /// formed, and so is every chunk emitted so far — each holds exactly
    /// the samples its own recorded step and native rate require.
    pub closed spec fn wf(self) -> bool {
        &&& self.state matches Some(d) ==> d.wf()
        &&& forall|i: int| 0 <= i < self.emitted@.len() ==> (#[trigger] self.emitted@[i]).wf()
    }

    /// Every chunk a well-formed processor ever handed to the output queue
    /// carries exactly the samples that its own recorded step and native
    /// rate require, and that step lies in the configured set.
    pub proof fn lemma_emitted_chunks_well_formed(self, i: int)
        requires
            self.wf(),
            0 <= i < self.emitted().len(),
        ensures
            self.emitted()[i].wf(),
    {
    }

    /// Probes the byte stream with the fixed container hint and selects
    /// the default track's decoder. Fails with the format error exactly
    /// when the decode library finds no format, no default track, or no
    /// decoder — the accumulator is then never created.
    pub fn open<R: std::io::Read + Send + Sync + 'static>(reader: R) -> (out: Result<
        TrackProcessor,
        TrackError,
    >)
        ensures
            out matches Ok(p) ==> p.wf() && p.emitted() == Seq::<AudioChunk>::empty(),
    {
        match DecoderSession::open(reader) {
            Some(session) => {
                let track_id = session.track_id();
                Ok(TrackProcessor { session, track_id, state: None, emitted: Ghost(Seq::empty()) })
            },
            None => Err(TrackError::Format),
        }
    }

    /// Processes one container packet. A packet of another track is
    /// discarded without touching the accumulator; a recoverable decode
    /// error is swallowed. Decoded samples are appended, and when the
    /// accumulator holds a full window one chunk is emitted and a fresh
    /// step drawn for the next window. Returns `false` when the track is
    /// done: the container is exhausted or failed fatally — a partial
    /// trailing window is discarded, never emitted short — or the queue's
    /// consumer is gone.
    pub fn step(&mut self, chunk_sender: &flume::Sender<AudioChunk>) -> (more: bool)
        requires
            old(self).wf(),
        ensures
            final(self).wf(),
            old(self).emitted().is_prefix_of(final(self).emitted()),
            final(self).emitted().len() <= old(self).emitted().len() + 1,
    {
        proof {
            assert(self.emitted@.take(self.emitted@.len() as int) =~= self.emitted@);
        }
        let packet = match self.session.next_packet() {
            Some(p) => p,
            None => {
                return false;
            },
        };
        if packet.track_id() != self.track_id {
            return true;
        }
        match self.session.decode_packet(&packet) {
            DecodeOutcome::Decoded { samples, sample_rate } => {
                if self.state.is_none() {
                    let step = choose_random_step();
                    self.state = Some(DecodeState::new(sample_rate, step));
                }
                let mut more = true;
                match &mut self.state {
                    Some(st) => {
                        st.push_samples(&samples);
                        if st.ready() {
                            let next = choose_random_step();
                            let chunk = st.take_chunk(next);
                            let ghost sent = chunk;
                            if send_chunk(chunk_sender, chunk) {
                                self.emitted = Ghost(self.emitted@.push(sent));
                                proof {
                                    assert(self.emitted@.take(old(self).emitted@.len() as int)
                                        =~= old(self).emitted@);
                                }
                            } else {
                                more = false;
                            }
                        }
                    },
                    None => {},
                }
                more
            },
            DecodeOutcome::Recoverable => true,
            DecodeOutcome::Fatal => false,
        }
    }
}

} // verus!
