//! Splitting captured frames into turns of speech.
//!
//! A turn begins with the first loud frame, takes along what was captured shortly
//! before it, and ends after a stretch of silence or when it has grown too long.

use crate::audio::convert::TARGET_RATE;
use crate::audio::speech::{energy_of, is_loud, FLOOR_SQUARED};
use crate::audio::{AudioSource, PcmFrame};
use crate::timeutil::{can_shift, shifted, UtcTime};
use std::collections::VecDeque;
use vstd::prelude::*;

verus! {

pub const SILENCE_MS: usize = 700;

pub const PRE_ROLL_MS: usize = 200;

pub const POST_ROLL_MS: usize = 100;

pub const MAX_TURN_MS: usize = 30_000;

pub const MIN_SPEECH_MS: usize = 100;

/// The number of samples in `ms` milliseconds.
pub open spec fn samples_in(ms: int) -> int {
    TARGET_RATE * ms / 1000
}

/// The whole milliseconds that `n` samples last.
pub open spec fn millis_of(n: int) -> int {
    n * 1000 / (TARGET_RATE as int)
}

fn samples_for(ms: usize) -> (r: usize)
    requires
        ms <= MAX_TURN_MS,
    ensures
        r == samples_in(ms as int),
{
    assert(TARGET_RATE * ms <= 480_000_000) by (nonlinear_arith)
        requires
            TARGET_RATE == 16_000,
            ms <= 30_000,
    ;
    TARGET_RATE as usize * ms / 1000
}

/// A frame: its samples and when it was captured.
pub type Frame = (Seq<i16>, UtcTime);

pub open spec fn frame_of(f: PcmFrame) -> Frame {
    (f.samples@, f.captured_at)
}

pub open spec fn frames_of(s: Seq<PcmFrame>) -> Seq<Frame> {
    s.map_values(|f: PcmFrame| frame_of(f))
}

/// The samples of all frames, in order.
pub open spec fn all_samples(frames: Seq<Frame>) -> Seq<i16>
    decreases frames.len(),
{
    if frames.len() == 0 {
        Seq::empty()
    } else {
        all_samples(frames.drop_last()) + frames.last().0
    }
}

/// The frames that are left when the oldest go until at most `limit` samples stay.
pub open spec fn newest(frames: Seq<Frame>, limit: int) -> Seq<Frame>
    decreases frames.len(),
{
    if frames.len() == 0 || all_samples(frames).len() <= limit {
        frames
    } else {
        newest(frames.drop_first(), limit)
    }
}

/// A finished turn.
#[derive(Debug)]
pub struct CompletedChunk {
    pub source: AudioSource,
    pub sequence: u64,
    pub started_at: UtcTime,
    pub ended_at: UtcTime,
    pub samples: Vec<i16>,
}

/// A finished turn: source, number, start, end and samples.
pub struct Turn {
    pub source: AudioSource,
    pub sequence: u64,
    pub started_at: UtcTime,
    pub ended_at: UtcTime,
    pub samples: Seq<i16>,
}

impl View for CompletedChunk {
    type V = Turn;

    open spec fn view(&self) -> Turn {
        Turn {
            source: self.source,
            sequence: self.sequence,
            started_at: self.started_at,
            ended_at: self.ended_at,
            samples: self.samples@,
        }
    }
}

impl CompletedChunk {
    /// The length of the turn in milliseconds.
    pub fn duration_ms(&self) -> (r: i64)
        requires
            self.samples@.len() * 1000 <= i64::MAX,
        ensures
            r == millis_of(self.samples@.len() as int),
    {
        (self.samples.len() as i64 * 1000) / (TARGET_RATE as i64)
    }
}

/// What a chunker holds between frames.
pub struct ChunkerState {
    pub source: AudioSource,
    /// The number of the next turn.
    pub next: int,
    /// Frames from just before a turn; empty while one runs.
    pub pre_roll: Seq<Frame>,
    /// The samples of the running turn.
    pub active: Seq<i16>,
    /// When the running turn began.
    pub started_at: Option<UtcTime>,
    /// Samples since the last loud frame.
    pub silence: int,
    /// Samples of loud frames.
    pub speech: int,
}

impl ChunkerState {
    /// A chunker that holds no audio.
    pub open spec fn empty(source: AudioSource, next: int) -> ChunkerState {
        ChunkerState {
            source,
            next,
            pre_roll: Seq::empty(),
            active: Seq::empty(),
            started_at: None,
            silence: 0,
            speech: 0,
        }
    }

    /// The state inside the turn that a frame belongs to, once its samples are added.
    pub open spec fn with_frame(self, f: Frame) -> ChunkerState {
        let loud = is_loud(f.0);
        ChunkerState {
            source: self.source,
            next: self.next,
            pre_roll: Seq::empty(),
            active: self.active + all_samples(self.pre_roll) + f.0,
            started_at: if self.started_at is Some {
                self.started_at
            } else if self.pre_roll.len() > 0 {
                Some(self.pre_roll[0].1)
            } else {
                Some(f.1)
            },
            silence: if loud {
                0
            } else {
                self.silence + f.0.len()
            },
            speech: if loud {
                self.speech + f.0.len()
            } else {
                self.speech
            },
        }
    }

    /// The turn that ends now, without its last `trim` samples; `None` where it holds
    /// too little speech.
    pub open spec fn turn(self, trim: int) -> Option<Turn> {
        let samples = if 0 < trim < self.active.len() {
            self.active.take(self.active.len() - trim)
        } else {
            self.active
        };
        match self.started_at {
            Some(start) if self.speech >= samples_in(MIN_SPEECH_MS as int) && samples.len() > 0 => {
                let end = shifted(start, millis_of(samples.len() as int) as nat);
                Some(
                    Turn {
                        source: self.source,
                        sequence: self.next as u64,
                        started_at: start,
                        ended_at: UtcTime { secs: end.0 as i64, nanos: end.1 as u32 },
                        samples,
                    },
                )
            },
            _ => None,
        }
    }

    /// The state after a turn was ended: no audio is left.
    pub open spec fn after_turn(self, trim: int) -> ChunkerState {
        ChunkerState::empty(
            self.source,
            if self.turn(trim) is Some {
                self.next + 1
            } else {
                self.next
            },
        )
    }

    /// The state after what is held was dropped: no audio is left, and no number is used.
    pub open spec fn dropped(self) -> ChunkerState {
        ChunkerState::empty(self.source, self.next)
    }

    /// The state after a frame and the turn that it completed.
    pub open spec fn pushed(self, f: Frame) -> (ChunkerState, Option<Turn>) {
        if f.0.len() == 0 {
            (self, None)
        } else if self.started_at is None && !is_loud(f.0) {
            (
                ChunkerState {
                    pre_roll: newest(
                        self.pre_roll.push(f),
                        samples_in(PRE_ROLL_MS as int),
                    ),
                    ..self
                },
                None,
            )
        } else {
            let now = self.with_frame(f);
            if now.silence >= samples_in(SILENCE_MS as int) {
                let trim = now.silence - samples_in(POST_ROLL_MS as int);
                (now.after_turn(trim), now.turn(trim))
            } else if now.active.len() >= samples_in(MAX_TURN_MS as int) {
                (now.after_turn(0), now.turn(0))
            } else {
                (now, None)
            }
        }
    }

    /// Whether the counters can hold the samples of the frame and, where it joins a
    /// turn, a calendar time the end of that turn.
    pub open spec fn has_room(self, f: Frame) -> bool {
        let now = self.with_frame(f);
        &&& f.1.wf()
        &&& self.next < u64::MAX
        &&& now.active.len() <= usize::MAX
        &&& (self.started_at is Some || is_loud(f.0)) ==> {
            &&& now.active.len() * 1000 <= i64::MAX
            &&& can_shift(now.started_at->0, millis_of(now.active.len() as int) as nat)
        }
    }
}

/// Splits the frames of one source into turns.
pub struct Chunker {
    source: AudioSource,
    next_sequence: u64,
    pre_roll: VecDeque<PcmFrame>,
    pre_roll_samples: usize,
    active: Vec<i16>,
    started_at: Option<UtcTime>,
    silence_samples: usize,
    speech_samples: usize,
}

impl View for Chunker {
    type V = ChunkerState;

    closed spec fn view(&self) -> ChunkerState {
        ChunkerState {
            source: self.source,
            next: self.next_sequence as int,
            pre_roll: frames_of(self.pre_roll@),
            active: self.active@,
            started_at: self.started_at,
            silence: self.silence_samples as int,
            speech: self.speech_samples as int,
        }
    }
}

proof fn lemma_all_samples_push(frames: Seq<Frame>, f: Frame)
    ensures
        all_samples(frames.push(f)) == all_samples(frames) + f.0,
{
    assert(frames.push(f).drop_last() =~= frames);
}

proof fn lemma_all_samples_front(frames: Seq<Frame>)
    requires
        frames.len() > 0,
    ensures
        all_samples(frames) == frames[0].0 + all_samples(frames.drop_first()),
    decreases frames.len(),
{
    if frames.len() == 1 {
        assert(all_samples(frames.drop_last()) =~= Seq::empty());
        assert(frames.drop_first() =~= Seq::empty());
        assert(all_samples(frames) =~= frames[0].0 + all_samples(frames.drop_first()));
    } else {
        lemma_all_samples_front(frames.drop_last());
        assert(frames.drop_last().drop_first() =~= frames.drop_first().drop_last());
        assert(all_samples(frames) =~= frames[0].0 + all_samples(frames.drop_first()));
    }
}

proof fn lemma_newest_fits(frames: Seq<Frame>, limit: int)
    requires
        limit >= 0,
    ensures
        all_samples(newest(frames, limit)).len() <= limit,
        newest(frames, limit).len() <= frames.len(),
        forall|i: int|
            0 <= i < newest(frames, limit).len() ==> newest(frames, limit)[i] == frames[frames.len()
                - newest(frames, limit).len() + i],
    decreases frames.len(),
{
    if frames.len() > 0 && all_samples(frames).len() > limit {
        lemma_newest_fits(frames.drop_first(), limit);
    }
}

impl Chunker {
    /// What holds between any two calls: a turn that runs is shorter than the longest
    /// turn and has not been silent long enough to end, and frames are kept only
    /// before a turn.
    pub closed spec fn wf(&self) -> bool {
        &&& self.pre_roll_samples == all_samples(frames_of(self.pre_roll@)).len()
        &&& self.pre_roll_samples <= samples_in(PRE_ROLL_MS as int)
        &&& forall|i: int| 0 <= i < self.pre_roll@.len() ==> (#[trigger] self.pre_roll@[i]).captured_at.wf()
        &&& self.next_sequence >= 1
        &&& self.active@.len() < samples_in(MAX_TURN_MS as int)
        &&& self.silence_samples < samples_in(SILENCE_MS as int)
        &&& self.silence_samples + self.speech_samples <= self.active@.len()
        &&& match self.started_at {
            Some(start) => {
                &&& start.wf()
                &&& self.pre_roll@.len() == 0
                &&& can_shift(start, millis_of(self.active@.len() as int) as nat)
            },
            None => self.active@.len() == 0,
        }
    }

    pub fn new(source: AudioSource) -> (r: Self)
        ensures
            r.wf(),
            r@ == ChunkerState::empty(source, 1),
    {
        Self::starting_at(source, 1)
    }

    /// A chunker whose first turn has this number, or 1 for 0.
    pub fn starting_at(source: AudioSource, next_sequence: u64) -> (r: Self)
        ensures
            r.wf(),
            r@ == ChunkerState::empty(
                source,
                if next_sequence == 0 {
                    1
                } else {
                    next_sequence as int
                },
            ),
    {
        let r = Chunker {
            source,
            next_sequence: if next_sequence == 0 {
                1
            } else {
                next_sequence
            },
            pre_roll: VecDeque::new(),
            pre_roll_samples: 0,
            active: Vec::new(),
            started_at: None,
            silence_samples: 0,
            speech_samples: 0,
        };
        assert(frames_of(r.pre_roll@) =~= Seq::empty());
        r
    }

    /// Whether there is a number left after that of the next turn.
    pub fn can_number(&self) -> (r: bool)
        ensures
            r == (self@.next < u64::MAX),
    {
        self.next_sequence < u64::MAX
    }

    /// Whether there is room for a frame.
    pub fn fits(&self, frame: &PcmFrame) -> (r: bool)
        requires
            self.wf(),
            frame.captured_at.wf(),
        ensures
            r == self@.has_room(frame_of(*frame)),
    {
        let ghost now = self@.with_frame(frame_of(*frame));
        let total: u128 = self.active.len() as u128 + self.pre_roll_samples as u128
            + frame.samples.len() as u128;
        assert(total == now.active.len());
        if self.next_sequence == u64::MAX || total > usize::MAX as u128 {
            return false;
        }
        if self.started_at.is_none() && !loud(&frame.samples) {
            return true;
        }
        if total * 1000 > i64::MAX as u128 {
            return false;
        }
        let start = match self.started_at {
            Some(start) => start,
            None => {
                if self.pre_roll.len() > 0 {
                    self.pre_roll[0].captured_at
                } else {
                    frame.captured_at
                }
            },
        };
        let length: u64 = (total * 1000 / TARGET_RATE as u128) as u64;
        start.can_move(length)
    }

    /// Takes in a frame and returns the turn that it completed, if any.
    pub fn push(&mut self, frame: &PcmFrame) -> (r: Vec<CompletedChunk>)
        requires
            old(self).wf(),
            old(self)@.has_room(frame_of(*frame)),
        ensures
            final(self).wf(),
            final(self)@ == old(self)@.pushed(frame_of(*frame)).0,
            match old(self)@.pushed(frame_of(*frame)).1 {
                Some(turn) => r@.len() == 1 && r@[0]@ == turn,
                None => r@.len() == 0,
            },
    {
        let mut done: Vec<CompletedChunk> = Vec::new();
        if frame.samples.len() == 0 {
            return done;
        }
        let ghost f = frame_of(*frame);
        let ghost was = self@;
        let speech = loud(&frame.samples);
        if self.started_at.is_none() {
            if !speech {
                self.push_pre_roll(
                    PcmFrame {
                        source: frame.source,
                        samples: copied(&frame.samples),
                        captured_at: frame.captured_at,
                    },
                );
                return done;
            }
            let start = if self.pre_roll.len() > 0 {
                self.pre_roll[0].captured_at
            } else {
                frame.captured_at
            };
            self.started_at = Some(start);
            self.take_pre_roll();
        }
        proof {
            assert(was.active + all_samples(was.pre_roll) == self.active@) by {
                if was.started_at is Some {
                    assert(was.pre_roll =~= Seq::empty());
                    assert(was.active + Seq::empty() =~= was.active);
                }
            }
            assert(frames_of(self.pre_roll@) =~= Seq::empty());
        }
        append_samples(&mut self.active, &frame.samples);
        if speech {
            self.speech_samples = self.speech_samples + frame.samples.len();
            self.silence_samples = 0;
        } else {
            self.silence_samples = self.silence_samples + frame.samples.len();
        }
        assert(self@ == was.with_frame(f));
        if self.silence_samples >= samples_for(SILENCE_MS) {
            let trim: usize = self.silence_samples - samples_for(POST_ROLL_MS);
            if let Some(chunk) = self.finish(trim) {
                done.push(chunk);
            }
            return done;
        }
        if self.active.len() >= samples_for(MAX_TURN_MS) {
            if let Some(chunk) = self.finish(0) {
                done.push(chunk);
            }
        }
        done
    }

    /// Ends the running turn and leaves no audio behind.
    pub fn flush(&mut self) -> (r: Option<CompletedChunk>)
        requires
            old(self).wf(),
            old(self)@.next < u64::MAX,
        ensures
            final(self).wf(),
            final(self)@ == old(self)@.after_turn(0),
            match old(self)@.turn(0) {
                Some(turn) => r matches Some(chunk) && chunk@ == turn,
                None => r is None,
            },
    {
        self.finish(0)
    }

    /// Drops what is held, the running turn included.
    pub fn discard(&mut self)
        requires
            old(self).wf(),
        ensures
            final(self).wf(),
            final(self)@ == old(self)@.dropped(),
    {
        *self = Chunker::starting_at(self.source, self.next_sequence);
    }

    fn push_pre_roll(&mut self, frame: PcmFrame)
        requires
            old(self).wf(),
            old(self).started_at is None,
            frame.captured_at.wf(),
            old(self).pre_roll_samples + frame.samples@.len() <= usize::MAX,
        ensures
            final(self).wf(),
            final(self)@ == (ChunkerState {
                pre_roll: newest(
                    old(self)@.pre_roll.push(frame_of(frame)),
                    samples_in(PRE_ROLL_MS as int),
                ),
                ..old(self)@
            }),
    {
        let ghost was = *self;
        let ghost target = newest(
            frames_of(was.pre_roll@).push(frame_of(frame)),
            samples_in(PRE_ROLL_MS as int),
        );
        proof {
            lemma_all_samples_push(frames_of(was.pre_roll@), frame_of(frame));
            assert(frames_of(was.pre_roll@.push(frame)) =~= frames_of(was.pre_roll@).push(
                frame_of(frame),
            ));
        }
        self.pre_roll_samples = self.pre_roll_samples + frame.samples.len();
        self.pre_roll.push_back(frame);
        while self.pre_roll_samples > samples_for(PRE_ROLL_MS)
            invariant
                self.source == was.source,
                self.next_sequence == was.next_sequence,
                self.active == was.active,
                self.started_at == was.started_at,
                self.silence_samples == was.silence_samples,
                self.speech_samples == was.speech_samples,
                self.pre_roll_samples == all_samples(frames_of(self.pre_roll@)).len(),
                newest(frames_of(self.pre_roll@), samples_in(PRE_ROLL_MS as int)) == target,
                forall|i: int|
                    0 <= i < self.pre_roll@.len() ==> (#[trigger] self.pre_roll@[i]).captured_at.wf(),
            decreases self.pre_roll@.len(),
        {
            let ghost before = frames_of(self.pre_roll@);
            if let Some(dropped) = self.pre_roll.pop_front() {
                proof {
                    lemma_all_samples_front(before);
                    assert(frames_of(self.pre_roll@) =~= before.drop_first());
                    assert(before[0] == frame_of(dropped));
                }
                self.pre_roll_samples = self.pre_roll_samples - dropped.samples.len();
            } else {
                assert(before =~= Seq::empty());
            }
        }
        assert(self@.pre_roll == target);
    }

    /// Moves the samples of the kept frames into the turn.
    fn take_pre_roll(&mut self)
        requires
            old(self).pre_roll_samples == all_samples(frames_of(old(self).pre_roll@)).len(),
        ensures
            *final(self) == (Chunker {
                active: final(self).active,
                pre_roll: final(self).pre_roll,
                pre_roll_samples: 0,
                ..*old(self)
            }),
            final(self).active@ == old(self).active@ + all_samples(frames_of(old(self).pre_roll@)),
            final(self).pre_roll@.len() == 0,
    {
        let ghost was = *self;
        assert(frames_of(was.pre_roll@).skip(0) =~= frames_of(was.pre_roll@));
        while self.pre_roll.len() > 0
            invariant
                *self == (Chunker { active: self.active, pre_roll: self.pre_roll, ..was }),
                self.active@ + all_samples(frames_of(self.pre_roll@)) == was.active@ + all_samples(
                    frames_of(was.pre_roll@),
                ),
            decreases self.pre_roll@.len(),
        {
            let ghost before = frames_of(self.pre_roll@);
            let ghost active = self.active@;
            if let Some(prior) = self.pre_roll.pop_front() {
                append_samples(&mut self.active, &prior.samples);
                proof {
                    lemma_all_samples_front(before);
                    assert(frames_of(self.pre_roll@) =~= before.drop_first());
                    assert(before[0] == frame_of(prior));
                    assert(active + (prior.samples@ + all_samples(before.drop_first())) =~= active
                        + prior.samples@ + all_samples(before.drop_first()));
                }
            }
        }
        assert(all_samples(frames_of(self.pre_roll@)) =~= Seq::empty());
        assert(self.active@ + Seq::empty() =~= self.active@);
        self.pre_roll_samples = 0;
    }

    fn finish(&mut self, trim: usize) -> (r: Option<CompletedChunk>)
        requires
            old(self).pre_roll_samples <= samples_in(PRE_ROLL_MS as int),
            1 <= old(self).next_sequence < u64::MAX,
            old(self).active@.len() * 1000 <= i64::MAX,
            match old(self).started_at {
                Some(start) => start.wf() && can_shift(
                    start,
                    millis_of(old(self).active@.len() as int) as nat,
                ),
                None => old(self).active@.len() == 0,
            },
        ensures
            final(self).wf(),
            final(self)@ == old(self)@.after_turn(trim as int),
            match old(self)@.turn(trim as int) {
                Some(turn) => r matches Some(chunk) && chunk@ == turn,
                None => r is None,
            },
    {
        let ghost was = self@;
        if trim > 0 && trim < self.active.len() {
            let kept: usize = self.active.len() - trim;
            self.active.truncate(kept);
            assert(self.active@ =~= was.active.take(was.active.len() - trim));
        }
        let started_at = self.started_at.take();
        let mut samples: Vec<i16> = Vec::new();
        samples.append(&mut self.active);
        assert(samples@ =~= Seq::<i16>::empty() + samples@);
        let enough_speech = self.speech_samples >= samples_for(MIN_SPEECH_MS);
        self.silence_samples = 0;
        self.speech_samples = 0;
        self.pre_roll.clear();
        self.pre_roll_samples = 0;
        assert(frames_of(self.pre_roll@) =~= Seq::empty());
        if !enough_speech || samples.len() == 0 {
            return None;
        }
        match started_at {
            None => None,
            Some(start) => {
                let length: u64 = (samples.len() as u64 * 1000) / (TARGET_RATE as u64);
                let ended_at = start.plus_millis(length);
                let sequence = self.next_sequence;
                self.next_sequence = self.next_sequence + 1;
                Some(CompletedChunk { source: self.source, sequence, started_at: start, ended_at, samples })
            },
        }
    }
}

/// Whether the root mean square of the samples reaches the noise floor.
fn loud(samples: &Vec<i16>) -> (r: bool)
    ensures
        r == is_loud(samples@),
{
    if samples.len() == 0 {
        return false;
    }
    assert(samples@.subrange(0, samples@.len() as int) =~= samples@);
    energy_of(samples.as_slice(), 0, samples.len()) >= FLOOR_SQUARED as u128 * samples.len() as u128
}

fn append_samples(to: &mut Vec<i16>, from: &Vec<i16>)
    ensures
        final(to)@ == old(to)@ + from@,
{
    to.extend_from_slice(from.as_slice());
    assert(to@ =~= old(to)@ + from@);
}

fn copied(from: &Vec<i16>) -> (r: Vec<i16>)
    ensures
        r@ == from@,
{
    let mut r: Vec<i16> = Vec::new();
    append_samples(&mut r, from);
    assert(r@ =~= from@);
    r
}

/// A turn that was completed holds speech: at least the shortest amount of it.
pub proof fn law_a_turn_holds_speech(state: ChunkerState, trim: int)
    ensures
        state.turn(trim) matches Some(turn) ==> {
            &&& state.speech >= samples_in(MIN_SPEECH_MS as int)
            &&& turn.samples.len() > 0
        },
{
}

/// Frames below the noise floor never begin a turn: nothing comes out, however many
/// there are, and flushing gives nothing.
pub proof fn law_silence_never_creates_a_turn(state: ChunkerState, frame: Frame)
    requires
        state.started_at is None,
        !is_loud(frame.0),
    ensures
        state.pushed(frame).1 is None,
        state.pushed(frame).0.started_at is None,
        state.pushed(frame).0.turn(0) is None,
{
}

/// The state after a list of frames.
pub open spec fn after_frames(state: ChunkerState, frames: Seq<Frame>) -> ChunkerState
    decreases frames.len(),
{
    if frames.len() == 0 {
        state
    } else {
        after_frames(state, frames.drop_last()).pushed(frames.last()).0
    }
}

/// The turns that a list of frames completes, in order.
pub open spec fn turns_of(state: ChunkerState, frames: Seq<Frame>) -> Seq<Turn>
    decreases frames.len(),
{
    if frames.len() == 0 {
        Seq::empty()
    } else {
        let before = turns_of(state, frames.drop_last());
        match after_frames(state, frames.drop_last()).pushed(frames.last()).1 {
            Some(turn) => before.push(turn),
            None => before,
        }
    }
}

/// Turns are numbered one after the other, from the number that was next.
pub proof fn law_turns_are_numbered_in_order(state: ChunkerState, frames: Seq<Frame>)
    requires
        0 <= state.next,
        state.next + frames.len() <= u64::MAX,
    ensures
        after_frames(state, frames).next == state.next + turns_of(state, frames).len(),
        turns_of(state, frames).len() <= frames.len(),
        forall|i: int|
            0 <= i < turns_of(state, frames).len() ==> (#[trigger] turns_of(state, frames)[i]).sequence
                == state.next + i,
        forall|i: int|
            0 <= i < turns_of(state, frames).len() ==> (#[trigger] turns_of(state, frames)[i]).source
                == state.source,
        after_frames(state, frames).source == state.source,
    decreases frames.len(),
{
    if frames.len() > 0 {
        law_turns_are_numbered_in_order(state, frames.drop_last());
    }
}

/// Once a chunker was flushed, what was captured before is gone: it goes on as a
/// chunker that has taken in nothing.
pub proof fn law_flush_leaves_no_audio_behind(state: ChunkerState, later: Seq<Frame>)
    ensures
        state.after_turn(0) == ChunkerState::empty(state.source, state.after_turn(0).next),
        turns_of(state.after_turn(0), later) == turns_of(
            ChunkerState::empty(state.source, state.after_turn(0).next),
            later,
        ),
{
}

/// A turn ends at the latest with the frame that makes it reach the longest length,
/// and with the frame that makes the silence long enough; the silence that stays at
/// its end is the post-roll.
pub proof fn law_turns_end_in_time(state: ChunkerState, frame: Frame)
    requires
        state.active.len() < samples_in(MAX_TURN_MS as int),
        0 <= state.silence < samples_in(SILENCE_MS as int),
        state.started_at is None ==> state.active.len() == 0 && state.silence == 0,
    ensures
        state.pushed(frame).0.active.len() < samples_in(MAX_TURN_MS as int),
        state.pushed(frame).0.silence < samples_in(SILENCE_MS as int),
        (frame.0.len() > 0 && state.with_frame(frame).silence >= samples_in(SILENCE_MS as int)
            && state.with_frame(frame).silence < state.with_frame(frame).active.len()) ==> (
        state.pushed(frame).1 matches Some(turn) ==> turn.samples.len() == state.with_frame(
            frame,
        ).active.len() - state.with_frame(frame).silence + samples_in(POST_ROLL_MS as int)),
{
}

/// A frame ends the turn that it belongs to where 700 ms of silence or 30 s in all are
/// reached, and only then; what ends is stored where 100 ms of it were speech, under the
/// next number, and lasts from its start as long as its samples do.
pub proof fn law_a_turn_ends_when_it_is_due(state: ChunkerState, frame: Frame)
    requires
        frame.0.len() > 0,
        state.started_at is Some || is_loud(frame.0),
        0 <= state.silence,
        0 <= state.speech,
        state.silence + state.speech <= state.active.len(),
        state.next <= u64::MAX,
        0 <= state.next,
        state.has_room(frame),
        state.started_at matches Some(start) ==> start.wf(),
        state.started_at is None && state.pre_roll.len() > 0 ==> state.pre_roll[0].1.wf(),
    ensures
        ({
            let now = state.with_frame(frame);
            let ends = now.silence >= 11_200 || now.active.len() >= 480_000;
            let (after, turn) = state.pushed(frame);
            &&& now.silence == if is_loud(frame.0) {
                0
            } else {
                state.silence + frame.0.len()
            }
            &&& (after.started_at is None) == ends
            &&& (turn is Some) == (ends && now.speech >= 1_600)
            &&& turn matches Some(t) ==> {
                &&& t.sequence == state.next
                &&& now.started_at == Some(t.started_at)
                &&& (t.ended_at.secs as int, t.ended_at.nanos as int) == shifted(
                    t.started_at,
                    (t.samples.len() * 1000 / 16_000) as nat,
                )
            }
        }),
{
    let now = state.with_frame(frame);
    assert(now.active.len() >= state.active.len() + frame.0.len());
    assert(now.silence + now.speech <= now.active.len());
    let trim = if now.silence >= 11_200 {
        now.silence - samples_in(POST_ROLL_MS as int)
    } else {
        0
    };
    if let Some(t) = now.turn(trim) {
        let start = now.started_at->0;
        lemma_shorter_turns_end_in_time(start, millis_of(t.samples.len() as int) as nat,
            millis_of(now.active.len() as int) as nat);
    }
}

/// A time that can be moved can be moved by less.
proof fn lemma_shorter_turns_end_in_time(start: UtcTime, less: nat, more: nat)
    requires
        start.wf(),
        less <= more,
        can_shift(start, more),
    ensures
        can_shift(start, less),
        0 <= shifted(start, less).1 < 2_000_000_000,
        start.secs <= shifted(start, less).0,
{
}

/// What is kept before a turn never lasts longer than the pre-roll, and a turn takes
/// it along: it begins with the oldest frame that was kept.
pub proof fn law_a_turn_takes_the_pre_roll_along(state: ChunkerState, frame: Frame)
    requires
        state.started_at is None,
        state.active.len() == 0,
    ensures
        all_samples(
            newest(state.pre_roll.push(frame), samples_in(PRE_ROLL_MS as int)),
        ).len() <= samples_in(PRE_ROLL_MS as int),
        state.with_frame(frame).active == all_samples(state.pre_roll) + frame.0,
        state.with_frame(frame).started_at == Some(
            if state.pre_roll.len() > 0 {
                state.pre_roll[0].1
            } else {
                frame.1
            },
        ),
{
    lemma_newest_fits(state.pre_roll.push(frame), samples_in(PRE_ROLL_MS as int));
    assert(state.active + all_samples(state.pre_roll) =~= all_samples(state.pre_roll));
}

/// The samples of the frames from number `from` to before number `to`, one after the other.
#[verifier::opaque]
pub open spec fn heard(frames: Seq<PcmFrame>, from: int, to: int) -> Seq<i16> {
    frames.subrange(from, to).map_values(|f: PcmFrame| f.samples@).flatten()
}

/// How many samples of loud frames there are from frame `from` to before frame `to`.
#[verifier::opaque]
pub open spec fn loud_samples(frames: Seq<PcmFrame>, from: int, to: int) -> int {
    frames.subrange(from, to).fold_left(
        0int,
        |sum: int, f: PcmFrame|
            if is_loud(f.samples@) {
                sum + f.samples@.len()
            } else {
                sum
            },
    )
}

/// Whether each state comes of the one before it by taking in a frame.
#[verifier::opaque]
pub open spec fn takes_in(states: Seq<ChunkerState>, frames: Seq<PcmFrame>) -> bool {
    &&& states.len() == frames.len() + 1
    &&& forall|k: int|
        0 <= k < frames.len() ==> states[k + 1] == states[k].pushed(
            frame_of(#[trigger] frames[k]),
        ).0
}

proof fn lemma_heard_is_all_samples(frames: Seq<PcmFrame>)
    ensures
        all_samples(frames_of(frames)) == frames.map_values(|f: PcmFrame| f.samples@).flatten(),
    decreases frames.len(),
{
    let parts = frames.map_values(|f: PcmFrame| f.samples@);
    parts.lemma_flatten_and_flatten_alt_are_equivalent();
    if frames.len() > 0 {
        let front = frames.drop_last();
        lemma_heard_is_all_samples(front);
        let before = front.map_values(|f: PcmFrame| f.samples@);
        before.lemma_flatten_and_flatten_alt_are_equivalent();
        assert(parts.drop_last() =~= before);
        assert(frames_of(frames).drop_last() =~= frames_of(front));
    }
}

proof fn lemma_heard_grows(frames: Seq<PcmFrame>, from: int, to: int)
    requires
        0 <= from <= to < frames.len(),
    ensures
        heard(frames, from, to + 1) == heard(frames, from, to) + frames[to].samples@,
        loud_samples(frames, from, to + 1) == loud_samples(frames, from, to) + if is_loud(
            frames[to].samples@,
        ) {
            frames[to].samples@.len() as int
        } else {
            0
        },
{
    reveal(heard);
    reveal(loud_samples);
    let now = frames.subrange(from, to + 1);
    let was = frames.subrange(from, to);
    assert(now.drop_last() =~= was);
    assert(now.last() == frames[to]);
    lemma_heard_is_all_samples(now);
    lemma_heard_is_all_samples(was);
    assert(frames_of(now).drop_last() =~= frames_of(was));
}

proof fn lemma_newest_are_last(frames: Seq<Frame>, limit: int) -> (gone: int)
    requires
        limit >= 0,
    ensures
        0 <= gone <= frames.len(),
        newest(frames, limit) == frames.skip(gone),
        all_samples(frames.skip(gone)).len() <= limit,
        gone > 0 ==> all_samples(frames.skip(gone - 1)).len() > limit,
    decreases frames.len(),
{
    if frames.len() == 0 || all_samples(frames).len() <= limit {
        assert(frames.skip(0) =~= frames);
        0
    } else {
        let gone = lemma_newest_are_last(frames.drop_first(), limit);
        assert(frames.drop_first().skip(gone) =~= frames.skip(gone + 1));
        if gone > 0 {
            assert(frames.drop_first().skip(gone - 1) =~= frames.skip(gone));
        } else {
            assert(frames.skip(0) =~= frames);
        }
        gone + 1
    }
}

proof fn lemma_heard_of(frames: Seq<PcmFrame>, from: int, to: int)
    requires
        0 <= from <= to <= frames.len(),
    ensures
        heard(frames, from, to) == all_samples(frames_of(frames.subrange(from, to))),
        from == to ==> heard(frames, from, to) == Seq::<i16>::empty(),
        from == to ==> loud_samples(frames, from, to) == 0,
{
    reveal(heard);
    reveal(loud_samples);
    lemma_heard_is_all_samples(frames.subrange(from, to));
    if from == to {
        assert(frames.subrange(from, to) =~= Seq::empty());
        assert(frames_of(frames.subrange(from, to)) =~= Seq::empty());
    }
}

proof fn lemma_step(states: Seq<ChunkerState>, frames: Seq<PcmFrame>, k: int)
    requires
        takes_in(states, frames),
        0 <= k < frames.len(),
    ensures
        states.len() == frames.len() + 1,
        states[k + 1] == states[k].pushed(frame_of(frames[k])).0,
{
    reveal(takes_in);
}

proof fn lemma_quiet_step(state: ChunkerState, f: Frame)
    requires
        f.0.len() > 0,
        state.started_at is None,
        !is_loud(f.0),
    ensures
        state.pushed(f).0 == (ChunkerState { pre_roll: newest(state.pre_roll.push(f), 3_200), ..state }),
{
}

proof fn lemma_running_step(state: ChunkerState, f: Frame)
    requires
        f.0.len() > 0,
        state.started_at is Some || is_loud(f.0),
    ensures
        state.pushed(f).0.started_at is Some ==> state.pushed(f).0 == state.with_frame(f),
{
}

/// Whether the frames from number `a` to before number `k` are what is kept before a turn:
/// the last ones, as many as 200 ms can hold.
pub open spec fn is_pre_roll(frames: Seq<PcmFrame>, a: int, k: int) -> bool {
    &&& 0 <= a <= k
    &&& heard(frames, a, k).len() <= 3_200
    &&& a > 0 ==> heard(frames, a - 1, k).len() > 3_200
}

/// Before the first loud frame the newest frames are kept, and nothing else.
proof fn lemma_before_speech(
    source: AudioSource,
    next: int,
    states: Seq<ChunkerState>,
    frames: Seq<PcmFrame>,
    k: int,
) -> (a: int)
    requires
        takes_in(states, frames),
        states[0] == ChunkerState::empty(source, next),
        0 <= k <= frames.len(),
        forall|i: int| 0 <= i < frames.len() ==> (#[trigger] frames[i]).samples@.len() > 0,
        forall|i: int| 0 <= i < k ==> !is_loud((#[trigger] frames[i]).samples@),
    ensures
        is_pre_roll(frames, a, k),
        states[k] == (ChunkerState {
            pre_roll: frames_of(frames.subrange(a, k)),
            ..ChunkerState::empty(source, next)
        }),
    decreases k,
{
    if k == 0 {
        assert(frames_of(frames.subrange(0, 0)) =~= Seq::empty());
        lemma_heard_of(frames, 0, 0);
        0
    } else {
        let before = lemma_before_speech(source, next, states, frames, k - 1);
        let f = frames[k - 1];
        let held = frames_of(frames.subrange(before, k - 1));
        let now = held.push(frame_of(f));
        lemma_step(states, frames, k - 1);
        lemma_quiet_step(states[k - 1], frame_of(f));
        assert(now =~= frames_of(frames.subrange(before, k)));
        let gone = lemma_newest_are_last(now, 3_200);
        let a = before + gone;
        assert(now.skip(gone) =~= frames_of(frames.subrange(a, k)));
        lemma_heard_of(frames, a, k);
        if gone > 0 {
            assert(now.skip(gone - 1) =~= frames_of(frames.subrange(a - 1, k)));
            lemma_heard_of(frames, a - 1, k);
        } else if a > 0 {
            lemma_heard_grows(frames, a - 1, k - 1);
        }
        a
    }
}

/// While a turn runs it holds the pre-roll and every frame since.
proof fn lemma_during_speech(
    source: AudioSource,
    next: int,
    states: Seq<ChunkerState>,
    frames: Seq<PcmFrame>,
    a: int,
    b: int,
    l: int,
    k: int,
)
    requires
        takes_in(states, frames),
        0 <= a <= b <= l < frames.len(),
        b < k <= frames.len(),
        states[b] == (ChunkerState {
            pre_roll: frames_of(frames.subrange(a, b)),
            ..ChunkerState::empty(source, next)
        }),
        forall|i: int| 0 <= i < frames.len() ==> (#[trigger] frames[i]).samples@.len() > 0,
        is_loud(frames[b].samples@),
        is_loud(frames[l].samples@),
        forall|i: int| l < i < frames.len() ==> !is_loud((#[trigger] frames[i]).samples@),
        forall|i: int| b < i < k ==> (#[trigger] states[i]).started_at is Some,
    ensures
        ({
            let was = states[k - 1];
            let now = was.with_frame(frame_of(frames[k - 1]));
            &&& was.started_at is Some || k - 1 == b
            &&& now.source == source
            &&& now.next == next
            &&& now.pre_roll == Seq::<Frame>::empty()
            &&& now.active == heard(frames, a, k)
            &&& now.started_at == Some(frames[a].captured_at)
            &&& now.speech == loud_samples(frames, b, k)
            &&& k > l ==> now.silence == heard(frames, l + 1, k).len()
        }),
    decreases k,
{
    let f = frames[k - 1];
    let was = states[k - 1];
    let now = was.with_frame(frame_of(f));
    if k - 1 == b {
        lemma_heard_of(frames, a, b);
        lemma_heard_grows(frames, a, b);
        lemma_heard_grows(frames, b, b);
        assert(was.active + all_samples(was.pre_roll) =~= heard(frames, a, b));
        if a < b {
            assert(was.pre_roll[0] == frame_of(frames[a]));
        }
    } else {
        lemma_during_speech(source, next, states, frames, a, b, l, k - 1);
        let before = states[k - 2];
        let g = frames[k - 2];
        lemma_step(states, frames, k - 2);
        lemma_running_step(before, frame_of(g));
        assert(states[k - 1].started_at is Some);
        assert(was == before.with_frame(frame_of(g)));
        lemma_heard_grows(frames, a, k - 1);
        lemma_heard_grows(frames, b, k - 1);
        assert(all_samples(was.pre_roll) =~= Seq::empty());
        assert(was.active + all_samples(was.pre_roll) =~= was.active);
        if k - 1 > l {
            lemma_heard_grows(frames, l + 1, k - 1);
        }
    }
    lemma_heard_of(frames, b, b);
    if k - 1 == l {
        lemma_heard_of(frames, l + 1, k);
    }
}

/// What becomes of the frames that a new chunker takes in, where `b` is the first loud one,
/// `l` the last loud one, and the turn has not ended before the last frame. The turn holds
/// the pre-roll and then every sample in the order in which it was captured, without a gap;
/// it starts when the first of its frames was captured. It ends with the last frame where
/// 700 ms of quiet frames follow the last loud one, or 30 s are reached. Of the quiet
/// frames at its end 100 ms stay in the first case and all in the second, so no sample of a
/// loud frame is ever lost. It is given out where 100 ms of it are loud.
pub proof fn law_a_turn_is_what_was_heard(
    source: AudioSource,
    next: int,
    states: Seq<ChunkerState>,
    frames: Seq<PcmFrame>,
    b: int,
    l: int,
)
    requires
        takes_in(states, frames),
        0 <= next <= u64::MAX,
        states[0] == ChunkerState::empty(source, next),
        0 <= b <= l < frames.len(),
        forall|i: int| 0 <= i < frames.len() ==> (#[trigger] frames[i]).samples@.len() > 0,
        forall|i: int| 0 <= i < b ==> !is_loud((#[trigger] frames[i]).samples@),
        is_loud(frames[b].samples@),
        is_loud(frames[l].samples@),
        forall|i: int| l < i < frames.len() ==> !is_loud((#[trigger] frames[i]).samples@),
        forall|i: int| b < i < frames.len() ==> (#[trigger] states[i]).started_at is Some,
    ensures
        exists|a: int| #[trigger]
            is_pre_roll(frames, a, b) && {
                let n = frames.len() as int;
                let all = heard(frames, a, n);
                let quiet = heard(frames, l + 1, n).len();
                let enough = loud_samples(frames, b, n) >= 1_600;
                let turn = states[n - 1].pushed(frame_of(frames[n - 1])).1;
                let flushed = states[n].turn(0);
                let ends = quiet >= 11_200 || all.len() >= 480_000;
                &&& turn is Some <==> ends && enough
                &&& turn matches Some(t) ==> {
                    &&& t.source == source
                    &&& t.sequence == next
                    &&& t.started_at == frames[a].captured_at
                    &&& t.samples == all.take(t.samples.len() as int)
                    &&& t.samples.len() == all.len() - (if quiet >= 11_200 {
                        quiet - 1_600
                    } else {
                        0
                    })
                    &&& heard(frames, a, l + 1).len() <= t.samples.len() <= all.len()
                }
                &&& ends ==> states[n] == ChunkerState::empty(
                    source,
                    if enough {
                        next + 1
                    } else {
                        next
                    },
                )
                &&& !ends ==> (flushed is Some <==> enough)
                &&& !ends ==> (flushed matches Some(t) ==> {
                    &&& t.source == source
                    &&& t.sequence == next
                    &&& t.started_at == frames[a].captured_at
                    &&& t.samples == all
                })
            },
{
    let n = frames.len() as int;
    let a = lemma_before_speech(source, next, states, frames, b);
    lemma_during_speech(source, next, states, frames, a, b, l, n);
    let was = states[n - 1];
    let f = frame_of(frames[n - 1]);
    let now = was.with_frame(f);
    let all = heard(frames, a, n);
    lemma_heard_parts(frames, a, l + 1, n);
    lemma_heard_parts(frames, a, l, l + 1);
    lemma_heard_grows(frames, l, l);
    lemma_step(states, frames, n - 1);
    if was.started_at is None {
        assert(n - 1 == b);
        assert(is_loud(f.0));
    }
    assert(all.take(all.len() as int) =~= all);
}

proof fn lemma_heard_parts(frames: Seq<PcmFrame>, from: int, mid: int, to: int)
    requires
        0 <= from <= mid <= to <= frames.len(),
    ensures
        heard(frames, from, to) == heard(frames, from, mid) + heard(frames, mid, to),
        heard(frames, from, to).len() == heard(frames, from, mid).len() + heard(
            frames,
            mid,
            to,
        ).len(),
    decreases to - mid,
{
    if mid == to {
        lemma_heard_of(frames, mid, to);
        assert(heard(frames, from, to) =~= heard(frames, from, mid) + heard(frames, mid, to));
    } else {
        lemma_heard_parts(frames, from, mid, to - 1);
        lemma_heard_grows(frames, from, to - 1);
        lemma_heard_grows(frames, mid, to - 1);
        assert(heard(frames, from, to) =~= heard(frames, from, mid) + heard(frames, mid, to));
    }
}

/// Once a turn was ended, what is held is what a new chunker holds; a frame without samples
/// changes nothing.
pub proof fn law_a_new_chunker_holds_nothing(source: AudioSource, next: int, at: UtcTime)
    ensures
        ({
            let new = ChunkerState::empty(source, next);
            &&& new.source == source
            &&& new.next == next
            &&& new.pre_roll.len() == 0
            &&& new.active.len() == 0
            &&& new.started_at is None
            &&& new.pushed((Seq::empty(), at)) == (new, None::<Turn>)
            &&& new.turn(0) is None
        }),
{
}

/// A turn that was given out shows what it holds, and lasts 1 ms for every 16 samples.
pub proof fn law_a_chunk_shows_its_turn(chunk: CompletedChunk)
    ensures
        chunk@.source == chunk.source,
        chunk@.sequence == chunk.sequence,
        chunk@.started_at == chunk.started_at,
        chunk@.ended_at == chunk.ended_at,
        chunk@.samples == chunk.samples@,
        millis_of(chunk.samples@.len() as int) == chunk.samples@.len() as int / 16,
{
}

/// A turn ends as long after its start as its samples last. Leap seconds are left out.
pub proof fn law_a_turn_lasts_as_long_as_its_samples(state: ChunkerState, trim: int)
    requires
        state.started_at matches Some(start) && start.wf() && start.nanos < 1_000_000_000
            && can_shift(start, millis_of(state.active.len() as int) as nat),
    ensures
        state.turn(trim) matches Some(t) ==> {
            let start = t.started_at;
            let end = t.ended_at;
            end.secs * 1_000_000_000 + end.nanos == start.secs * 1_000_000_000 + start.nanos + (
            t.samples.len() / 16) * 1_000_000
        },
{
    if let Some(t) = state.turn(trim) {
        let start = state.started_at->0;
        lemma_shorter_turns_end_in_time(
            start,
            millis_of(t.samples.len() as int) as nat,
            millis_of(state.active.len() as int) as nat,
        );
        assert(millis_of(t.samples.len() as int) == t.samples.len() as int / 16);
        crate::timeutil::law_a_shift_adds_the_milliseconds(
            start,
            millis_of(t.samples.len() as int) as nat,
            t.ended_at,
        );
    }
}

} // verus!
