//! The loop recorder: a three-state machine that takes toggles and timed
//! payloads, captures the part of each payload that falls inside the
//! recording, and hands out the finished loop.
use vstd::prelude::*;
use crate::capture::{keep_last, written_in_place, CaptureBuffer};
use crate::payload::{frames_to_nanos, Payload, NANOS_PER_SECOND};

verus! {

/// Where the recorder stands.
#[derive(Debug, Clone, Copy, PartialEq, Eq, Structural)]
pub enum RecordingState {
    /// Nothing is captured.
    Inactive,
    /// Payloads at or after the start of the recording are captured.
    Recording,
    /// Recording was stopped; payloads up to the stop are still captured
    /// until one arrives that starts after it.
    MarkedInactive,
}

/// What the recorder tells its owner.
pub enum Notification<T> {
    /// Recording has started.
    Recording,
    /// The loop is complete; it holds the captured samples.
    LoopComplete(Vec<T>),
}

/// The index at which a payload of `length` samples starting at `start` is
/// cut at instant `cut`: the whole samples elapsed from `start` to `cut` at
/// `sample_rate`, held to `0 ..= length - 1` (and 0 for an empty payload).
pub open spec fn split_index(sample_rate: nat, length: nat, start: int, cut: int) -> nat {
    if cut <= start || length == 0 {
        0
    } else {
        let q = sample_rate * (cut - start) / (NANOS_PER_SECOND as int);
        if q >= length - 1 {
            (length - 1) as nat
        } else {
            q as nat
        }
    }
}

/// The index at which `samples`, starting at `start`, is cut at `cut`.
pub fn split_point(sample_rate: u32, length: usize, start: i64, cut: i64) -> (r: usize)
    ensures
        r == split_index(sample_rate as nat, length as nat, start as int, cut as int),
{
    if cut <= start || length == 0 {
        return 0;
    }
    let elapsed: i128 = cut as i128 - start as i128;
    assert(0 <= sample_rate * elapsed <= 4294967296 * 18446744073709551616) by (nonlinear_arith)
        requires 0 < elapsed <= 18446744073709551616, 0 <= sample_rate <= 4294967296;
    let q: i128 = (sample_rate as i128 * elapsed) / (NANOS_PER_SECOND as i128);
    if q >= (length - 1) as i128 {
        length - 1
    } else {
        q as usize
    }
}

/// Splits the payload's first channel at the instant `cut` into the samples
/// before the cut and those from it on.
pub fn split_buffer<'a, T>(sample_rate: u32, payload: &'a Payload<T>, cut: i64) -> (r: (&'a [T], &'a [T]))
    requires
        payload.channels@.len() > 0,
    ensures
        ({
            let i = split_index(sample_rate as nat, payload.first_channel().len(), payload.start as int, cut as int) as int;
            &&& r.0@ == payload.first_channel().subrange(0, i)
            &&& r.1@ == payload.first_channel().subrange(i, payload.first_channel().len() as int)
        }),
{
    let samples: &'a Vec<T> = &payload.channels[0];
    let index = split_point(sample_rate, samples.len(), payload.start, cut);
    samples.as_slice().split_at(index)
}

/// The recorder: its capture buffer, its state, and the instants at which
/// recording last started and stopped (nanoseconds since the Unix epoch).
pub struct LoopRecorder<T> {
    pub sample_rate: u32,
    pub buffer: CaptureBuffer<T>,
    pub state: RecordingState,
    pub started: i64,
    pub stopped: i64,
}

/// Seconds of audio that a recorder made by `with_default_window` holds.
pub const LOOP_SECONDS: u32 = 60;

impl<T: Copy> LoopRecorder<T> {
    pub open spec fn wf(&self) -> bool {
        self.buffer.wf()
    }

    /// An inactive recorder whose buffer holds `seconds` of audio at
    /// `sample_rate`, all silent; `now` stands for both instants.
    pub fn new(sample_rate: u32, seconds: u32, silence: T, now: i64) -> (r: Self)
        requires
            sample_rate as int * seconds as int <= usize::MAX,
        ensures
            r.wf(),
            r.sample_rate == sample_rate,
            r.state == RecordingState::Inactive,
            r.buffer@ == Seq::<T>::empty(),
            r.buffer.capacity() == sample_rate as int * seconds as int,
            r.buffer.silence() == silence,
            forall|i: int| 0 <= i < r.buffer.capacity() ==> #[trigger] r.buffer.slots()[i] == silence,
            r.started == now,
            r.stopped == now,
    {
        let capacity: usize = (sample_rate as usize) * (seconds as usize);
        LoopRecorder {
            sample_rate,
            buffer: CaptureBuffer::new(capacity, silence),
            state: RecordingState::Inactive,
            started: now,
            stopped: now,
        }
    }

    /// A recorder as `new` makes it, with a window of `LOOP_SECONDS`.
    pub fn with_default_window(sample_rate: u32, silence: T, now: i64) -> (r: Self)
        requires
            sample_rate as int * LOOP_SECONDS as int <= usize::MAX,
        ensures
            r.wf(),
            r.sample_rate == sample_rate,
            r.state == RecordingState::Inactive,
            r.buffer@ == Seq::<T>::empty(),
            r.buffer.capacity() == sample_rate as int * LOOP_SECONDS as int,
            r.buffer.silence() == silence,
            forall|i: int| 0 <= i < r.buffer.capacity() ==> #[trigger] r.buffer.slots()[i] == silence,
            r.started == now,
            r.stopped == now,
    {
        Self::new(sample_rate, LOOP_SECONDS, silence, now)
    }

    /// A toggle at instant `now`. From `Inactive` recording starts at `now`
    /// and `Recording` is announced; from `Recording` the recorder is marked
    /// inactive with the stop at `now`, and nothing is announced yet; while
    /// marked inactive a toggle changes nothing.
    pub fn toggle(&mut self, now: i64) -> (r: Option<Notification<T>>)
        ensures
            old(self).state == RecordingState::Inactive ==> {
                &&& *final(self) == (LoopRecorder { state: RecordingState::Recording, started: now, ..*old(self) })
                &&& r matches Some(Notification::Recording)
            },
            old(self).state == RecordingState::Recording ==> {
                &&& *final(self) == (LoopRecorder { state: RecordingState::MarkedInactive, stopped: now, ..*old(self) })
                &&& r is None
            },
            old(self).state == RecordingState::MarkedInactive ==> *final(self) == *old(self) && r is None,
    {
        match self.state {
            RecordingState::Inactive => {
                self.started = now;
                self.state = RecordingState::Recording;
                Some(Notification::Recording)
            },
            RecordingState::Recording => {
                self.stopped = now;
                self.state = RecordingState::MarkedInactive;
                None
            },
            RecordingState::MarkedInactive => None,
        }
    }

    /// Captures the samples of `payload` from the instant `time` on.
    fn copy_to_buffer_from(&mut self, payload: &Payload<T>, time: i64)
        requires
            old(self).wf(),
            payload.channels@.len() > 0,
        ensures
            *final(self) == (LoopRecorder { buffer: final(self).buffer, ..*old(self) }),
            final(self).wf(),
            final(self).buffer@ == keep_last(
                old(self).buffer@ + payload.first_channel().subrange(
                    split_index(old(self).sample_rate as nat, payload.first_channel().len(), payload.start as int, time as int) as int,
                    payload.first_channel().len() as int,
                ),
                old(self).buffer.capacity(),
            ),
            final(self).buffer.capacity() == old(self).buffer.capacity(),
            final(self).buffer.silence() == old(self).buffer.silence(),            ({
                let piece = payload.first_channel().subrange(
                    split_index(old(self).sample_rate as nat, payload.first_channel().len(), payload.start as int, time as int) as int,
                    payload.first_channel().len() as int,
                );
                old(self).buffer@.len() + piece.len() <= old(self).buffer.capacity() ==> final(self).buffer.slots()
                    == written_in_place(old(self).buffer.slots(), old(self).buffer@.len(), piece, old(self).buffer.capacity())
            }),
    {
        let (_, after) = split_buffer(self.sample_rate, payload, time);
        self.buffer.copy_to_buffer(after);
    }

    /// Captures the samples of `payload` before the instant `time`.
    fn copy_to_buffer_up_to(&mut self, payload: &Payload<T>, time: i64)
        requires
            old(self).wf(),
            payload.channels@.len() > 0,
        ensures
            *final(self) == (LoopRecorder { buffer: final(self).buffer, ..*old(self) }),
            final(self).wf(),
            final(self).buffer@ == keep_last(
                old(self).buffer@ + payload.first_channel().subrange(
                    0,
                    split_index(old(self).sample_rate as nat, payload.first_channel().len(), payload.start as int, time as int) as int,
                ),
                old(self).buffer.capacity(),
            ),
            final(self).buffer.capacity() == old(self).buffer.capacity(),
            final(self).buffer.silence() == old(self).buffer.silence(),            ({
                let piece = payload.first_channel().subrange(
                    0,
                    split_index(old(self).sample_rate as nat, payload.first_channel().len(), payload.start as int, time as int) as int,
                );
                old(self).buffer@.len() + piece.len() <= old(self).buffer.capacity() ==> final(self).buffer.slots()
                    == written_in_place(old(self).buffer.slots(), old(self).buffer@.len(), piece, old(self).buffer.capacity())
            }),
    {
        let (before, _) = split_buffer(self.sample_rate, payload, time);
        self.buffer.copy_to_buffer(before);
    }

    /// A decoded payload arrives; its first channel is what is captured.
    /// - Recording: a payload that stops before the start of the recording
    ///   is dropped; otherwise its samples from the start on are captured.
    /// - Marked inactive: a payload that starts after the stop completes the
    ///   loop: the captured samples are handed out, the buffer is emptied and
    ///   silenced, and the recorder becomes inactive. Otherwise the samples
    ///   before the stop are captured.
    /// - Inactive: the payload is ignored.
    pub fn on_payload(&mut self, payload: Payload<T>) -> (r: Option<Notification<T>>)
        requires
            old(self).wf(),
            payload.channels@.len() > 0,
        ensures
            final(self).wf(),
            final(self).sample_rate == old(self).sample_rate,
            final(self).started == old(self).started,
            final(self).stopped == old(self).stopped,
            final(self).buffer.capacity() == old(self).buffer.capacity(),
            final(self).buffer.silence() == old(self).buffer.silence(),
            old(self).state == RecordingState::Inactive ==> *final(self) == *old(self) && r is None,
            old(self).state == RecordingState::Recording && payload.stop < old(self).started ==> *final(self) == *old(self) && r is None,
            old(self).state == RecordingState::Recording && payload.stop >= old(self).started ==> {
                &&& final(self).state == RecordingState::Recording
                &&& ({
                    let piece = payload.first_channel().subrange(
                        split_index(old(self).sample_rate as nat, payload.first_channel().len(), payload.start as int, old(self).started as int) as int,
                        payload.first_channel().len() as int,
                    );
                    old(self).buffer@.len() + piece.len() <= old(self).buffer.capacity() ==> final(self).buffer.slots()
                        == written_in_place(old(self).buffer.slots(), old(self).buffer@.len(), piece, old(self).buffer.capacity())
                })
                &&& final(self).buffer@ == keep_last(
                    old(self).buffer@ + payload.first_channel().subrange(
                        split_index(old(self).sample_rate as nat, payload.first_channel().len(), payload.start as int, old(self).started as int) as int,
                        payload.first_channel().len() as int,
                    ),
                    old(self).buffer.capacity(),
                )
                &&& r is None
            },
            old(self).state == RecordingState::MarkedInactive && payload.start > old(self).stopped ==> {
                &&& final(self).state == RecordingState::Inactive
                &&& final(self).buffer@ == Seq::<T>::empty()
                &&& forall|i: int| 0 <= i < final(self).buffer.capacity()
                    ==> #[trigger] final(self).buffer.slots()[i] == final(self).buffer.silence()
                &&& r matches Some(Notification::LoopComplete(v)) && v@ == old(self).buffer@
            },
            old(self).state == RecordingState::MarkedInactive && payload.start <= old(self).stopped ==> {
                &&& final(self).state == RecordingState::MarkedInactive
                &&& ({
                    let piece = payload.first_channel().subrange(
                        0,
                        split_index(old(self).sample_rate as nat, payload.first_channel().len(), payload.start as int, old(self).stopped as int) as int,
                    );
                    old(self).buffer@.len() + piece.len() <= old(self).buffer.capacity() ==> final(self).buffer.slots()
                        == written_in_place(old(self).buffer.slots(), old(self).buffer@.len(), piece, old(self).buffer.capacity())
                })
                &&& final(self).buffer@ == keep_last(
                    old(self).buffer@ + payload.first_channel().subrange(
                        0,
                        split_index(old(self).sample_rate as nat, payload.first_channel().len(), payload.start as int, old(self).stopped as int) as int,
                    ),
                    old(self).buffer.capacity(),
                )
                &&& r is None
            },
    {
        match self.state {
            RecordingState::Recording => {
                if payload.stop < self.started {
                    return None;
                }
                let time = self.started;
                self.copy_to_buffer_from(&payload, time);
                None
            },
            RecordingState::MarkedInactive => {
                if payload.start > self.stopped {
                    let captured = self.buffer.flush();
                    self.state = RecordingState::Inactive;
                    return Some(Notification::LoopComplete(captured));
                }
                let time = self.stopped;
                self.copy_to_buffer_up_to(&payload, time);
                None
            },
            RecordingState::Inactive => None,
        }
    }
}

/// The cut index stays within the payload; a cut at or before the start
/// cuts at 0; and a cut at or after the stop of a payload whose stop was
/// stamped from its length cuts at the last sample. The last part needs a
/// sample rate of at most two billion: above that, rounding the duration to
/// whole nanoseconds can lose more than one sample.
pub proof fn lemma_split_index_bounds(sample_rate: u32, length: nat, start: int, stop: int, cut: int)
    ensures
        length == 0 ==> split_index(sample_rate as nat, length, start, cut) == 0,
        length > 0 ==> split_index(sample_rate as nat, length, start, cut) <= length - 1,
        cut <= start ==> split_index(sample_rate as nat, length, start, cut) == 0,
        0 < sample_rate <= 2_000_000_000 && length > 0 && stop == start + frames_to_nanos(length, sample_rate as nat)
            && cut >= stop ==> split_index(sample_rate as nat, length, start, cut) == length - 1,
{
    if 0 < sample_rate <= 2_000_000_000 && length > 0 && stop == start + frames_to_nanos(length, sample_rate as nat) && cut >= stop {
        let s = sample_rate as int;
        let n = NANOS_PER_SECOND as int;
        let num = 2 * length * n + s;
        let den = 2 * s;
        let d = num / den;
        let e = cut - start;
        assert(d * den > num - den) by (nonlinear_arith)
            requires d == num / den, den > 0;
        assert(d >= 1) by (nonlinear_arith)
            requires d * (2 * s) > 2 * length * n + s - 2 * s, s <= 2_000_000_000, n == 1_000_000_000, length >= 1, s > 0;
        assert(s * e >= s * d) by (nonlinear_arith)
            requires e >= d, s > 0;
        assert(s * e >= (length - 1) * n) by (nonlinear_arith)
            requires s * e >= s * d, d * (2 * s) > 2 * length * n + s - 2 * s, s <= 2_000_000_000, n == 1_000_000_000;
        assert(s * e / n >= length - 1) by (nonlinear_arith)
            requires s * e >= (length - 1) * n, n > 0, length >= 1;
    }
}

/// For a well-formed payload at the recorder's sample rate (at most two
/// billion), a cut at or after its stop falls on its last sample.
pub proof fn lemma_split_at_stop<T>(sample_rate: u32, payload: Payload<T>, cut: i64)
    requires
        payload.wf(),
        payload.sample_rate == sample_rate,
        sample_rate <= 2_000_000_000,
        payload.frames() > 0,
        cut >= payload.stop,
    ensures
        split_index(sample_rate as nat, payload.frames(), payload.start as int, cut as int) == payload.frames() - 1,
{
    lemma_split_index_bounds(sample_rate, payload.frames(), payload.start as int, payload.stop as int, cut as int);
}

/// A one-second payload of `sample_rate` frames (an even number) that starts
/// half a second before the recording began is cut in the middle, and a
/// window of at least half a second that was empty then holds exactly the
/// second half of its first channel.
pub proof fn lemma_straddling_payload_keeps_second_half<T>(sample_rate: u32, payload: Payload<T>, started: i64, capacity: nat)
    requires
        sample_rate % 2 == 0,
        payload.frames() == sample_rate,
        payload.start == started - NANOS_PER_SECOND / 2,
        2 * capacity >= sample_rate,
    ensures
        split_index(sample_rate as nat, payload.frames(), payload.start as int, started as int) == sample_rate / 2,
        keep_last(
            Seq::<T>::empty() + payload.first_channel().subrange(sample_rate as int / 2, payload.frames() as int),
            capacity,
        ) == payload.first_channel().subrange(sample_rate as int / 2, sample_rate as int),
{
    let s = sample_rate as int;
    if s > 0 {
        assert(s * 500_000_000 / 1_000_000_000 == s / 2) by (nonlinear_arith)
            requires s % 2 == 0, s > 0;
    }
    assert(Seq::<T>::empty() + payload.first_channel().subrange(s / 2, s) =~= payload.first_channel().subrange(s / 2, s));
}

} // verus!
