//! What the session keeps between recordings: the most recently completed
//! loop, which one-shot playback plays.
use vstd::prelude::*;
use crate::payload::frames_to_nanos;
use crate::recorder::Notification;

verus! {

/// Seconds of silence that a session holds before its first loop completes.
pub const SNAPSHOT_SECONDS: u32 = 30;

/// The loop that playback uses, at `sample_rate`.
pub struct LoopSnapshot<T> {
    pub sample_rate: u32,
    pub recorded: Vec<T>,
}

impl<T: Copy> LoopSnapshot<T> {
    /// `seconds` of `silence` at `sample_rate`.
    pub fn silent(sample_rate: u32, seconds: u32, silence: T) -> (r: Self)
        requires
            sample_rate as int * seconds as int <= usize::MAX,
        ensures
            r.sample_rate == sample_rate,
            r.recorded@.len() == sample_rate as int * seconds as int,
            forall|i: int| 0 <= i < r.recorded@.len() ==> #[trigger] r.recorded@[i] == silence,
    {
        let length: usize = (sample_rate as usize) * (seconds as usize);
        let mut recorded: Vec<T> = Vec::new();
        let mut i: usize = 0;
        while i < length
            invariant
                i <= length,
                recorded@.len() == i,
                forall|k: int| 0 <= k < i ==> #[trigger] recorded@[k] == silence,
            decreases length - i,
        {
            recorded.push(silence);
            i = i + 1;
        }
        LoopSnapshot { sample_rate, recorded }
    }

    /// Takes in what the recorder announced: a completed loop replaces the
    /// snapshot whole; the start of a recording leaves it as it is.
    pub fn receive(&mut self, notification: Notification<T>)
        ensures
            final(self).sample_rate == old(self).sample_rate,
            notification matches Notification::LoopComplete(v) ==> final(self).recorded@ == v@,
            notification matches Notification::Recording ==> *final(self) == *old(self),
    {
        match notification {
            Notification::LoopComplete(v) => {
                self.recorded = v;
            },
            Notification::Recording => {},
        }
    }

    /// How long the snapshot plays, in nanoseconds (rounded to the nearest).
    pub fn duration_nanos(&self) -> (r: u128)
        requires
            self.sample_rate > 0,
        ensures
            r == frames_to_nanos(self.recorded@.len(), self.sample_rate as nat),
    {
        let frames: u128 = self.recorded.len() as u128;
        assert(2 * frames * 1_000_000_000 <= 2 * 18446744073709551616 * 1_000_000_000) by (nonlinear_arith)
            requires frames <= 18446744073709551616;
        let num: u128 = 2 * frames * 1_000_000_000 + self.sample_rate as u128;
        let den: u128 = 2 * self.sample_rate as u128;
        num / den
    }
}

} // verus!
