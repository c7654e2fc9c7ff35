//! The capture buffer: a fixed number of sample slots and a write cursor.
//! What is visible is the prefix up to the cursor; once the slots are full,
//! each write slides the window so that only the newest samples remain.
use vstd::prelude::*;

verus! {

/// The last `n` items of `s`, or all of `s` when it holds no more than `n`.
pub open spec fn keep_last<T>(s: Seq<T>, n: nat) -> Seq<T> {
    if s.len() <= n {
        s
    } else {
        s.subrange(s.len() - n, s.len() as int)
    }
}

/// The slots after `piece` was written in place at `pos`, in a buffer of
/// `cap` slots: the slots before `pos`, the piece, then the untouched rest.
pub open spec fn written_in_place<T>(slots: Seq<T>, pos: nat, piece: Seq<T>, cap: nat) -> Seq<T> {
    slots.subrange(0, pos as int) + piece + slots.subrange((pos + piece.len()) as int, cap as int)
}

/// Everything in `writes`, one after another.
pub open spec fn joined<T>(writes: Seq<Seq<T>>) -> Seq<T>
    decreases writes.len(),
{
    if writes.len() == 0 {
        Seq::empty()
    } else {
        writes[0] + joined(writes.drop_first())
    }
}

/// The window left by writing each of `writes` in turn, as `copy_to_buffer`
/// does, into a window of `cap` slots that holds `start`.
pub open spec fn after_writes<T>(start: Seq<T>, writes: Seq<Seq<T>>, cap: nat) -> Seq<T>
    decreases writes.len(),
{
    if writes.len() == 0 {
        start
    } else {
        after_writes(keep_last(start + writes[0], cap), writes.drop_first(), cap)
    }
}

/// Trimming to the newest `n` before appending more changes nothing once
/// the result is trimmed again.
pub proof fn lemma_keep_last_twice<T>(a: Seq<T>, b: Seq<T>, n: nat)
    ensures
        keep_last(keep_last(a, n) + b, n) == keep_last(a + b, n),
{
    let k = keep_last(a, n);
    if a.len() <= n {
        assert(k + b =~= a + b);
    } else {
        let ab = a + b;
        let kb = k + b;
        assert(kb =~= ab.subrange(a.len() - n, ab.len() as int));
        assert(keep_last(kb, n) =~= keep_last(ab, n));
    }
}

/// However the samples are split into successive writes, the window that
/// they leave never exceeds its capacity and holds exactly the newest
/// samples written, with nothing left over from before the window slid.
pub proof fn lemma_window_holds_latest<T>(start: Seq<T>, writes: Seq<Seq<T>>, cap: nat)
    requires
        start.len() <= cap,
    ensures
        after_writes(start, writes, cap) == keep_last(start + joined(writes), cap),
        after_writes(start, writes, cap).len() <= cap,
    decreases writes.len(),
{
    if writes.len() == 0 {
        assert(start + joined(writes) =~= start);
    } else {
        let next = keep_last(start + writes[0], cap);
        lemma_window_holds_latest(next, writes.drop_first(), cap);
        lemma_keep_last_twice(start + writes[0], joined(writes.drop_first()), cap);
        assert(start + writes[0] + joined(writes.drop_first()) =~= start + joined(writes));
    }
}

/// A bounded sample window. `samples` holds `capacity` slots; the first
/// `position` of them are the captured audio, oldest first.
pub struct CaptureBuffer<T> {
    samples: Vec<T>,
    position: usize,
    silence: T,
}

impl<T> View for CaptureBuffer<T> {
    type V = Seq<T>;

    /// The captured samples, oldest first.
    closed spec fn view(&self) -> Seq<T> {
        self.samples@.subrange(0, self.position as int)
    }
}

impl<T: Copy> CaptureBuffer<T> {
    /// The number of sample slots.
    pub closed spec fn capacity(&self) -> nat {
        self.samples@.len()
    }

    /// Every slot, the captured prefix and what lies beyond it.
    pub closed spec fn slots(&self) -> Seq<T> {
        self.samples@
    }

    /// The value that an empty slot holds.
    pub closed spec fn silence(&self) -> T {
        self.silence
    }

    pub closed spec fn wf(&self) -> bool {
        self.position <= self.samples@.len()
    }

    /// In a well-formed buffer the captured samples are the first slots,
    /// and there are never more of them than slots.
    pub proof fn lemma_window_in_slots(&self)
        requires
            self.wf(),
        ensures
            self@.len() <= self.capacity(),
            self.slots().len() == self.capacity(),
            self@ == self.slots().subrange(0, self@.len() as int),
    {
    }

    /// A buffer of `capacity` slots, all silent, with nothing captured.
    pub fn new(capacity: usize, silence: T) -> (r: Self)
        ensures
            r.wf(),
            r@ == Seq::<T>::empty(),
            r.capacity() == capacity,
            r.silence() == silence,
            forall|i: int| 0 <= i < capacity ==> #[trigger] r.slots()[i] == silence,
    {
        let mut samples: Vec<T> = Vec::new();
        let mut i: usize = 0;
        while i < capacity
            invariant
                i <= capacity,
                samples@.len() == i,
                forall|k: int| 0 <= k < i ==> #[trigger] samples@[k] == silence,
            decreases capacity - i,
        {
            samples.push(silence);
            i = i + 1;
        }
        let r = CaptureBuffer { samples, position: 0, silence };
        assert(r@ =~= Seq::<T>::empty());
        r
    }

    /// The write cursor: how many samples are captured.
    pub fn position(&self) -> (r: usize)
        requires
            self.wf(),
        ensures
            r == self@.len(),
    {
        self.position
    }

    /// The number of sample slots.
    pub fn capacity_of(&self) -> (r: usize)
        ensures
            r == self.capacity(),
    {
        self.samples.len()
    }

    /// Every slot of the buffer.
    pub fn slots_of(&self) -> (r: &[T])
        ensures
            r@ == self.slots(),
    {
        self.samples.as_slice()
    }

    /// A copy of the captured samples, oldest first.
    pub fn captured(&self) -> (r: Vec<T>)
        requires
            self.wf(),
        ensures
            r@ == self@,
    {
        let mut r: Vec<T> = Vec::new();
        let mut i: usize = 0;
        while i < self.position
            invariant
                self.wf(),
                i <= self.position,
                r@ == self.samples@.subrange(0, i as int),
            decreases self.position - i,
        {
            r.push(self.samples[i]);
            i = i + 1;
            assert(r@ =~= self.samples@.subrange(0, i as int));
        }
        r
    }
    /// Appends `src[from..to]` to the captured samples. When they no longer
    /// fit, the oldest captured samples are discarded and the cursor stays
    /// at the capacity: the window then holds the newest `capacity` samples.
    pub fn copy_range(&mut self, src: &[T], from: usize, to: usize)
        requires
            old(self).wf(),
            from <= to <= src@.len(),
        ensures
            final(self).wf(),
            final(self)@ == keep_last(old(self)@ + src@.subrange(from as int, to as int), old(self).capacity()),
            final(self).capacity() == old(self).capacity(),
            final(self).silence() == old(self).silence(),
            old(self)@.len() + (to - from) <= old(self).capacity() ==> final(self).slots() == old(self).slots().subrange(
                0,
                old(self)@.len() as int,
            ) + src@.subrange(from as int, to as int) + old(self).slots().subrange(
                old(self)@.len() + (to - from),
                old(self).capacity() as int,
            ),
    {
        let ghost old_s = self.samples@;
        let ghost incoming = src@.subrange(from as int, to as int);
        let len = to - from;
        let cap = self.samples.len();
        let pos = self.position;
        if len <= cap - pos {
            let mut i: usize = 0;
            while i < len
                invariant
                    self.samples@.len() == cap,
                    pos + len <= cap,
                    i <= len,
                    from + len == to,
                    to <= src@.len(),
                    self.position == pos,
                    self.silence == old(self).silence,
                    forall|k: int| 0 <= k < pos ==> #[trigger] self.samples@[k] == old_s[k],
                    forall|k: int| pos + i <= k < cap ==> #[trigger] self.samples@[k] == old_s[k],
                    forall|k: int| pos <= k < pos + i ==> #[trigger] self.samples@[k] == src@[from + k - pos],
                decreases len - i,
            {
                self.samples[pos + i] = src[from + i];
                i = i + 1;
            }
            self.position = pos + len;
            assert(self@ =~= old_s.subrange(0, pos as int) + incoming);
            assert(self.samples@ =~= old_s.subrange(0, pos as int) + incoming + old_s.subrange(pos + len, cap as int));
        } else if len >= cap {
            let skip = len - cap;
            let mut i: usize = 0;
            while i < cap
                invariant
                    self.samples@.len() == cap,
                    i <= cap,
                    from + skip + cap == to,
                    to <= src@.len(),
                    self.silence == old(self).silence,
                    forall|k: int| 0 <= k < i ==> #[trigger] self.samples@[k] == src@[from + skip + k],
                decreases cap - i,
            {
                self.samples[i] = src[from + skip + i];
                i = i + 1;
            }
            self.position = cap;
            assert(self@ =~= keep_last(old_s.subrange(0, pos as int) + incoming, cap as nat));
        } else {
            let overflow = len - (cap - pos);
            let kept = pos - overflow;
            let mut i: usize = 0;
            while i < kept
                invariant
                    self.samples@.len() == cap,
                    kept + overflow == pos,
                    pos <= cap,
                    i <= kept,
                    forall|k: int| 0 <= k < i ==> #[trigger] self.samples@[k] == old_s[k + overflow],
                    forall|k: int| i <= k < cap ==> #[trigger] self.samples@[k] == old_s[k],
                    self.silence == old(self).silence,
                decreases kept - i,
            {
                let x = self.samples[i + overflow];
                self.samples[i] = x;
                i = i + 1;
            }
            let mut j: usize = 0;
            while j < len
                invariant
                    self.samples@.len() == cap,
                    kept + len == cap,
                    kept + overflow == pos,
                    j <= len,
                    from + len == to,
                    to <= src@.len(),
                    forall|k: int| 0 <= k < kept ==> #[trigger] self.samples@[k] == old_s[k + overflow],
                    forall|k: int| kept <= k < kept + j ==> #[trigger] self.samples@[k] == src@[from + k - kept],
                    self.silence == old(self).silence,
                decreases len - j,
            {
                self.samples[kept + j] = src[from + j];
                j = j + 1;
            }
            self.position = cap;
            assert(self@ =~= keep_last(old_s.subrange(0, pos as int) + incoming, cap as nat));
        }
    }

    /// Appends `samples` to the captured samples, sliding the window as
    /// `copy_range` does.
    pub fn copy_to_buffer(&mut self, samples: &[T])
        requires
            old(self).wf(),
        ensures
            final(self).wf(),
            final(self)@ == keep_last(old(self)@ + samples@, old(self).capacity()),
            final(self).capacity() == old(self).capacity(),
            final(self).silence() == old(self).silence(),
            old(self)@.len() + samples@.len() <= old(self).capacity() ==> final(self).slots() == written_in_place(
                old(self).slots(),
                old(self)@.len(),
                samples@,
                old(self).capacity(),
            ),
    {
        self.copy_range(samples, 0, samples.len());
        assert(samples@.subrange(0, samples@.len() as int) =~= samples@);
    }

    /// Hands out the captured samples, silences every slot and resets the
    /// cursor.
    pub fn flush(&mut self) -> (r: Vec<T>)
        requires
            old(self).wf(),
        ensures
            r@ == old(self)@,
            final(self).wf(),
            final(self)@ == Seq::<T>::empty(),
            final(self).capacity() == old(self).capacity(),
            final(self).silence() == old(self).silence(),
            final(self).slots().len() == final(self).capacity(),
            forall|i: int| 0 <= i < final(self).capacity() ==> #[trigger] final(self).slots()[i] == final(self).silence(),
    {
        let r = self.captured();
        let cap = self.samples.len();
        let mut i: usize = 0;
        while i < cap
            invariant
                self.samples@.len() == cap,
                i <= cap,
                self.silence == old(self).silence,
                forall|k: int| 0 <= k < i ==> #[trigger] self.samples@[k] == self.silence,
            decreases cap - i,
        {
            self.samples[i] = self.silence;
            i = i + 1;
        }
        self.position = 0;
        assert(self@ =~= Seq::<T>::empty());
        r
    }
}

} // verus!
