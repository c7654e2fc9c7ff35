//! Turning encoded chunks into timed payloads: which bytes go to the
//! decoder, given the header cache, and where a decoded payload sits in time.
//! Times are nanoseconds since the Unix epoch.
use vstd::prelude::*;

verus! {

/// Why a chunk yields no payload. Each is local to its chunk.
#[derive(Debug, Clone, Copy, PartialEq, Eq, Structural)]
pub enum DecodeError {
    /// A headerless chunk came before any self-describing one.
    NoHeader,
    /// The container could not be parsed.
    Malformed,
    /// A timestamp does not fit.
    TimeOverflow,
}

/// Decoded audio, one sample vector per channel, at `sample_rate` frames
/// per second, with the instants at which it starts and stops, in
/// nanoseconds since the Unix epoch.
pub struct Payload<T> {
    pub channels: Vec<Vec<T>>,
    pub sample_rate: u32,
    pub start: i64,
    pub stop: i64,
}

/// At least one channel, and every channel as long as the first.
pub open spec fn channels_even<T>(channels: Seq<Vec<T>>) -> bool {
    &&& channels.len() > 0
    &&& forall|c: int| 0 <= c < channels.len() ==> #[trigger] channels[c]@.len() == channels[0]@.len()
}

impl<T> Payload<T> {
    /// The samples of the first channel.
    pub open spec fn first_channel(&self) -> Seq<T> {
        self.channels@[0]@
    }

    /// The number of frames: the length of each channel.
    pub open spec fn frames(&self) -> nat {
        self.channels@[0]@.len()
    }

    /// Even channels, a sample rate, and a stop that is the start plus the
    /// frames' duration.
    pub open spec fn wf(&self) -> bool {
        &&& channels_even(self.channels@)
        &&& self.sample_rate > 0
        &&& self.stop == self.start + frames_to_nanos(self.frames(), self.sample_rate as nat)
    }
}

pub const NANOS_PER_SECOND: u64 = 1_000_000_000;

/// The nanoseconds that `frames` frames last at `sample_rate` frames per
/// second, rounded to the nearest nanosecond (halves up).
pub open spec fn frames_to_nanos(frames: nat, sample_rate: nat) -> int
    recommends
        sample_rate > 0,
{
    (2 * frames * NANOS_PER_SECOND + sample_rate) / (2 * sample_rate) as int
}

/// How a chunk starts: with a container header of its own, or without one.
#[derive(Debug, Clone, Copy, PartialEq, Eq, Structural)]
pub enum ChunkKind {
    /// The chunk opens with a RIFF/WAVE header and can be decoded alone.
    SelfDescribing,
    /// The chunk continues a stream whose header came earlier.
    Headerless,
}

/// Whether `bytes` open with a RIFF/WAVE header: the tag `RIFF`, a 4-byte
/// length, and the form `WAVE`.
pub open spec fn opens_with_wave_header(bytes: Seq<u8>) -> bool {
    &&& bytes.len() >= 12
    &&& bytes[0] == 0x52 && bytes[1] == 0x49 && bytes[2] == 0x46 && bytes[3] == 0x46
    &&& bytes[8] == 0x57 && bytes[9] == 0x41 && bytes[10] == 0x56 && bytes[11] == 0x45
}

/// Tells a self-describing chunk from a headerless one by its first bytes.
pub fn classify(bytes: &Vec<u8>) -> (r: ChunkKind)
    ensures
        (r == ChunkKind::SelfDescribing) == opens_with_wave_header(bytes@),
{
    if bytes.len() >= 12 && bytes[0] == 0x52 && bytes[1] == 0x49 && bytes[2] == 0x46 && bytes[3] == 0x46
        && bytes[8] == 0x57 && bytes[9] == 0x41 && bytes[10] == 0x56 && bytes[11] == 0x45 {
        ChunkKind::SelfDescribing
    } else {
        ChunkKind::Headerless
    }
}

/// The bytes to decode for `chunk`, given the cached header and whether
/// the chunk describes itself.
pub open spec fn decoder_input_of(cached: Option<Seq<u8>>, chunk: Seq<u8>, self_describing: bool) -> Result<Seq<u8>, DecodeError> {
    if self_describing {
        Ok(chunk)
    } else {
        match cached {
            Some(h) => Ok(h + chunk),
            None => Err(DecodeError::NoHeader),
        }
    }
}

/// The header cached after `chunk` was seen: the last self-describing chunk.
pub open spec fn header_after(cached: Option<Seq<u8>>, chunk: Seq<u8>, self_describing: bool) -> Option<Seq<u8>> {
    if self_describing {
        Some(chunk)
    } else {
        cached
    }
}

/// What a `Result` of bytes holds, as a sequence.
pub open spec fn bytes_result(r: Result<Vec<u8>, DecodeError>) -> Result<Seq<u8>, DecodeError> {
    match r {
        Ok(b) => Ok(b@),
        Err(e) => Err(e),
    }
}

/// A self-describing chunk is handed to the decoder as it is, whatever
/// header is cached: decoding it again gives the decoder the same bytes.
pub proof fn lemma_self_describing_ignores_cache(a: Option<Seq<u8>>, b: Option<Seq<u8>>, chunk: Seq<u8>)
    ensures
        decoder_input_of(a, chunk, true) == decoder_input_of(b, chunk, true),
        decoder_input_of(a, chunk, true) == Ok::<Seq<u8>, DecodeError>(chunk),
{
}

fn copy_bytes(src: &Vec<u8>, dst: &mut Vec<u8>)
    ensures
        final(dst)@ == old(dst)@ + src@,
{
    let mut i: usize = 0;
    while i < src.len()
        invariant
            i <= src@.len(),
            dst@ == old(dst)@ + src@.subrange(0, i as int),
        decreases src@.len() - i,
    {
        dst.push(src[i]);
        i = i + 1;
        assert(dst@ =~= old(dst)@ + src@.subrange(0, i as int));
    }
    assert(src@.subrange(0, src@.len() as int) =~= src@);
}

/// Remembers the last self-describing chunk, so that the headerless chunks
/// that follow it can be decoded.
pub struct PayloadFactory {
    header: Option<Vec<u8>>,
}

impl PayloadFactory {
    /// The cached header, if any.
    pub closed spec fn cached(&self) -> Option<Seq<u8>> {
        match self.header {
            Some(h) => Some(h@),
            None => None,
        }
    }

    /// A factory with no header cached.
    pub fn new() -> (r: Self)
        ensures
            r.cached() == None::<Seq<u8>>,
    {
        PayloadFactory { header: None }
    }

    /// The bytes to decode for `chunk`, where `self_describing` says whether
    /// the chunk starts with a container header. A self-describing chunk is
    /// decoded as it is and becomes the cached header; a headerless one is
    /// decoded after the cached header, and fails with `NoHeader` when there
    /// is none.
    pub fn accept_chunk(&mut self, chunk: Vec<u8>, self_describing: bool) -> (r: Result<Vec<u8>, DecodeError>)
        ensures
            bytes_result(r) == decoder_input_of(old(self).cached(), chunk@, self_describing),
            final(self).cached() == header_after(old(self).cached(), chunk@, self_describing),
    {
        if self_describing {
            let mut kept: Vec<u8> = Vec::new();
            copy_bytes(&chunk, &mut kept);
            assert(kept@ =~= chunk@);
            self.header = Some(kept);
            Ok(chunk)
        } else {
            match &self.header {
                Some(h) => {
                    let mut input: Vec<u8> = Vec::new();
                    copy_bytes(h, &mut input);
                    copy_bytes(&chunk, &mut input);
                    assert(input@ =~= h@ + chunk@);
                    Ok(input)
                },
                None => Err(DecodeError::NoHeader),
            }
        }
    }

    /// The bytes to decode for `chunk`, telling by its first bytes whether
    /// it describes itself; see `accept_chunk`.
    pub fn decoder_input(&mut self, chunk: Vec<u8>) -> (r: Result<Vec<u8>, DecodeError>)
        ensures
            bytes_result(r) == decoder_input_of(old(self).cached(), chunk@, opens_with_wave_header(chunk@)),
            final(self).cached() == header_after(old(self).cached(), chunk@, opens_with_wave_header(chunk@)),
    {
        let kind = classify(&chunk);
        self.accept_chunk(chunk, kind == ChunkKind::SelfDescribing)
    }
}

/// The start and stop of a payload of `frames` frames at `sample_rate` that
/// begins `offset` nanoseconds after `session_start`: `TimeOverflow` when
/// either instant does not fit in an `i64`, and `Malformed` when the sample
/// rate is zero.
pub open spec fn stamp_spec(session_start: i64, offset: i64, frames: nat, sample_rate: u32) -> Result<(i64, i64), DecodeError> {
    if sample_rate == 0 {
        Err(DecodeError::Malformed)
    } else {
        let start = session_start + offset;
        let stop = start + frames_to_nanos(frames, sample_rate as nat);
        if i64::MIN <= start <= i64::MAX && i64::MIN <= stop <= i64::MAX {
            Ok((start as i64, stop as i64))
        } else {
            Err(DecodeError::TimeOverflow)
        }
    }
}

/// Where a payload of `frames` frames at `sample_rate`, beginning `offset`
/// nanoseconds after `session_start`, starts and stops.
pub fn stamp(session_start: i64, offset: i64, frames: usize, sample_rate: u32) -> (r: Result<(i64, i64), DecodeError>)
    ensures
        r == stamp_spec(session_start, offset, frames as nat, sample_rate),
{
    if sample_rate == 0 {
        return Err(DecodeError::Malformed);
    }
    let start: i128 = session_start as i128 + offset as i128;
    if start < i64::MIN as i128 || start > i64::MAX as i128 {
        return Err(DecodeError::TimeOverflow);
    }
    let num: i128 = 2 * (frames as i128) * (NANOS_PER_SECOND as i128) + sample_rate as i128;
    let den: i128 = 2 * sample_rate as i128;
    assert(0 <= num) by (nonlinear_arith)
        requires num == 2 * (frames as int) * 1_000_000_000 + sample_rate as int, frames >= 0, sample_rate > 0;
    let duration: i128 = num / den;
    assert(duration <= num) by (nonlinear_arith)
        requires duration == num / den, num >= 0, den >= 1;
    let stop: i128 = start + duration;
    if stop < i64::MIN as i128 || stop > i64::MAX as i128 {
        return Err(DecodeError::TimeOverflow);
    }
    Ok((start as i64, stop as i64))
}

/// The payload for decoded `channels` at `sample_rate` that begin `offset`
/// nanoseconds after `session_start`. Fails with `Malformed` when there is
/// no channel or the channels differ in length, and otherwise as `stamp`
/// does for the frames of the first channel.
pub fn make_payload<T>(session_start: i64, offset: i64, channels: Vec<Vec<T>>, sample_rate: u32) -> (r: Result<Payload<T>, DecodeError>)
    ensures
        !channels_even(channels@) ==> r matches Err(DecodeError::Malformed),
        channels_even(channels@) ==> match (r, stamp_spec(session_start, offset, channels@[0]@.len(), sample_rate)) {
            (Ok(p), Ok((start, stop))) => {
                &&& p.channels@ == channels@
                &&& p.sample_rate == sample_rate
                &&& p.start == start
                &&& p.stop == stop
                &&& p.wf()
            },
            (Err(e), Err(f)) => e == f,
            _ => false,
        },
{
    if channels.len() == 0 {
        return Err(DecodeError::Malformed);
    }
    let frames = channels[0].len();
    let mut c: usize = 1;
    while c < channels.len()
        invariant
            1 <= c <= channels@.len(),
            frames == channels@[0]@.len(),
            forall|k: int| 0 <= k < c ==> #[trigger] channels@[k]@.len() == frames,
        decreases channels@.len() - c,
    {
        if channels[c].len() != frames {
            return Err(DecodeError::Malformed);
        }
        c = c + 1;
    }
    match stamp(session_start, offset, frames, sample_rate) {
        Ok((start, stop)) => Ok(Payload { channels, sample_rate, start, stop }),
        Err(e) => Err(e),
    }
}

} // verus!
