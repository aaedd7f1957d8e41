//! Microphone capture: what is decided around the audio stream.
//!
//! ```text
//!   callback  ──push──►  ring  ──pop──►  worker
//! ```
//!
//! The callback runs under real-time constraints: it mixes to mono and pushes.
//! Everything expensive happens on the worker.

use vstd::prelude::*;
use crate::resample;

verus! {

/// Ring capacity in mono frames — about two seconds at 48 kHz. Large enough
/// that a briefly descheduled worker cannot drop audio, small enough to notice
/// if one wedges entirely.
pub const RING_FRAMES: usize = 96_000;

/// How much audio the worker folds into one level-meter update.
pub const LEVEL_WINDOW: usize = 1600;

/// How samples are encoded by a device.
#[derive(Debug, Clone, Copy, PartialEq, Eq, Structural)]
pub enum SampleFormat {
    F32,
    F64,
    I8,
    I16,
    I24,
    I32,
    I64,
    U8,
    U16,
    U24,
    U32,
    U64,
    Other,
}

/// Why a stream cannot be opened.
#[derive(Debug, Clone, PartialEq, Eq)]
pub enum StreamError {
    /// There is nothing to record.
    NoChannels,
    /// The samples cannot be converted; carries the name of their format.
    Unsupported { format: String },
}

impl StreamError {
    /// The error in words.
    pub open spec fn text(self) -> Seq<char> {
        match self {
            StreamError::NoChannels => "device reports zero input channels"@,
            StreamError::Unsupported { format } => "unsupported sample format "@ + format@,
        }
    }

    /// The error in words.
    pub fn message(&self) -> (r: String)
        ensures
            r@ == self.text(),
    {
        match self {
            StreamError::NoChannels => "device reports zero input channels".to_owned(),
            StreamError::Unsupported { format } => {
                let mut m = "unsupported sample format ".to_owned();
                m.append(format.as_str());
                m
            },
        }
    }
}

/// Whether samples of this format can be recorded.
pub open spec fn supported(format: SampleFormat) -> bool {
    match format {
        SampleFormat::F32 => true,
        SampleFormat::F64 => true,
        SampleFormat::I8 => true,
        SampleFormat::I16 => true,
        SampleFormat::I24 => true,
        SampleFormat::I32 => true,
        SampleFormat::U8 => true,
        SampleFormat::U16 => true,
        _ => false,
    }
}

/// Whether a device can be recorded from, with the channels and the format it
/// offers by itself; `name` is what the format is called.
pub fn check_stream(channels: u16, format: SampleFormat, name: &str) -> (r: Result<(), StreamError>)
    ensures
        if channels == 0 {
            r == Err::<(), StreamError>(StreamError::NoChannels)
        } else if supported(format) {
            r is Ok
        } else {
            r matches Err(StreamError::Unsupported { format: f }) && f@ == name@
        },
{
    if channels == 0 {
        return Err(StreamError::NoChannels);
    }
    match format {
        SampleFormat::F32 => Ok(()),
        SampleFormat::F64 => Ok(()),
        SampleFormat::I8 => Ok(()),
        SampleFormat::I16 => Ok(()),
        SampleFormat::I24 => Ok(()),
        SampleFormat::I32 => Ok(()),
        SampleFormat::U8 => Ok(()),
        SampleFormat::U16 => Ok(()),
        _ => Err(StreamError::Unsupported { format: name.to_owned() }),
    }
}

/// The frames lost when a ring took `pushed` of `offered`. Audio that is
/// genuinely lost is counted rather than ignored.
pub fn lost_frames(offered: usize, pushed: usize) -> (r: u64)
    ensures
        r as int == if pushed >= offered {
            0
        } else {
            offered - pushed
        },
{
    if pushed >= offered {
        0
    } else {
        (offered - pushed) as u64
    }
}

/// What the worker does next.
#[derive(Debug, Clone, Copy, PartialEq, Eq, Structural)]
pub enum WorkerStep {
    /// Take the frames that came.
    Process,
    /// Nothing is buffered yet; yield rather than spin.
    Sleep,
    /// Everything is drained and nothing more will come: flush the resampler.
    Flush,
}

/// How long a worker without work sleeps, in milliseconds.
pub const WORKER_PAUSE_MS: u64 = 5;

/// What the worker does once it popped so many frames.
pub open spec fn step_after(popped: usize, stopping: bool) -> WorkerStep {
    if popped > 0 {
        WorkerStep::Process
    } else if stopping {
        WorkerStep::Flush
    } else {
        WorkerStep::Sleep
    }
}

/// What the worker does next, given how many frames it popped and whether the
/// recording was stopped. The ring is always drained before the end, so that
/// stopping never truncates the tail.
pub fn worker_step(popped: usize, stopping: bool) -> (r: WorkerStep)
    ensures
        r == step_after(popped, stopping),
{
    if popped > 0 {
        WorkerStep::Process
    } else if stopping {
        WorkerStep::Flush
    } else {
        WorkerStep::Sleep
    }
}

// ---------------------------------------------------------------- the ring

/// The writing half of a ring of frames, `ringbuf::HeapProd`. A frame is held
/// as the bits of its sample.
#[verifier::external_body]
pub struct Feed {
    half: ringbuf::HeapProd<u32>,
}

/// The reading half of a ring of frames, `ringbuf::HeapCons`.
#[verifier::external_body]
pub struct Drain {
    half: ringbuf::HeapCons<u32>,
}

/// The frames that the ring took through this half so far, in order.
pub uninterp spec fn written(feed: Feed) -> Seq<u32>;

/// How many frames the ring of this half can hold at once.
pub uninterp spec fn capacity(feed: Feed) -> nat;

/// How many frames there is room for, as far as this half has looked: what is
/// left of the ring between its own write index and the read index that it
/// fetched last.
pub uninterp spec fn room(feed: Feed) -> nat;

/// The frames that came out of this half so far, in order.
pub uninterp spec fn drained(drain: Drain) -> Seq<u32>;

/// How many frames wait for this half, as far as it has looked: those between
/// its own read index and the write index that it fetched last.
pub uninterp spec fn seen(drain: Drain) -> nat;

/// `ringbuf::HeapRb::new` and `ringbuf::traits::Split::split`: the two halves
/// of an empty ring for `frames` frames. The ring cannot be made for none, nor
/// for more than half of what `usize` counts.
#[verifier::external_body]
fn split_ring(frames: usize) -> (r: (Feed, Drain))
    requires
        0 < frames <= usize::MAX / 2,
    ensures
        written(r.0).len() == 0,
        capacity(r.0) == frames,
        room(r.0) == frames,
        drained(r.1).len() == 0,
        seen(r.1) == 0,
{
    let (feed, drain) = ringbuf::traits::Split::split(ringbuf::HeapRb::<u32>::new(frames));
    (Feed { half: feed }, Drain { half: drain })
}

/// `ringbuf::traits::Producer::push_slice`: appends as many of the frames as
/// there is room for, from the first on, and says how many. It looks how far
/// the other half has got, which can only add to the room that it knew of, and
/// leaves frames out only if the ring is full then. While the ring took no more
/// than it can hold there is room for all of them. How much room it finds
/// beyond that depends on the other half, and nothing is said of it.
#[verifier::external_body]
fn push_slice(feed: &mut Feed, frames: &[u32]) -> (n: usize)
    ensures
        n <= frames@.len(),
        written(*final(feed)) == written(*old(feed)) + frames@.take(n as int),
        capacity(*final(feed)) == capacity(*old(feed)),
        room(*old(feed)) <= n + room(*final(feed)),
        n == frames@.len() || room(*final(feed)) == 0,
        written(*old(feed)).len() + frames@.len() <= capacity(*old(feed)) ==> n == frames@.len(),
{
    ringbuf::traits::Producer::push_slice(&mut feed.half, frames)
}

/// `ringbuf::traits::Consumer::pop_slice`: takes as many frames out as there
/// are and as `scratch` has places, puts them at its beginning, says how many,
/// and leaves the other places as they were. It looks how far the other half
/// has got, which can only add to the frames that it knew of: it either fills
/// `scratch` or takes all that it sees. How many more it finds depends on the
/// other half, and nothing is said of it, nor that they are what that half
/// wrote.
#[verifier::external_body]
fn pop_slice(drain: &mut Drain, scratch: &mut Vec<u32>) -> (n: usize)
    ensures
        n <= old(scratch)@.len(),
        final(scratch)@.len() == old(scratch)@.len(),
        final(scratch)@.skip(n as int) == old(scratch)@.skip(n as int),
        drained(*final(drain)) == drained(*old(drain)) + final(scratch)@.take(n as int),
        seen(*old(drain)) <= n + seen(*final(drain)),
        n == old(scratch)@.len() || seen(*final(drain)) == 0,
{
    ringbuf::traits::Consumer::pop_slice(&mut drain.half, scratch.as_mut_slice())
}

/// An empty ring: the half for the callback, and the half for the worker.
pub fn ring() -> (r: (Feed, Drain))
    ensures
        written(r.0).len() == 0,
        capacity(r.0) == RING_FRAMES,
        room(r.0) == RING_FRAMES,
        drained(r.1).len() == 0,
        seen(r.1) == 0,
{
    split_ring(RING_FRAMES)
}

/// What the callback needs: the ring, and a buffer that is used again and
/// again, so that the hot path does not allocate.
pub struct Intake {
    feed: Feed,
    mono: Vec<u32>,
    channels: usize,
}

/// Whether `mono` is the mix of interleaved samples to one channel.
pub open spec fn is_mono<F: Fn(&[u32]) -> u32>(
    mono: Seq<u32>,
    interleaved: Seq<u32>,
    channels: int,
    average: F,
) -> bool {
    if channels == 1 {
        mono == interleaved
    } else {
        &&& mono.len() == interleaved.len() as int / channels
        &&& forall|k: int|
            0 <= k < mono.len() ==> resample::mixes(
                average,
                resample::frame(interleaved, channels, k),
                #[trigger] mono[k],
            )
    }
}

impl Intake {
    /// How many samples make a frame.
    pub closed spec fn channel_count(self) -> int {
        self.channels as int
    }

    /// The ring that is fed.
    pub closed spec fn ring(self) -> Feed {
        self.feed
    }

    /// An intake for a device with so many channels.
    pub fn new(feed: Feed, channels: u16) -> (r: Self)
        requires
            channels > 0,
        ensures
            r.channel_count() == channels,
            r.ring() == feed,
    {
        Intake { feed, mono: Vec::new(), channels: channels as usize }
    }

    /// Mixes what the device recorded to mono and hands it to the worker. Says
    /// how many frames were lost: each frame is either written or counted, and
    /// none is lost unless the ring is full.
    pub fn push<F: Fn(&[u32]) -> u32>(&mut self, interleaved: &[u32], average: F) -> (lost: u64)
        requires
            old(self).channel_count() > 0,
            forall|s: &[u32]| #[trigger]
                s@.len() == old(self).channel_count() ==> call_requires(average, (s,)),
        ensures
            final(self).channel_count() == old(self).channel_count(),
            capacity(final(self).ring()) == capacity(old(self).ring()),
            lost > 0 ==> room(final(self).ring()) == 0,
            exists|mono: Seq<u32>| #[trigger]
                is_mono(mono, interleaved@, old(self).channel_count(), average) && lost
                    <= mono.len() && written(final(self).ring()) == written(old(self).ring())
                    + mono.take(mono.len() - lost) && room(old(self).ring()) <= mono.len() - lost
                    + room(final(self).ring()) && (written(old(self).ring()).len() + mono.len()
                    <= capacity(old(self).ring()) ==> lost == 0),
    {
        self.mono.clear();
        resample::downmix_to_mono(interleaved, self.channels, &mut self.mono, average);
        assert(self.mono@.skip(0) =~= self.mono@);
        let pushed: usize = push_slice(&mut self.feed, self.mono.as_slice());
        let offered: usize = self.mono.len();
        assert(is_mono(self.mono@, interleaved@, self.channels as int, average));
        lost_frames(offered, pushed)
    }
}

/// Takes what is in the ring and says what to do with it, and how many frames
/// at the beginning of `scratch` it is about: as many as `scratch` has places
/// for, or else all that are there. With any place in `scratch`, the end comes
/// only once the ring is empty.
///
/// `stopping` is to be looked at before: then everything that was written
/// before the stop is in the ring, and an empty ring is really the end.
pub fn next_block(drain: &mut Drain, scratch: &mut Vec<u32>, stopping: bool) -> (r: (
    WorkerStep,
    usize,
))
    ensures
        r.1 <= old(scratch)@.len(),
        final(scratch)@.len() == old(scratch)@.len(),
        final(scratch)@.skip(r.1 as int) == old(scratch)@.skip(r.1 as int),
        drained(*final(drain)) == drained(*old(drain)) + final(scratch)@.take(r.1 as int),
        seen(*old(drain)) <= r.1 + seen(*final(drain)),
        r.1 >= seen(*old(drain)) || r.1 == old(scratch)@.len(),
        r.1 == old(scratch)@.len() || seen(*final(drain)) == 0,
        r.0 == step_after(r.1, stopping),
        r.0 is Flush && old(scratch)@.len() > 0 ==> seen(*final(drain)) == 0,
{
    let popped: usize = pop_slice(drain, scratch);
    (worker_step(popped, stopping), popped)
}

/// Gathers samples for the level meter.
pub struct LevelWindow<T> {
    pub gathered: Vec<T>,
}

impl<T: Copy> LevelWindow<T> {
    /// An empty window.
    pub fn new() -> (r: Self)
        ensures
            r.gathered@.len() == 0,
    {
        LevelWindow { gathered: Vec::new() }
    }

    /// Takes a block of samples. Once there are enough they are handed out, to
    /// be measured, and gathering begins anew.
    pub fn take(&mut self, block: &[T]) -> (r: Option<Vec<T>>)
        ensures
            match r {
                Some(window) => windowed(old(self).gathered@ + block@) == (
                    Some(window@),
                    final(self).gathered@,
                ),
                None => windowed(old(self).gathered@ + block@) == (
                    None::<Seq<T>>,
                    final(self).gathered@,
                ),
            },
    {
        let ghost before = self.gathered@;
        let mut i: usize = 0;
        while i < block.len()
            invariant
                i <= block@.len(),
                self.gathered@ =~= before + block@.take(i as int),
            decreases block@.len() - i,
        {
            self.gathered.push(block[i]);
            i += 1;
        }
        assert(block@.take(i as int) =~= block@);
        if self.gathered.len() >= LEVEL_WINDOW {
            let mut window: Vec<T> = Vec::new();
            std::mem::swap(&mut window, &mut self.gathered);
            Some(window)
        } else {
            None
        }
    }
}

// ---------------------------------------------------------------- laws

/// The worker sleeps only while nothing waits and it is not told to stop, and
/// finishes only once nothing waits any more.
pub proof fn law_nothing_is_left_in_the_ring(popped: usize, stopping: bool)
    ensures
        step_after(popped, stopping) is Process <==> popped > 0,
        step_after(popped, stopping) is Flush <==> popped == 0 && stopping,
        step_after(popped, stopping) is Sleep <==> popped == 0 && !stopping,
{
}

/// Mono input is passed on as it is; of several channels each frame becomes one
/// sample, and frames that are not whole none.
pub proof fn law_one_sample_for_each_frame<F: Fn(&[u32]) -> u32>(
    mono: Seq<u32>,
    interleaved: Seq<u32>,
    channels: int,
    average: F,
)
    requires
        channels >= 1,
        is_mono(mono, interleaved, channels, average),
    ensures
        channels == 1 ==> mono == interleaved,
        mono.len() * channels <= interleaved.len() < (mono.len() + 1) * channels,
{
    let n = interleaved.len() as int;
    if channels == 1 {
        assert(mono.len() * channels == n && (mono.len() + 1) * channels == n + 1);
    } else {
        assert((n / channels) * channels <= n && n < (n / channels + 1) * channels)
            by (nonlinear_arith)
            requires
                channels > 0,
        ;
    }
}

/// The sample formats that can be recorded from.
pub proof fn law_supported_formats(format: SampleFormat)
    ensures
        supported(format) <==> format is F32 || format is F64 || format is I8 || format is I16
            || format is I24 || format is I32 || format is U8 || format is U16,
{
}

/// Each sample is the average of its own frame.
pub proof fn law_samples_are_averages<F: Fn(&[u32]) -> u32>(
    mono: Seq<u32>,
    interleaved: Seq<u32>,
    channels: int,
    average: F,
    k: int,
)
    requires
        channels > 1,
        is_mono(mono, interleaved, channels, average),
        0 <= k < mono.len(),
    ensures
        exists|s: &[u32]| #[trigger]
            call_ensures(average, (s,), mono[k]) && s@ == interleaved.subrange(
                k * channels,
                (k + 1) * channels,
            ),
{
    assert(resample::mixes(average, resample::frame(interleaved, channels, k), mono[k]));
    let s = choose|s: &[u32]|
        s@ == resample::frame(interleaved, channels, k) && #[trigger] call_ensures(
            average,
            (s,),
            mono[k],
        );
    assert(call_ensures(average, (s,), mono[k]));
}

/// The window that is handed out of what was gathered, and what is kept.
pub open spec fn windowed<T>(all: Seq<T>) -> (Option<Seq<T>>, Seq<T>) {
    if all.len() >= LEVEL_WINDOW {
        (Some(all), Seq::empty())
    } else {
        (None, all)
    }
}

/// A window is handed out as soon as it spans a tenth of a second, and no sample
/// is measured twice or left out.
pub proof fn law_windows_hold_every_sample<T>(all: Seq<T>)
    ensures
        windowed(all).0 is Some <==> all.len() * 10 >= 16_000,
        windowed(all).0 matches Some(window) ==> window + windowed(all).1 == all,
        windowed(all).0 matches Some(window) ==> window.len() >= 1_600,
        windowed(all).0 is None ==> windowed(all).1 == all,
{
    if all.len() >= LEVEL_WINDOW {
        assert(all + Seq::<T>::empty() =~= all);
    }
}

} // verus!
