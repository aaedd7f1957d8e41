//! Cutting a stream of samples into the chunks a resampler consumes, and frames
//! into channels.
//!
//! What a sample is does not matter here: it is carried through unchanged.

use vstd::prelude::*;
use vstd::slice::slice_subrange;
use crate::audio::TARGET_SAMPLE_RATE;

verus! {

/// Frames of input consumed per resampler call. At 48 kHz this is about 21 ms,
/// which keeps the level meter responsive without thrashing the transform.
pub const CHUNK: usize = 1024;

/// Why there is no resampler.
#[derive(Debug, Clone, Copy, PartialEq, Eq, Structural)]
pub struct ZeroRate;

impl ZeroRate {
    /// The error in words.
    pub open spec fn text(self) -> Seq<char> {
        "input sample rate must be non-zero"@
    }

    /// The error in words.
    pub fn message(&self) -> (r: String)
        ensures
            r@ == self.text(),
    {
        "input sample rate must be non-zero".to_owned()
    }
}

/// How many full chunks there are in `n` samples.
pub open spec fn chunk_count(n: nat) -> nat {
    n / CHUNK as nat
}

/// The full chunks of a run of samples, in order.
pub open spec fn full_chunks<T>(s: Seq<T>) -> Seq<Seq<T>> {
    Seq::new(chunk_count(s.len()), |k: int| s.subrange(k * CHUNK, (k + 1) * CHUNK))
}

/// What is left behind the full chunks.
pub open spec fn remainder<T>(s: Seq<T>) -> Seq<T> {
    s.skip(chunk_count(s.len()) * CHUNK)
}

/// The samples of each of some chunks.
pub open spec fn chunk_views<T>(v: Seq<Vec<T>>) -> Seq<Seq<T>> {
    v.map_values(|c: Vec<T>| c@)
}

/// What is ready after some samples came in.
pub struct Ready<T> {
    /// Samples that need no resampling.
    pub passed: Vec<T>,
    /// Full chunks, to be resampled in order.
    pub chunks: Vec<Vec<T>>,
}

/// The last chunk of a stream: `partial` samples and then padding, which the
/// resampler should not treat as signal.
pub struct Tail<T> {
    pub chunk: Vec<T>,
    pub partial: usize,
}

/// A stream on its way to the target rate.
///
/// Feed it arbitrary-length slices with [`push`](Self::push); it buffers
/// whatever does not fill a chunk and hands chunks out as they complete. Call
/// [`finish`](Self::finish) to flush the tail.
pub struct Resample<T> {
    identity: bool,
    /// Input frames not yet consumed by a full chunk.
    pending: Vec<T>,
    input_rate: u32,
}

impl<T: Copy> Resample<T> {
    /// The samples that wait for a chunk to fill.
    pub closed spec fn waiting(self) -> Seq<T> {
        self.pending@
    }

    /// The rate that comes in.
    pub closed spec fn rate(self) -> u32 {
        self.input_rate
    }

    /// Whether samples pass through as they are.
    pub open spec fn passes(self) -> bool {
        self.rate() == TARGET_SAMPLE_RATE
    }

    /// Less than a chunk waits, and nothing does when samples pass through.
    pub closed spec fn inv(self) -> bool {
        &&& self.identity == (self.input_rate == TARGET_SAMPLE_RATE)
        &&& self.pending@.len() < CHUNK
        &&& self.identity ==> self.pending@.len() == 0
        &&& self.input_rate > 0
    }

    /// Starts a stream. The target rate itself is passed through.
    pub fn new(input_rate: u32) -> (r: Result<Self, ZeroRate>)
        ensures
            match r {
                Ok(s) => s.inv() && input_rate > 0 && s.rate() == input_rate && s.waiting().len()
                    == 0,
                Err(_) => input_rate == 0,
            },
    {
        if input_rate == 0 {
            return Err(ZeroRate);
        }
        Ok(
            Resample {
                identity: input_rate == TARGET_SAMPLE_RATE,
                pending: Vec::new(),
                input_rate,
            },
        )
    }

    pub fn input_rate(&self) -> (r: u32)
        ensures
            r == self.rate(),
    {
        self.input_rate
    }

    /// Whether this is a pass-through.
    pub fn is_identity(&self) -> (r: bool)
        requires
            self.inv(),
        ensures
            r == self.passes(),
    {
        self.identity
    }

    /// Consume `samples` (mono, at the input rate).
    pub fn push(&mut self, samples: &[T]) -> (r: Ready<T>)
        requires
            old(self).inv(),
        ensures
            final(self).inv(),
            final(self).rate() == old(self).rate(),
            if old(self).passes() {
                &&& r.passed@ == samples@
                &&& r.chunks@.len() == 0
                &&& final(self).waiting() == old(self).waiting()
            } else {
                let all = old(self).waiting() + samples@;
                &&& r.passed@.len() == 0
                &&& chunk_views(r.chunks@) == full_chunks(all)
                &&& final(self).waiting() == remainder(all)
            },
    {
        let mut passed: Vec<T> = Vec::new();
        let mut chunks: Vec<Vec<T>> = Vec::new();
        let ghost all = self.pending@ + samples@;
        if self.identity {
            let mut i: usize = 0;
            while i < samples.len()
                invariant
                    i <= samples@.len(),
                    passed@ =~= samples@.take(i as int),
                decreases samples@.len() - i,
            {
                passed.push(samples[i]);
                i += 1;
            }
            assert(passed@ =~= samples@);
            return Ready { passed, chunks };
        }
        let ghost before = self.pending@;
        let mut i: usize = 0;
        proof {
            assert(all.take(before.len() as int) =~= before);
            lemma_less_than_a_chunk(before);
            assert(chunk_views(chunks@) =~= full_chunks(before));
            assert(remainder(before) =~= before);
        }
        while i < samples.len()
            invariant
                i <= samples@.len(),
                all == before + samples@,
                chunk_views(chunks@) == full_chunks(all.take(before.len() + i)),
                self.pending@ == remainder(all.take(before.len() + i)),
                self.pending@.len() < CHUNK,
                self.input_rate == old(self).input_rate,
                self.identity == old(self).identity,
            decreases samples@.len() - i,
        {
            let ghost sofar = all.take(before.len() + i);
            let ghost old_chunks = chunks@;
            self.pending.push(samples[i]);
            proof {
                assert(all.take(before.len() + i + 1) =~= sofar.push(samples@[i as int]));
                lemma_one_more(sofar, samples@[i as int]);
            }
            if self.pending.len() == CHUNK {
                let mut chunk: Vec<T> = Vec::new();
                std::mem::swap(&mut chunk, &mut self.pending);
                chunks.push(chunk);
                assert(chunk_views(chunks@) =~= chunk_views(old_chunks).push(chunk@));
                assert(self.pending@ =~= Seq::<T>::empty());
            }
            i += 1;
        }
        assert(all.take(before.len() + i) =~= all);
        Ready { passed, chunks }
    }

    /// Flush the final partial chunk, padded with `silence`.
    ///
    /// Without this the last few milliseconds of a recording are dropped:
    /// inaudible in music, but in dictation it is the end of the final word.
    pub fn finish(self, silence: T) -> (r: Option<Tail<T>>)
        requires
            self.inv(),
        ensures
            if self.waiting().len() == 0 {
                r is None
            } else {
                r matches Some(t) && t.partial == self.waiting().len() && t.chunk@ == self.waiting()
                    + Seq::new((CHUNK - self.waiting().len()) as nat, |i: int| silence)
            },
    {
        let partial: usize = self.pending.len();
        if partial == 0 {
            return None;
        }
        let mut chunk: Vec<T> = self.pending;
        let ghost waiting = chunk@;
        while chunk.len() < CHUNK
            invariant
                partial == waiting.len(),
                partial <= chunk@.len() <= CHUNK,
                chunk@ =~= waiting + Seq::new((chunk@.len() - partial) as nat, |i: int| silence),
            decreases CHUNK - chunk@.len(),
        {
            chunk.push(silence);
        }
        Some(Tail { chunk, partial })
    }
}

proof fn lemma_less_than_a_chunk<T>(s: Seq<T>)
    requires
        s.len() < CHUNK,
    ensures
        chunk_count(s.len()) == 0,
        full_chunks(s).len() == 0,
        remainder(s) == s,
{
    assert(s.skip(0) =~= s);
}

/// One more sample either joins what waits, or completes a chunk.
proof fn lemma_one_more<T>(s: Seq<T>, x: T)
    ensures
        remainder(s).len() < CHUNK,
        if remainder(s).len() + 1 == CHUNK {
            &&& full_chunks(s.push(x)) == full_chunks(s).push(remainder(s).push(x))
            &&& remainder(s.push(x)) == Seq::<T>::empty()
        } else {
            &&& full_chunks(s.push(x)) == full_chunks(s)
            &&& remainder(s.push(x)) == remainder(s).push(x)
        },
{
    let n = s.len() as int;
    let k = n / CHUNK as int;
    let t = s.push(x);
    assert(0 <= n - k * CHUNK < CHUNK);
    if n + 1 == (k + 1) * CHUNK {
        assert((n + 1) / CHUNK as int == k + 1);
        assert(full_chunks(t) =~= full_chunks(s).push(remainder(s).push(x))) by {
            assert(t.subrange(k * CHUNK, (k + 1) * CHUNK) =~= remainder(s).push(x));
            assert forall|j: int| 0 <= j < k implies #[trigger] full_chunks(t)[j] == full_chunks(
                s,
            )[j] by {
                assert(t.subrange(j * CHUNK, (j + 1) * CHUNK) =~= s.subrange(
                    j * CHUNK,
                    (j + 1) * CHUNK,
                ));
            }
        }
        assert(remainder(t) =~= Seq::<T>::empty());
    } else {
        assert((n + 1) / CHUNK as int == k);
        assert(full_chunks(t) =~= full_chunks(s)) by {
            assert forall|j: int| 0 <= j < k implies #[trigger] full_chunks(t)[j] == full_chunks(
                s,
            )[j] by {
                assert(t.subrange(j * CHUNK, (j + 1) * CHUNK) =~= s.subrange(
                    j * CHUNK,
                    (j + 1) * CHUNK,
                ));
            }
        }
        assert(remainder(t) =~= remainder(s).push(x));
    }
}

/// The result does not depend on how the input was sliced: pushing one slice
/// and then another gives the chunks, and leaves the rest, that pushing both at
/// once does.
pub proof fn law_slicing_does_not_matter<T>(waiting: Seq<T>, a: Seq<T>, b: Seq<T>)
    ensures
        full_chunks(waiting + (a + b)) == full_chunks(waiting + a) + full_chunks(
            remainder(waiting + a) + b,
        ),
        remainder(waiting + (a + b)) == remainder(remainder(waiting + a) + b),
    decreases b.len(),
{
    let s = waiting + a;
    if b.len() == 0 {
        assert(waiting + (a + b) =~= s);
        assert(remainder(s) + b =~= remainder(s));
        let n = s.len() as int;
        assert(remainder(s).len() == n - (n / CHUNK as int) * CHUNK);
        lemma_less_than_a_chunk(remainder(s));
        assert(full_chunks(s) + full_chunks(remainder(s)) =~= full_chunks(s));
    } else {
        let c = b.drop_last();
        let x = b.last();
        law_slicing_does_not_matter(waiting, a, c);
        let u = waiting + (a + c);
        let v = remainder(s) + c;
        assert(waiting + (a + b) =~= u.push(x));
        assert(remainder(s) + b =~= v.push(x));
        lemma_one_more(u, x);
        lemma_one_more(v, x);
        assert(full_chunks(s) + full_chunks(v).push(remainder(v).push(x)) =~= (full_chunks(s)
            + full_chunks(v)).push(remainder(v).push(x)));
    }
}

/// All the samples of some chunks, one after the other.
pub open spec fn flattened<T>(chunks: Seq<Seq<T>>) -> Seq<T>
    decreases chunks.len(),
{
    if chunks.len() == 0 {
        Seq::empty()
    } else {
        flattened(chunks.drop_last()) + chunks.last()
    }
}

/// No sample is lost or repeated: the chunks and what waits are the input.
pub proof fn law_no_sample_is_lost<T>(s: Seq<T>)
    ensures
        flattened(full_chunks(s)) + remainder(s) == s,
        remainder(s).len() < CHUNK,
    decreases s.len(),
{
    if s.len() == 0 {
        lemma_less_than_a_chunk(s);
        assert(flattened(full_chunks(s)) + remainder(s) =~= s);
    } else {
        let front = s.drop_last();
        let x = s.last();
        law_no_sample_is_lost(front);
        lemma_one_more(front, x);
        assert(front.push(x) =~= s);
        let chunks = full_chunks(front);
        if remainder(front).len() + 1 == CHUNK {
            let last = remainder(front).push(x);
            assert(chunks.push(last).drop_last() =~= chunks);
            assert(flattened(full_chunks(s)) + remainder(s) =~= s);
        } else {
            assert(flattened(full_chunks(s)) + remainder(s) =~= s);
        }
    }
}

/// What comes out and what is left waiting when slices are pushed one after
/// the other: the chunks, in order, and the rest.
pub open spec fn fed<T>(waiting: Seq<T>, slices: Seq<Seq<T>>) -> (Seq<Seq<T>>, Seq<T>)
    decreases slices.len(),
{
    if slices.len() == 0 {
        (Seq::empty(), waiting)
    } else {
        let (chunks, rest) = fed(waiting, slices.drop_last());
        let all = rest + slices.last();
        (chunks + full_chunks(all), remainder(all))
    }
}

/// However the input is sliced, a resampler gets the same chunks, and the same
/// rest is left to be flushed: they depend on the whole input alone.
pub proof fn law_chunks_depend_on_the_input_alone<T>(slices: Seq<Seq<T>>)
    ensures
        fed(Seq::empty(), slices) == (
            full_chunks(flattened(slices)),
            remainder(flattened(slices)),
        ),
    decreases slices.len(),
{
    let none = Seq::<T>::empty();
    if slices.len() == 0 {
        lemma_less_than_a_chunk(none);
        assert(full_chunks(none) =~= Seq::<Seq<T>>::empty());
    } else {
        let before = flattened(slices.drop_last());
        law_chunks_depend_on_the_input_alone(slices.drop_last());
        law_slicing_does_not_matter(none, before, slices.last());
        assert(none + before =~= before);
        assert(none + (before + slices.last()) =~= before + slices.last());
    }
}

// ---------------------------------------------------------------- channels

/// The `k`-th frame of interleaved samples.
pub open spec fn frame<T>(interleaved: Seq<T>, channels: int, k: int) -> Seq<T> {
    interleaved.subrange(k * channels, (k + 1) * channels)
}

/// Whether `average` may turn this frame into this sample.
pub open spec fn mixes<T, F: Fn(&[T]) -> T>(average: F, frame: Seq<T>, sample: T) -> bool {
    exists|s: &[T]| s@ == frame && #[trigger] call_ensures(average, (s,), sample)
}

/// Average interleaved frames down to one channel, appending to `out`.
///
/// `average` says what a frame of several channels amounts to. One channel is
/// copied as it is, and a trailing partial frame is ignored.
pub fn downmix_to_mono<T: Copy, F: Fn(&[T]) -> T>(
    interleaved: &[T],
    channels: usize,
    out: &mut Vec<T>,
    average: F,
)
    requires
        channels > 0,
        forall|s: &[T]| #[trigger] s@.len() == channels ==> call_requires(average, (s,)),
    ensures
        final(out)@.len() >= old(out)@.len(),
        final(out)@.take(old(out)@.len() as int) == old(out)@,
        ({
            let added = final(out)@.skip(old(out)@.len() as int);
            if channels == 1 {
                added == interleaved@
            } else {
                &&& added.len() == interleaved@.len() as int / channels as int
                &&& forall|k: int|
                    0 <= k < added.len() ==> mixes(
                        average,
                        frame(interleaved@, channels as int, k),
                        #[trigger] added[k],
                    )
            }
        }),
{
    let ghost before = out@;
    let len: usize = interleaved.len();
    if channels == 1 {
        let mut i: usize = 0;
        while i < len
            invariant
                i <= len,
                len == interleaved@.len(),
                out@ =~= before + interleaved@.take(i as int),
            decreases len - i,
        {
            out.push(interleaved[i]);
            i += 1;
        }
        assert(interleaved@.take(i as int) =~= interleaved@);
        assert(out@.skip(before.len() as int) =~= interleaved@);
        assert(out@.take(before.len() as int) =~= before);
        return;
    }
    let frames: usize = len / channels;
    let mut k: usize = 0;
    let mut at: usize = 0;
    assert(frames * channels <= len) by (nonlinear_arith)
        requires
            frames == len / channels,
            channels > 0,
    ;
    while k < frames
        invariant
            k <= frames,
            channels > 1,
            len == interleaved@.len(),
            at == k * channels,
            frames * channels <= len,
            forall|s: &[T]| #[trigger] s@.len() == channels ==> call_requires(average, (s,)),
            out@.len() == before.len() + k,
            out@.take(before.len() as int) =~= before,
            forall|j: int|
                0 <= j < k ==> mixes(
                    average,
                    frame(interleaved@, channels as int, j),
                    #[trigger] out@.skip(before.len() as int)[j],
                ),
        decreases frames - k,
    {
        assert((k + 1) * channels <= frames * channels) by (nonlinear_arith)
            requires
                k < frames,
        ;
        assert((k + 1) * channels == k * channels + channels) by (nonlinear_arith);
        let slice = slice_subrange(interleaved, at, at + channels);
        assert(slice@ =~= frame(interleaved@, channels as int, k as int));
        let mixed = average(slice);
        let ghost sofar = out@;
        out.push(mixed);
        proof {
            assert(out@.take(before.len() as int) =~= sofar.take(before.len() as int));
            assert(call_ensures(average, (slice,), mixed));
            assert(out@.skip(before.len() as int) =~= sofar.skip(before.len() as int).push(mixed));
        }
        k += 1;
        at += channels;
    }
}

/// Every chunk is full, they follow one another, and what waits is too little
/// for one more.
pub proof fn law_chunks_are_full<T>(s: Seq<T>, k: int, j: int)
    ensures
        remainder(s).len() < CHUNK,
        full_chunks(s).len() * CHUNK + remainder(s).len() == s.len(),
        0 <= k < full_chunks(s).len() && 0 <= j < CHUNK ==> full_chunks(s)[k].len() == CHUNK
            && full_chunks(s)[k][j] == s[k * CHUNK + j],
        0 <= j < remainder(s).len() ==> remainder(s)[j] == s[full_chunks(s).len() * CHUNK + j],
{
    let n = s.len() as int;
    let c = CHUNK as int;
    let m = full_chunks(s).len() as int;
    assert(m == n / c);
    assert(m * c <= n < m * c + c) by (nonlinear_arith)
        requires
            m == n / c,
            c > 0,
    ;
    if 0 <= k < m && 0 <= j < c {
        assert(0 <= k * c && (k + 1) * c <= m * c && (k + 1) * c == k * c + c)
            by (nonlinear_arith)
            requires
                0 <= k < m,
                c > 0,
        ;
    }
}

/// The samples of a frame are the neighbours that were recorded at one time.
pub proof fn law_frames_are_neighbours<T>(interleaved: Seq<T>, channels: int, k: int, j: int)
    requires
        0 < channels,
        0 <= k,
        (k + 1) * channels <= interleaved.len(),
        0 <= j < channels,
    ensures
        frame(interleaved, channels, k).len() == channels,
        frame(interleaved, channels, k)[j] == interleaved[k * channels + j],
{
    assert(0 <= k * channels && (k + 1) * channels == k * channels + channels)
        by (nonlinear_arith)
        requires
            0 <= k,
            0 < channels,
    ;
}

/// Input at the rate of the recognizer passes unchanged, and no other does.
pub proof fn law_only_the_target_rate_passes<T: Copy>(r: Resample<T>)
    ensures
        r.passes() <==> r.rate() == 16_000,
{
}

} // verus!
