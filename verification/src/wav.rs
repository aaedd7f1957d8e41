//! WAV files in memory: the 16 kHz mono recordings that are written, and
//! whatever is read.

use vstd::prelude::*;
use crate::audio::TARGET_SAMPLE_RATE;

verus! {

/// How the samples of a file are stored.
#[derive(Debug, Clone, Copy, PartialEq, Eq, Structural)]
pub struct WavHeader {
    pub channels: u16,
    pub sample_rate: u32,
    pub bits_per_sample: u16,
    /// Samples are floating-point numbers rather than integers.
    pub float: bool,
}

impl WavHeader {
    /// The header as plain values.
    pub open spec fn fields(self) -> (u16, u32, u16, bool) {
        (self.channels, self.sample_rate, self.bits_per_sample, self.float)
    }
}

/// What the header of a WAV file says (channels, rate, bits per sample, whether
/// samples are floating-point), or what is wrong with the file.
pub uninterp spec fn wav_header(bytes: Seq<u8>) -> Result<(u16, u32, u16, bool), Seq<char>>;

/// The integer samples of a WAV file, channels interleaved, or what is wrong
/// with them.
pub uninterp spec fn wav_samples(bytes: Seq<u8>) -> Result<Seq<i32>, Seq<char>>;

/// `hound::WavReader::new` and `hound::WavReader::spec`: names what they say of
/// a file, and claims that a file that is accepted has channels and that its
/// samples have bits.
#[verifier::external_body]
fn read_header(bytes: &[u8]) -> (r: Result<WavHeader, String>)
    ensures
        match r {
            Ok(h) => wav_header(bytes@) == Ok::<(u16, u32, u16, bool), Seq<char>>(h.fields())
                && h.channels > 0 && h.bits_per_sample > 0,
            Err(e) => wav_header(bytes@) == Err::<(u16, u32, u16, bool), Seq<char>>(e@),
        },
{
    let reader = hound::WavReader::new(std::io::Cursor::new(bytes)).map_err(|e| e.to_string())?;
    let spec = reader.spec();
    Ok(
        WavHeader {
            channels: spec.channels,
            sample_rate: spec.sample_rate,
            bits_per_sample: spec.bits_per_sample,
            float: spec.sample_format == hound::SampleFormat::Float,
        },
    )
}

/// Whether samples of this many bits are read as integers.
pub open spec fn readable_bits(bits: u16) -> bool {
    bits == 8 || bits == 16 || bits == 24 || bits == 32
}

/// `hound::WavReader::samples`: names the samples of a file, and claims that a
/// file from which some are read stores them as integers of 8, 16, 24 or 32
/// bits.
#[verifier::external_body]
fn read_samples(bytes: &[u8]) -> (r: Result<Vec<i32>, String>)
    ensures
        match r {
            Ok(v) => wav_samples(bytes@) == Ok::<Seq<i32>, Seq<char>>(v@) && (v@.len() > 0 ==> (
            wav_header(bytes@) matches Ok(h) && readable_bits(h.2) && !h.3)),
            Err(e) => wav_samples(bytes@) == Err::<Seq<i32>, Seq<char>>(e@),
        },
{
    let mut reader = hound::WavReader::new(std::io::Cursor::new(bytes)).map_err(
        |e| e.to_string(),
    )?;
    reader.samples::<i32>().collect::<Result<Vec<i32>, hound::Error>>().map_err(|e| e.to_string())
}

/// Whether a file holds these samples, mono and in 16-bit integers, at this
/// rate.
pub open spec fn holds(bytes: Seq<u8>, rate: u32, samples: Seq<i16>) -> bool {
    &&& wav_header(bytes) == Ok::<(u16, u32, u16, bool), Seq<char>>((1, rate, 16, false))
    &&& wav_samples(bytes) == Ok::<Seq<i32>, Seq<char>>(samples.map_values(|s: i16| s as i32))
}

/// `hound::WavWriter`: claims that what is written to memory, as mono 16-bit
/// integers at a rate that fits, succeeds and is read back unchanged. A file
/// has room for as many samples as its 32-bit lengths can count.
#[verifier::external_body]
fn encode(header: WavHeader, samples: &[i16]) -> (r: Result<Vec<u8>, String>)
    requires
        header.channels == 1,
        header.bits_per_sample == 16,
        !header.float,
        0 < header.sample_rate <= u32::MAX / 2,
        2 * samples@.len() + 36 <= u32::MAX,
    ensures
        match r {
            Ok(bytes) => holds(bytes@, header.sample_rate, samples@),
            Err(_) => false,
        },
{
    let spec = hound::WavSpec {
        channels: header.channels,
        sample_rate: header.sample_rate,
        bits_per_sample: header.bits_per_sample,
        sample_format: hound::SampleFormat::Int,
    };
    let mut out = std::io::Cursor::new(Vec::new());
    let mut writer = hound::WavWriter::new(&mut out, spec).map_err(|e| e.to_string())?;
    for sample in samples {
        writer.write_sample(*sample).map_err(|e| e.to_string())?;
    }
    writer.finalize().map_err(|e| e.to_string())?;
    Ok(out.into_inner())
}

/// Why a file could not be read or written; each carries the underlying error.
#[derive(Debug, Clone, PartialEq, Eq)]
pub enum WavError {
    /// It is not a WAV file.
    Opening(String),
    /// Its samples cannot be read.
    Samples(String),
    /// It could not be put together.
    Finalizing(String),
}

impl WavError {
    /// The error in words.
    pub open spec fn text(self) -> Seq<char> {
        match self {
            WavError::Opening(e) => e@,
            WavError::Samples(e) => "reading integer samples: "@ + e@,
            WavError::Finalizing(e) => "finalizing WAV: "@ + e@,
        }
    }

    /// The error in words.
    pub fn message(&self) -> (r: String)
        ensures
            r@ == self.text(),
    {
        match self {
            WavError::Opening(e) => e.clone(),
            WavError::Samples(e) => {
                let mut m = "reading integer samples: ".to_owned();
                m.append(e.as_str());
                m
            },
            WavError::Finalizing(e) => {
                let mut m = "finalizing WAV: ".to_owned();
                m.append(e.as_str());
                m
            },
        }
    }
}

/// A file that was read.
pub enum Wav {
    /// Integer samples, channels interleaved.
    Int { header: WavHeader, samples: Vec<i32> },
    /// The samples are floating-point numbers, and are not read here.
    Float { header: WavHeader },
}

/// Whether `r` is what a file gives, by what its header and its samples are.
pub open spec fn is_reading(
    r: Result<Wav, WavError>,
    header: Result<(u16, u32, u16, bool), Seq<char>>,
    samples: Result<Seq<i32>, Seq<char>>,
) -> bool {
    match header {
        Err(e) => r matches Err(WavError::Opening(m)) && m@ == e,
        Ok(h) => if h.3 {
            r matches Ok(Wav::Float { header: f }) && f.fields() == h
        } else {
            match samples {
                Err(e) => r matches Err(WavError::Samples(m)) && m@ == e,
                Ok(s) => r matches Ok(Wav::Int { header: f, samples: v }) && f.fields() == h && v@
                    == s,
            }
        },
    }
}

/// Write 16 kHz mono samples as 16-bit PCM.
///
/// 16-bit rather than float: every tool can play it, and recognizers quantize
/// to this precision anyway.
pub fn write_mono_16k(samples: &[i16]) -> (r: Result<Vec<u8>, WavError>)
    requires
        2 * samples@.len() + 36 <= u32::MAX,
    ensures
        r matches Ok(bytes) && holds(bytes@, TARGET_SAMPLE_RATE, samples@),
{
    let header = WavHeader {
        channels: 1,
        sample_rate: TARGET_SAMPLE_RATE,
        bits_per_sample: 16,
        float: false,
    };
    match encode(header, samples) {
        Ok(bytes) => Ok(bytes),
        Err(e) => Err(WavError::Finalizing(e)),
    }
}

/// Read any WAV file, as far as its samples are integers.
pub fn read(bytes: &[u8]) -> (r: Result<Wav, WavError>)
    ensures
        is_reading(r, wav_header(bytes@), wav_samples(bytes@)),
        r matches Ok(Wav::Int { header, samples }) ==> header.channels > 0 && (samples@.len() > 0
            ==> readable_bits(header.bits_per_sample)),
        r matches Ok(Wav::Float { header }) ==> header.channels > 0,
{
    match read_header(bytes) {
        Err(e) => assemble(Err(e), Ok(Vec::new())),
        Ok(header) => if header.float {
            assemble(Ok(header), Ok(Vec::new()))
        } else {
            assemble(Ok(header), read_samples(bytes))
        },
    }
}

/// A header as it is named.
pub open spec fn header_view(h: Result<WavHeader, String>) -> Result<
    (u16, u32, u16, bool),
    Seq<char>,
> {
    match h {
        Ok(f) => Ok(f.fields()),
        Err(e) => Err(e@),
    }
}

/// Samples as they are named.
pub open spec fn samples_view(s: Result<Vec<i32>, String>) -> Result<Seq<i32>, Seq<char>> {
    match s {
        Ok(v) => Ok(v@),
        Err(e) => Err(e@),
    }
}

/// Puts together what was read of a file: its header, and its samples, which
/// count only where they are integers.
pub fn assemble(header: Result<WavHeader, String>, samples: Result<Vec<i32>, String>) -> (r: Result<
    Wav,
    WavError,
>)
    ensures
        is_reading(r, header_view(header), samples_view(samples)),
{
    let header = match header {
        Ok(header) => header,
        Err(e) => return Err(WavError::Opening(e)),
    };
    if header.float {
        return Ok(Wav::Float { header });
    }
    match samples {
        Ok(samples) => Ok(Wav::Int { header, samples }),
        Err(e) => Err(WavError::Samples(e)),
    }
}

/// The sample that stands for full scale, which integer samples are divided by
/// so that 24-bit input is not too quiet.
pub fn full_scale(bits_per_sample: u16) -> (r: i64)
    requires
        readable_bits(bits_per_sample),
    ensures
        r == scale(bits_per_sample),
{
    if bits_per_sample == 8 {
        0x80
    } else if bits_per_sample == 16 {
        0x8000
    } else if bits_per_sample == 24 {
        0x80_0000
    } else {
        0x8000_0000
    }
}

/// Whether a file has to be resampled after it was read.
pub fn needs_resampling(sample_rate: u32) -> (r: bool)
    ensures
        r == (sample_rate != TARGET_SAMPLE_RATE),
{
    sample_rate != TARGET_SAMPLE_RATE
}

/// What was written is read back: the same samples, mono, 16-bit, at 16 kHz.
pub proof fn law_written_is_read_back(
    bytes: Seq<u8>,
    samples: Seq<i16>,
    r: Result<Wav, WavError>,
)
    requires
        holds(bytes, TARGET_SAMPLE_RATE, samples),
        is_reading(r, wav_header(bytes), wav_samples(bytes)),
    ensures
        r is Ok,
        r->Ok_0 is Int,
        (r->Ok_0)->Int_header == (WavHeader {
            channels: 1,
            sample_rate: TARGET_SAMPLE_RATE,
            bits_per_sample: 16,
            float: false,
        }),
        (r->Ok_0)->samples@.len() == samples.len(),
        forall|i: int|
            0 <= i < samples.len() ==> (r->Ok_0)->samples@[i] == #[trigger] samples[i],
{
}

/// A file that does not open is reported as that, one with broken samples as
/// that; samples are handed on as they are, and floating-point files are told
/// by their header alone.
pub proof fn law_what_is_read(
    r: Result<Wav, WavError>,
    header: Result<(u16, u32, u16, bool), Seq<char>>,
    samples: Result<Seq<i32>, Seq<char>>,
)
    requires
        is_reading(r, header, samples),
    ensures
        header is Err <==> (r matches Err(e) && e is Opening),
        header matches Ok(h) && h.3 <==> (r matches Ok(w) && w is Float),
        (header matches Ok(h) && !h.3) && samples is Ok <==> (r matches Ok(w) && w is Int),
        (header matches Ok(h) && !h.3) && samples is Err <==> (r matches Err(e) && e is Samples),
        r matches Ok(Wav::Int { header: f, samples: v }) ==> samples == Ok::<Seq<i32>, Seq<char>>(
            v@,
        ) && header == Ok::<(u16, u32, u16, bool), Seq<char>>(f.fields()),
        r matches Err(WavError::Opening(m)) ==> header == Err::<(u16, u32, u16, bool), Seq<char>>(
            m@,
        ),
        r matches Err(WavError::Samples(m)) ==> samples == Err::<Seq<i32>, Seq<char>>(m@),
{
}

/// The sample widths that can be read.
pub proof fn law_readable_widths(bits: u16)
    ensures
        readable_bits(bits) <==> bits % 8 == 0 && 0 < bits <= 32,
{
}

/// The magnitude that a sample of this width can reach.
pub open spec fn scale(bits_per_sample: u16) -> i64 {
    match bits_per_sample {
        8u16 => 0x80i64,
        16u16 => 0x8000,
        24u16 => 0x80_0000,
        _ => 0x8000_0000,
    }
}

/// Full scale is half of what the bits of a sample can count, so that each byte
/// more multiplies it by all that a byte can hold.
pub proof fn law_full_scale_grows_with_the_width(bits: u16)
    requires
        readable_bits(bits),
    ensures
        2 * scale(bits) == vstd::arithmetic::power2::pow2(bits as nat),
        bits < 32 ==> scale((bits + 8) as u16) == 256 * scale(bits),
{
    vstd::arithmetic::power2::lemma2_to64();
}

} // verus!
