use rubato::audioadapter_buffers::direct::InterleavedSlice;
use rubato::{Fft, FixedSync, Indexing, Resampler};
use stt_linux::audio::{
    default_input_device, describe, describe_default_input, find_input_device, AudioError,
    DeviceInfo, InputDevices, Pick, TARGET_SAMPLE_RATE,
};
use stt_linux::capture::{
    check_stream, lost_frames, next_block, ring, worker_step, Intake, LevelWindow, SampleFormat,
    StreamError, WorkerStep, RING_FRAMES,
};
use stt_linux::engine::{
    check_backend, check_model_dir, describe_weights, label, map_provider, worth_running,
    EngineError, Providers, Transcript, Weights,
};
use stt_linux::config::{EngineBackend, EngineConfig, ExecutionProvider};
use stt_linux::paths::PathError;
use stt_linux::resample::{downmix_to_mono, Resample, CHUNK};
use stt_linux::wav::{assemble, full_scale, needs_resampling, read, write_mono_16k, Wav, WavError, WavHeader};

// ---------------------------------------------------------------- resampling

fn sine(freq: f32, rate: u32, secs: f32) -> Vec<f32> {
    let n = (rate as f32 * secs) as usize;
    (0..n)
        .map(|i| (std::f32::consts::TAU * freq * i as f32 / rate as f32).sin() * 0.5)
        .collect()
}

fn rms(samples: &[f32]) -> f32 {
    if samples.is_empty() {
        return 0.0;
    }
    let sum_sq: f32 = samples.iter().map(|s| s * s).sum();
    (sum_sq / samples.len() as f32).sqrt()
}

fn average(frame: &[f32]) -> f32 {
    frame.iter().sum::<f32>() * (1.0 / frame.len() as f32)
}

fn resample_chunk(fft: &mut Fft<f32>, chunk: &[f32], partial: Option<usize>) -> Vec<f32> {
    let input = InterleavedSlice::new(chunk, 1, CHUNK).unwrap();
    let indexing = Indexing {
        input_offset: 0,
        output_offset: 0,
        partial_len: partial,
        active_channels_mask: None,
    };
    fft.process(&input, Some(&indexing)).unwrap().take_data()
}

/// Feed a signal through in irregular slices, as a real audio callback would.
fn run(input: &[f32], rate: u32, slice: usize) -> Vec<f32> {
    let mut r = Resample::new(rate).unwrap();
    let mut out = Vec::new();
    let mut fft = Fft::<f32>::new(
        rate as usize,
        TARGET_SAMPLE_RATE as usize,
        CHUNK,
        1,
        FixedSync::Input,
    )
    .unwrap();
    for part in input.chunks(slice) {
        let ready = r.push(part);
        out.extend_from_slice(&ready.passed);
        for chunk in &ready.chunks {
            out.extend(resample_chunk(&mut fft, chunk, None));
        }
    }
    if let Some(tail) = r.finish(0.0) {
        out.extend(resample_chunk(&mut fft, &tail.chunk, Some(tail.partial)));
    }
    out
}

#[test]
fn identity_rate_is_pass_through() {
    let r = Resample::<f32>::new(TARGET_SAMPLE_RATE).unwrap();
    assert!(r.is_identity());
    let input = sine(440.0, TARGET_SAMPLE_RATE, 0.1);
    let out = run(&input, TARGET_SAMPLE_RATE, 333);
    assert_eq!(out, input, "pass-through must not alter samples");
}

#[test]
fn downsamples_48k_to_16k_with_the_right_length() {
    let secs = 1.0;
    let input = sine(440.0, 48_000, secs);
    let out = run(&input, 48_000, 1024);
    let expected = (TARGET_SAMPLE_RATE as f32 * secs) as usize;
    // FFT resampling has a little edge slop; a few ms either way is fine,
    // a 3x error would mean the ratio is inverted.
    let tolerance = expected / 50;
    assert!(
        out.len().abs_diff(expected) <= tolerance,
        "got {} samples, expected ~{expected}",
        out.len()
    );
}

#[test]
fn handles_non_integer_ratio_44100_to_16000() {
    let input = sine(440.0, 44_100, 1.0);
    let out = run(&input, 44_100, 1024);
    let expected = TARGET_SAMPLE_RATE as usize;
    assert!(
        out.len().abs_diff(expected) <= expected / 50,
        "got {} samples, expected ~{expected}",
        out.len()
    );
}

#[test]
fn output_is_independent_of_input_slicing() {
    // The audio callback hands us whatever buffer size it likes; that must
    // not change the result.
    let input = sine(440.0, 48_000, 0.5);
    let a = run(&input, 48_000, 128);
    let b = run(&input, 48_000, 1024);
    let c = run(&input, 48_000, 4099);
    assert_eq!(a.len(), b.len());
    assert_eq!(b.len(), c.len());
    for (i, ((x, y), z)) in a.iter().zip(&b).zip(&c).enumerate() {
        assert!(
            (x - y).abs() < 1e-5 && (y - z).abs() < 1e-5,
            "divergence at {i}: {x} {y} {z}"
        );
    }
}

#[test]
fn preserves_signal_amplitude() {
    // A resampler that silently zeroed its output would still pass the
    // length checks above.
    let input = sine(440.0, 48_000, 0.5);
    let out = run(&input, 48_000, 1024);
    let in_rms = rms(&input);
    let out_rms = rms(&out);
    assert!(
        (in_rms - out_rms).abs() < 0.05,
        "amplitude changed: {in_rms} -> {out_rms}"
    );
}

#[test]
fn tail_is_not_dropped() {
    // Length deliberately not a multiple of CHUNK.
    let input = sine(440.0, 48_000, 0.0)
        .into_iter()
        .chain(sine(440.0, 48_000, 0.037))
        .collect::<Vec<_>>();
    assert_ne!(input.len() % CHUNK, 0);
    let out = run(&input, 48_000, 1024);
    assert!(!out.is_empty(), "the whole tail was discarded");
}

#[test]
fn zero_input_rate_is_rejected() {
    assert!(Resample::<f32>::new(0).is_err());
    let Err(e) = Resample::<u8>::new(0) else {
        panic!("accepted");
    };
    assert_eq!(e.message(), "input sample rate must be non-zero");
}

#[test]
fn chunks_and_tail_are_the_input() {
    let input: Vec<u32> = (0..5000).collect();
    let mut r = Resample::new(48_000).unwrap();
    assert_eq!(r.input_rate(), 48_000);
    assert!(!r.is_identity());
    let mut seen: Vec<u32> = Vec::new();
    for part in input.chunks(700) {
        let ready = r.push(part);
        assert!(ready.passed.is_empty());
        for chunk in ready.chunks {
            assert_eq!(chunk.len(), CHUNK);
            seen.extend(chunk);
        }
    }
    let tail = r.finish(9999).unwrap();
    assert_eq!(tail.partial, 5000 - 4 * CHUNK);
    assert_eq!(tail.chunk.len(), CHUNK);
    assert!(tail.chunk[tail.partial..].iter().all(|s| *s == 9999));
    seen.extend(&tail.chunk[..tail.partial]);
    assert_eq!(seen, input);
}

#[test]
fn a_full_chunk_leaves_no_tail() {
    let mut r = Resample::new(8_000).unwrap();
    assert_eq!(r.push(&vec![1u8; CHUNK]).chunks.len(), 1);
    assert!(r.finish(0).is_none());
}

#[test]
fn downmix_averages_channels() {
    let mut out = Vec::new();
    // Two frames of stereo: (1.0, 0.0) and (0.5, 0.5).
    downmix_to_mono(&[1.0, 0.0, 0.5, 0.5], 2, &mut out, average);
    assert_eq!(out, vec![0.5, 0.5]);
}

#[test]
fn downmix_mono_is_a_copy() {
    let mut out = Vec::new();
    downmix_to_mono(&[0.1, -0.2, 0.3], 1, &mut out, average);
    assert_eq!(out, vec![0.1, -0.2, 0.3]);
}

#[test]
fn downmix_ignores_a_trailing_partial_frame() {
    let mut out = Vec::new();
    // Five samples of stereo is two whole frames plus a stray.
    downmix_to_mono(&[1.0, 1.0, 0.0, 0.0, 1.0], 2, &mut out, average);
    assert_eq!(out, vec![1.0, 0.0]);
}

#[test]
fn downmix_appends() {
    let mut out = vec![7];
    downmix_to_mono(&[1, 2, 3, 4, 5, 6], 3, &mut out, |f: &[i32]| f.iter().sum());
    assert_eq!(out, vec![7, 6, 15]);
}

// ---------------------------------------------------------------- wav

fn quantized(samples: &[f32]) -> Vec<i16> {
    samples
        .iter()
        .map(|s| (s.clamp(-1.0, 1.0) * i16::MAX as f32) as i16)
        .collect()
}

fn int_wav(bytes: &[u8]) -> (WavHeader, Vec<i32>) {
    match read(bytes) {
        Ok(Wav::Int { header, samples }) => (header, samples),
        Ok(Wav::Float { .. }) => panic!("float samples"),
        Err(e) => panic!("{}", e.message()),
    }
}

fn as_floats(header: &WavHeader, samples: &[i32]) -> Vec<f32> {
    let scale = 1.0 / full_scale(header.bits_per_sample) as f32;
    samples.iter().map(|s| *s as f32 * scale).collect()
}

fn encoded(channels: u16, rate: u32, samples: &[i16]) -> Vec<u8> {
    let spec = hound::WavSpec {
        channels,
        sample_rate: rate,
        bits_per_sample: 16,
        sample_format: hound::SampleFormat::Int,
    };
    let mut out = std::io::Cursor::new(Vec::new());
    let mut w = hound::WavWriter::new(&mut out, spec).unwrap();
    for s in samples {
        w.write_sample(*s).unwrap();
    }
    w.finalize().unwrap();
    out.into_inner()
}

#[test]
fn round_trips_through_disk() {
    let samples = sine(440.0, TARGET_SAMPLE_RATE, 0.25);
    let bytes = write_mono_16k(&quantized(&samples)).unwrap();
    let (header, ints) = int_wav(&bytes);
    let read = as_floats(&header, &ints);

    assert_eq!(read.len(), samples.len());
    for (a, b) in samples.iter().zip(&read) {
        // 16-bit quantization is the only permitted loss.
        assert!((a - b).abs() < 1e-3, "{a} vs {b}");
    }
}

#[test]
fn written_file_has_the_expected_header() {
    let bytes = write_mono_16k(&quantized(&sine(440.0, TARGET_SAMPLE_RATE, 0.1))).unwrap();

    let spec = hound::WavReader::new(std::io::Cursor::new(&bytes)).unwrap().spec();
    assert_eq!(spec.channels, 1);
    assert_eq!(spec.sample_rate, TARGET_SAMPLE_RATE);
    assert_eq!(spec.bits_per_sample, 16);
}

#[test]
fn resamples_a_48k_file_on_read() {
    let bytes = encoded(1, 48_000, &quantized(&sine(440.0, 48_000, 1.0)));
    let (header, ints) = int_wav(&bytes);
    assert!(needs_resampling(header.sample_rate));
    let read = run(&as_floats(&header, &ints), header.sample_rate, 1 << 20);
    let expected = TARGET_SAMPLE_RATE as usize;
    assert!(
        read.len().abs_diff(expected) <= expected / 50,
        "expected ~{expected} samples at 16k, got {}",
        read.len()
    );
}

#[test]
fn downmixes_a_stereo_file_on_read() {
    // Left at full scale, right silent -> mono should be half scale.
    let mut samples = Vec::new();
    for _ in 0..1000 {
        samples.push(i16::MAX / 2);
        samples.push(0i16);
    }
    let bytes = encoded(2, TARGET_SAMPLE_RATE, &samples);
    let (header, ints) = int_wav(&bytes);
    assert!(!needs_resampling(header.sample_rate));
    let mut mono = Vec::new();
    downmix_to_mono(
        &as_floats(&header, &ints),
        header.channels as usize,
        &mut mono,
        average,
    );
    assert_eq!(mono.len(), 1000);
    assert!((mono[10] - 0.25).abs() < 1e-2, "got {}", mono[10]);
}

#[test]
fn every_written_sample_is_read_back() {
    let samples: Vec<i16> = vec![0, 1, -1, i16::MAX, i16::MIN, 12345];
    let (header, ints) = int_wav(&write_mono_16k(&samples).unwrap());
    assert_eq!(
        header,
        WavHeader {
            channels: 1,
            sample_rate: 16_000,
            bits_per_sample: 16,
            float: false
        }
    );
    let expected: Vec<i32> = samples.iter().map(|s| *s as i32).collect();
    assert_eq!(ints, expected);
    let (_, none) = int_wav(&write_mono_16k(&[]).unwrap());
    assert!(none.is_empty());
}

#[test]
fn what_is_not_a_wav_file_is_refused() {
    let Err(WavError::Opening(text)) = read(b"not a wave") else {
        panic!("accepted");
    };
    let expected = match hound::WavReader::new(std::io::Cursor::new(b"not a wave")) {
        Ok(_) => panic!("accepted"),
        Err(e) => e.to_string(),
    };
    assert_eq!(text, expected);
}

#[test]
fn float_files_are_told_apart() {
    let spec = hound::WavSpec {
        channels: 2,
        sample_rate: 44_100,
        bits_per_sample: 32,
        sample_format: hound::SampleFormat::Float,
    };
    let mut out = std::io::Cursor::new(Vec::new());
    let mut w = hound::WavWriter::new(&mut out, spec).unwrap();
    w.write_sample(0.5f32).unwrap();
    w.write_sample(-0.5f32).unwrap();
    w.finalize().unwrap();
    match read(&out.into_inner()) {
        Ok(Wav::Float { header }) => {
            assert_eq!(header.channels, 2);
            assert_eq!(header.sample_rate, 44_100);
            assert!(header.float);
        }
        _ => panic!("not a float file"),
    }
}

#[test]
fn a_truncated_file_cannot_be_read() {
    let mut bytes = encoded(1, 16_000, &[1, 2, 3, 4]);
    bytes.truncate(bytes.len() - 3);
    match read(&bytes) {
        Err(e) => assert!(
            e.message().starts_with("reading integer samples: "),
            "{}",
            e.message()
        ),
        Ok(_) => panic!("accepted"),
    }
}

#[test]
fn readings_are_assembled() {
    let header = WavHeader {
        channels: 1,
        sample_rate: 8_000,
        bits_per_sample: 8,
        float: false,
    };
    assert!(matches!(
        assemble(Ok(header), Ok(vec![5])),
        Ok(Wav::Int { samples, .. }) if samples == vec![5]
    ));
    assert!(matches!(
        assemble(Ok(header), Err("short".into())),
        Err(WavError::Samples(e)) if e == "short"
    ));
    assert!(matches!(
        assemble(Err("no".into()), Ok(vec![])),
        Err(WavError::Opening(e)) if e == "no"
    ));
    assert_eq!(WavError::Finalizing("x".into()).message(), "finalizing WAV: x");
}

#[test]
fn full_scale_is_a_power_of_two() {
    for bits in [8u16, 16, 24, 32] {
        assert_eq!(full_scale(bits), 1i64 << (bits - 1));
    }
}

// ---------------------------------------------------------------- devices

fn device(name: &str, id: Option<&str>) -> DeviceInfo {
    DeviceInfo {
        name: name.into(),
        id: id.map(String::from),
        default_config: None,
    }
}

#[test]
fn unknown_device_error_lists_alternatives() {
    let listed = vec![
        device("Mic", Some("alsa:hw:0")),
        device("Nameless", None),
    ];
    let err = find_input_device(
        "definitely-not-a-device-xyzzy",
        Ok(listed),
        Some(device("Default", Some("alsa:default"))),
    )
    .unwrap_err();
    let msg = err.message();
    assert!(
        msg.contains("xyzzy") || msg.contains("enumerating"),
        "unhelpful error: {msg}"
    );
    assert_eq!(
        msg,
        "no audio input device matching `definitely-not-a-device-xyzzy`; available ids: alsa:hw:0, alsa:default"
    );
    assert_eq!(
        find_input_device("x", Ok(vec![]), None).unwrap_err().message(),
        "no audio input device matching `x`; available ids: (none)"
    );
}

#[test]
fn ids_are_tried_before_names() {
    let listed = vec![device("b", Some("a")), device("x", Some("b"))];
    assert_eq!(
        find_input_device("b", Ok(listed.clone()), None),
        Ok(Pick::Listed(1))
    );
    assert_eq!(
        find_input_device("x", Ok(listed.clone()), None),
        Ok(Pick::Listed(1))
    );
    assert_eq!(
        find_input_device(
            "alsa:default",
            Ok(listed.clone()),
            Some(device("D", Some("alsa:default")))
        ),
        Ok(Pick::HostDefault)
    );
    assert_eq!(
        find_input_device("D", Ok(listed), Some(device("D", None))),
        Ok(Pick::HostDefault)
    );
}

#[test]
fn the_default_prefers_pipewire() {
    let listed = vec![device("hw", Some("alsa:hw")), device("pw", Some("alsa:pipewire"))];
    let fallback = device("def", Some("alsa:default"));
    assert_eq!(
        find_input_device("default", Ok(listed.clone()), Some(fallback.clone())),
        Ok(Pick::Listed(1))
    );
    assert_eq!(
        find_input_device("default", Ok(vec![]), Some(fallback.clone())),
        Ok(Pick::HostDefault)
    );
    assert_eq!(
        find_input_device("default", Err("busy".into()), Some(fallback.clone())),
        Ok(Pick::HostDefault)
    );
    assert_eq!(
        find_input_device("default", Ok(vec![]), None)
            .unwrap_err()
            .message(),
        "no default audio input device"
    );
    assert_eq!(
        find_input_device("hw", Err("busy".into()), None)
            .unwrap_err()
            .message(),
        "enumerating audio input devices: busy"
    );
    assert_eq!(default_input_device(None, false), Err(AudioError::NoDefault));
    assert_eq!(
        describe_default_input(Some(&listed), Some(&fallback)),
        Some(listed[1].clone())
    );
    assert_eq!(
        describe_default_input(None, Some(&fallback)),
        Some(fallback)
    );
    assert_eq!(describe_default_input(None, None), None);
    let none = InputDevices::default();
    assert!(none.default.is_none() && none.devices.is_empty());
}

#[test]
fn devices_are_described() {
    let d = describe(
        Some("Mic".into()),
        Some("alsa:hw".into()),
        Some((2, 48_000, "F32".into())),
    );
    assert_eq!(d.default_config.as_deref(), Some("2ch 48000Hz F32"));
    assert_eq!(describe(None, None, None).name, "<unnamed>");
}

// ---------------------------------------------------------------- capture

#[test]
fn streams_are_checked_before_they_are_opened() {
    assert_eq!(check_stream(2, SampleFormat::F32, "F32"), Ok(()));
    assert_eq!(check_stream(1, SampleFormat::U16, "U16"), Ok(()));
    assert_eq!(
        check_stream(0, SampleFormat::F32, "F32").unwrap_err().message(),
        "device reports zero input channels"
    );
    assert_eq!(
        check_stream(1, SampleFormat::I64, "I64"),
        Err(StreamError::Unsupported {
            format: "I64".into()
        })
    );
    assert_eq!(
        check_stream(1, SampleFormat::Other, "DsdU8")
            .unwrap_err()
            .message(),
        "unsupported sample format DsdU8"
    );
}

#[test]
fn lost_frames_are_counted() {
    assert_eq!(lost_frames(480, 480), 0);
    assert_eq!(lost_frames(480, 400), 80);
    assert_eq!(lost_frames(0, 0), 0);
}

#[test]
fn the_worker_drains_before_it_ends() {
    assert_eq!(worker_step(10, true), WorkerStep::Process);
    assert_eq!(worker_step(0, true), WorkerStep::Flush);
    assert_eq!(worker_step(0, false), WorkerStep::Sleep);
}

#[test]
fn frames_cross_the_ring_in_order() {
    let (feed, mut drain) = ring();
    let mut intake = Intake::new(feed, 2);
    let mean = |f: &[u32]| {
        (f.iter().map(|b| f32::from_bits(*b)).sum::<f32>() / f.len() as f32).to_bits()
    };
    let bits = |v: &[f32]| v.iter().map(|s| s.to_bits()).collect::<Vec<u32>>();
    assert_eq!(intake.push(&bits(&[1.0, 0.0, 0.5, 0.5]), mean), 0);
    assert_eq!(intake.push(&bits(&[-1.0, -0.5, 9.0]), mean), 0);

    let mut scratch = vec![7u32; 2];
    assert_eq!(
        next_block(&mut drain, &mut scratch, true),
        (WorkerStep::Process, 2)
    );
    assert_eq!(scratch, bits(&[0.5, 0.5]));
    assert_eq!(
        next_block(&mut drain, &mut scratch, true),
        (WorkerStep::Process, 1)
    );
    assert_eq!(scratch, bits(&[-0.75, 0.5]));
    assert_eq!(
        next_block(&mut drain, &mut scratch, false),
        (WorkerStep::Sleep, 0)
    );
    assert_eq!(
        next_block(&mut drain, &mut scratch, true),
        (WorkerStep::Flush, 0)
    );
    assert_eq!(scratch, bits(&[-0.75, 0.5]));
}

#[test]
fn frames_that_do_not_fit_are_counted() {
    let (feed, mut drain) = ring();
    let mut intake = Intake::new(feed, 1);
    let first = |f: &[u32]| f[0];
    let frames: Vec<u32> = (0..RING_FRAMES as u32 - 1).collect();
    assert_eq!(intake.push(&frames, first), 0);
    assert_eq!(intake.push(&[10, 11, 12], first), 2);
    assert_eq!(intake.push(&[13], first), 1);

    let mut scratch = vec![0u32; RING_FRAMES + 1];
    assert_eq!(
        next_block(&mut drain, &mut scratch, false),
        (WorkerStep::Process, RING_FRAMES)
    );
    assert_eq!(scratch[..RING_FRAMES - 1], frames[..]);
    assert_eq!(scratch[RING_FRAMES - 1], 10);
    assert_eq!(intake.push(&[14], first), 0);
}

#[test]
fn a_ring_that_was_emptied_has_room_again() {
    let (feed, mut drain) = ring();
    let mut intake = Intake::new(feed, 1);
    let first = |f: &[u32]| f[0];
    let frames = vec![5u32; RING_FRAMES / 2 + 1];
    let mut scratch = vec![0u32; RING_FRAMES];
    // More frames in all than the ring holds, and none is lost.
    for _ in 0..5 {
        assert_eq!(intake.push(&frames, first), 0);
        assert_eq!(
            next_block(&mut drain, &mut scratch, true),
            (WorkerStep::Process, frames.len())
        );
    }
    assert_eq!(
        next_block(&mut drain, &mut scratch, true),
        (WorkerStep::Flush, 0)
    );
}

#[test]
fn levels_are_measured_over_a_window() {
    let mut w = LevelWindow::new();
    assert!(w.take(&[0u8; 1599]).is_none());
    let window = w.take(&[1u8; 5]).unwrap();
    assert_eq!(window.len(), 1604);
    assert_eq!(window[1599], 1);
    assert!(w.take(&[2u8; 10]).is_none());
    assert_eq!(w.gathered.len(), 10);
}

// ---------------------------------------------------------------- engines

#[test]
fn transcripts_are_trimmed() {
    assert_eq!(Transcript::of("  hi\n").text, "hi");
    assert_eq!(Transcript::default().text, "");
    assert_eq!(Transcript::of("x").language, None);
    assert!(worth_running(1) && !worth_running(0));
}

#[test]
fn engine_problems_are_explained() {
    let mut config = EngineConfig::default();
    assert_eq!(check_backend(&config), Ok(()));
    config.backend = EngineBackend::Whisper;
    assert_eq!(
        check_backend(&config).unwrap_err().message(),
        "the whisper backend is not built in yet (milestone M8); set engine.backend = \"parakeet\""
    );
    assert_eq!(check_model_dir("/m", true), Ok(()));
    assert_eq!(
        check_model_dir("/m", false).unwrap_err().message(),
        "model directory /m does not exist — run `stt model download`"
    );
    assert_eq!(
        EngineError::Loading {
            dir: "/m".into(),
            error: "bad".into()
        }
        .message(),
        "loading the Parakeet model from /m: bad"
    );
    assert_eq!(
        EngineError::NoModelsDir(PathError::NoBaseDirectories).message(),
        "could not determine XDG base directories"
    );
}

#[test]
fn models_are_labelled_by_their_directory() {
    for path in [
        "/a/parakeet", "/a/b/", "b//", "a/.", "a/..", "..", ".", "/", "", "./x", "x/./.", "a/../b",
    ] {
        let expected = std::path::Path::new(path)
            .file_name()
            .and_then(|n| n.to_str())
            .unwrap_or("parakeet-tdt")
            .to_string();
        assert_eq!(label(path), expected, "{path:?}");
    }
}

#[test]
fn a_stray_fp32_file_is_reported() {
    let found = |a: bool, b: bool, c: bool| {
        describe_weights(&Weights {
            encoder_model: a,
            encoder: b,
            encoder_model_int8: c,
        })
    };
    assert_eq!(found(true, true, true), "fp32 (encoder-model.onnx)");
    assert_eq!(found(false, true, true), "fp32 (encoder.onnx)");
    assert_eq!(found(false, false, true), "int8 (encoder-model.int8.onnx)");
    assert_eq!(found(false, false, false), "unknown");
}

#[test]
fn missing_providers_degrade_to_the_cpu() {
    let none = Providers {
        openvino: false,
        webgpu: false,
        cuda: false,
    };
    assert_eq!(
        map_provider(ExecutionProvider::Cpu, none),
        (ExecutionProvider::Cpu, None)
    );
    let (provider, warning) = map_provider(ExecutionProvider::OpenVino, none);
    assert_eq!(provider, ExecutionProvider::Cpu);
    assert_eq!(
        warning.unwrap(),
        "execution_provider = \"openvino\" but this build lacks the `openvino` feature; falling back to CPU"
    );
    let cuda = Providers { cuda: true, ..none };
    assert_eq!(
        map_provider(ExecutionProvider::Cuda, cuda),
        (ExecutionProvider::Cuda, None)
    );
    assert_eq!(
        map_provider(ExecutionProvider::WebGpu, cuda).0,
        ExecutionProvider::Cpu
    );
}

#[test]
fn chunks_depend_on_the_input_alone() {
    let input: Vec<u32> = (0..3 * CHUNK as u32 + 17).collect();
    let mut seen: Vec<(Vec<Vec<u32>>, Vec<u32>)> = Vec::new();
    for slice in [1usize, 7, 1000, CHUNK, 5000] {
        let mut r = Resample::new(48_000).unwrap();
        let mut chunks = Vec::new();
        for part in input.chunks(slice) {
            chunks.extend(r.push(part).chunks);
        }
        let tail = r.finish(0).unwrap();
        assert_eq!(tail.partial, 17);
        seen.push((chunks, tail.chunk));
    }
    assert!(seen.iter().all(|s| *s == seen[0]));
    assert_eq!(seen[0].0.concat(), input[..3 * CHUNK]);
}
