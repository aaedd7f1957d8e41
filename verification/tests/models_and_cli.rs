use stt_linux::cli::{
    config_step, dropped_warning, human_bytes, model_download, model_list, model_to_download,
    record_end, recording_over, status_line, BarStep, Bars, ConfigStep, DownloadStart, RecordEnd,
};
use stt_linux::ipc::{DaemonState, StatusReport};
use stt_linux::model::{
    all_models, download, is_present, parakeet_tdt_v3_fp32, parakeet_tdt_v3_int8, part_of,
    spec_by_name, Metadata, ReadStep, Transfer, TransferError,
};

fn file(len: u64) -> Option<Metadata> {
    Some(Metadata { is_file: true, len })
}

// ---------------------------------------------------------------- models

#[test]
fn urls_point_at_the_right_repo() {
    let url = parakeet_tdt_v3_int8().url_for("vocab.txt");
    assert_eq!(
        url,
        "https://huggingface.co/istupakov/parakeet-tdt-0.6b-v3-onnx/resolve/main/vocab.txt"
    );
}

#[test]
fn int8_spec_excludes_fp32_weights() {
    // The recognizer prefers `encoder-model.onnx` over the int8 file, so the
    // int8 spec must not ship it or int8 would never be selected.
    let spec = parakeet_tdt_v3_int8();
    let names: Vec<_> = spec.files.iter().map(|f| f.name).collect();
    assert!(names.contains(&"encoder-model.int8.onnx"));
    assert!(!names.contains(&"encoder-model.onnx"));
    assert!(!names.contains(&"encoder-model.onnx.data"));
}

#[test]
fn every_spec_ships_a_vocab() {
    // Loading hard-fails without vocab.txt.
    for spec in all_models() {
        assert!(
            spec.files.iter().any(|f| f.name == "vocab.txt"),
            "{} is missing vocab.txt",
            spec.dir_name
        );
    }
}

#[test]
fn completeness_tracks_files_on_disk() {
    let spec = parakeet_tdt_v3_int8();
    let nothing = vec![None; spec.files.len()];
    assert!(!spec.is_complete(&nothing));
    assert_eq!(spec.missing_files(&nothing).len(), spec.files.len());

    let everything = vec![file(1); spec.files.len()];
    assert!(spec.is_complete(&everything));
    assert!(spec.missing_files(&everything).is_empty());
}

#[test]
fn empty_files_do_not_count_as_present() {
    // A zero-byte file is what a killed download leaves behind.
    let spec = parakeet_tdt_v3_int8();
    assert!(!spec.is_complete(&vec![file(0); spec.files.len()]));
    assert!(!is_present(Some(Metadata {
        is_file: false,
        len: 4096
    })));
    assert!(is_present(file(1)));
}

#[test]
fn specs_are_addressable_by_name() {
    assert!(spec_by_name("parakeet-tdt-0.6b-v3").is_some());
    assert!(spec_by_name("nonexistent").is_none());
    assert_eq!(
        spec_by_name("parakeet-tdt-0.6b-v3-fp32").unwrap().files.len(),
        4
    );
}

#[test]
fn sizes_add_up() {
    assert_eq!(parakeet_tdt_v3_int8().total_bytes(), 640_100_000);
    assert_eq!(parakeet_tdt_v3_fp32().total_bytes(), 2_472_100_000);
}

#[test]
fn unfinished_files_have_names_of_their_own() {
    for name in [
        "encoder-model.int8.onnx",
        "encoder-model.onnx.data",
        "vocab.txt",
        "plain",
        ".hidden",
        "a.",
        "x.y",
    ] {
        assert_eq!(
            part_of(name),
            std::path::Path::new(name)
                .with_extension("part")
                .to_str()
                .unwrap(),
            "{name}"
        );
    }
    for spec in all_models() {
        let finals: Vec<String> = spec.files.iter().map(|f| f.name.to_string()).collect();
        let parts: Vec<String> = spec.files.iter().map(|f| part_of(f.name)).collect();
        for (i, part) in parts.iter().enumerate() {
            assert!(!finals.contains(part));
            assert!(!parts[i + 1..].contains(part));
        }
    }
}

#[test]
fn a_download_fetches_what_is_missing() {
    let spec = parakeet_tdt_v3_int8();
    let fetches = download(&spec, "/m/p", &vec![file(9), None, file(0)]);
    assert_eq!(fetches.len(), 2);
    assert_eq!(fetches[0].name, "decoder_joint-model.int8.onnx");
    assert_eq!(fetches[0].url, spec.url_for("decoder_joint-model.int8.onnx"));
    assert_eq!(fetches[0].part, "/m/p/decoder_joint-model.int8.part");
    assert_eq!(fetches[0].dest, "/m/p/decoder_joint-model.int8.onnx");
    assert_eq!(fetches[1].name, "vocab.txt");
    assert_eq!(fetches[1].part, "/m/p/vocab.part");
}

#[test]
fn a_transfer_must_be_as_long_as_announced() {
    let mut t = Transfer::start("u", true, "200 OK", Some(10)).ok().unwrap();
    assert_eq!(t.read(4), ReadStep::Write { done: 4 });
    assert_eq!(
        t.finish().unwrap_err().message(),
        "truncated download: got 4 of 10 bytes"
    );
    assert_eq!(t.read(6), ReadStep::Write { done: 10 });
    assert_eq!(t.read(0), ReadStep::End);
    assert_eq!(t.finish(), Ok(()));
    let mut open = Transfer::start("u", true, "200 OK", None).ok().unwrap();
    open.read(3);
    assert_eq!(open.finish(), Ok(()));
    let Err(e) = Transfer::start("http://u", false, "404 Not Found", None) else {
        panic!("accepted");
    };
    assert_eq!(e.message(), "http://u returned HTTP 404 Not Found");
    assert_eq!(
        TransferError::Truncated { got: 0, expected: 1 }.message(),
        "truncated download: got 0 of 1 bytes"
    );
}

// ---------------------------------------------------------------- sizes

fn by_division(n: u64) -> String {
    const UNITS: [&str; 4] = ["B", "KB", "MB", "GB"];
    let mut v = n as f64;
    let mut u = 0;
    while v >= 1024.0 && u < UNITS.len() - 1 {
        v /= 1024.0;
        u += 1;
    }
    format!("{v:.0} {}", UNITS[u])
}

#[test]
fn sizes_are_what_double_precision_gives() {
    assert_eq!(human_bytes(640_100_000), "610 MB");
    assert_eq!(human_bytes(2_472_100_000), "2 GB");
    assert_eq!(human_bytes(0), "0 B");
    assert_eq!(human_bytes(1023), "1023 B");
    assert_eq!(human_bytes(1024), "1 KB");
    assert_eq!(human_bytes(1536), "2 KB");
    assert_eq!(human_bytes(2560), "2 KB");
    assert_eq!(human_bytes(1024 * 1024 - 1), "1024 KB");
    let mut n: u64 = 1;
    for i in 0..20_000u64 {
        n = n.wrapping_mul(6364136223846793005).wrapping_add(1442695040888963407);
        let shifted = n >> (i % 64);
        assert_eq!(human_bytes(shifted), by_division(shifted), "{shifted}");
    }
    for k in 0..64 {
        for d in [-1i128, 0, 1, 511, 512, 513] {
            let v = (1i128 << k) + d;
            if (0..=u64::MAX as i128).contains(&v) {
                assert_eq!(human_bytes(v as u64), by_division(v as u64), "{v}");
            }
        }
    }
    assert_eq!(human_bytes(u64::MAX), by_division(u64::MAX));
}

// ---------------------------------------------------------------- commands

#[test]
fn models_are_listed_with_their_state() {
    let models = all_models();
    let found = vec![vec![file(1), None, file(2)], vec![None, None, None, None]];
    let text = model_list("/models", &models, &found);
    let expected = format!(
        "models directory: /models\n\n  {:<28} {:>7}  {}\n      {}\n  {:<28} {:>7}  {}\n      {}\n",
        "parakeet-tdt-0.6b-v3",
        "610 MB",
        "incomplete (1 of 3 files)",
        "Parakeet TDT 0.6B v3 (int8) — 25 European languages",
        "parakeet-tdt-0.6b-v3-fp32",
        "2 GB",
        "not downloaded",
        "Parakeet TDT 0.6B v3 (fp32) — larger, slower on CPU",
    );
    assert_eq!(text, expected);
    let all = model_list("/m", &models, &vec![vec![file(1); 3], vec![file(1); 4]]);
    assert_eq!(all.matches("installed").count(), 2);
}

#[test]
fn downloads_start_with_a_name() {
    assert_eq!(
        model_to_download(None, "parakeet-tdt-0.6b-v3").ok().unwrap().dir_name,
        "parakeet-tdt-0.6b-v3"
    );
    assert_eq!(
        model_to_download(Some("parakeet-tdt-0.6b-v3-fp32"), "x")
            .ok()
            .unwrap()
            .dir_name,
        "parakeet-tdt-0.6b-v3-fp32"
    );
    assert_eq!(
        model_to_download(Some("whisper"), "parakeet-tdt-0.6b-v3")
            .err()
            .unwrap(),
        "unknown model `whisper`; known models: parakeet-tdt-0.6b-v3, parakeet-tdt-0.6b-v3-fp32"
    );
}

#[test]
fn a_complete_model_is_not_downloaded_again() {
    let spec = parakeet_tdt_v3_int8();
    match model_download(&spec, "/m/p", &vec![file(1); 3]) {
        DownloadStart::Installed { message } => {
            assert_eq!(message, "parakeet-tdt-0.6b-v3 is already installed at /m/p")
        }
        DownloadStart::Fetch { .. } => panic!("fetched again"),
    }
    match model_download(&spec, "/m/p", &vec![None; 3]) {
        DownloadStart::Fetch { message } => assert_eq!(
            message,
            "Downloading Parakeet TDT 0.6B v3 (int8) — 25 European languages (~610 MB) into /m/p"
        ),
        DownloadStart::Installed { .. } => panic!("not there yet"),
    }
}

#[test]
fn every_file_gets_one_bar() {
    let mut bars = Bars::new();
    assert_eq!(
        bars.progress("a", 1, Some(10)),
        BarStep { finish_previous: false, add: Some(10), length: Some(10), position: 1 }
    );
    assert_eq!(
        bars.progress("a", 5, Some(10)),
        BarStep { finish_previous: false, add: None, length: Some(10), position: 5 }
    );
    assert_eq!(
        bars.progress("b", 2, None),
        BarStep { finish_previous: true, add: Some(0), length: None, position: 2 }
    );
}

#[test]
fn recordings_end_by_time_or_by_key() {
    assert!(!recording_over(None, 1_000_000, false));
    assert!(recording_over(None, 0, true));
    assert!(!recording_over(Some(10), 9, false));
    assert!(recording_over(Some(10), 10, false));
    assert!(recording_over(Some(10), 0, true));
}

#[test]
fn recordings_that_went_wrong_are_named() {
    assert_eq!(dropped_warning(0), None);
    assert_eq!(
        dropped_warning(12).unwrap(),
        "warning: dropped 12 frames — capture could not keep up"
    );
    assert_eq!(record_end(0, true), RecordEnd::Nothing);
    assert_eq!(record_end(5, true), RecordEnd::WriteSilence);
    assert_eq!(record_end(5, false), RecordEnd::Write);
}

#[test]
fn the_status_is_one_line() {
    let mut s = StatusReport {
        state: DaemonState::Recording,
        engine: "parakeet".into(),
        injector: Some("wtype".into()),
        version: "0.1.0".into(),
        recording_ms: Some(2400),
    };
    assert_eq!(
        status_line(&s, Some("2.4")),
        "recording · parakeet · 2.4s · via wtype"
    );
    s.injector = None;
    s.state = DaemonState::Ready;
    assert_eq!(status_line(&s, None), "ready · parakeet");
}

#[test]
fn an_existing_config_is_not_overwritten() {
    assert_eq!(config_step("/c", true, true, true), ConfigStep::PrintPath);
    assert_eq!(config_step("/c", false, false, true), ConfigStep::Show);
    assert_eq!(config_step("/c", false, true, false), ConfigStep::Write);
    assert_eq!(
        config_step("/c", false, true, true),
        ConfigStep::Refuse {
            message: "/c already exists; not overwriting".into()
        }
    );
}
