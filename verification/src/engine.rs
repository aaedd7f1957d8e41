//! Recognizers: which one is loaded, from where, and how it is named.

use vstd::prelude::*;
use crate::config::{EngineBackend, EngineConfig, ExecutionProvider};
use crate::paths::PathError;
use crate::text;

verus! {

/// What was said.
#[derive(Debug, Clone, PartialEq, Eq)]
pub struct Transcript {
    pub text: String,
    /// Detected language, when the model reports one.
    pub language: Option<String>,
}

impl Default for Transcript {
    fn default() -> (r: Self)
        ensures
            r.text@.len() == 0,
            r.language is None,
    {
        Transcript { text: String::new(), language: None }
    }
}

impl Transcript {
    /// The transcript that a model's raw text gives.
    pub fn of(raw: &str) -> (r: Self)
        ensures
            r.text@ == text::trimmed(raw@),
            r.language is None,
    {
        Transcript { text: text::trim(raw), language: None }
    }
}

/// Whether there is anything to run a model on.
pub fn worth_running(samples: usize) -> (r: bool)
    ensures
        r == (samples > 0),
{
    samples > 0
}

/// Longest audio a recognizer handles well in one call, in seconds: it is
/// trained on windows of four to five minutes, and quality falls away beyond.
pub const MAX_SEGMENT_SECS: u32 = 240;

/// Why a recognizer cannot be loaded.
#[derive(Debug, Clone, PartialEq, Eq)]
pub enum EngineError {
    /// This backend is not built in.
    NoWhisper,
    /// There is no place for models.
    NoModelsDir(PathError),
    /// The model is not there.
    NoModel { dir: String },
    /// The model does not load.
    Loading { dir: String, error: String },
}

impl EngineError {
    /// The error in words.
    pub open spec fn text(self) -> Seq<char> {
        match self {
            EngineError::NoWhisper =>
                "the whisper backend is not built in yet (milestone M8); set engine.backend = \"parakeet\""@,
            EngineError::NoModelsDir(e) => e.text(),
            EngineError::NoModel { dir } => "model directory "@ + dir@
                + " does not exist — run `stt model download`"@,
            EngineError::Loading { dir, error } => "loading the Parakeet model from "@ + dir@
                + ": "@ + error@,
        }
    }

    /// The error in words.
    pub fn message(&self) -> (r: String)
        ensures
            r@ == self.text(),
    {
        match self {
            EngineError::NoWhisper =>
                "the whisper backend is not built in yet (milestone M8); set engine.backend = \"parakeet\"".to_owned(),
            EngineError::NoModelsDir(e) => e.message(),
            EngineError::NoModel { dir } => {
                let mut m = "model directory ".to_owned();
                m.append(dir.as_str());
                m.append(" does not exist — run `stt model download`");
                m
            },
            EngineError::Loading { dir, error } => {
                let mut m = "loading the Parakeet model from ".to_owned();
                m.append(dir.as_str());
                m.append(": ");
                m.append(error.as_str());
                m
            },
        }
    }
}

/// Whether the configured recognizer is one that is built in.
pub fn check_backend(config: &EngineConfig) -> (r: Result<(), EngineError>)
    ensures
        r == match config.backend {
            EngineBackend::Parakeet => Ok::<(), EngineError>(()),
            EngineBackend::Whisper => Err::<(), EngineError>(EngineError::NoWhisper),
        },
{
    match config.backend {
        EngineBackend::Parakeet => Ok(()),
        EngineBackend::Whisper => Err(EngineError::NoWhisper),
    }
}

/// Whether there is a model to load; `is_dir` says whether `dir` is a
/// directory.
pub fn check_model_dir(dir: &str, is_dir: bool) -> (r: Result<(), EngineError>)
    ensures
        if is_dir {
            r is Ok
        } else {
            r matches Err(EngineError::NoModel { dir: d }) && d@ == dir@
        },
{
    if is_dir {
        Ok(())
    } else {
        Err(EngineError::NoModel { dir: dir.to_owned() })
    }
}

/// Whether a path component stands for itself: it is not empty and not `.`.
pub open spec fn counts(part: Seq<char>) -> bool {
    part.len() > 0 && part != "."@
}

/// The last component of a path that counts, among the first `n` of them.
pub open spec fn last_counting(parts: Seq<Seq<char>>, n: int) -> Option<Seq<char>>
    decreases n,
{
    if n <= 0 {
        None
    } else if counts(parts[n - 1]) {
        Some(parts[n - 1])
    } else {
        last_counting(parts, n - 1)
    }
}

/// The file name of a path; none when it ends in `..` or is empty or the root.
pub open spec fn file_name(path: Seq<char>) -> Option<Seq<char>> {
    let parts = text::split_on(path, '/');
    match last_counting(parts, parts.len() as int) {
        Some(name) if name != ".."@ => Some(name),
        _ => None,
    }
}

/// What a loaded model is called: the name of its directory.
pub fn label(dir: &str) -> (r: String)
    ensures
        r@ == match file_name(dir@) {
            Some(name) => name,
            None => "parakeet-tdt"@,
        },
{
    let parts = text::split(dir, '/');
    let ghost views = text::views(parts@);
    let mut n: usize = parts.len();
    assert(views.len() == parts@.len());
    while n > 0 && (parts[n - 1].as_str().is_empty() || text::same(parts[n - 1].as_str(), "."))
        invariant
            n <= parts@.len(),
            views == text::views(parts@),
            last_counting(views, views.len() as int) == last_counting(views, n as int),
        decreases n,
    {
        assert(views[n - 1] == parts@[n - 1]@);
        n -= 1;
    }
    if n > 0 {
        assert(views[n - 1] == parts@[n - 1]@);
        if !text::same(parts[n - 1].as_str(), "..") {
            return parts[n - 1].clone();
        }
    }
    "parakeet-tdt".to_owned()
}

/// Which weight files exist in a model's directory.
pub struct Weights {
    /// `encoder-model.onnx`
    pub encoder_model: bool,
    /// `encoder.onnx`
    pub encoder: bool,
    /// `encoder-model.int8.onnx`
    pub encoder_model_int8: bool,
}

/// Report which weight files are picked up.
///
/// The recognizer looks for `encoder-model.onnx` before
/// `encoder-model.int8.onnx`, so a stray fp32 file silently overrides an int8
/// download. Logging the choice makes that visible instead of mysterious.
pub fn describe_weights(found: &Weights) -> (r: &'static str)
    ensures
        r@ == weights_text(*found),
{
    if found.encoder_model {
        "fp32 (encoder-model.onnx)"
    } else if found.encoder {
        "fp32 (encoder.onnx)"
    } else if found.encoder_model_int8 {
        "int8 (encoder-model.int8.onnx)"
    } else {
        "unknown"
    }
}

/// Which execution providers a build has besides the CPU.
#[derive(Debug, Clone, Copy, PartialEq, Eq, Structural)]
pub struct Providers {
    pub openvino: bool,
    pub webgpu: bool,
    pub cuda: bool,
}

/// Whether a build has a provider.
pub open spec fn built_in(providers: Providers, p: ExecutionProvider) -> bool {
    match p {
        ExecutionProvider::Cpu => true,
        ExecutionProvider::OpenVino => providers.openvino,
        ExecutionProvider::WebGpu => providers.webgpu,
        ExecutionProvider::Cuda => providers.cuda,
    }
}

/// What a provider is called in the configuration.
pub open spec fn provider_name(p: ExecutionProvider) -> Seq<char> {
    match p {
        ExecutionProvider::Cpu => "cpu"@,
        ExecutionProvider::OpenVino => "openvino"@,
        ExecutionProvider::WebGpu => "webgpu"@,
        ExecutionProvider::Cuda => "cuda"@,
    }
}

/// The provider to use, and a warning when it is not the one that was asked
/// for: one that is not built in degrades to the CPU rather than failing or
/// silently misleading.
pub fn map_provider(requested: ExecutionProvider, providers: Providers) -> (r: (
    ExecutionProvider,
    Option<String>,
))
    ensures
        if built_in(providers, requested) {
            r.0 == requested && r.1 is None
        } else {
            &&& r.0 is Cpu
            &&& r.1 matches Some(w) && w@ == "execution_provider = \""@ + provider_name(requested)
                + "\" but this build lacks the `"@ + provider_name(requested)
                + "` feature; falling back to CPU"@
        },
{
    let (has, name): (bool, &'static str) = match requested {
        ExecutionProvider::Cpu => (true, "cpu"),
        ExecutionProvider::OpenVino => (providers.openvino, "openvino"),
        ExecutionProvider::WebGpu => (providers.webgpu, "webgpu"),
        ExecutionProvider::Cuda => (providers.cuda, "cuda"),
    };
    if has {
        return (requested, None);
    }
    let mut w = "execution_provider = \"".to_owned();
    w.append(name);
    w.append("\" but this build lacks the `");
    w.append(name);
    w.append("` feature; falling back to CPU");
    (ExecutionProvider::Cpu, Some(w))
}

// ---------------------------------------------------------------- laws

/// A model is called what its directory is called, wherever that lies; slashes
/// and dots behind the name do not matter, and a path that ends in `..` has no
/// name.
pub proof fn law_named_after_its_directory(above: Seq<char>, name: Seq<char>)
    requires
        !name.contains('/'),
        name.len() > 0,
        name != seq!['.'],
    ensures
        name != seq!['.', '.'] ==> file_name(above + seq!['/'] + name) == Some(name),
        name == seq!['.', '.'] ==> file_name(above + seq!['/'] + name) is None,
        file_name(above + seq!['/']) == file_name(above),
        file_name(above + seq!['/', '.']) == file_name(above),
{
    reveal_strlit(".");
    reveal_strlit("..");
    assert("."@ =~= seq!['.']);
    assert(".."@ =~= seq!['.', '.']);
    let parts = text::split_on(above, '/');
    let n = parts.len() as int;
    text::law_one_more_part(above, name, '/');
    lemma_counting_is_local(parts, parts.push(name), n);
    let none = Seq::<char>::empty();
    text::law_one_more_part(above, none, '/');
    assert(above + seq!['/'] + none =~= above + seq!['/']);
    lemma_counting_is_local(parts, parts.push(none), n);
    let dot = seq!['.'];
    text::law_one_more_part(above, dot, '/');
    assert(above + seq!['/'] + dot =~= above + seq!['/', '.']);
    lemma_counting_is_local(parts, parts.push(dot), n);
}

proof fn lemma_counting_is_local(a: Seq<Seq<char>>, b: Seq<Seq<char>>, n: int)
    requires
        n <= a.len(),
        n <= b.len(),
        forall|i: int| 0 <= i < n ==> a[i] == b[i],
    ensures
        last_counting(a, n) == last_counting(b, n),
    decreases n,
{
    if n > 0 {
        lemma_counting_is_local(a, b, n - 1);
    }
}

/// Every build has the CPU, and another provider exactly if that one was built
/// in; no two providers share a name.
pub proof fn law_providers_are_told_apart(
    providers: Providers,
    p: ExecutionProvider,
    q: ExecutionProvider,
)
    ensures
        built_in(providers, p) <==> p is Cpu || (p is OpenVino && providers.openvino) || (p is WebGpu
            && providers.webgpu) || (p is Cuda && providers.cuda),
        provider_name(p) == provider_name(q) ==> p == q,
{
    reveal_strlit("cpu");
    reveal_strlit("openvino");
    reveal_strlit("webgpu");
    reveal_strlit("cuda");
    assert("cpu"@.len() == 3 && "openvino"@.len() == 8 && "webgpu"@.len() == 6 && "cuda"@.len()
        == 4);
}

/// An error names the directory that it is about, and repeats what was found
/// wrong.
pub proof fn law_errors_name_the_model(e: EngineError)
    ensures
        e matches EngineError::NoModel { dir } ==> text::has_prefix(
            e.text(),
            "model directory "@ + dir@,
        ),
        e matches EngineError::Loading { dir, error } ==> text::has_prefix(
            e.text(),
            "loading the Parakeet model from "@ + dir@,
        ) && crate::paths::has_suffix(e.text(), error@),
        e matches EngineError::NoModelsDir(cause) ==> e.text() == cause.text(),
{
    let t = e.text();
    match e {
        EngineError::NoModel { dir } => {
            let p = "model directory "@ + dir@;
            assert(t.take(p.len() as int) =~= p);
        },
        EngineError::Loading { dir, error } => {
            let p = "loading the Parakeet model from "@ + dir@;
            assert(t.take(p.len() as int) =~= p);
            assert(t.skip(t.len() - error@.len()) =~= error@);
        },
        _ => {},
    }
}

/// Which weight files are picked up, in words.
pub open spec fn weights_text(found: Weights) -> Seq<char> {
    if found.encoder_model {
        "fp32 (encoder-model.onnx)"@
    } else if found.encoder {
        "fp32 (encoder.onnx)"@
    } else if found.encoder_model_int8 {
        "int8 (encoder-model.int8.onnx)"@
    } else {
        "unknown"@
    }
}

/// Full-precision weights are picked up before quantized ones, whichever other
/// files there are; nothing is claimed where there are none.
pub proof fn law_full_precision_comes_first(found: Weights)
    ensures
        found.encoder_model ==> weights_text(found) == "fp32 (encoder-model.onnx)"@,
        !found.encoder_model && found.encoder ==> weights_text(found) == "fp32 (encoder.onnx)"@,
        !found.encoder_model && !found.encoder && found.encoder_model_int8 ==> weights_text(found)
            == "int8 (encoder-model.int8.onnx)"@,
        !found.encoder_model && !found.encoder && !found.encoder_model_int8 ==> weights_text(found)
            == "unknown"@,
{
}

} // verus!
