//! Model definitions and the rules of downloading.
//!
//! Models are never bundled — they are NVIDIA's, under their own licence — so
//! the first run fetches them from Hugging Face into the models directory.

use vstd::prelude::*;
use crate::paths;
use crate::text;

verus! {

/// One file to fetch.
#[derive(Debug, Clone, Copy)]
pub struct ModelFile {
    pub name: &'static str,
    /// Approximate size, for the progress display before headers arrive.
    pub approx_bytes: u64,
}

/// A downloadable model variant.
#[derive(Debug, Clone)]
pub struct ModelSpec {
    /// Directory name under the models dir.
    pub dir_name: &'static str,
    /// Hugging Face repo, e.g. `istupakov/parakeet-tdt-0.6b-v3-onnx`.
    pub repo: &'static str,
    pub revision: &'static str,
    pub files: Vec<ModelFile>,
    pub description: &'static str,
}

/// What is known of a file that exists.
#[derive(Debug, Clone, Copy, PartialEq, Eq, Structural)]
pub struct Metadata {
    pub is_file: bool,
    pub len: u64,
}

/// Whether a file is there and not empty. A zero-byte file is what a killed
/// download leaves behind.
pub open spec fn present(file: Option<Metadata>) -> bool {
    file matches Some(m) && m.is_file && m.len > 0
}

/// Whether a file is there and not empty.
pub fn is_present(file: Option<Metadata>) -> (r: bool)
    ensures
        r == present(file),
{
    match file {
        Some(m) => m.is_file && m.len > 0,
        None => false,
    }
}

/// The sum of the approximate sizes of some files.
pub open spec fn bytes_of(files: Seq<ModelFile>) -> nat
    decreases files.len(),
{
    if files.len() == 0 {
        0
    } else {
        bytes_of(files.drop_last()) + files.last().approx_bytes as nat
    }
}

proof fn lemma_bytes_grow(files: Seq<ModelFile>, n: int)
    requires
        0 <= n <= files.len(),
    ensures
        bytes_of(files.take(n)) <= bytes_of(files),
    decreases files.len() - n,
{
    if n < files.len() {
        lemma_bytes_grow(files, n + 1);
        assert(files.take(n + 1).drop_last() =~= files.take(n));
    } else {
        assert(files.take(n) =~= files);
    }
}

/// The names of some files.
pub open spec fn names(files: Seq<ModelFile>) -> Seq<Seq<char>> {
    files.map_values(|f: ModelFile| f.name@)
}

/// The names, in order, of the files among the first `n` that are not present.
pub open spec fn missing(
    files: Seq<ModelFile>,
    found: Seq<Option<Metadata>>,
    n: int,
) -> Seq<Seq<char>>
    decreases n,
{
    if n <= 0 {
        Seq::empty()
    } else if present(found[n - 1]) {
        missing(files, found, n - 1)
    } else {
        missing(files, found, n - 1).push(files[n - 1].name@)
    }
}

impl ModelSpec {
    /// Where a file is fetched from.
    pub open spec fn url(self, file: Seq<char>) -> Seq<char> {
        "https://huggingface.co/"@ + self.repo@ + "/resolve/"@ + self.revision@ + "/"@ + file
    }

    /// Where a file is fetched from.
    pub fn url_for(&self, file: &str) -> (r: String)
        ensures
            r@ == self.url(file@),
    {
        let mut url = "https://huggingface.co/".to_owned();
        url.append(self.repo);
        url.append("/resolve/");
        url.append(self.revision);
        url.append("/");
        url.append(file);
        url
    }

    /// Approximate size of the whole model.
    pub fn total_bytes(&self) -> (r: u64)
        requires
            bytes_of(self.files@) <= u64::MAX,
        ensures
            r == bytes_of(self.files@),
    {
        let mut sum: u64 = 0;
        let mut i: usize = 0;
        while i < self.files.len()
            invariant
                i <= self.files@.len(),
                sum == bytes_of(self.files@.take(i as int)),
                bytes_of(self.files@) <= u64::MAX,
            decreases self.files@.len() - i,
        {
            proof {
                lemma_bytes_grow(self.files@, i + 1);
                assert(self.files@.take(i + 1).drop_last() =~= self.files@.take(i as int));
            }
            sum += self.files[i].approx_bytes;
            i += 1;
        }
        assert(self.files@.take(i as int) =~= self.files@);
        sum
    }

    /// Whether every file is already present and non-empty, given what is
    /// known of each.
    pub fn is_complete(&self, found: &Vec<Option<Metadata>>) -> (r: bool)
        requires
            found@.len() == self.files@.len(),
        ensures
            r == forall|i: int| 0 <= i < found@.len() ==> present(#[trigger] found@[i]),
    {
        let mut i: usize = 0;
        while i < found.len()
            invariant
                i <= found@.len(),
                forall|j: int| 0 <= j < i ==> present(#[trigger] found@[j]),
            decreases found@.len() - i,
        {
            if !is_present(found[i]) {
                assert(!present(found@[i as int]));
                return false;
            }
            i += 1;
        }
        true
    }

    /// The files still to be fetched, given what is known of each.
    ///
    /// Already-present files are skipped, so an interrupted download resumes
    /// at file granularity.
    pub fn missing_files(&self, found: &Vec<Option<Metadata>>) -> (r: Vec<&'static str>)
        requires
            found@.len() == self.files@.len(),
        ensures
            text::literals(r@) == missing(self.files@, found@, found@.len() as int),
    {
        let mut r: Vec<&'static str> = Vec::new();
        let mut i: usize = 0;
        assert(text::literals(r@) =~= Seq::<Seq<char>>::empty());
        while i < found.len()
            invariant
                i <= found@.len(),
                found@.len() == self.files@.len(),
                text::literals(r@) == missing(self.files@, found@, i as int),
            decreases found@.len() - i,
        {
            if !is_present(found[i]) {
                let ghost before = r@;
                r.push(self.files[i].name);
                assert(text::literals(r@) =~= text::literals(before).push(
                    self.files@[i as int].name@,
                ));
            }
            i += 1;
        }
        r
    }
}

/// A model is complete exactly when no file is missing.
pub proof fn law_complete_iff_nothing_missing(
    files: Seq<ModelFile>,
    found: Seq<Option<Metadata>>,
)
    requires
        files.len() == found.len(),
    ensures
        (forall|i: int| 0 <= i < found.len() ==> present(#[trigger] found[i])) <==> missing(
            files,
            found,
            found.len() as int,
        ).len() == 0,
{
    lemma_missing(files, found, found.len() as int);
}

proof fn lemma_missing(files: Seq<ModelFile>, found: Seq<Option<Metadata>>, n: int)
    requires
        0 <= n <= found.len(),
    ensures
        missing(files, found, n).len() <= n,
        missing(files, found, n).len() == 0 <==> forall|i: int|
            0 <= i < n ==> present(#[trigger] found[i]),
    decreases n,
{
    if n > 0 {
        lemma_missing(files, found, n - 1);
        if missing(files, found, n - 1).len() > 0 {
            let i = choose|i: int| 0 <= i < n - 1 && !present(#[trigger] found[i]);
            assert(!present(found[i]));
        }
    }
}

// ---------------------------------------------------------------- the models

/// Whether a model is described like this.
pub open spec fn is_model(
    m: ModelSpec,
    dir_name: Seq<char>,
    description: Seq<char>,
    files: Seq<(Seq<char>, u64)>,
) -> bool {
    &&& m.dir_name@ == dir_name
    &&& m.repo@ == "istupakov/parakeet-tdt-0.6b-v3-onnx"@
    &&& m.revision@ == "main"@
    &&& m.description@ == description
    &&& m.files@.map_values(|f: ModelFile| (f.name@, f.approx_bytes)) == files
}

/// The files of the int8 model.
pub open spec fn int8_files() -> Seq<(Seq<char>, u64)> {
    seq![
        ("encoder-model.int8.onnx"@, 620_000_000),
        ("decoder_joint-model.int8.onnx"@, 20_000_000),
        ("vocab.txt"@, 100_000),
    ]
}

/// The files of the fp32 model.
pub open spec fn fp32_files() -> Seq<(Seq<char>, u64)> {
    seq![
        ("encoder-model.onnx"@, 2_000_000),
        ("encoder-model.onnx.data"@, 2_400_000_000),
        ("decoder_joint-model.onnx"@, 70_000_000),
        ("vocab.txt"@, 100_000),
    ]
}

/// Whether a model is the int8 one.
pub open spec fn is_int8(m: ModelSpec) -> bool {
    is_model(
        m,
        "parakeet-tdt-0.6b-v3"@,
        "Parakeet TDT 0.6B v3 (int8) — 25 European languages"@,
        int8_files(),
    )
}

/// Whether a model is the fp32 one.
pub open spec fn is_fp32(m: ModelSpec) -> bool {
    is_model(
        m,
        "parakeet-tdt-0.6b-v3-fp32"@,
        "Parakeet TDT 0.6B v3 (fp32) — larger, slower on CPU"@,
        fp32_files(),
    )
}

/// Parakeet TDT v3, int8 weights — the default.
///
/// Only the int8 files are fetched. The recognizer looks for
/// `encoder-model.onnx` before `encoder-model.int8.onnx`, so downloading the
/// fp32 pair alongside would silently shadow these and quadruple both memory
/// use and latency.
pub fn parakeet_tdt_v3_int8() -> (r: ModelSpec)
    ensures
        is_int8(r),
        bytes_of(r.files@) == 640_100_000,
{
    let files = vec![
        ModelFile { name: "encoder-model.int8.onnx", approx_bytes: 620_000_000 },
        ModelFile { name: "decoder_joint-model.int8.onnx", approx_bytes: 20_000_000 },
        ModelFile { name: "vocab.txt", approx_bytes: 100_000 },
    ];
    assert(files@.map_values(|f: ModelFile| (f.name@, f.approx_bytes)) =~= int8_files());
    proof {
        reveal_with_fuel(bytes_of, 4);
    }
    ModelSpec {
        dir_name: "parakeet-tdt-0.6b-v3",
        repo: "istupakov/parakeet-tdt-0.6b-v3-onnx",
        revision: "main",
        files,
        description: "Parakeet TDT 0.6B v3 (int8) — 25 European languages",
    }
}

/// Parakeet TDT v3, fp32 weights — the fallback if int8 misbehaves.
pub fn parakeet_tdt_v3_fp32() -> (r: ModelSpec)
    ensures
        is_fp32(r),
        bytes_of(r.files@) == 2_472_100_000,
{
    let files = vec![
        ModelFile { name: "encoder-model.onnx", approx_bytes: 2_000_000 },
        ModelFile { name: "encoder-model.onnx.data", approx_bytes: 2_400_000_000 },
        ModelFile { name: "decoder_joint-model.onnx", approx_bytes: 70_000_000 },
        ModelFile { name: "vocab.txt", approx_bytes: 100_000 },
    ];
    assert(files@.map_values(|f: ModelFile| (f.name@, f.approx_bytes)) =~= fp32_files());
    proof {
        reveal_with_fuel(bytes_of, 5);
    }
    ModelSpec {
        dir_name: "parakeet-tdt-0.6b-v3-fp32",
        repo: "istupakov/parakeet-tdt-0.6b-v3-onnx",
        revision: "main",
        files,
        description: "Parakeet TDT 0.6B v3 (fp32) — larger, slower on CPU",
    }
}

/// Every model that can be downloaded.
pub fn all_models() -> (r: Vec<ModelSpec>)
    ensures
        r@.len() == 2,
        is_int8(r@[0]),
        is_fp32(r@[1]),
        bytes_of(r@[0].files@) == 640_100_000,
        bytes_of(r@[1].files@) == 2_472_100_000,
{
    vec![parakeet_tdt_v3_int8(), parakeet_tdt_v3_fp32()]
}

/// The model with this directory name.
pub fn spec_by_name(name: &str) -> (r: Option<ModelSpec>)
    ensures
        if name@ == "parakeet-tdt-0.6b-v3"@ {
            r matches Some(m) && is_int8(m) && bytes_of(m.files@) == 640_100_000
        } else if name@ == "parakeet-tdt-0.6b-v3-fp32"@ {
            r matches Some(m) && is_fp32(m) && bytes_of(m.files@) == 2_472_100_000
        } else {
            r is None
        },
{
    if text::same(name, "parakeet-tdt-0.6b-v3") {
        Some(parakeet_tdt_v3_int8())
    } else if text::same(name, "parakeet-tdt-0.6b-v3-fp32") {
        Some(parakeet_tdt_v3_fp32())
    } else {
        None
    }
}

/// A name that no model has, in words.
pub open spec fn unknown_model_text(name: Seq<char>) -> Seq<char> {
    "unknown model `"@ + name + "`; known models: "@ + "parakeet-tdt-0.6b-v3"@ + ", "@
        + "parakeet-tdt-0.6b-v3-fp32"@
}

/// What to say about a name that no model has.
pub fn unknown_model(name: &str) -> (r: String)
    ensures
        r@ == unknown_model_text(name@),
{
    let mut m = "unknown model `".to_owned();
    m.append(name);
    m.append("`; known models: ");
    m.append("parakeet-tdt-0.6b-v3");
    m.append(", ");
    m.append("parakeet-tdt-0.6b-v3-fp32");
    m
}

/// No model ships weights that would shadow its own: the int8 files hold none
/// of the fp32 files that the recognizer prefers.
pub proof fn law_int8_excludes_fp32_weights(m: ModelSpec)
    requires
        is_int8(m),
    ensures
        names(m.files@).contains("encoder-model.int8.onnx"@),
        !names(m.files@).contains("encoder-model.onnx"@),
        !names(m.files@).contains("encoder-model.onnx.data"@),
{
    lemma_int8_names(m);
    reveal_strlit("encoder-model.int8.onnx");
    reveal_strlit("decoder_joint-model.int8.onnx");
    reveal_strlit("vocab.txt");
    reveal_strlit("encoder-model.onnx");
    reveal_strlit("encoder-model.onnx.data");
    assert(names(m.files@)[0] == "encoder-model.int8.onnx"@);
    assert forall|i: int| 0 <= i < names(m.files@).len() implies #[trigger] names(m.files@)[i]
        != "encoder-model.onnx"@ && names(m.files@)[i] != "encoder-model.onnx.data"@ by {
        let name = names(m.files@)[i];
        assert(name[0] != 'e' || name[14] == 'i');
        assert("encoder-model.onnx"@[0] == 'e' && "encoder-model.onnx"@[14] == 'o');
        assert("encoder-model.onnx.data"@[0] == 'e' && "encoder-model.onnx.data"@[14] == 'o');
    }
}

proof fn lemma_int8_names(m: ModelSpec)
    requires
        is_int8(m),
    ensures
        names(m.files@).len() == 3,
        names(m.files@)[0] == "encoder-model.int8.onnx"@,
        names(m.files@)[1] == "decoder_joint-model.int8.onnx"@,
        names(m.files@)[2] == "vocab.txt"@,
{
    let pairs = m.files@.map_values(|f: ModelFile| (f.name@, f.approx_bytes));
    assert(pairs.len() == m.files@.len());
    assert(pairs[0].0 == m.files@[0].name@);
    assert(pairs[1].0 == m.files@[1].name@);
    assert(pairs[2].0 == m.files@[2].name@);
}

proof fn lemma_fp32_names(m: ModelSpec)
    requires
        is_fp32(m),
    ensures
        names(m.files@).len() == 4,
        names(m.files@)[0] == "encoder-model.onnx"@,
        names(m.files@)[1] == "encoder-model.onnx.data"@,
        names(m.files@)[2] == "decoder_joint-model.onnx"@,
        names(m.files@)[3] == "vocab.txt"@,
{
    let pairs = m.files@.map_values(|f: ModelFile| (f.name@, f.approx_bytes));
    assert(pairs.len() == m.files@.len());
    assert(pairs[0].0 == m.files@[0].name@);
    assert(pairs[1].0 == m.files@[1].name@);
    assert(pairs[2].0 == m.files@[2].name@);
    assert(pairs[3].0 == m.files@[3].name@);
}

/// Every model ships the vocabulary that the recognizer cannot do without.
pub proof fn law_every_model_ships_a_vocab(m: ModelSpec)
    requires
        is_int8(m) || is_fp32(m),
    ensures
        names(m.files@).contains("vocab.txt"@),
{
    if is_int8(m) {
        lemma_int8_names(m);
        assert(names(m.files@)[2] == "vocab.txt"@);
    } else {
        lemma_fp32_names(m);
        assert(names(m.files@)[3] == "vocab.txt"@);
    }
}

// ---------------------------------------------------------------- downloading

/// The position of the last dot in `s` before `below`.
pub open spec fn last_dot(s: Seq<char>, below: int) -> Option<int>
    decreases below,
{
    if below <= 0 {
        None
    } else if s[below - 1] == '.' {
        Some(below - 1)
    } else {
        last_dot(s, below - 1)
    }
}

/// The name that a file has while it is being written: its extension is
/// replaced. A leading dot starts no extension.
pub open spec fn part_name(name: Seq<char>) -> Seq<char> {
    match last_dot(name, name.len() as int) {
        Some(k) if k > 0 => name.take(k) + ".part"@,
        _ => name + ".part"@,
    }
}

/// The name that a file has while it is being written.
///
/// A file gets its own name only when it is complete, so a truncated transfer
/// can never masquerade as a complete model.
pub fn part_of(name: &str) -> (r: String)
    ensures
        r@ == part_name(name@),
{
    let chars = text::chars_of(name);
    let mut below: usize = chars.len();
    while below > 0 && chars[below - 1] != '.'
        invariant
            below <= chars@.len(),
            chars@ == name@,
            last_dot(name@, name@.len() as int) == last_dot(name@, below as int),
        decreases below,
    {
        below -= 1;
    }
    let mut r = if below > 1 {
        text::string_of(&chars, 0, below - 1)
    } else {
        name.to_owned()
    };
    assert(below > 1 ==> chars@.subrange(0, below - 1) =~= name@.take(below - 1));
    r.append(".part");
    r
}

/// While a model is being downloaded, no file of it stands under another's
/// name or its own: the unfinished names are not among the final ones, and no
/// two files share one.
pub proof fn law_unfinished_names_are_apart(m: ModelSpec, i: int, j: int)
    requires
        is_int8(m) || is_fp32(m),
        0 <= i < m.files@.len(),
        0 <= j < m.files@.len(),
    ensures
        part_name(m.files@[i].name@) != m.files@[j].name@,
        i != j ==> part_name(m.files@[i].name@) != part_name(m.files@[j].name@),
{
    lemma_parts();
    reveal_strlit("encoder-model.int8.onnx");
    reveal_strlit("decoder_joint-model.int8.onnx");
    reveal_strlit("encoder-model.onnx");
    reveal_strlit("encoder-model.onnx.data");
    reveal_strlit("decoder_joint-model.onnx");
    reveal_strlit("vocab.txt");
    assert(names(m.files@).len() == m.files@.len());
    assert(names(m.files@)[i] == m.files@[i].name@);
    assert(names(m.files@)[j] == m.files@[j].name@);
    let a = part_name(m.files@[i].name@);
    let b = m.files@[j].name@;
    let c = part_name(m.files@[j].name@);
    if is_int8(m) {
        lemma_int8_names(m);
    } else {
        lemma_fp32_names(m);
    }
    assert(a.last() == 't' && a[a.len() - 2] == 'r');
    assert(b.last() == 't' ==> b[b.len() - 2] == 'x');
    assert(i != j ==> a.len() != c.len());
}

proof fn lemma_last_dot(s: Seq<char>, k: int, below: int)
    requires
        0 <= k < below <= s.len(),
        s[k] == '.',
        forall|i: int| k < i < below ==> s[i] != '.',
    ensures
        last_dot(s, below) == Some(k),
    decreases below,
{
    if k < below - 1 {
        lemma_last_dot(s, k, below - 1);
    }
}

proof fn lemma_parts()
    ensures
        part_name("encoder-model.int8.onnx"@) == "encoder-model.int8.onnx"@.take(18) + ".part"@,
        part_name("decoder_joint-model.int8.onnx"@) == "decoder_joint-model.int8.onnx"@.take(24)
            + ".part"@,
        part_name("vocab.txt"@) == "vocab.txt"@.take(5) + ".part"@,
        part_name("encoder-model.onnx"@) == "encoder-model.onnx"@.take(13) + ".part"@,
        part_name("encoder-model.onnx.data"@) == "encoder-model.onnx.data"@.take(18) + ".part"@,
        part_name("decoder_joint-model.onnx"@) == "decoder_joint-model.onnx"@.take(19) + ".part"@,
        ".part"@.len() == 5,
        ".part"@[4] == 't',
        ".part"@[3] == 'r',
        "encoder-model.int8.onnx"@.len() == 23,
        "decoder_joint-model.int8.onnx"@.len() == 29,
        "vocab.txt"@.len() == 9,
        "encoder-model.onnx"@.len() == 18,
        "encoder-model.onnx.data"@.len() == 23,
        "decoder_joint-model.onnx"@.len() == 24,
{
    reveal_strlit(".part");
    reveal_strlit("encoder-model.int8.onnx");
    reveal_strlit("decoder_joint-model.int8.onnx");
    reveal_strlit("encoder-model.onnx");
    reveal_strlit("encoder-model.onnx.data");
    reveal_strlit("decoder_joint-model.onnx");
    reveal_strlit("vocab.txt");
    lemma_last_dot("encoder-model.int8.onnx"@, 18, 23);
    lemma_last_dot("decoder_joint-model.int8.onnx"@, 24, 29);
    lemma_last_dot("vocab.txt"@, 5, 9);
    lemma_last_dot("encoder-model.onnx"@, 13, 18);
    lemma_last_dot("encoder-model.onnx.data"@, 18, 23);
    lemma_last_dot("decoder_joint-model.onnx"@, 19, 24);
}

/// One file to fetch, and where it goes.
#[derive(Debug, Clone, PartialEq, Eq)]
pub struct Fetch {
    /// What to call it in progress reports.
    pub name: &'static str,
    pub url: String,
    /// Where it is written.
    pub part: String,
    /// What it is renamed to once it is complete.
    pub dest: String,
}

impl Fetch {
    /// Whether this fetches a file of a model into a directory.
    pub open spec fn fetches(self, spec: ModelSpec, dir: Seq<char>, name: Seq<char>) -> bool {
        &&& self.name@ == name
        &&& self.url@ == spec.url(name)
        &&& self.part@ == paths::joined(dir, part_name(name))
        &&& self.dest@ == paths::joined(dir, name)
    }
}

/// What it takes to download a model into `dir`: one fetch for each missing
/// file, in order.
pub fn download(spec: &ModelSpec, dir: &str, found: &Vec<Option<Metadata>>) -> (r: Vec<Fetch>)
    requires
        found@.len() == spec.files@.len(),
    ensures
        ({
            let wanted = missing(spec.files@, found@, found@.len() as int);
            &&& r@.len() == wanted.len()
            &&& forall|i: int|
                0 <= i < r@.len() ==> (#[trigger] r@[i]).fetches(*spec, dir@, wanted[i])
        }),
{
    let wanted = spec.missing_files(found);
    let ghost list = text::literals(wanted@);
    assert(list.len() == wanted@.len());
    let mut r: Vec<Fetch> = Vec::new();
    let mut i: usize = 0;
    while i < wanted.len()
        invariant
            i <= wanted@.len(),
            list == text::literals(wanted@),
            r@.len() == i,
            forall|k: int| 0 <= k < i ==> (#[trigger] r@[k]).fetches(*spec, dir@, list[k]),
        decreases wanted@.len() - i,
    {
        let name = wanted[i];
        assert(list[i as int] == name@);
        r.push(
            Fetch {
                name,
                url: spec.url_for(name),
                part: paths::join(dir, part_of(name).as_str()),
                dest: paths::join(dir, name),
            },
        );
        i += 1;
    }
    r
}

/// Why a transfer failed.
#[derive(Debug, Clone, PartialEq, Eq)]
pub enum TransferError {
    /// The server refused; `status` is its answer.
    Status { url: String, status: String },
    /// The body ended early, or late. The unfinished file is to be removed.
    Truncated { got: u64, expected: u64 },
}

impl TransferError {
    /// The error in words.
    pub open spec fn text(self) -> Seq<char> {
        match self {
            TransferError::Status { url, status } => url@ + " returned HTTP "@ + status@,
            TransferError::Truncated { got, expected } => "truncated download: got "@
                + text::decimal(got as nat) + " of "@ + text::decimal(expected as nat) + " bytes"@,
        }
    }

    /// The error in words.
    pub fn message(&self) -> (r: String)
        ensures
            r@ == self.text(),
    {
        match self {
            TransferError::Status { url, status } => {
                let mut m = url.clone();
                m.append(" returned HTTP ");
                m.append(status.as_str());
                m
            },
            TransferError::Truncated { got, expected } => {
                let mut m = "truncated download: got ".to_owned();
                m.append(text::to_decimal(*got).as_str());
                m.append(" of ");
                m.append(text::to_decimal(*expected).as_str());
                m.append(" bytes");
                m
            },
        }
    }
}

/// One file on its way.
pub struct Transfer {
    /// Bytes written so far.
    pub done: u64,
    /// How many there should be, where the server says so.
    pub expected: Option<u64>,
}

/// What to do after a read.
#[derive(Debug, Clone, Copy, PartialEq, Eq, Structural)]
pub enum ReadStep {
    /// Write the bytes and report this much done.
    Write { done: u64 },
    /// The body is at its end.
    End,
}

impl Transfer {
    /// Whether the file may get its own name.
    pub open spec fn verdict(self) -> Result<(), TransferError> {
        match self.expected {
            Some(expected) if expected != self.done => Err(
                TransferError::Truncated { got: self.done, expected },
            ),
            _ => Ok(()),
        }
    }

    /// What to do once `n` more bytes were read.
    pub open spec fn step(self, n: int) -> ReadStep {
        if n == 0 {
            ReadStep::End
        } else {
            ReadStep::Write { done: (self.done + n) as u64 }
        }
    }

    /// Starts on a response, unless the server refused.
    pub fn start(url: &str, success: bool, status: &str, expected: Option<u64>) -> (r: Result<
        Self,
        TransferError,
    >)
        ensures
            if success {
                r matches Ok(t) && t.done == 0 && t.expected == expected
            } else {
                r matches Err(TransferError::Status { url: u, status: s }) && u@ == url@ && s@
                    == status@
            },
    {
        if success {
            Ok(Transfer { done: 0, expected })
        } else {
            Err(TransferError::Status { url: url.to_owned(), status: status.to_owned() })
        }
    }

    /// Takes the length of what was read; nothing means the end.
    pub fn read(&mut self, n: usize) -> (r: ReadStep)
        requires
            old(self).done + n <= u64::MAX,
        ensures
            final(self).expected == old(self).expected,
            final(self).done == old(self).done + n,
            r == old(self).step(n as int),
    {
        if n == 0 {
            return ReadStep::End;
        }
        self.done += n as u64;
        ReadStep::Write { done: self.done }
    }

    /// Whether the file may get its own name.
    pub fn finish(&self) -> (r: Result<(), TransferError>)
        ensures
            r == self.verdict(),
    {
        match self.expected {
            Some(expected) => if expected != self.done {
                Err(TransferError::Truncated { got: self.done, expected })
            } else {
                Ok(())
            },
            None => Ok(()),
        }
    }
}

/// What is missing is exactly the names of the files that are not there or
/// empty, once for each, in the order of the model.
pub proof fn law_missing_are_the_absent_files(
    files: Seq<ModelFile>,
    found: Seq<Option<Metadata>>,
    n: int,
)
    requires
        0 < n <= files.len(),
        files.len() == found.len(),
    ensures
        missing(files, found, 0).len() == 0,
        missing(files, found, n) == if found[n - 1] is Some && (found[n - 1]->0).is_file && (
        found[n - 1]->0).len > 0 {
            missing(files, found, n - 1)
        } else {
            missing(files, found, n - 1).push(files[n - 1].name@)
        },
        forall|i: int|
            0 <= i < n && !present(#[trigger] found[i]) ==> missing(files, found, n).contains(
                files[i].name@,
            ),
{
    lemma_absent_is_missing(files, found, n);
}

proof fn lemma_absent_is_missing(files: Seq<ModelFile>, found: Seq<Option<Metadata>>, n: int)
    requires
        0 <= n <= files.len(),
        files.len() == found.len(),
    ensures
        forall|i: int|
            0 <= i < n && !present(#[trigger] found[i]) ==> missing(files, found, n).contains(
                files[i].name@,
            ),
    decreases n,
{
    if n > 0 {
        lemma_absent_is_missing(files, found, n - 1);
        let before = missing(files, found, n - 1);
        let now = missing(files, found, n);
        assert forall|i: int| 0 <= i < n && !present(#[trigger] found[i]) implies now.contains(
            files[i].name@,
        ) by {
            if i < n - 1 {
                let k = choose|k: int| 0 <= k < before.len() && before[k] == files[i].name@;
                assert(now[k] == files[i].name@);
            } else {
                assert(now[now.len() - 1] == files[i].name@);
            }
        }
    }
}

/// A model is as large as its files together, however they are counted.
pub proof fn law_sizes_add_up(a: Seq<ModelFile>, b: Seq<ModelFile>, f: ModelFile)
    ensures
        bytes_of(a + b) == bytes_of(a) + bytes_of(b),
        bytes_of(seq![f]) == f.approx_bytes,
        bytes_of(Seq::empty()) == 0,
    decreases b.len(),
{
    reveal_with_fuel(bytes_of, 2);
    assert(seq![f].drop_last().len() == 0);
    if b.len() == 0 {
        assert(a + b =~= a);
    } else {
        law_sizes_add_up(a, b.drop_last(), f);
        assert((a + b).drop_last() =~= a + b.drop_last());
        assert((a + b).last() == b.last());
    }
}

/// A file is fetched from the model's own repository and revision, under its
/// own name: files of one model differ in their address exactly if they differ
/// in their name.
pub proof fn law_addresses_name_the_file(m: ModelSpec, file: Seq<char>, other: Seq<char>)
    ensures
        text::has_prefix(m.url(file), "https://huggingface.co/"@ + m.repo@ + "/"@),
        paths::has_suffix(m.url(file), "/"@ + m.revision@ + "/"@ + file),
        m.url(file) == m.url(other) <==> file == other,
{
    reveal_strlit("/");
    reveal_strlit("/resolve/");
    reveal_strlit("https://huggingface.co/");
    let base = "https://huggingface.co/"@ + m.repo@ + "/resolve/"@ + m.revision@ + "/"@;
    let head = "https://huggingface.co/"@ + m.repo@ + "/"@;
    assert(m.url(file) =~= base + file);
    assert(m.url(file).take(head.len() as int) =~= head);
    let tail = "/"@ + m.revision@ + "/"@ + file;
    assert(m.url(file).skip(m.url(file).len() - tail.len()) =~= tail);
    assert(m.url(file).skip(base.len() as int) =~= file);
    assert(m.url(other).skip(base.len() as int) =~= other);
}

/// While it is being written, a file has a name of its own beside the final
/// one: only what follows its last dot is replaced.
pub proof fn law_unfinished_names_keep_the_stem(stem: Seq<char>, extension: Seq<char>)
    requires
        stem.len() > 0,
        !extension.contains('.'),
    ensures
        part_name(stem + seq!['.'] + extension) == stem + ".part"@,
        extension != "part"@ ==> part_name(stem + seq!['.'] + extension) != stem + seq!['.']
            + extension,
{
    reveal_strlit(".part");
    reveal_strlit("part");
    let name = stem + seq!['.'] + extension;
    assert forall|i: int| stem.len() < i < name.len() implies name[i] != '.' by {
        assert(name[i] == extension[i - stem.len() - 1]);
    }
    lemma_last_dot(name, stem.len() as int, name.len() as int);
    assert(name.take(stem.len() as int) =~= stem);
    if extension != "part"@ {
        let part = stem + ".part"@;
        if part == name {
            assert(name.skip(stem.len() as int + 1) =~= extension);
            assert(part.skip(stem.len() as int + 1) =~= "part"@);
        }
    }
}

/// A file is fetched from its own address, written under its unfinished name
/// and put in place under its own, both in the model's directory.
pub proof fn law_files_are_put_in_place(
    f: Fetch,
    spec: ModelSpec,
    dir: Seq<char>,
    name: Seq<char>,
)
    requires
        f.fetches(spec, dir, name),
        !paths::absolute(name),
        !paths::absolute(part_name(name)),
    ensures
        f.name@ == name,
        paths::has_suffix(f.url@, name),
        text::has_prefix(f.dest@, dir) && paths::has_suffix(f.dest@, name),
        text::has_prefix(f.part@, dir) && paths::has_suffix(f.part@, part_name(name)),
{
    paths::law_relative_stays_below(dir, name);
    paths::law_relative_stays_below(dir, part_name(name));
    assert(f.url@.skip(f.url@.len() - name.len()) =~= name);
}

/// A name without a dot, but for one in front, is kept whole while the file is
/// unfinished.
pub proof fn law_unfinished_names_without_a_dot(name: Seq<char>)
    requires
        forall|i: int| 0 < i < name.len() ==> name[i] != '.',
    ensures
        part_name(name) == name + ".part"@,
{
    lemma_no_late_dot(name, name.len() as int);
}

proof fn lemma_no_late_dot(name: Seq<char>, below: int)
    requires
        below <= name.len(),
        forall|i: int| 0 < i < name.len() ==> name[i] != '.',
    ensures
        last_dot(name, below) is None || last_dot(name, below) == Some(0int),
    decreases below,
{
    if below > 0 && name[below - 1] != '.' {
        lemma_no_late_dot(name, below - 1);
    }
}

/// A transfer that fails tells the address and the status, or how much of the
/// file came.
pub proof fn law_failed_transfers_are_told(e: TransferError)
    ensures
        e matches TransferError::Status { url, status } ==> text::has_prefix(e.text(), url@)
            && paths::has_suffix(e.text(), status@),
        e matches TransferError::Truncated { got, expected } ==> text::holds(
            e.text(),
            text::decimal(got as nat) + " of "@ + text::decimal(expected as nat),
        ),
{
    let t = e.text();
    match e {
        TransferError::Status { url, status } => {
            assert(t.take(url@.len() as int) =~= url@);
            assert(t.skip(t.len() - status@.len()) =~= status@);
        },
        TransferError::Truncated { got, expected } => {
            lemma_middle(
                "truncated download: got "@,
                text::decimal(got as nat),
                " of "@,
                text::decimal(expected as nat),
                " bytes"@,
            );
        },
    }
}

proof fn lemma_middle(a: Seq<char>, b: Seq<char>, c: Seq<char>, d: Seq<char>, e: Seq<char>)
    ensures
        text::holds(a + b + c + d + e, b + c + d),
{
    let part = b + c + d;
    let whole = a + b + c + d + e;
    assert(whole =~= a + part + e);
    let n = a.len() as int;
    assert(whole.subrange(n, n + part.len()) =~= part);
}

/// A model that is not known is named, and so are those that are.
pub proof fn law_unknown_models_are_told(name: Seq<char>)
    ensures
        text::has_prefix(unknown_model_text(name), "unknown model `"@ + name),
        text::holds(unknown_model_text(name), "parakeet-tdt-0.6b-v3"@),
        paths::has_suffix(unknown_model_text(name), "parakeet-tdt-0.6b-v3-fp32"@),
{
    let t = unknown_model_text(name);
    let head = "unknown model `"@ + name;
    assert(t.take(head.len() as int) =~= head);
    let last = "parakeet-tdt-0.6b-v3-fp32"@;
    assert(t.skip(t.len() - last.len()) =~= last);
    let before = head + "`; known models: "@;
    let first = "parakeet-tdt-0.6b-v3"@;
    text::lemma_holds(before, first, ", "@ + last);
    assert(t =~= before + first + (", "@ + last));
}

/// Both models come from the same place, and each is known by its directory.
pub proof fn law_where_models_come_from(m: ModelSpec)
    requires
        is_int8(m) || is_fp32(m),
    ensures
        m.repo@ == "istupakov/parakeet-tdt-0.6b-v3-onnx"@,
        m.revision@ == "main"@,
        is_int8(m) ==> m.dir_name@ == "parakeet-tdt-0.6b-v3"@,
        is_fp32(m) ==> m.dir_name@ == "parakeet-tdt-0.6b-v3-fp32"@,
{
}

/// A file gets its own name exactly if all of it came, as far as it is known how
/// much that is; otherwise it is said how much came of how much.
pub proof fn law_only_whole_files_are_kept(t: Transfer)
    ensures
        t.verdict() is Ok <==> (t.expected matches Some(n) ==> t.done == n),
        t.verdict() matches Err(e) ==> (e matches TransferError::Truncated { got, expected } && got
            == t.done && t.expected == Some(expected) && got != expected),
{
}

/// A transfer ends where nothing more is read, and otherwise counts every byte.
pub proof fn law_every_byte_is_counted(t: Transfer, n: usize)
    requires
        t.done + n <= u64::MAX,
    ensures
        t.step(n as int) is End <==> n == 0,
        t.step(n as int) matches ReadStep::Write { done } ==> done == t.done + n,
{
}

} // verus!
