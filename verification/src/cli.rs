//! The command line: what its commands decide and print.

use vstd::prelude::*;
use crate::ipc::StatusReport;
use crate::model;
use crate::model::{Metadata, ModelSpec};
use crate::text;

verus! {

// ---------------------------------------------------------------- sizes

/// `n / d`, rounded to the nearest integer, and to the even one of two.
pub open spec fn rounded(n: nat, d: nat) -> nat
    recommends
        d > 0,
{
    let q = n / d;
    let r = n % d;
    if 2 * r < d || (2 * r == d && q % 2 == 0) {
        q
    } else {
        q + 1
    }
}

/// The distance between neighbouring double-precision numbers around `n`, where
/// that is more than one: it has a 53-bit significand.
pub open spec fn spacing(n: nat) -> nat
    decreases n,
{
    if n < 0x20_0000_0000_0000 {
        1
    } else {
        2 * spacing(n / 2)
    }
}

/// The double-precision number that is nearest to `n`.
pub open spec fn nearest_double(n: nat) -> nat {
    rounded(n, spacing(n)) * spacing(n)
}

/// The size that a number of bytes is shown as, in the largest unit that leaves
/// at least one, up to gigabytes; measured in double precision and rounded to a
/// whole number of that unit.
pub open spec fn size_text(n: nat) -> Seq<char> {
    let v = nearest_double(n);
    if v < 0x400 {
        text::decimal(v) + " B"@
    } else if v < 0x10_0000 {
        text::decimal(rounded(v, 0x400)) + " KB"@
    } else if v < 0x4000_0000 {
        text::decimal(rounded(v, 0x10_0000)) + " MB"@
    } else {
        text::decimal(rounded(v, 0x4000_0000)) + " GB"@
    }
}

fn round_div(n: u128, d: u128) -> (r: u128)
    requires
        d > 0,
        n < 0x2_0000_0000_0000_0000,
        d <= 0x4000_0000,
    ensures
        r == rounded(n as nat, d as nat),
        r <= n + 1,
        d >= 0x400 ==> r <= n / 0x400 + 1,
{
    let q: u128 = n / d;
    let rest: u128 = n % d;
    assert(q <= n) by (nonlinear_arith)
        requires
            q == n / d,
            d > 0,
    ;
    assert(d >= 0x400 ==> q <= n / 0x400) by (nonlinear_arith)
        requires
            q == n / d,
            d > 0,
    ;
    if 2 * rest < d || (2 * rest == d && q % 2 == 0) {
        q
    } else {
        q + 1
    }
}

fn double_spacing(n: u64) -> (r: u64)
    ensures
        r == spacing(n as nat),
        1 <= r <= 0x800,
{
    let mut left: u64 = n;
    let mut unit: u64 = 1;
    proof {
        vstd::arithmetic::power2::lemma2_to64();
        lemma_spacing_bound(n as nat, 11);
    }
    while left >= 0x20_0000_0000_0000
        invariant
            unit >= 1,
            spacing(n as nat) == unit * spacing(left as nat),
            spacing(n as nat) <= 0x800,
        decreases left,
    {
        assert(unit * (2 * spacing((left / 2) as nat)) == (2 * unit) * spacing((left / 2) as nat))
            by (nonlinear_arith);
        proof {
            lemma_spacing_positive((left / 2) as nat);
        }
        assert(2 * unit <= 0x800) by (nonlinear_arith)
            requires
                (2 * unit) * spacing((left / 2) as nat) <= 0x800,
                spacing((left / 2) as nat) >= 1,
        ;
        left = left / 2;
        unit = unit * 2;
    }
    assert(unit * 1 == unit);
    unit
}

proof fn lemma_spacing_positive(n: nat)
    ensures
        spacing(n) >= 1,
    decreases n,
{
    if n >= 0x20_0000_0000_0000 {
        lemma_spacing_positive(n / 2);
    }
}

proof fn lemma_spacing_bound(n: nat, k: nat)
    requires
        k <= 11,
        n < 0x20_0000_0000_0000 * vstd::arithmetic::power2::pow2(k),
    ensures
        spacing(n) <= vstd::arithmetic::power2::pow2(k),
        vstd::arithmetic::power2::pow2(k) <= 0x800,
    decreases k,
{
    vstd::arithmetic::power2::lemma2_to64();
    if k == 0 {
    } else {
        vstd::arithmetic::power2::lemma_pow2_unfold(k);
        lemma_spacing_bound(n / 2, (k - 1) as nat);
        vstd::arithmetic::power2::lemma_pow2_strictly_increases(0, k);
        if k < 11 {
            vstd::arithmetic::power2::lemma_pow2_strictly_increases(k, 11);
        }
    }
}

/// A size for people.
pub fn human_bytes(n: u64) -> (r: String)
    ensures
        r@ == size_text(n as nat),
{
    let unit: u64 = double_spacing(n);
    let count: u128 = round_div(n as u128, unit as u128);
    proof {
        lemma_nearest_double_bound(n as nat);
    }
    let v: u128 = count * unit as u128;
    let (shown, name): (u128, &'static str) = if v < 0x400 {
        (v, " B")
    } else if v < 0x10_0000 {
        (round_div(v, 0x400), " KB")
    } else if v < 0x4000_0000 {
        (round_div(v, 0x10_0000), " MB")
    } else {
        (round_div(v, 0x4000_0000), " GB")
    };
    let mut s = text::to_decimal(shown as u64);
    s.append(name);
    s
}

proof fn lemma_nearest_double_bound(n: nat)
    requires
        n <= u64::MAX,
    ensures
        nearest_double(n) <= n + spacing(n),
        spacing(n) <= 0x800,
{
    vstd::arithmetic::power2::lemma2_to64();
    lemma_spacing_bound(n, 11);
    lemma_spacing_positive(n);
    let d = spacing(n);
    let q = n / d;
    assert(q * d <= n) by (nonlinear_arith)
        requires
            q == n / d,
            d > 0,
    ;
    assert((q + 1) * d == q * d + d) by (nonlinear_arith);
}

// ---------------------------------------------------------------- models

/// How much of a model is there.
pub open spec fn model_state(missing: nat, total: nat) -> Seq<char> {
    if missing == 0 {
        "installed"@
    } else if missing == total {
        "not downloaded"@
    } else {
        "incomplete ("@ + text::decimal(missing) + " of "@ + text::decimal(total) + " files)"@
    }
}

fn state_of(missing: usize, total: usize) -> (r: String)
    ensures
        r@ == model_state(missing as nat, total as nat),
{
    if missing == 0 {
        "installed".to_owned()
    } else if missing == total {
        "not downloaded".to_owned()
    } else {
        let mut s = "incomplete (".to_owned();
        s.append(text::to_decimal(missing as u64).as_str());
        s.append(" of ");
        s.append(text::to_decimal(total as u64).as_str());
        s.append(" files)");
        s
    }
}

/// What the list says of one model, given what is known of its files.
pub open spec fn model_entry(spec: ModelSpec, found: Seq<Option<Metadata>>) -> Seq<char> {
    "  "@ + text::padded(spec.dir_name@, 28) + " "@ + text::padded_left(
        size_text(model::bytes_of(spec.files@)),
        7,
    ) + "  "@ + model_state(
        model::missing(spec.files@, found, found.len() as int).len(),
        spec.files@.len(),
    ) + "\n      "@ + spec.description@ + "\n"@
}

/// What the list says of the first `n` models.
pub open spec fn model_entries(
    models: Seq<ModelSpec>,
    found: Seq<Vec<Option<Metadata>>>,
    n: int,
) -> Seq<char>
    decreases n,
{
    if n <= 0 {
        ""@
    } else {
        model_entries(models, found, n - 1) + model_entry(models[n - 1], found[n - 1]@)
    }
}

/// Lists known models and whether they are present locally.
pub fn model_list(root: &str, models: &Vec<ModelSpec>, found: &Vec<Vec<Option<Metadata>>>) -> (r:
    String)
    requires
        models@.len() == found@.len(),
        forall|i: int|
            0 <= i < models@.len() ==> (#[trigger] models@[i]).files@.len() == found@[i]@.len()
                && model::bytes_of(models@[i].files@) <= u64::MAX,
    ensures
        r@ == "models directory: "@ + root@ + "\n\n"@ + model_entries(
            models@,
            found@,
            models@.len() as int,
        ),
{
    let mut list = "".to_owned();
    let mut i: usize = 0;
    while i < models.len()
        invariant
            i <= models@.len(),
            models@.len() == found@.len(),
            forall|k: int|
                0 <= k < models@.len() ==> (#[trigger] models@[k]).files@.len() == found@[k]@.len()
                    && model::bytes_of(models@[k].files@) <= u64::MAX,
            list@ == model_entries(models@, found@, i as int),
        decreases models@.len() - i,
    {
        let spec = &models[i];
        let missing = spec.missing_files(&found[i]);
        let ghost wanted = model::missing(spec.files@, found@[i as int]@, found@[i as int]@.len() as int);
        assert(text::literals(missing@).len() == missing@.len());
        assert(missing@.len() == wanted.len());
        let mut entry = "  ".to_owned();
        entry.append(text::pad_right(spec.dir_name, 28).as_str());
        entry.append(" ");
        entry.append(text::pad_left(human_bytes(spec.total_bytes()).as_str(), 7).as_str());
        entry.append("  ");
        entry.append(state_of(missing.len(), spec.files.len()).as_str());
        entry.append("\n      ");
        entry.append(spec.description);
        entry.append("\n");
        list.append(entry.as_str());
        i += 1;
    }
    let mut s = "models directory: ".to_owned();
    s.append(root);
    s.append("\n\n");
    s.append(list.as_str());
    s
}

/// What a request to download a model comes to.
pub enum DownloadStart {
    /// Nothing is to be done; carries what to say.
    Installed { message: String },
    /// Files are to be fetched; carries what to say first.
    Fetch { message: String },
}

/// Which model to download: the one that was named, or else the one that the
/// configuration names; or what to say when there is no such model.
pub fn model_to_download(name: Option<&str>, configured: &str) -> (r: Result<ModelSpec, String>)
    ensures
        ({
            let wanted = match name {
                Some(n) => n@,
                None => configured@,
            };
            if wanted == "parakeet-tdt-0.6b-v3"@ {
                r matches Ok(m) && model::is_int8(m) && model::bytes_of(m.files@) == 640_100_000
            } else if wanted == "parakeet-tdt-0.6b-v3-fp32"@ {
                r matches Ok(m) && model::is_fp32(m) && model::bytes_of(m.files@) == 2_472_100_000
            } else {
                r matches Err(e) && e@ == model::unknown_model_text(wanted)
            }
        }),
{
    let wanted = match name {
        Some(n) => n,
        None => configured,
    };
    match model::spec_by_name(wanted) {
        Some(m) => Ok(m),
        None => Err(model::unknown_model(wanted)),
    }
}

/// What a request to download a model into `dir` comes to, given what is known
/// of its files.
pub fn model_download(spec: &ModelSpec, dir: &str, found: &Vec<Option<Metadata>>) -> (r:
    DownloadStart)
    requires
        found@.len() == spec.files@.len(),
        model::bytes_of(spec.files@) <= u64::MAX,
    ensures
        if forall|i: int| 0 <= i < found@.len() ==> model::present(#[trigger] found@[i]) {
            r matches DownloadStart::Installed { message } && message@ == spec.dir_name@
                + " is already installed at "@ + dir@
        } else {
            r matches DownloadStart::Fetch { message } && message@ == "Downloading "@
                + spec.description@ + " (~"@ + size_text(model::bytes_of(spec.files@)) + ") into "@
                + dir@
        },
{
    if spec.is_complete(found) {
        let mut message = spec.dir_name.to_owned();
        message.append(" is already installed at ");
        message.append(dir);
        DownloadStart::Installed { message }
    } else {
        let mut message = "Downloading ".to_owned();
        message.append(spec.description);
        message.append(" (~");
        message.append(human_bytes(spec.total_bytes()).as_str());
        message.append(") into ");
        message.append(dir);
        DownloadStart::Fetch { message }
    }
}

/// What progress on a file does to the bars on the screen.
#[derive(Debug, Clone, Copy, PartialEq, Eq, Structural)]
pub struct BarStep {
    /// Finish the bar of the file before.
    pub finish_previous: bool,
    /// Add a bar for this file, of this length.
    pub add: Option<u64>,
    /// Set the bar's length.
    pub length: Option<u64>,
    /// Set the bar's position.
    pub position: u64,
}

/// The bars on the screen: one per file, created once there is something to
/// show, when the real size is known from the response.
pub struct Bars {
    /// The file whose bar is moving.
    pub current: Option<String>,
}

impl Bars {
    /// No bars yet.
    pub fn new() -> (r: Self)
        ensures
            r.current is None,
    {
        Bars { current: None }
    }

    /// Takes progress on a file.
    pub fn progress(&mut self, file: &str, done: u64, total: Option<u64>) -> (r: BarStep)
        ensures
            final(self).current matches Some(c) && c@ == file@,
            r == bar_step(text::opt_view(old(self).current), file@, done, total),
    {
        let (known, same): (bool, bool) = match &self.current {
            Some(c) => (true, text::same(c.as_str(), file)),
            None => (false, false),
        };
        if !same {
            self.current = Some(file.to_owned());
        }
        BarStep {
            finish_previous: !same && known,
            add: if same {
                None
            } else {
                match total {
                    Some(t) => Some(t),
                    None => Some(0),
                }
            },
            length: total,
            position: done,
        }
    }
}

// ---------------------------------------------------------------- recording

/// Whether a recording is over: its time is up, or the user pressed Enter.
pub fn recording_over(deadline_ms: Option<u64>, now_ms: u64, enter: bool) -> (r: bool)
    ensures
        r == is_over(deadline_ms, now_ms, enter),
{
    match deadline_ms {
        Some(d) => enter || now_ms >= d,
        None => enter,
    }
}

/// What to warn about when frames were dropped.
pub fn dropped_warning(dropped: u64) -> (r: Option<String>)
    ensures
        text::opt_view(r) == if dropped > 0 {
            Some(
                "warning: dropped "@ + text::decimal(dropped as nat)
                    + " frames — capture could not keep up"@,
            )
        } else {
            None
        },
{
    if dropped == 0 {
        return None;
    }
    let mut m = "warning: dropped ".to_owned();
    m.append(text::to_decimal(dropped).as_str());
    m.append(" frames — capture could not keep up");
    Some(m)
}

/// What to do with a finished recording.
#[derive(Debug, Clone, Copy, PartialEq, Eq, Structural)]
pub enum RecordEnd {
    /// There is nothing to write: an error.
    Nothing,
    /// Write it.
    Write,
    /// Write it, and say that it is silence, which is the failure that
    /// masquerades as a bad model.
    WriteSilence,
}

/// What to do with a finished recording; `silent` says that no sample reaches
/// the level of speech.
pub fn record_end(samples: usize, silent: bool) -> (r: RecordEnd)
    ensures
        r == end_of(samples as int, silent),
{
    if samples == 0 {
        RecordEnd::Nothing
    } else if silent {
        RecordEnd::WriteSilence
    } else {
        RecordEnd::Write
    }
}

// ---------------------------------------------------------------- status and config

/// The line that the status is shown as; `seconds` is the length of the
/// recording, if one is in progress.
pub open spec fn status_text(s: StatusReport, seconds: Option<&str>) -> Seq<char> {
    s.state.name() + " · "@ + s.engine@ + (match seconds {
        Some(t) => " · "@ + t@ + "s"@,
        None => ""@,
    }) + (match s.injector {
        Some(i) => " · via "@ + i@,
        None => ""@,
    })
}

/// The line that the status is shown as.
pub fn status_line(s: &StatusReport, seconds: Option<&str>) -> (r: String)
    ensures
        r@ == status_text(*s, seconds),
{
    let mut line = s.state.as_str().to_owned();
    line.append(" · ");
    line.append(s.engine.as_str());
    let length = match seconds {
        Some(t) => {
            let mut l = " · ".to_owned();
            l.append(t);
            l.append("s");
            l
        },
        None => "".to_owned(),
    };
    line.append(length.as_str());
    let via = match &s.injector {
        Some(i) => {
            let mut v = " · via ".to_owned();
            v.append(i.as_str());
            v
        },
        None => "".to_owned(),
    };
    line.append(via.as_str());
    line
}

/// What the configuration command does.
#[derive(Debug, Clone, PartialEq, Eq)]
pub enum ConfigStep {
    /// Print the path of the file.
    PrintPath,
    /// Write a file with all defaults filled in.
    Write,
    /// Do nothing, since there is a file; carries the error.
    Refuse { message: String },
    /// Show the configuration in force, defaults included.
    Show,
}

/// What the configuration command does, given its flags and whether there is a
/// file.
pub fn config_step(file: &str, print_path: bool, init: bool, taken: bool) -> (r: ConfigStep)
    ensures
        is_config_step(r, file@, print_path, init, taken),
{
    if print_path {
        ConfigStep::PrintPath
    } else if !init {
        ConfigStep::Show
    } else if taken {
        let mut message = file.to_owned();
        message.append(" already exists; not overwriting");
        ConfigStep::Refuse { message }
    } else {
        ConfigStep::Write
    }
}

// ---------------------------------------------------------------- laws

/// Rounding gives the nearest whole number, and the even one of two that are
/// equally near.
pub proof fn law_rounding_is_to_nearest(n: nat, d: nat)
    requires
        d > 0,
    ensures
        -(d as int) <= 2 * (n - rounded(n, d) * d) <= d as int,
        2 * (n - rounded(n, d) * d) == d || 2 * (rounded(n, d) * d - n) == d ==> rounded(n, d) % 2
            == 0,
{
    let q = n / d;
    let r = n % d;
    assert(n == q * d + r && 0 <= r < d) by (nonlinear_arith)
        requires
            q == n / d,
            r == n % d,
            d > 0,
    ;
    assert((q + 1) * d == q * d + d) by (nonlinear_arith);
}

/// A size below the limit of exact doubles is shown by its own value, any
/// larger one by a double that is no farther from it than half the distance of
/// its neighbours.
pub proof fn law_sizes_are_rounded_once(n: nat)
    ensures
        n < 0x20_0000_0000_0000 ==> nearest_double(n) == n,
        -(spacing(n) as int) <= 2 * (n - nearest_double(n)) <= spacing(n) as int,
        nearest_double(n) % spacing(n) == 0,
        n >= 0x20_0000_0000_0000 ==> spacing(n) * 0x10_0000_0000_0000 <= n,
        n < spacing(n) * 0x20_0000_0000_0000,
{
    lemma_spacing_positive(n);
    law_rounding_is_to_nearest(n, spacing(n));
    vstd::arithmetic::div_mod::lemma_mod_multiples_basic(
        rounded(n, spacing(n)) as int,
        spacing(n) as int,
    );
    lemma_spacing_fits(n);
}

proof fn lemma_spacing_fits(n: nat)
    ensures
        n >= 0x20_0000_0000_0000 ==> spacing(n) * 0x10_0000_0000_0000 <= n,
        n < spacing(n) * 0x20_0000_0000_0000,
    decreases n,
{
    if n >= 0x20_0000_0000_0000 {
        lemma_spacing_fits(n / 2);
        if n / 2 < 0x20_0000_0000_0000 {
            assert(spacing(n / 2) == 1);
        }
    }
}

/// The unit is the largest that the size reaches, and the number is the nearest
/// whole one of it.
pub proof fn law_units(n: nat)
    requires
        n < 0x20_0000_0000_0000,
    ensures
        n < 0x400 ==> size_text(n) == text::decimal(n) + " B"@,
        0x400 <= n < 0x10_0000 ==> size_text(n) == text::decimal(rounded(n, 0x400)) + " KB"@,
        0x10_0000 <= n < 0x4000_0000 ==> size_text(n) == text::decimal(rounded(n, 0x10_0000))
            + " MB"@,
        0x4000_0000 <= n ==> size_text(n) == text::decimal(rounded(n, 0x4000_0000)) + " GB"@,
{
    law_sizes_are_rounded_once(n);
}

/// A model is installed exactly if nothing is missing; otherwise it is said how
/// much is, or that nothing is there.
pub proof fn law_state_of_a_model(missing: nat, total: nat)
    requires
        missing <= total,
    ensures
        missing == 0 ==> model_state(missing, total) == "installed"@,
        missing > 0 && missing == total ==> model_state(missing, total) == "not downloaded"@,
        0 < missing < total ==> text::has_prefix(
            model_state(missing, total),
            "incomplete ("@ + text::decimal(missing) + " of "@ + text::decimal(total),
        ),
{
    if 0 < missing < total {
        let head = "incomplete ("@ + text::decimal(missing) + " of "@ + text::decimal(total);
        assert(model_state(missing, total).take(head.len() as int) =~= head);
    }
}

/// Every model has an entry, in the order of the list.
pub proof fn law_every_model_is_listed(
    models: Seq<ModelSpec>,
    found: Seq<Vec<Option<Metadata>>>,
    n: int,
)
    requires
        0 <= n < models.len(),
    ensures
        model_entries(models, found, 0).len() == 0,
        model_entries(models, found, n + 1) == model_entries(models, found, n) + model_entry(
            models[n],
            found[n]@,
        ),
{
    reveal_strlit("");
}

/// A status line begins with the state and the engine, ends with the injector
/// if there is one, and has the duration exactly if one is given.
pub proof fn law_status_line(s: StatusReport, seconds: &str)
    ensures
        text::has_prefix(status_text(s, None), s.state.name() + " · "@ + s.engine@),
        text::has_prefix(
            status_text(s, Some(seconds)),
            s.state.name() + " · "@ + s.engine@ + " · "@ + seconds@ + "s"@,
        ),
        s.injector is Some ==> crate::paths::has_suffix(
            status_text(s, None),
            s.engine@ + " · via "@ + s.injector->0@,
        ),
        s.injector is Some ==> crate::paths::has_suffix(
            status_text(s, Some(seconds)),
            seconds@ + "s · via "@ + s.injector->0@,
        ),
        s.injector is None ==> status_text(s, None) == s.state.name() + " · "@ + s.engine@,
{
    reveal_strlit("");
    reveal_strlit("s");
    reveal_strlit("s · via ");
    reveal_strlit(" · via ");
    let short = status_text(s, None);
    let long = status_text(s, Some(seconds));
    let head = s.state.name() + " · "@ + s.engine@;
    assert(short.take(head.len() as int) =~= head);
    let more = head + " · "@ + seconds@ + "s"@;
    assert(long.take(more.len() as int) =~= more);
    if s.injector is Some {
        let end = s.engine@ + " · via "@ + s.injector->0@;
        assert(short.skip(short.len() - end.len()) =~= end);
        let tail = seconds@ + "s · via "@ + s.injector->0@;
        assert("s · via "@ =~= "s"@ + " · via "@);
        assert(long.skip(long.len() - tail.len()) =~= tail);
    } else {
        assert(short =~= head);
    }
}

/// The entry of a model tells its directory, its size, its state and what it is.
pub proof fn law_entries_tell_all(spec: ModelSpec, found: Seq<Option<Metadata>>)
    ensures
        text::has_prefix(
            model_entry(spec, found),
            "  "@ + text::padded(spec.dir_name@, 28) + " "@ + text::padded_left(
                size_text(model::bytes_of(spec.files@)),
                7,
            ),
        ),
        text::holds(
            model_entry(spec, found),
            model_state(
                model::missing(spec.files@, found, found.len() as int).len(),
                spec.files@.len(),
            ),
        ),
        crate::paths::has_suffix(model_entry(spec, found), spec.description@ + "\n"@),
{
    let all = model_entry(spec, found);
    let head = "  "@ + text::padded(spec.dir_name@, 28) + " "@ + text::padded_left(
        size_text(model::bytes_of(spec.files@)),
        7,
    );
    assert(all.take(head.len() as int) =~= head);
    let state = model_state(
        model::missing(spec.files@, found, found.len() as int).len(),
        spec.files@.len(),
    );
    let end = "\n      "@ + spec.description@ + "\n"@;
    text::lemma_holds(head + "  "@, state, end);
    assert(all =~= head + "  "@ + state + end);
    let tail = spec.description@ + "\n"@;
    assert(all.skip(all.len() - tail.len()) =~= tail);
}

/// What progress on a file does to the bars, with the file that has one now.
pub open spec fn bar_step(
    current: Option<Seq<char>>,
    file: Seq<char>,
    done: u64,
    total: Option<u64>,
) -> BarStep {
    let same = current == Some(file);
    BarStep {
        finish_previous: !same && current is Some,
        add: if same {
            None
        } else {
            Some(
                match total {
                    Some(t) => t,
                    None => 0,
                },
            )
        },
        length: total,
        position: done,
    }
}

/// Whether a test recording is over.
pub open spec fn is_over(deadline_ms: Option<u64>, now_ms: u64, enter: bool) -> bool {
    enter || (deadline_ms matches Some(d) && now_ms >= d)
}

/// What becomes of a test recording.
pub open spec fn end_of(samples: int, silent: bool) -> RecordEnd {
    if samples == 0 {
        RecordEnd::Nothing
    } else if silent {
        RecordEnd::WriteSilence
    } else {
        RecordEnd::Write
    }
}

/// What the configuration command does.
pub open spec fn is_config_step(
    r: ConfigStep,
    file: Seq<char>,
    print_path: bool,
    init: bool,
    taken: bool,
) -> bool {
    if print_path {
        r is PrintPath
    } else if !init {
        r is Show
    } else if taken {
        r matches ConfigStep::Refuse { message } && message@ == file
            + " already exists; not overwriting"@
    } else {
        r is Write
    }
}

/// A file gets one bar: it is added with the first progress, the one before it
/// is finished with that, and later progress only moves it.
pub proof fn law_one_bar_for_each_file(
    current: Option<Seq<char>>,
    file: Seq<char>,
    done: u64,
    total: Option<u64>,
)
    ensures
        bar_step(current, file, done, total).add is Some <==> current != Some(file),
        bar_step(current, file, done, total).finish_previous <==> current is Some && current->0
            != file,
        !bar_step(Some(file), file, done, total).finish_previous,
        bar_step(current, file, done, total).position == done,
        bar_step(current, file, done, total).length == total,
        bar_step(current, file, done, total).add matches Some(n) ==> (total is Some ==> n
            == total->0) && (total is None ==> n == 0),
{
}

/// A test recording runs until its time is up or a key is pressed, whichever
/// comes first; without a limit only a key ends it.
pub proof fn law_when_a_test_recording_ends(deadline_ms: u64, now_ms: u64, enter: bool)
    ensures
        is_over(Some(deadline_ms), now_ms, false) <==> now_ms >= deadline_ms,
        is_over(Some(deadline_ms), now_ms, true),
        is_over(None, now_ms, enter) <==> enter,
{
}

/// Nothing is written only if nothing was captured; that all of it is silent is
/// said.
pub proof fn law_what_becomes_of_a_test_recording(samples: int, silent: bool)
    ensures
        end_of(samples, silent) is Nothing <==> samples == 0,
        end_of(samples, silent) is WriteSilence <==> samples != 0 && silent,
        end_of(samples, silent) is Write <==> samples != 0 && !silent,
{
}

/// A configuration file is written only where it is asked for and there is none;
/// one that is there is never overwritten.
pub proof fn law_no_configuration_is_overwritten(
    r: ConfigStep,
    file: Seq<char>,
    print_path: bool,
    init: bool,
    taken: bool,
)
    requires
        is_config_step(r, file, print_path, init, taken),
    ensures
        r is Write <==> init && !print_path && !taken,
        r is Refuse <==> init && !print_path && taken,
        r is PrintPath <==> print_path,
        r is Show <==> !print_path && !init,
        r matches ConfigStep::Refuse { message } ==> text::has_prefix(message@, file),
{
    if let ConfigStep::Refuse { message } = r {
        assert(message@.take(file.len() as int) =~= file);
    }
}

} // verus!
