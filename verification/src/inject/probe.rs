//! Availability checks for each injection backend.
//!
//! Probing is separated from injecting so that the whole chain can be reported
//! without side effects, and so a backend is picked once at startup instead of
//! failing mid-dictation.

use vstd::prelude::*;
use crate::config::InjectBackend;
use crate::paths;
use crate::probe::Availability;
use crate::text;
use crate::wayland;
use crate::wayland::Globals;

verus! {

// ---------------------------------------------------------------- executables

/// What is known of a file that exists.
#[derive(Debug, Clone, Copy, PartialEq, Eq, Structural)]
pub struct FileMode {
    pub is_file: bool,
    /// The permission bits.
    pub mode: u32,
}

/// Whether a file can be run by somebody: it is a regular file with an execute
/// permission bit.
pub open spec fn executable(file: Option<FileMode>) -> bool {
    match file {
        Some(f) => f.is_file && f.mode & 0o111 != 0,
        None => false,
    }
}

/// Whether a file can be run by somebody.
pub fn is_executable(file: Option<FileMode>) -> (r: bool)
    ensures
        r == executable(file),
{
    match file {
        Some(f) => f.is_file && f.mode & 0o111 != 0,
        None => false,
    }
}

/// Where `$PATH` says that `bin` may be, in order.
pub open spec fn candidates(bin: Seq<char>, path: Seq<char>) -> Seq<Seq<char>> {
    text::split_on(path, ':').map_values(|dir: Seq<char>| paths::joined(dir, bin))
}

/// Where `$PATH` says that `bin` may be, in order; nowhere if it is unset.
pub fn search_path(bin: &str, path: Option<&str>) -> (r: Vec<String>)
    ensures
        text::views(r@) == match path {
            Some(p) => candidates(bin@, p@),
            None => Seq::empty(),
        },
{
    let mut found: Vec<String> = Vec::new();
    match path {
        Some(p) => {
            let dirs = text::split(p, ':');
            let mut i: usize = 0;
            while i < dirs.len()
                invariant
                    i <= dirs@.len(),
                    text::views(dirs@) == text::split_on(p@, ':'),
                    text::views(found@) =~= candidates(bin@, p@).take(i as int),
                decreases dirs@.len() - i,
            {
                let candidate = paths::join(dirs[i].as_str(), bin);
                assert(text::views(dirs@)[i as int] == dirs@[i as int]@);
                let ghost before = found@;
                found.push(candidate);
                assert(text::views(found@) =~= text::views(before).push(candidate@));
                i += 1;
            }
            assert(text::views(dirs@).len() == dirs@.len());
            assert(text::views(found@) =~= candidates(bin@, p@));
        },
        None => {
            assert(text::views(found@) =~= Seq::<Seq<char>>::empty());
        },
    }
    found
}

/// The first position at or after `from` that holds an executable.
pub open spec fn first_executable(files: Seq<Option<FileMode>>, from: int) -> Option<int>
    decreases files.len() - from,
{
    if from < 0 || from >= files.len() {
        None
    } else if executable(files[from]) {
        Some(from)
    } else {
        first_executable(files, from + 1)
    }
}

/// Look up an executable among `places`, given what is known of the file at
/// each of them: the first that can be run.
pub fn which(places: &Vec<String>, files: &Vec<Option<FileMode>>) -> (r: Option<String>)
    requires
        places@.len() == files@.len(),
    ensures
        match first_executable(files@, 0) {
            Some(i) => r matches Some(p) && p@ == places@[i]@,
            None => r is None,
        },
{
    let mut i: usize = 0;
    while i < places.len()
        invariant
            i <= places@.len(),
            places@.len() == files@.len(),
            first_executable(files@, 0) == first_executable(files@, i as int),
        decreases places@.len() - i,
    {
        if is_executable(files[i]) {
            return Some(places[i].clone());
        }
        i += 1;
    }
    None
}

// ---------------------------------------------------------------- probing

/// What the machine offers for injection: the programs found on `$PATH`, and
/// the state of `/dev/uinput`.
#[derive(Debug, Clone, PartialEq, Eq)]
pub struct Tools {
    pub wtype: Option<String>,
    pub wl_copy: Option<String>,
    pub wl_paste: Option<String>,
    pub uinput_exists: bool,
    pub uinput_writable: bool,
}

/// Outcome of probing one backend.
#[derive(Debug, Clone, PartialEq, Eq)]
pub struct Probe {
    pub backend: InjectBackend,
    pub availability: Availability,
    /// Human-readable reason, shown whether or not the backend is available:
    /// a working backend still says *why* it works.
    pub detail: String,
}

/// The lowercase name of a backend.
pub open spec fn backend_label(backend: InjectBackend) -> Seq<char> {
    match backend {
        InjectBackend::Wtype => "wtype"@,
        InjectBackend::Clipboard => "clipboard"@,
        InjectBackend::Uinput => "uinput"@,
        InjectBackend::InputMethod => "input-method"@,
        InjectBackend::CopyOnly => "copy-only"@,
    }
}

impl Probe {
    /// Whether the probe found this, for this reason.
    pub open spec fn says(self, backend: InjectBackend, finding: (Availability, Seq<char>)) -> bool {
        self.backend == backend && self.availability == finding.0 && self.detail@ == finding.1
    }

    fn new(backend: InjectBackend, availability: Availability, detail: String) -> (r: Self)
        ensures
            r.says(backend, (availability, detail@)),
    {
        Probe { backend, availability, detail }
    }

    fn ok(backend: InjectBackend, detail: String) -> (r: Self)
        ensures
            r.says(backend, (Availability::Available, detail@)),
    {
        Probe::new(backend, Availability::Available, detail)
    }

    fn degraded(backend: InjectBackend, detail: &str) -> (r: Self)
        ensures
            r.says(backend, (Availability::Degraded, detail@)),
    {
        Probe::new(backend, Availability::Degraded, detail.to_owned())
    }

    fn no(backend: InjectBackend, detail: String) -> (r: Self)
        ensures
            r.says(backend, (Availability::Unavailable, detail@)),
    {
        Probe::new(backend, Availability::Unavailable, detail)
    }

    /// Whether the daemon should be willing to select this backend.
    pub fn is_usable(&self) -> (r: bool)
        ensures
            r == self.availability.usable(),
    {
        self.availability.is_usable()
    }

    /// Lowercase backend name, for status output and logs.
    pub fn backend_name(&self) -> (r: &'static str)
        ensures
            r@ == backend_label(self.backend),
    {
        match self.backend {
            InjectBackend::Wtype => "wtype",
            InjectBackend::Clipboard => "clipboard",
            InjectBackend::Uinput => "uinput",
            InjectBackend::InputMethod => "input-method",
            InjectBackend::CopyOnly => "copy-only",
        }
    }

    /// A copy of this value.
    pub fn copied(&self) -> (r: Probe)
        ensures
            r.says(self.backend, (self.availability, self.detail@)),
    {
        Probe {
            backend: self.backend,
            availability: self.availability,
            detail: self.detail.clone(),
        }
    }
}

/// What probing a backend finds, given what the compositor advertises (nothing
/// without a Wayland session) and what the machine offers.
pub open spec fn finding(
    backend: InjectBackend,
    globals: Option<Globals>,
    tools: Tools,
) -> (Availability, Seq<char>) {
    match backend {
        InjectBackend::Wtype => match (tools.wtype, globals) {
            (None, _) => (Availability::Unavailable, "`wtype` not found on $PATH"@),
            (Some(bin), None) => (
                Availability::Unavailable,
                bin@ + " found, but no Wayland session"@,
            ),
            (Some(bin), Some(g)) => if g.advertises(wayland::VIRTUAL_KEYBOARD@) {
                (Availability::Available, bin@ + " + virtual-keyboard protocol"@)
            } else {
                (
                    Availability::Unavailable,
                    bin@ + " found, but the compositor does not advertise "@
                        + wayland::VIRTUAL_KEYBOARD@,
                )
            },
        },
        InjectBackend::Clipboard => if tools.wl_copy is None {
            (
                Availability::Unavailable,
                "`wl-copy` not found on $PATH (install wl-clipboard)"@,
            )
        } else if tools.wl_paste is None {
            (
                Availability::Unavailable,
                "`wl-paste` not found on $PATH (install wl-clipboard)"@,
            )
        } else if globals is None {
            (Availability::Unavailable, "wl-clipboard found, but no Wayland session"@)
        } else if tools.wtype is Some || tools.uinput_writable {
            (Availability::Available, "wl-clipboard + a key-synthesis path"@)
        } else {
            (
                Availability::Degraded,
                "wl-clipboard found, but nothing can synthesize the paste chord (need wtype or /dev/uinput) — you would have to paste manually"@,
            )
        },
        InjectBackend::Uinput => if !tools.uinput_exists {
            (
                Availability::Unavailable,
                "/dev/uinput does not exist (load the `uinput` module)"@,
            )
        } else if tools.uinput_writable {
            (Availability::Available, "/dev/uinput is writable"@)
        } else {
            (
                Availability::Unavailable,
                "/dev/uinput exists but is not writable (add yourself to the `input` group or install a udev rule)"@,
            )
        },
        InjectBackend::InputMethod => match globals {
            None => (Availability::Unavailable, "no Wayland session"@),
            Some(g) => if g.advertises(wayland::INPUT_METHOD@) {
                (
                    Availability::Degraded,
                    "input-method-v2 present, but it only reaches text-input-v3 clients (not Electron, XWayland or most terminals)"@,
                )
            } else {
                (
                    Availability::Unavailable,
                    "compositor does not advertise "@ + wayland::INPUT_METHOD@,
                )
            },
        },
        InjectBackend::CopyOnly => if tools.wl_copy is None {
            (
                Availability::Unavailable,
                "`wl-copy` not found on $PATH (install wl-clipboard)"@,
            )
        } else if globals is None {
            (Availability::Unavailable, "wl-copy found, but no Wayland session"@)
        } else {
            (Availability::Degraded, "copies to the clipboard; never types"@)
        },
    }
}

/// Every backend, in the order in which they are reported.
pub open spec fn all_backends() -> Seq<InjectBackend> {
    seq![
        InjectBackend::Wtype,
        InjectBackend::Clipboard,
        InjectBackend::Uinput,
        InjectBackend::InputMethod,
        InjectBackend::CopyOnly,
    ]
}

/// The value behind an optional reference.
pub open spec fn held(globals: Option<&Globals>) -> Option<Globals> {
    match globals {
        Some(g) => Some(*g),
        None => None,
    }
}

/// Whether `probes` reports on every backend, in order.
pub open spec fn covers_all(probes: Seq<Probe>, globals: Option<Globals>, tools: Tools) -> bool {
    &&& probes.len() == all_backends().len()
    &&& forall|i: int|
        0 <= i < probes.len() ==> (#[trigger] probes[i]).says(
            all_backends()[i],
            finding(all_backends()[i], globals, tools),
        )
}

/// Probe every backend against the current session.
///
/// `globals` is `None` when there is no Wayland connection, in which case the
/// compositor-dependent backends report as unavailable rather than guessing.
pub fn probe_all(globals: Option<&Globals>, tools: &Tools) -> (r: Vec<Probe>)
    ensures
        covers_all(r@, held(globals), *tools),
{
    vec![
        probe_wtype(globals, tools),
        probe_clipboard(globals, tools),
        probe_uinput(tools),
        probe_input_method(globals),
        probe_copy_only(globals, tools),
    ]
}

/// Copy-only is the last-resort backend: it keeps a transcript recoverable on
/// any Wayland session. It still needs Wayland, because `wl-copy` talks to the
/// compositor's clipboard. It never types, so it is degraded at best.
pub fn probe_copy_only(globals: Option<&Globals>, tools: &Tools) -> (r: Probe)
    ensures
        r.says(
            InjectBackend::CopyOnly,
            finding(InjectBackend::CopyOnly, held(globals), *tools),
        ),
{
    let b = InjectBackend::CopyOnly;
    if tools.wl_copy.is_none() {
        return Probe::no(b, "`wl-copy` not found on $PATH (install wl-clipboard)".to_owned());
    }
    match globals {
        None => Probe::no(b, "wl-copy found, but no Wayland session".to_owned()),
        Some(_) => Probe::degraded(b, "copies to the clipboard; never types"),
    }
}

/// Typing needs the program and the protocol it speaks.
pub fn probe_wtype(globals: Option<&Globals>, tools: &Tools) -> (r: Probe)
    ensures
        r.says(InjectBackend::Wtype, finding(InjectBackend::Wtype, held(globals), *tools)),
{
    let b = InjectBackend::Wtype;
    let mut detail = match &tools.wtype {
        Some(bin) => bin.clone(),
        None => return Probe::no(b, "`wtype` not found on $PATH".to_owned()),
    };
    match globals {
        None => {
            detail.append(" found, but no Wayland session");
            Probe::no(b, detail)
        },
        Some(g) => {
            if g.has(wayland::VIRTUAL_KEYBOARD) {
                detail.append(" + virtual-keyboard protocol");
                Probe::ok(b, detail)
            } else {
                detail.append(" found, but the compositor does not advertise ");
                detail.append(wayland::VIRTUAL_KEYBOARD);
                Probe::no(b, detail)
            }
        },
    }
}

/// The clipboard backend needs wl-clipboard, and *some* way to send the paste
/// chord. Without one it can still place text on the clipboard, but the user
/// has to press the keys themselves.
pub fn probe_clipboard(globals: Option<&Globals>, tools: &Tools) -> (r: Probe)
    ensures
        r.says(
            InjectBackend::Clipboard,
            finding(InjectBackend::Clipboard, held(globals), *tools),
        ),
{
    let b = InjectBackend::Clipboard;
    if tools.wl_copy.is_none() {
        return Probe::no(b, "`wl-copy` not found on $PATH (install wl-clipboard)".to_owned());
    }
    if tools.wl_paste.is_none() {
        return Probe::no(b, "`wl-paste` not found on $PATH (install wl-clipboard)".to_owned());
    }
    if globals.is_none() {
        return Probe::no(b, "wl-clipboard found, but no Wayland session".to_owned());
    }
    if tools.wtype.is_some() || tools.uinput_writable {
        Probe::ok(b, "wl-clipboard + a key-synthesis path".to_owned())
    } else {
        Probe::degraded(
            b,
            "wl-clipboard found, but nothing can synthesize the paste chord (need wtype or /dev/uinput) — you would have to paste manually",
        )
    }
}

/// Kernel input needs a writable device node, and no compositor.
pub fn probe_uinput(tools: &Tools) -> (r: Probe)
    ensures
        forall|globals: Option<Globals>| #[trigger]
            r.says(InjectBackend::Uinput, finding(InjectBackend::Uinput, globals, *tools)),
{
    let b = InjectBackend::Uinput;
    if !tools.uinput_exists {
        return Probe::no(b, "/dev/uinput does not exist (load the `uinput` module)".to_owned());
    }
    if tools.uinput_writable {
        Probe::ok(b, "/dev/uinput is writable".to_owned())
    } else {
        Probe::no(
            b,
            "/dev/uinput exists but is not writable (add yourself to the `input` group or install a udev rule)".to_owned(),
        )
    }
}

/// Architecturally the right protocol, but it only reaches clients that
/// implement text-input-v3. Never a clean tick.
pub fn probe_input_method(globals: Option<&Globals>) -> (r: Probe)
    ensures
        forall|tools: Tools| #[trigger]
            r.says(
                InjectBackend::InputMethod,
                finding(InjectBackend::InputMethod, held(globals), tools),
            ),
{
    let b = InjectBackend::InputMethod;
    match globals {
        None => Probe::no(b, "no Wayland session".to_owned()),
        Some(g) => {
            if g.has(wayland::INPUT_METHOD) {
                Probe::degraded(
                    b,
                    "input-method-v2 present, but it only reaches text-input-v3 clients (not Electron, XWayland or most terminals)",
                )
            } else {
                let mut detail = "compositor does not advertise ".to_owned();
                detail.append(wayland::INPUT_METHOD);
                Probe::no(b, detail)
            }
        },
    }
}

/// Every backend is reported on.
pub proof fn law_every_backend_is_probed(backend: InjectBackend)
    ensures
        all_backends().contains(backend),
{
    match backend {
        InjectBackend::Wtype => assert(all_backends()[0] == backend),
        InjectBackend::Clipboard => assert(all_backends()[1] == backend),
        InjectBackend::Uinput => assert(all_backends()[2] == backend),
        InjectBackend::InputMethod => assert(all_backends()[3] == backend),
        InjectBackend::CopyOnly => assert(all_backends()[4] == backend),
    }
}

/// Without Wayland nothing claims to be usable but uinput, which goes straight
/// to the kernel.
pub proof fn law_nothing_but_uinput_without_wayland(backend: InjectBackend, tools: Tools)
    requires
        backend != InjectBackend::Uinput,
    ensures
        !finding(backend, None, tools).0.usable(),
{
}

/// On any Wayland session with `wl-copy`, there is always some backend: a
/// transcript is never lost.
pub proof fn law_copy_only_whenever_wl_copy(globals: Globals, tools: Tools)
    requires
        tools.wl_copy is Some,
    ensures
        finding(InjectBackend::CopyOnly, Some(globals), tools).0.usable(),
{
}

/// What each backend needs, and no more: typing needs wtype and its protocol;
/// pasting needs both clipboard programs and a session, and is clean only if
/// something can press the keys; kernel input needs a writable device node;
/// the input method needs its protocol and is never clean; copying needs
/// wl-copy and a session, and is never clean.
pub proof fn law_what_each_backend_needs(globals: Option<Globals>, tools: Tools)
    ensures
        finding(InjectBackend::Wtype, globals, tools).0 is Available <==> tools.wtype is Some
            && globals is Some && globals->0.advertises("zwp_virtual_keyboard_manager_v1"@),
        !(finding(InjectBackend::Wtype, globals, tools).0 is Degraded),
        finding(InjectBackend::Clipboard, globals, tools).0.usable() <==> tools.wl_copy is Some
            && tools.wl_paste is Some && globals is Some,
        finding(InjectBackend::Clipboard, globals, tools).0 is Available <==> tools.wl_copy is Some
            && tools.wl_paste is Some && globals is Some && (tools.wtype is Some
            || tools.uinput_writable),
        finding(InjectBackend::Uinput, globals, tools).0 is Available <==> tools.uinput_exists
            && tools.uinput_writable,
        !(finding(InjectBackend::Uinput, globals, tools).0 is Degraded),
        finding(InjectBackend::InputMethod, globals, tools).0 is Degraded <==> globals is Some
            && globals->0.advertises("zwp_input_method_manager_v2"@),
        !(finding(InjectBackend::InputMethod, globals, tools).0 is Available),
        finding(InjectBackend::CopyOnly, globals, tools).0 is Degraded <==> tools.wl_copy is Some
            && globals is Some,
        !(finding(InjectBackend::CopyOnly, globals, tools).0 is Available),
{
}

/// A backend is willing to be selected exactly if it is not unavailable.
pub proof fn law_only_unavailable_is_unusable(a: Availability)
    ensures
        a.usable() <==> !(a is Unavailable),
{
}

/// A program is looked for in every directory of the search path, in order, and
/// under its own name in each.
pub proof fn law_every_directory_is_searched(bin: Seq<char>, path: Seq<char>, i: int)
    requires
        !paths::absolute(bin),
        0 <= i < text::split_on(path, ':').len(),
    ensures
        candidates(bin, path).len() == text::split_on(path, ':').len(),
        text::has_prefix(candidates(bin, path)[i], text::split_on(path, ':')[i]),
        paths::has_suffix(candidates(bin, path)[i], bin),
        candidates(bin, path)[i].len() <= text::split_on(path, ':')[i].len() + 1 + bin.len(),
{
    reveal_strlit("/");
    paths::law_relative_stays_below(text::split_on(path, ':')[i], bin);
}

/// The program that is found is the first that can be run, and none is found
/// only if none can be.
pub proof fn law_first_executable_is_found(files: Seq<Option<FileMode>>, from: int)
    requires
        0 <= from,
    ensures
        match first_executable(files, from) {
            Some(i) => {
                &&& from <= i < files.len()
                &&& executable(files[i])
                &&& forall|j: int| from <= j < i ==> !executable(#[trigger] files[j])
            },
            None => forall|j: int| from <= j < files.len() ==> !executable(#[trigger] files[j]),
        },
    decreases files.len() - from,
{
    if from < files.len() && !executable(files[from]) {
        law_first_executable_is_found(files, from + 1);
    }
}

/// A file can be run if it is a regular file and its owner, its group or others
/// may execute it.
pub proof fn law_any_execute_bit_counts(f: FileMode)
    ensures
        executable(Some(f)) <==> f.is_file && (f.mode & 0o100 != 0 || f.mode & 0o010 != 0 || f.mode
            & 0o001 != 0),
        !executable(None),
{
    let mode = f.mode;
    assert(mode & 0o111 != 0 <==> (mode & 0o100 != 0 || mode & 0o010 != 0 || mode & 0o001 != 0))
        by (bit_vector);
}

/// No two backends share a name.
pub proof fn law_labels_are_apart(a: InjectBackend, b: InjectBackend)
    ensures
        backend_label(a) == backend_label(b) ==> a == b,
        a.variant() == b.variant() ==> a == b,
{
    reveal_strlit("wtype");
    reveal_strlit("clipboard");
    reveal_strlit("uinput");
    reveal_strlit("input-method");
    reveal_strlit("copy-only");
    assert("wtype"@[0] == 'w' && "clipboard"@[1] == 'l' && "uinput"@[0] == 'u' && "input-method"@[0]
        == 'i' && "copy-only"@[1] == 'o' && "clipboard"@[0] == 'c' && "copy-only"@[0] == 'c');
    reveal_strlit("Wtype");
    reveal_strlit("Clipboard");
    reveal_strlit("Uinput");
    reveal_strlit("InputMethod");
    reveal_strlit("CopyOnly");
    assert("Wtype"@[0] == 'W' && "Clipboard"@[1] == 'l' && "Uinput"@[0] == 'U' && "InputMethod"@[0]
        == 'I' && "CopyOnly"@[1] == 'o' && "Clipboard"@[0] == 'C' && "CopyOnly"@[0] == 'C');
}

/// What is found of wtype names the program that was found, and what is missing
/// names what has to be installed or advertised.
pub proof fn law_findings_name_the_cause(globals: Option<Globals>, tools: Tools)
    ensures
        tools.wtype matches Some(bin) ==> text::has_prefix(
            finding(InjectBackend::Wtype, globals, tools).1,
            bin@,
        ),
        tools.wtype is None ==> finding(InjectBackend::Wtype, globals, tools).1
            == "`wtype` not found on $PATH"@,
        (tools.wtype is Some && globals is Some && !globals->0.advertises(
            "zwp_virtual_keyboard_manager_v1"@,
        )) ==> paths::has_suffix(
            finding(InjectBackend::Wtype, globals, tools).1,
            "zwp_virtual_keyboard_manager_v1"@,
        ),
        tools.wl_copy is None ==> finding(InjectBackend::Clipboard, globals, tools).1 == finding(
            InjectBackend::CopyOnly,
            globals,
            tools,
        ).1 && finding(InjectBackend::CopyOnly, globals, tools).1
            == "`wl-copy` not found on $PATH (install wl-clipboard)"@,
        tools.wl_copy is Some && tools.wl_paste is None ==> finding(
            InjectBackend::Clipboard,
            globals,
            tools,
        ).1 == "`wl-paste` not found on $PATH (install wl-clipboard)"@,
        globals is Some && !globals->0.advertises("zwp_input_method_manager_v2"@)
            ==> paths::has_suffix(
            finding(InjectBackend::InputMethod, globals, tools).1,
            "zwp_input_method_manager_v2"@,
        ),
{
    let typed = finding(InjectBackend::Wtype, globals, tools).1;
    if let Some(bin) = tools.wtype {
        assert(typed.take(bin@.len() as int) =~= bin@);
    }
    let keyboard = "zwp_virtual_keyboard_manager_v1"@;
    if tools.wtype is Some && globals is Some && !globals->0.advertises(keyboard) {
        assert(typed.skip(typed.len() - keyboard.len()) =~= keyboard);
    }
    let method = "zwp_input_method_manager_v2"@;
    if globals is Some && !globals->0.advertises(method) {
        let t = finding(InjectBackend::InputMethod, globals, tools).1;
        assert(t.skip(t.len() - method.len()) =~= method);
    }
}

} // verus!
