//! Activation backends: how the user tells the daemon to start listening.
//!
//! The control socket always works; the portal and evdev backends are
//! conveniences layered on top for sessions that support them.

use vstd::prelude::*;
use crate::config::ActivationBackend;
use crate::paths;
use crate::paths::PathError;
use crate::probe::Availability;
use crate::text;

verus! {

/// The desktop portal's name on the session bus.
pub const PORTAL_BUS: &'static str = "org.freedesktop.portal.Desktop";

/// The desktop portal's object.
pub const PORTAL_PATH: &'static str = "/org/freedesktop/portal/desktop";

/// The portal interface for global shortcuts.
pub const GLOBAL_SHORTCUTS_IFACE: &'static str = "org.freedesktop.portal.GlobalShortcuts";

/// Outcome of probing one backend.
#[derive(Debug, Clone, PartialEq, Eq)]
pub struct Probe {
    pub backend: ActivationBackend,
    pub availability: Availability,
    pub detail: String,
}

impl Probe {
    /// Whether the probe found this, for this reason.
    pub open spec fn says(
        self,
        backend: ActivationBackend,
        finding: (Availability, Seq<char>),
    ) -> bool {
        self.backend == backend && self.availability == finding.0 && self.detail@ == finding.1
    }

    fn new(backend: ActivationBackend, availability: Availability, detail: String) -> (r: Self)
        ensures
            r.says(backend, (availability, detail@)),
    {
        Probe { backend, availability, detail }
    }

    fn ok(backend: ActivationBackend, detail: String) -> (r: Self)
        ensures
            r.says(backend, (Availability::Available, detail@)),
    {
        Probe::new(backend, Availability::Available, detail)
    }

    fn degraded(backend: ActivationBackend, detail: String) -> (r: Self)
        ensures
            r.says(backend, (Availability::Degraded, detail@)),
    {
        Probe::new(backend, Availability::Degraded, detail)
    }

    fn no(backend: ActivationBackend, detail: String) -> (r: Self)
        ensures
            r.says(backend, (Availability::Unavailable, detail@)),
    {
        Probe::new(backend, Availability::Unavailable, detail)
    }

    /// Whether the daemon should be willing to select this backend.
    pub fn is_usable(&self) -> (r: bool)
        ensures
            r == self.availability.usable(),
    {
        self.availability.is_usable()
    }
}

/// What was learnt of the desktop portal.
pub enum Portal {
    /// It implements global shortcuts, in this version.
    Version(u32),
    /// It runs, and does not implement them. An unimplemented interface
    /// answers with an error, not with a missing value.
    Unimplemented,
    /// There is no session portal; carries the error.
    Unreachable(String),
}

/// One entry of `/dev/input`.
pub struct InputEntry {
    /// Its file name, where that is UTF-8.
    pub name: Option<String>,
    /// It could be opened for reading.
    pub readable: bool,
}

/// What was learnt of `/dev/input`.
pub enum InputDir {
    /// It does not exist.
    Absent,
    /// It cannot be listed.
    Unreadable,
    /// It holds these entries.
    Entries(Vec<InputEntry>),
}

/// Whether an entry is an event device.
pub open spec fn is_event(e: InputEntry) -> bool {
    e.name matches Some(n) && text::has_prefix(n@, "event"@)
}

/// How many of some entries are event devices.
pub open spec fn event_count(entries: Seq<InputEntry>) -> nat {
    entries.filter(|e: InputEntry| is_event(e)).len()
}

/// How many of some entries are event devices that can be read.
pub open spec fn readable_count(entries: Seq<InputEntry>) -> nat {
    entries.filter(|e: InputEntry| is_event(e) && e.readable).len()
}

/// What probing the portal finds.
pub open spec fn portal_finding(portal: Portal) -> (Availability, Seq<char>) {
    match portal {
        Portal::Version(v) => (
            Availability::Available,
            GLOBAL_SHORTCUTS_IFACE@ + " version "@ + text::decimal(v as nat),
        ),
        Portal::Unimplemented => (
            Availability::Unavailable,
            "portal is running but implements no GlobalShortcuts interface (xdg-desktop-portal-wlr does not; use the socket backend)"@,
        ),
        Portal::Unreachable(e) => (Availability::Unavailable, "no session portal: "@ + e@),
    }
}

/// What probing the input devices finds.
///
/// Partial access usually means that the readable node is something like a
/// power button, not the keyboard we need, so it is never a clean tick.
pub open spec fn evdev_finding(dir: InputDir) -> (Availability, Seq<char>) {
    match dir {
        InputDir::Absent => (Availability::Unavailable, "/dev/input does not exist"@),
        InputDir::Unreadable => (Availability::Unavailable, "/dev/input is not readable"@),
        InputDir::Entries(entries) => {
            let total = event_count(entries@);
            let readable = readable_count(entries@);
            if total == 0 {
                (Availability::Unavailable, "no /dev/input/event* devices found"@)
            } else if readable == 0 {
                (
                    Availability::Unavailable,
                    text::decimal(total)
                        + " input devices found, none readable (add yourself to the `input` group)"@,
                )
            } else if readable == total {
                (
                    Availability::Available,
                    "all "@ + text::decimal(total) + " input devices readable"@,
                )
            } else {
                (
                    Availability::Degraded,
                    "only "@ + text::decimal(readable) + "/"@ + text::decimal(total)
                        + " input devices readable — the keyboard may not be among them (add yourself to the `input` group)"@,
                )
            }
        },
    }
}

/// What probing the control socket finds, given its place: the backend is
/// always there, and what is said of it tells where, or why no place is known.
pub open spec fn socket_finding(path: Result<Seq<char>, PathError>) -> (Availability, Seq<char>) {
    match path {
        Ok(p) => (Availability::Available, "always available at "@ + p),
        Err(e) => (Availability::Available, "always available, but "@ + e.text()),
    }
}

/// Probe every backend.
pub fn probe_all(portal: &Portal, input: &InputDir, runtime_dir: Option<&str>) -> (r: Vec<Probe>)
    ensures
        r@.len() == 3,
        r@[0].says(ActivationBackend::Portal, portal_finding(*portal)),
        r@[1].says(ActivationBackend::Evdev, evdev_finding(*input)),
        r@[2].says(ActivationBackend::Socket, socket_finding(
            paths::socket_place(text::opt_str_view(runtime_dir)),
        )),
{
    vec![probe_portal(portal), probe_evdev(input), probe_socket(runtime_dir)]
}

/// Whether the session bus has a `GlobalShortcuts` portal implementation.
///
/// Presence of the portal is not enough: the wlroots backend ships the bus name
/// but no GlobalShortcuts interface.
pub fn probe_portal(portal: &Portal) -> (r: Probe)
    ensures
        r.says(ActivationBackend::Portal, portal_finding(*portal)),
{
    let b = ActivationBackend::Portal;
    match portal {
        Portal::Version(v) => {
            let mut detail = GLOBAL_SHORTCUTS_IFACE.to_owned();
            detail.append(" version ");
            detail.append(text::to_decimal(*v as u64).as_str());
            Probe::ok(b, detail)
        },
        Portal::Unimplemented => Probe::no(
            b,
            "portal is running but implements no GlobalShortcuts interface (xdg-desktop-portal-wlr does not; use the socket backend)".to_owned(),
        ),
        Portal::Unreachable(e) => {
            let mut detail = "no session portal: ".to_owned();
            detail.append(e.as_str());
            Probe::no(b, detail)
        },
    }
}

fn count_events(entries: &Vec<InputEntry>) -> (r: (usize, usize))
    ensures
        r.0 == event_count(entries@),
        r.1 == readable_count(entries@),
{
    let mut total: usize = 0;
    let mut readable: usize = 0;
    let mut i: usize = 0;
    proof {
        reveal(Seq::filter);
    }
    while i < entries.len()
        invariant
            i <= entries@.len(),
            readable <= total <= i,
            total == event_count(entries@.take(i as int)),
            readable == readable_count(entries@.take(i as int)),
        decreases entries@.len() - i,
    {
        proof {
            reveal(Seq::filter);
            assert(entries@.take(i + 1).drop_last() =~= entries@.take(i as int));
            assert(entries@.take(i + 1).last() == entries@[i as int]);
        }
        let is_event = match &entries[i].name {
            Some(n) => text::starts_with(n.as_str(), "event"),
            None => false,
        };
        if is_event {
            total += 1;
            if entries[i].readable {
                readable += 1;
            }
        }
        i += 1;
    }
    assert(entries@.take(i as int) =~= entries@);
    (total, readable)
}

/// evdev needs read access to the raw input devices. Rather than inspecting
/// group membership, what could be opened is counted.
pub fn probe_evdev(dir: &InputDir) -> (r: Probe)
    ensures
        r.says(ActivationBackend::Evdev, evdev_finding(*dir)),
{
    let b = ActivationBackend::Evdev;
    let entries = match dir {
        InputDir::Absent => return Probe::no(b, "/dev/input does not exist".to_owned()),
        InputDir::Unreadable => return Probe::no(b, "/dev/input is not readable".to_owned()),
        InputDir::Entries(entries) => entries,
    };
    let (total, readable): (usize, usize) = count_events(entries);
    if total == 0 {
        return Probe::no(b, "no /dev/input/event* devices found".to_owned());
    }
    let all = text::to_decimal(total as u64);
    if readable == 0 {
        let mut detail = all;
        detail.append(" input devices found, none readable (add yourself to the `input` group)");
        Probe::no(b, detail)
    } else if readable == total {
        let mut detail = "all ".to_owned();
        detail.append(all.as_str());
        detail.append(" input devices readable");
        Probe::ok(b, detail)
    } else {
        let mut detail = "only ".to_owned();
        detail.append(text::to_decimal(readable as u64).as_str());
        detail.append("/");
        detail.append(all.as_str());
        detail.append(
            " input devices readable — the keyboard may not be among them (add yourself to the `input` group)",
        );
        Probe::degraded(b, detail)
    }
}

/// The control socket is part of the daemon itself, so it is unconditionally
/// available. This is the backstop that makes every compositor work.
///
/// That holds without a runtime directory too. Whether there is a safe place
/// for the socket is another question, which [`paths::socket_path`] answers:
/// it names none then, and the probe says so.
pub fn probe_socket(runtime_dir: Option<&str>) -> (r: Probe)
    ensures
        r.says(ActivationBackend::Socket, socket_finding(
            paths::socket_place(text::opt_str_view(runtime_dir)),
        )),
        r.availability is Available,
        r.detail@.len() > 0,
{
    proof {
        reveal_strlit("always available at ");
        reveal_strlit("always available, but ");
    }
    match paths::socket_path(runtime_dir) {
        Ok(p) => {
            let mut detail = "always available at ".to_owned();
            detail.append(p.as_str());
            Probe::ok(ActivationBackend::Socket, detail)
        },
        Err(e) => {
            let mut detail = "always available, but ".to_owned();
            detail.append(e.message().as_str());
            Probe::ok(ActivationBackend::Socket, detail)
        },
    }
}

/// Whatever the compositor does or does not implement, and whatever the
/// environment says, the socket works.
pub proof fn law_socket_is_always_usable(runtime_dir: Option<&str>)
    ensures
        socket_finding(paths::socket_place(text::opt_str_view(runtime_dir))).0 is Available,
        socket_finding(paths::socket_place(text::opt_str_view(runtime_dir))).0.usable(),
{
}

/// Partial access to the input devices never shows up as a clean tick.
pub proof fn law_partial_evdev_is_degraded(entries: Vec<InputEntry>)
    requires
        0 < readable_count(entries@) < event_count(entries@),
    ensures
        evdev_finding(InputDir::Entries(entries)).0 is Degraded,
{
}

/// Every probe explains itself.
pub proof fn law_probes_explain_themselves(
    portal: Portal,
    dir: InputDir,
    runtime_dir: Option<&str>,
)
    ensures
        portal_finding(portal).1.len() > 0,
        evdev_finding(dir).1.len() > 0,
        socket_finding(
            paths::socket_place(text::opt_str_view(runtime_dir)),
        ).1.len() > 0,
{
    reveal_strlit("org.freedesktop.portal.GlobalShortcuts");
    reveal_strlit(
        "portal is running but implements no GlobalShortcuts interface (xdg-desktop-portal-wlr does not; use the socket backend)",
    );
    reveal_strlit("no session portal: ");
    reveal_strlit("/dev/input does not exist");
    reveal_strlit("/dev/input is not readable");
    reveal_strlit("no /dev/input/event* devices found");
    reveal_strlit(" input devices found, none readable (add yourself to the `input` group)");
    reveal_strlit("all ");
    reveal_strlit("only ");
    reveal_strlit("always available at ");
    reveal_strlit("XDG_RUNTIME_DIR is unset; cannot place the control socket safely");
}

/// The portal is usable exactly if it implements global shortcuts.
pub proof fn law_portal_needs_the_interface(portal: Portal)
    ensures
        portal_finding(portal).0 is Available <==> portal is Version,
        portal_finding(portal).0 is Unavailable <==> !(portal is Version),
{
}

/// The input devices are available exactly if there are some and all can be
/// read, and unavailable exactly if none can.
pub proof fn law_what_evdev_needs(dir: InputDir)
    ensures
        evdev_finding(dir).0 is Available <==> dir is Entries && event_count(dir->Entries_0@) > 0
            && readable_count(dir->Entries_0@) == event_count(dir->Entries_0@),
        evdev_finding(dir).0 is Unavailable <==> !(dir is Entries) || readable_count(
            dir->Entries_0@,
        ) == 0,
{
    if let InputDir::Entries(entries) = dir {
        lemma_readable_are_events(entries@);
    }
}

proof fn lemma_readable_are_events(entries: Seq<InputEntry>)
    ensures
        readable_count(entries) <= event_count(entries),
    decreases entries.len(),
{
    reveal(Seq::filter);
    if entries.len() > 0 {
        lemma_readable_are_events(entries.drop_last());
    }
}

/// Only entries whose name begins with `event` count, each once, and among the
/// readable ones only if it can be read.
pub proof fn law_each_event_device_counts_once(entries: Seq<InputEntry>, e: InputEntry)
    ensures
        event_count(entries.push(e)) == event_count(entries) + (if e.name is Some
            && e.name->0@.len() >= 5 && e.name->0@.take(5) == seq!['e', 'v', 'e', 'n', 't'] {
            1nat
        } else {
            0nat
        }),
        readable_count(entries.push(e)) == readable_count(entries) + (if e.readable
            && e.name is Some && e.name->0@.len() >= 5 && e.name->0@.take(5) == seq![
            'e',
            'v',
            'e',
            'n',
            't',
        ] {
            1nat
        } else {
            0nat
        }),
        event_count(Seq::empty()) == 0,
        readable_count(Seq::empty()) == 0,
{
    reveal(Seq::filter);
    reveal_strlit("event");
    assert("event"@ =~= seq!['e', 'v', 'e', 'n', 't']);
    assert(entries.push(e).drop_last() =~= entries);
    assert(entries.push(e).last() == e);
}

/// What was found is told: the version of the portal, why there is none, how
/// many devices there are and how many can be read, and where the socket is.
pub proof fn law_findings_are_told(v: u32, e: String, entries: Vec<InputEntry>, path: Seq<char>)
    ensures
        portal_finding(Portal::Version(v)).1 == GLOBAL_SHORTCUTS_IFACE@ + " version "@
            + text::decimal(v as nat),
        paths::has_suffix(portal_finding(Portal::Unreachable(e)).1, e@),
        evdev_finding(InputDir::Entries(entries)).0 is Available ==> text::has_prefix(
            evdev_finding(InputDir::Entries(entries)).1,
            "all "@ + text::decimal(event_count(entries@)),
        ),
        evdev_finding(InputDir::Entries(entries)).0 is Degraded ==> text::has_prefix(
            evdev_finding(InputDir::Entries(entries)).1,
            "only "@ + text::decimal(readable_count(entries@)) + "/"@ + text::decimal(
                event_count(entries@),
            ),
        ),
        paths::has_suffix(socket_finding(Ok(path)).1, path),
        forall|p: paths::PathError|
            paths::has_suffix((#[trigger] socket_finding(Err(p))).1, p.text()),
{
    let reason = portal_finding(Portal::Unreachable(e)).1;
    assert(reason.skip(reason.len() - e@.len()) =~= e@);
    let total = text::decimal(event_count(entries@));
    let readable = text::decimal(readable_count(entries@));
    let found = evdev_finding(InputDir::Entries(entries)).1;
    let all = "all "@ + total;
    let only = "only "@ + readable + "/"@ + total;
    if evdev_finding(InputDir::Entries(entries)).0 is Available {
        assert(found.take(all.len() as int) =~= all);
    }
    if evdev_finding(InputDir::Entries(entries)).0 is Degraded {
        assert(found.take(only.len() as int) =~= only);
    }
    let at = socket_finding(Ok(path)).1;
    assert(at.skip(at.len() - path.len()) =~= path);
    assert forall|p: paths::PathError|
        paths::has_suffix((#[trigger] socket_finding(Err(p))).1, p.text()) by {
        let t = socket_finding(Err(p)).1;
        assert(t.skip(t.len() - p.text().len()) =~= p.text());
    }
}

} // verus!
