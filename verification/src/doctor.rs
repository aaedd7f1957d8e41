//! `stt doctor`: one report that explains what this session can and cannot do.
//!
//! Because the viable strategies differ per compositor, most problems are
//! environment problems. The report exists so that the answer is one paste
//! away, and so a broken audio path is never mistaken for a broken model.

use vstd::prelude::*;
use crate::activate;
use crate::activate::{InputDir, Portal};
use crate::audio;
use crate::audio::{AudioError, DeviceInfo, InputDevices, Pick};
use crate::client::ClientError;
use crate::config::{ActivationBackend, Config, ConfigError, EngineBackend, InjectBackend};
use crate::engine::{EngineError, check_backend};
use crate::inject;
use crate::inject::probe::{Probe, Tools};
use crate::ipc::StatusReport;
use crate::order;
use crate::text;
use crate::wayland;
use crate::wayland::{Globals, RegistryError};

verus! {

/// The mark of what is fine.
pub const OK: &'static str = "\x1b[32m✓\x1b[0m";

/// The mark of what makes the session unusable.
pub const BAD: &'static str = "\x1b[31m✗\x1b[0m";

/// The mark of what is worth knowing.
pub const WARN: &'static str = "\x1b[33m!\x1b[0m";

/// Everything that was found out about this session.
pub struct Findings {
    pub version: String,
    /// `XDG_SESSION_TYPE`
    pub session_type: Option<String>,
    pub on_wayland: bool,
    pub compositor: String,
    pub registry: Result<Globals, RegistryError>,
    pub config_path: String,
    pub config_exists: bool,
    /// The configuration in force: the defaults when the file is broken.
    pub config: Config,
    /// What is wrong with the file, if anything is.
    pub config_error: Option<ConfigError>,
    pub models_dir: String,
    pub socket: String,
    pub model_dir: String,
    /// The files in the model directory; none if it is not a directory.
    pub model_files: Option<Vec<String>>,
    pub audio: Result<InputDevices, AudioError>,
    pub tools: Tools,
    pub portal: Portal,
    pub input: InputDir,
    pub runtime_dir: Option<String>,
    pub daemon: Result<StatusReport, ClientError>,
}

/// A line of the report.
pub open spec fn line(mark: Seq<char>, rest: Seq<char>) -> Seq<char> {
    "  "@ + mark + " "@ + rest + "\n"@
}

fn put_line(mark: &str, rest: &str) -> (r: String)
    ensures
        r@ == line(mark@, rest@),
{
    let mut s = "  ".to_owned();
    s.append(mark);
    s.append(" ");
    s.append(rest);
    s.append("\n");
    s
}

// ---------------------------------------------------------------- session

/// What is said of the compositor's registry.
pub open spec fn registry_line(registry: Result<Globals, RegistryError>) -> Seq<char> {
    match registry {
        Ok(g) => line(
            OK@,
            "registry    "@ + text::decimal(g.globals@.len()) + " globals advertised"@,
        ),
        Err(e) => line(BAD@, "registry    "@ + e.headline()),
    }
}

/// The section on the session.
pub open spec fn session_section(f: Findings) -> Seq<char> {
    "Session\n"@ + line(
        if f.on_wayland {
            OK@
        } else {
            BAD@
        },
        "type        "@ + (match f.session_type {
            Some(t) => t@,
            None => "unknown"@,
        }),
    ) + line(OK@, "compositor  "@ + f.compositor@) + registry_line(f.registry)
}

fn write_session(f: &Findings) -> (r: String)
    ensures
        r@ == session_section(*f),
{
    let mut s = "Session\n".to_owned();
    let mut kind = "type        ".to_owned();
    kind.append(
        match &f.session_type {
            Some(t) => t.as_str(),
            None => "unknown",
        },
    );
    let mark = if f.on_wayland {
        OK
    } else {
        BAD
    };
    s.append(put_line(mark, kind.as_str()).as_str());
    let mut compositor = "compositor  ".to_owned();
    compositor.append(f.compositor.as_str());
    s.append(put_line(OK, compositor.as_str()).as_str());
    let mut registry = "registry    ".to_owned();
    match &f.registry {
        Ok(g) => {
            registry.append(text::to_decimal(g.globals.len() as u64).as_str());
            registry.append(" globals advertised");
            s.append(put_line(OK, registry.as_str()).as_str());
        },
        Err(e) => {
            registry.append(e.short_message());
            s.append(put_line(BAD, registry.as_str()).as_str());
        },
    }
    s
}

// ---------------------------------------------------------------- protocols

/// What is said of one protocol.
pub open spec fn protocol_line(g: Globals, interface: Seq<char>, why: Seq<char>) -> Seq<char> {
    match wayland::first_with(g.globals@, interface, 0) {
        Some(i) => line(
            OK@,
            interface + " v"@ + text::decimal(g.globals@[i].version as nat) + " — "@ + why,
        ),
        None => line(WARN@, interface + " absent — "@ + why + " unavailable"@),
    }
}

/// The section on the protocols; there is none without a compositor.
pub open spec fn protocol_section(registry: Result<Globals, RegistryError>) -> Seq<char> {
    match registry {
        Ok(g) => "\nWayland protocols\n"@ + protocol_line(
            g,
            wayland::VIRTUAL_KEYBOARD@,
            "wtype text injection"@,
        ) + protocol_line(g, wayland::LAYER_SHELL@, "recording overlay"@) + protocol_line(
            g,
            wayland::INPUT_METHOD@,
            "input-method injection"@,
        ) + protocol_line(g, wayland::DATA_CONTROL@, "clipboard access"@),
        Err(_) => Seq::empty(),
    }
}

fn write_protocol(g: &Globals, interface: &str, why: &str) -> (r: String)
    ensures
        r@ == protocol_line(*g, interface@, why@),
{
    let mut rest = interface.to_owned();
    match g.version_of(interface) {
        Some(v) => {
            rest.append(" v");
            rest.append(text::to_decimal(v as u64).as_str());
            rest.append(" — ");
            rest.append(why);
            put_line(OK, rest.as_str())
        },
        None => {
            rest.append(" absent — ");
            rest.append(why);
            rest.append(" unavailable");
            put_line(WARN, rest.as_str())
        },
    }
}

fn write_protocols(registry: &Result<Globals, RegistryError>) -> (r: String)
    ensures
        r@ == protocol_section(*registry),
{
    match registry {
        Ok(g) => {
            let mut s = "\nWayland protocols\n".to_owned();
            s.append(
                write_protocol(g, wayland::VIRTUAL_KEYBOARD, "wtype text injection").as_str(),
            );
            s.append(write_protocol(g, wayland::LAYER_SHELL, "recording overlay").as_str());
            s.append(write_protocol(g, wayland::INPUT_METHOD, "input-method injection").as_str());
            s.append(write_protocol(g, wayland::DATA_CONTROL, "clipboard access").as_str());
            s
        },
        Err(_) => {
            let s = String::new();
            assert(s@ =~= Seq::<char>::empty());
            s
        },
    }
}

// ---------------------------------------------------------------- configuration

/// The section on the configuration.
pub open spec fn config_section(f: Findings) -> Seq<char> {
    "\nConfiguration\n"@ + (match f.config_error {
        Some(e) => line(BAD@, "config      "@ + e.text()),
        None => line(
            OK@,
            "config      "@ + f.config_path@ + (if f.config_exists {
                ""@
            } else {
                " (absent, using defaults)"@
            }),
        ),
    }) + line(OK@, "models dir  "@ + f.models_dir@) + line(OK@, "socket      "@ + f.socket@)
}

fn write_config(f: &Findings) -> (r: String)
    ensures
        r@ == config_section(*f),
{
    let mut s = "\nConfiguration\n".to_owned();
    let mut rest = "config      ".to_owned();
    match &f.config_error {
        Some(e) => {
            rest.append(e.message().as_str());
            s.append(put_line(BAD, rest.as_str()).as_str());
        },
        None => {
            rest.append(f.config_path.as_str());
            rest.append(
                if f.config_exists {
                    ""
                } else {
                    " (absent, using defaults)"
                },
            );
            s.append(put_line(OK, rest.as_str()).as_str());
        },
    }
    let mut models = "models dir  ".to_owned();
    models.append(f.models_dir.as_str());
    s.append(put_line(OK, models.as_str()).as_str());
    let mut socket = "socket      ".to_owned();
    socket.append(f.socket.as_str());
    s.append(put_line(OK, socket.as_str()).as_str());
    s
}

// ---------------------------------------------------------------- model

/// What a recognizer is called.
pub open spec fn engine_name(backend: EngineBackend) -> Seq<char> {
    match backend {
        EngineBackend::Parakeet => "Parakeet"@,
        EngineBackend::Whisper => "Whisper"@,
    }
}

/// What is said of a recognizer that is not built in.
pub open spec fn backend_fault(backend: EngineBackend) -> Seq<char> {
    match backend {
        EngineBackend::Parakeet => ""@,
        EngineBackend::Whisper => line(BAD@, EngineError::NoWhisper.text()),
    }
}

/// The section on the model.
pub open spec fn model_section(f: Findings) -> Seq<char> {
    "\nModel\n"@ + backend_fault(f.config.engine.backend) + (match f.model_files {
        Some(files) => line(
            OK@,
            engine_name(f.config.engine.backend) + " at "@ + f.model_dir@,
        ) + (if files@.len() == 0 {
            line(BAD@, "directory is empty — run `stt model download`"@)
        } else {
            line(
                OK@,
                "files       "@ + text::joined(text::views(order::sorted(files@)), ", "@),
            )
        }),
        None => line(
            BAD@,
            "not found at "@ + f.model_dir@ + " — run `stt model download`"@,
        ),
    })
}

fn write_model(f: &Findings) -> (r: String)
    ensures
        r@ == model_section(*f),
{
    let mut s = "\nModel\n".to_owned();
    let fault = match check_backend(&f.config.engine) {
        Ok(()) => "".to_owned(),
        Err(e) => put_line(BAD, e.message().as_str()),
    };
    s.append(fault.as_str());
    match &f.model_files {
        Some(files) => {
            let mut rest = match f.config.engine.backend {
                EngineBackend::Parakeet => "Parakeet".to_owned(),
                EngineBackend::Whisper => "Whisper".to_owned(),
            };
            rest.append(" at ");
            rest.append(f.model_dir.as_str());
            let mut lines = put_line(OK, rest.as_str());
            if files.len() == 0 {
                lines.append(
                    put_line(BAD, "directory is empty — run `stt model download`").as_str(),
                );
            } else {
                let sorted = order::sort(text::copy_strings(files));
                let mut list = "files       ".to_owned();
                list.append(text::join(&sorted, ", ").as_str());
                lines.append(put_line(OK, list.as_str()).as_str());
            }
            s.append(lines.as_str());
        },
        None => {
            let mut rest = "not found at ".to_owned();
            rest.append(f.model_dir.as_str());
            rest.append(" — run `stt model download`");
            s.append(put_line(BAD, rest.as_str()).as_str());
        },
    }
    s
}

// ---------------------------------------------------------------- audio

/// What to call a device: its id, or its name if it has none.
pub open spec fn device_label(d: DeviceInfo) -> Seq<char> {
    match d.id {
        Some(i) => i@,
        None => d.name@,
    }
}

/// A device's capture format.
pub open spec fn device_format(d: DeviceInfo) -> Seq<char> {
    match d.default_config {
        Some(c) => c@,
        None => "unknown format"@,
    }
}

fn label_of(d: &DeviceInfo) -> (r: &str)
    ensures
        r@ == device_label(*d),
{
    match &d.id {
        Some(i) => i.as_str(),
        None => d.name.as_str(),
    }
}

fn format_of(d: &DeviceInfo) -> (r: &str)
    ensures
        r@ == device_format(*d),
{
    match &d.default_config {
        Some(c) => c.as_str(),
        None => "unknown format",
    }
}

/// The device that a recording would actually use: the one that the
/// configuration selects, which is not necessarily the host default.
pub open spec fn recording_device(selector: Seq<char>, found: InputDevices) -> Option<DeviceInfo> {
    audio::picked(selector, found.devices@, found.default)
}

/// What is said of the device that a recording would use.
pub open spec fn recording_lines(device: Option<DeviceInfo>) -> Seq<char> {
    match device {
        Some(d) => line(
            OK@,
            "will record from `"@ + device_label(d) + "` — "@ + device_format(d),
        ) + (if audio::has_id(d, audio::PIPEWIRE_PCM@) {
            "      (preferring the PipeWire PCM; ALSA's `default` often captures silence here)\n"@
        } else {
            ""@
        }),
        None => line(BAD@, "no usable input device"@),
    }
}

/// What is said of the host's default device, if there is one.
pub open spec fn host_default_line(default: Option<DeviceInfo>) -> Seq<char> {
    match default {
        Some(d) => line(
            OK@,
            "host default "@ + d.name@ + " ("@ + (match d.id {
                Some(i) => i@,
                None => "no id"@,
            }) + ")"@,
        ),
        None => ""@,
    }
}

/// The first `n` devices, one per line.
pub open spec fn device_lines(devices: Seq<DeviceInfo>, n: int) -> Seq<char>
    decreases n,
{
    if n <= 0 {
        ""@
    } else {
        device_lines(devices, n - 1) + ("      "@ + text::padded(device_label(devices[n - 1]), 28)
            + " "@ + device_format(devices[n - 1]) + "\n"@)
    }
}

/// What is said of the devices that can be selected.
pub open spec fn selectable_lines(devices: Seq<DeviceInfo>) -> Seq<char> {
    if devices.len() == 0 {
        line(BAD@, "no input devices enumerated"@)
    } else {
        line(OK@, text::decimal(devices.len()) + " other devices selectable:"@) + device_lines(
            devices,
            devices.len() as int,
        )
    }
}

/// The section on audio input.
pub open spec fn audio_section(
    selector: Seq<char>,
    found: Result<InputDevices, AudioError>,
) -> Seq<char> {
    "\nAudio input\n"@ + (match found {
        Ok(d) => recording_lines(recording_device(selector, d)) + host_default_line(d.default)
            + selectable_lines(d.devices@),
        Err(e) => line(BAD@, e.text()),
    })
}

fn write_recording(device: &Option<DeviceInfo>) -> (r: String)
    ensures
        r@ == recording_lines(*device),
{
    match device {
        Some(d) => {
            let mut rest = "will record from `".to_owned();
            rest.append(label_of(d));
            rest.append("` — ");
            rest.append(format_of(d));
            let mut s = put_line(OK, rest.as_str());
            let on_pipewire = match &d.id {
                Some(i) => text::same(i.as_str(), audio::PIPEWIRE_PCM),
                None => false,
            };
            s.append(
                if on_pipewire {
                    "      (preferring the PipeWire PCM; ALSA's `default` often captures silence here)\n"
                } else {
                    ""
                },
            );
            s
        },
        None => put_line(BAD, "no usable input device"),
    }
}

fn write_host_default(default: &Option<DeviceInfo>) -> (r: String)
    ensures
        r@ == host_default_line(*default),
{
    match default {
        Some(d) => {
            let mut rest = "host default ".to_owned();
            rest.append(d.name.as_str());
            rest.append(" (");
            rest.append(
                match &d.id {
                    Some(i) => i.as_str(),
                    None => "no id",
                },
            );
            rest.append(")");
            put_line(OK, rest.as_str())
        },
        None => "".to_owned(),
    }
}

fn write_selectable(devices: &Vec<DeviceInfo>) -> (r: String)
    ensures
        r@ == selectable_lines(devices@),
{
    if devices.len() == 0 {
        return put_line(BAD, "no input devices enumerated");
    }
    let mut list = "".to_owned();
    let mut i: usize = 0;
    while i < devices.len()
        invariant
            i <= devices@.len(),
            list@ == device_lines(devices@, i as int),
        decreases devices@.len() - i,
    {
        let d = &devices[i];
        let mut row = "      ".to_owned();
        row.append(text::pad_right(label_of(d), 28).as_str());
        row.append(" ");
        row.append(format_of(d));
        row.append("\n");
        list.append(row.as_str());
        i += 1;
    }
    let mut count = text::to_decimal(devices.len() as u64);
    count.append(" other devices selectable:");
    let mut s = put_line(OK, count.as_str());
    s.append(list.as_str());
    s
}

/// Devices that are described alike are reported alike.
proof fn lemma_same_device_lines(a: Option<DeviceInfo>, b: Option<DeviceInfo>)
    requires
        a is Some <==> b is Some,
        a is Some ==> audio::same_device(a->0, b->0),
    ensures
        recording_lines(a) == recording_lines(b),
{
}

fn write_audio(selector: &str, found: &Result<InputDevices, AudioError>) -> (r: String)
    ensures
        r@ == audio_section(selector@, *found),
{
    let mut s = "\nAudio input\n".to_owned();
    match found {
        Ok(d) => {
            let device = audio::describe_input(selector, &d.devices, d.default.as_ref());
            proof {
                lemma_same_device_lines(device, recording_device(selector@, *d));
            }
            let mut lines = write_recording(&device);
            lines.append(write_host_default(&d.default).as_str());
            lines.append(write_selectable(&d.devices).as_str());
            s.append(lines.as_str());
        },
        Err(e) => {
            s.append(put_line(BAD, e.message().as_str()).as_str());
        },
    }
    s
}

// ---------------------------------------------------------------- injection

/// The globals of a registry that could be read.
pub open spec fn known_globals(registry: Result<Globals, RegistryError>) -> Option<Globals> {
    match registry {
        Ok(g) => Some(g),
        Err(_) => None,
    }
}

/// The backend that the daemon would use: the first configured one that probes
/// usable and can be built.
pub open spec fn chosen_backend(f: Findings) -> Option<InjectBackend> {
    inject::choice(
        f.config.inject.backends@,
        0,
        f.config.inject,
        known_globals(f.registry),
        f.tools,
    )
}

/// What is said of one backend.
pub open spec fn backend_line(
    backend: InjectBackend,
    chosen: Option<InjectBackend>,
    globals: Option<Globals>,
    tools: Tools,
) -> Seq<char> {
    let found = inject::probe::finding(backend, globals, tools);
    "  "@ + (if chosen == Some(backend) {
        "→"@
    } else {
        " "@
    }) + " "@ + found.0.mark() + " "@ + backend.variant() + ": "@ + found.1 + "\n"@
}

/// What is said of the first `n` backends.
pub open spec fn backend_lines(
    n: int,
    chosen: Option<InjectBackend>,
    globals: Option<Globals>,
    tools: Tools,
) -> Seq<char>
    decreases n,
{
    if n <= 0 {
        ""@
    } else {
        backend_lines(n - 1, chosen, globals, tools) + backend_line(
            inject::probe::all_backends()[n - 1],
            chosen,
            globals,
            tools,
        )
    }
}

/// The section on text injection.
pub open spec fn injection_section(f: Findings) -> Seq<char> {
    let globals = known_globals(f.registry);
    let chosen = chosen_backend(f);
    "\nText injection (configured order: ["@ + text::joined(
        inject::variants(f.config.inject.backends@),
        ", "@,
    ) + "])\n"@ + backend_lines(5, chosen, globals, f.tools) + (match chosen {
        Some(b) => "  would use: "@ + b.variant() + "\n"@,
        None => line(
            BAD@,
            "no configured injector is available — transcripts could only reach the clipboard"@,
        ),
    })
}

fn write_backend(p: &Probe, chosen: Option<InjectBackend>) -> (r: String)
    ensures
        r@ == "  "@ + (if chosen == Some(p.backend) {
            "→"@
        } else {
            " "@
        }) + " "@ + p.availability.mark() + " "@ + p.backend.variant() + ": "@ + p.detail@
            + "\n"@,
{
    let selected = match chosen {
        Some(b) => b == p.backend,
        None => false,
    };
    let mut s = "  ".to_owned();
    s.append(
        if selected {
            "→"
        } else {
            " "
        },
    );
    s.append(" ");
    s.append(p.availability.glyph());
    s.append(" ");
    s.append(p.backend.variant_name());
    s.append(": ");
    s.append(p.detail.as_str());
    s.append("\n");
    s
}

fn backend_names(backends: &Vec<InjectBackend>) -> (r: Vec<String>)
    ensures
        text::views(r@) == inject::variants(backends@),
{
    let mut r: Vec<String> = Vec::new();
    let mut k: usize = 0;
    while k < backends.len()
        invariant
            k <= backends@.len(),
            text::views(r@) =~= inject::variants(backends@).take(k as int),
        decreases backends@.len() - k,
    {
        let name = backends[k].variant_name();
        let ghost before = r@;
        r.push(name.to_owned());
        assert(text::views(r@) =~= text::views(before).push(name@));
        k += 1;
    }
    assert(text::views(r@) =~= inject::variants(backends@));
    r
}

fn write_injection(f: &Findings) -> (r: (String, bool))
    ensures
        r.0@ == injection_section(*f),
        r.1 == chosen_backend(*f) is Some,
{
    let globals = match &f.registry {
        Ok(g) => Some(g),
        Err(_) => None,
    };
    assert(inject::probe::held(globals) == known_globals(f.registry));
    let probes = inject::probe::probe_all(globals, &f.tools);
    let chosen = match inject::build(&f.config.inject, globals, &f.tools) {
        Ok((_, probe)) => Some(probe.backend),
        Err(_) => None,
    };
    let mut s = "\nText injection (configured order: [".to_owned();
    s.append(text::join(&backend_names(&f.config.inject.backends), ", ").as_str());
    s.append("])\n");
    let mut lines = "".to_owned();
    let mut i: usize = 0;
    while i < 5
        invariant
            i <= 5,
            inject::probe::covers_all(probes@, inject::probe::held(globals), f.tools),
            lines@ == backend_lines(i as int, chosen, inject::probe::held(globals), f.tools),
        decreases 5 - i,
    {
        assert(probes@[i as int].says(
            inject::probe::all_backends()[i as int],
            inject::probe::finding(
                inject::probe::all_backends()[i as int],
                inject::probe::held(globals),
                f.tools,
            ),
        ));
        lines.append(write_backend(&probes[i], chosen).as_str());
        i += 1;
    }
    s.append(lines.as_str());
    match chosen {
        Some(b) => {
            let mut last = "  would use: ".to_owned();
            last.append(b.variant_name());
            last.append("\n");
            s.append(last.as_str());
            (s, true)
        },
        None => {
            s.append(
                put_line(
                    BAD,
                    "no configured injector is available — transcripts could only reach the clipboard",
                ).as_str(),
            );
            (s, false)
        },
    }
}

// ---------------------------------------------------------------- activation

/// What is said of one way to activate.
pub open spec fn activation_line(
    name: Seq<char>,
    found: (crate::probe::Availability, Seq<char>),
) -> Seq<char> {
    line(found.0.mark(), name + ": "@ + found.1)
}

/// The section on activation.
pub open spec fn activation_section(f: Findings) -> Seq<char> {
    "\nActivation\n"@ + activation_line("Portal"@, activate::portal_finding(f.portal))
        + activation_line("Evdev"@, activate::evdev_finding(f.input)) + activation_line(
        "Socket"@,
        activate::socket_finding(crate::paths::socket_place(text::opt_view(f.runtime_dir))),
    ) + (if f.config.activation.backends@.contains(ActivationBackend::Socket) {
        ""@
    } else {
        line(
            WARN@,
            "the socket backend is disabled in config; it is the only backend that works everywhere"@,
        )
    }) + "\n  Bind these in your compositor:\n"@
        + "    bind  = SUPER, D, exec, stt toggle      # toggle mode\n"@
        + "    bind  = SUPER, D, exec, stt start       # push-to-talk\n"@
        + "    bindr = SUPER, D, exec, stt stop\n"@
}

fn write_probe(name: &str, p: &activate::Probe) -> (r: String)
    ensures
        r@ == activation_line(name@, (p.availability, p.detail@)),
{
    let mut rest = name.to_owned();
    rest.append(": ");
    rest.append(p.detail.as_str());
    put_line(p.availability.glyph(), rest.as_str())
}

fn lists_socket(backends: &Vec<ActivationBackend>) -> (r: bool)
    ensures
        r == backends@.contains(ActivationBackend::Socket),
{
    let mut i: usize = 0;
    while i < backends.len()
        invariant
            i <= backends@.len(),
            forall|j: int| 0 <= j < i ==> backends@[j] != ActivationBackend::Socket,
        decreases backends@.len() - i,
    {
        if backends[i] == ActivationBackend::Socket {
            assert(backends@[i as int] == ActivationBackend::Socket);
            return true;
        }
        i += 1;
    }
    false
}

fn write_activation(f: &Findings) -> (r: String)
    ensures
        r@ == activation_section(*f),
{
    let runtime_dir = match &f.runtime_dir {
        Some(d) => Some(d.as_str()),
        None => None,
    };
    assert(text::opt_str_view(runtime_dir) == text::opt_view(f.runtime_dir));
    let probes = activate::probe_all(&f.portal, &f.input, runtime_dir);
    let mut s = "\nActivation\n".to_owned();
    s.append(write_probe("Portal", &probes[0]).as_str());
    s.append(write_probe("Evdev", &probes[1]).as_str());
    s.append(write_probe("Socket", &probes[2]).as_str());
    let disabled = if lists_socket(&f.config.activation.backends) {
        "".to_owned()
    } else {
        put_line(
            WARN,
            "the socket backend is disabled in config; it is the only backend that works everywhere",
        )
    };
    s.append(disabled.as_str());
    s.append("\n  Bind these in your compositor:\n");
    s.append("    bind  = SUPER, D, exec, stt toggle      # toggle mode\n");
    s.append("    bind  = SUPER, D, exec, stt start       # push-to-talk\n");
    s.append("    bindr = SUPER, D, exec, stt stop\n");
    s
}

// ---------------------------------------------------------------- daemon

/// The section on the daemon.
pub open spec fn daemon_section(daemon: Result<StatusReport, ClientError>) -> Seq<char> {
    "\nDaemon\n"@ + (match daemon {
        Ok(st) => line(
            OK@,
            "running — state "@ + st.state.name() + ", engine "@ + st.engine@,
        ),
        Err(e) => line(WARN@, "not reachable: "@ + e.headline()),
    })
}

fn write_daemon(daemon: &Result<StatusReport, ClientError>) -> (r: String)
    ensures
        r@ == daemon_section(*daemon),
{
    let mut s = "\nDaemon\n".to_owned();
    match daemon {
        Ok(st) => {
            let mut rest = "running — state ".to_owned();
            rest.append(st.state.as_str());
            rest.append(", engine ");
            rest.append(st.engine.as_str());
            s.append(put_line(OK, rest.as_str()).as_str());
        },
        Err(e) => {
            let mut rest = "not reachable: ".to_owned();
            rest.append(e.short_message().as_str());
            s.append(put_line(WARN, rest.as_str()).as_str());
        },
    }
    s
}

// ---------------------------------------------------------------- the report

/// The whole report.
pub open spec fn report_text(f: Findings) -> Seq<char> {
    "stt-linux "@ + f.version@ + "\n\n"@ + session_section(f) + protocol_section(f.registry)
        + config_section(f) + model_section(f) + audio_section(f.config.audio.device@, f.audio) + injection_section(f)
        + activation_section(f) + daemon_section(f.daemon)
}

/// Whether the session looks usable: the compositor answers, the configuration
/// is not broken, its recognizer is built in and has a model with files, there
/// is a device to record from, and a configured backend can deliver text.
pub open spec fn looks_usable(f: Findings) -> bool {
    &&& f.registry is Ok
    &&& f.config_error is None
    &&& f.config.engine.backend is Parakeet
    &&& f.model_files matches Some(files) && files@.len() > 0
    &&& f.audio matches Ok(found) && recording_device(
        f.config.audio.device@,
        found,
    ) is Some && found.devices@.len() > 0
    &&& chosen_backend(f) is Some
}

/// Renders the full report. Returns the text plus whether the session looks
/// usable, so the caller can set a non-zero exit code for scripting.
pub fn report(f: &Findings) -> (r: (String, bool))
    ensures
        r.0@ == report_text(*f),
        r.1 == looks_usable(*f),
{
    let mut s = "stt-linux ".to_owned();
    s.append(f.version.as_str());
    s.append("\n\n");
    s.append(write_session(f).as_str());
    s.append(write_protocols(&f.registry).as_str());
    s.append(write_config(f).as_str());
    s.append(write_model(f).as_str());
    s.append(write_audio(f.config.audio.device.as_str(), &f.audio).as_str());
    let (injection, can_inject): (String, bool) = write_injection(f);
    s.append(injection.as_str());
    s.append(write_activation(f).as_str());
    s.append(write_daemon(&f.daemon).as_str());
    let has_model = match &f.model_files {
        Some(files) => files.len() > 0,
        None => false,
    };
    let can_record = match &f.audio {
        Ok(d) => {
            let device = audio::describe_input(
                f.config.audio.device.as_str(),
                &d.devices,
                d.default.as_ref(),
            );
            device.is_some() && d.devices.len() > 0
        },
        Err(_) => false,
    };
    let usable = f.registry.is_ok() && f.config_error.is_none() && check_backend(
        &f.config.engine,
    ).is_ok() && has_model && can_record && can_inject;
    (s, usable)
}

/// A session that cannot dictate is not reported usable: without a compositor,
/// with a configuration that does not load, with a recognizer that is not built
/// in or has no model, without the device that the configuration selects, or
/// without a backend that an injector can be built for.
pub proof fn law_unusable_sessions_are_reported(f: Findings)
    requires
        ({
            ||| f.registry is Err
            ||| f.config_error is Some
            ||| f.config.engine.backend is Whisper
            ||| f.model_files is None
            ||| f.model_files->0@.len() == 0
            ||| f.audio is Err
            ||| recording_device(f.config.audio.device@, f.audio->Ok_0) is None
            ||| inject::choice(
                f.config.inject.backends@,
                0,
                f.config.inject,
                known_globals(f.registry),
                f.tools,
            ) is None
        }),
    ensures
        !looks_usable(f),
{
}

/// A session is reported usable exactly if nothing is missing that a dictation
/// needs.
pub proof fn law_usable_sessions(f: Findings)
    ensures
        looks_usable(f) <==> {
            &&& f.registry is Ok
            &&& f.config_error is None
            &&& !(f.config.engine.backend is Whisper)
            &&& f.model_files is Some
            &&& f.model_files->0@.len() > 0
            &&& f.audio is Ok
            &&& (f.audio->Ok_0).devices@.len() > 0
            &&& audio::picked(
                f.config.audio.device@,
                (f.audio->Ok_0).devices@,
                (f.audio->Ok_0).default,
            ) is Some
            &&& inject::choice(
                f.config.inject.backends@,
                0,
                f.config.inject,
                known_globals(f.registry),
                f.tools,
            ) is Some
        },
        f.registry matches Ok(g) ==> known_globals(f.registry) == Some(g),
        f.registry is Err ==> known_globals(f.registry) is None,
{
}

/// A line has the mark in front and ends where the next one begins.
pub proof fn law_lines_carry_their_mark(mark: Seq<char>, rest: Seq<char>)
    ensures
        text::has_prefix(line(mark, rest), seq![' ', ' '] + mark + seq![' ']),
        crate::paths::has_suffix(line(mark, rest), rest + seq!['\n']),
        line(mark, rest).len() == mark.len() + rest.len() + 4,
{
    reveal_strlit("  ");
    reveal_strlit(" ");
    reveal_strlit("\n");
    let head = seq![' ', ' '] + mark + seq![' '];
    assert(line(mark, rest).take(head.len() as int) =~= head);
    let tail = rest + seq!['\n'];
    assert(line(mark, rest).skip(line(mark, rest).len() - tail.len()) =~= tail);
}

/// A registry, a configuration, a recognizer or a model that cannot be used is
/// marked as bad, and only then; a daemon that does not run is no fault.
pub proof fn law_faults_are_marked(f: Findings)
    ensures
        f.registry matches Err(e) ==> registry_line(f.registry) == line(
            BAD@,
            "registry    "@ + e.headline(),
        ),
        f.registry matches Ok(g) ==> registry_line(f.registry) == line(
            OK@,
            "registry    "@ + text::decimal(g.globals@.len()) + " globals advertised"@,
        ),
        f.config.engine.backend is Whisper ==> backend_fault(f.config.engine.backend) == line(
            BAD@,
            EngineError::NoWhisper.text(),
        ),
        f.config.engine.backend is Parakeet ==> backend_fault(f.config.engine.backend).len() == 0,
        recording_lines(None) == line(BAD@, "no usable input device"@),
        selectable_lines(Seq::empty()) == line(BAD@, "no input devices enumerated"@),
{
    reveal_strlit("");
}

/// Every device has a line of its own, in the order in which they were found.
pub proof fn law_every_device_is_listed(devices: Seq<DeviceInfo>, n: int)
    requires
        0 <= n < devices.len(),
    ensures
        device_lines(devices, 0).len() == 0,
        text::has_prefix(device_lines(devices, n + 1), device_lines(devices, n)),
        crate::paths::has_suffix(
            device_lines(devices, n + 1),
            text::padded(device_label(devices[n]), 28) + " "@ + device_format(devices[n]) + "\n"@,
        ),
{
    reveal_strlit("");
    let all = device_lines(devices, n + 1);
    assert(all.take(device_lines(devices, n).len() as int) =~= device_lines(devices, n));
    let tail = text::padded(device_label(devices[n]), 28) + " "@ + device_format(devices[n])
        + "\n"@;
    assert(all.skip(all.len() - tail.len()) =~= tail);
}

/// The report is the sections, one after the other and none left out.
pub proof fn law_report_holds_every_section(f: Findings)
    ensures
        text::has_prefix(
            report_text(f),
            "stt-linux "@ + f.version@ + "\n\n"@ + session_section(f) + protocol_section(
                f.registry,
            ) + config_section(f) + model_section(f),
        ),
        crate::paths::has_suffix(
            report_text(f),
            audio_section(f.config.audio.device@, f.audio) + injection_section(f)
                + activation_section(f) + daemon_section(f.daemon),
        ),
        report_text(f).len() == ("stt-linux "@ + f.version@ + "\n\n"@ + session_section(f)
            + protocol_section(f.registry) + config_section(f) + model_section(f)).len() + (
        audio_section(f.config.audio.device@, f.audio) + injection_section(f) + activation_section(
            f,
        ) + daemon_section(f.daemon)).len(),
{
    lemma_two_halves(
        "stt-linux "@ + f.version@ + "\n\n"@ + session_section(f) + protocol_section(f.registry)
            + config_section(f) + model_section(f),
        audio_section(f.config.audio.device@, f.audio),
        injection_section(f),
        activation_section(f),
        daemon_section(f.daemon),
    );
}

proof fn lemma_two_halves(x: Seq<char>, a: Seq<char>, b: Seq<char>, c: Seq<char>, d: Seq<char>)
    ensures
        text::has_prefix(x + a + b + c + d, x),
        crate::paths::has_suffix(x + a + b + c + d, a + b + c + d),
        (x + a + b + c + d).len() == x.len() + (a + b + c + d).len(),
{
    let all = x + a + b + c + d;
    let tail = a + b + c + d;
    assert(all.take(x.len() as int) =~= x);
    assert(all.skip(all.len() - tail.len()) =~= tail);
}

/// A protocol is ticked exactly if it is advertised, and then with its version.
pub proof fn law_protocols_are_ticked(g: Globals, interface: Seq<char>, why: Seq<char>)
    ensures
        g.advertises(interface) <==> wayland::first_with(g.globals@, interface, 0) is Some,
        !g.advertises(interface) ==> protocol_line(g, interface, why) == line(
            WARN@,
            interface + " absent — "@ + why + " unavailable"@,
        ),
        wayland::first_with(g.globals@, interface, 0) matches Some(i) ==> protocol_line(
            g,
            interface,
            why,
        ) == line(
            OK@,
            interface + " v"@ + text::decimal(g.globals@[i].version as nat) + " — "@ + why,
        ),
{
    wayland::law_version_iff_advertised(g, interface);
}

/// Of the backends, the chosen one and no other has the arrow.
pub proof fn law_only_the_chosen_backend_is_pointed_at(
    backend: InjectBackend,
    chosen: Option<InjectBackend>,
    globals: Option<Globals>,
    tools: Tools,
)
    ensures
        backend_line(backend, chosen, globals, tools)[2] == (if chosen == Some(backend) {
            '→'
        } else {
            ' '
        }),
        crate::paths::has_suffix(
            backend_line(backend, chosen, globals, tools),
            inject::probe::finding(backend, globals, tools).0.mark() + " "@ + backend.variant()
                + ": "@ + inject::probe::finding(backend, globals, tools).1 + "\n"@,
        ),
{
    reveal_strlit("  ");
    reveal_strlit("→");
    reveal_strlit(" ");
    let found = inject::probe::finding(backend, globals, tools);
    let all = backend_line(backend, chosen, globals, tools);
    let tail = found.0.mark() + " "@ + backend.variant() + ": "@ + found.1 + "\n"@;
    assert(all.skip(all.len() - tail.len()) =~= tail);
}

/// The session is ticked exactly if it is a Wayland one, and its type, its
/// compositor and its registry are told.
pub proof fn law_session_is_told(f: Findings)
    ensures
        f.on_wayland ==> text::holds(
            session_section(f),
            line(OK@, "type        "@ + (match f.session_type {
                Some(t) => t@,
                None => "unknown"@,
            })),
        ),
        !f.on_wayland ==> text::holds(
            session_section(f),
            line(BAD@, "type        "@ + (match f.session_type {
                Some(t) => t@,
                None => "unknown"@,
            })),
        ),
        text::holds(session_section(f), line(OK@, "compositor  "@ + f.compositor@)),
        crate::paths::has_suffix(session_section(f), registry_line(f.registry)),
{
    let kind = line(
        if f.on_wayland {
            OK@
        } else {
            BAD@
        },
        "type        "@ + (match f.session_type {
            Some(t) => t@,
            None => "unknown"@,
        }),
    );
    lemma_three_parts(
        "Session\n"@,
        kind,
        line(OK@, "compositor  "@ + f.compositor@),
        registry_line(f.registry),
    );
}

proof fn lemma_three_parts(h: Seq<char>, a: Seq<char>, b: Seq<char>, c: Seq<char>)
    ensures
        text::holds(h + a + b + c, a),
        text::holds(h + a + b + c, b),
        crate::paths::has_suffix(h + a + b + c, c),
{
    let all = h + a + b + c;
    let n = h.len() as int;
    let m = n + a.len();
    assert(all.subrange(n, n + a.len()) =~= a);
    assert(all.subrange(m, m + b.len()) =~= b);
    assert(all.skip(all.len() - c.len()) =~= c);
}

/// A configuration that does not load is marked, with the reason; one that does
/// is ticked, and it is said if there is no file.
pub proof fn law_configuration_is_told(f: Findings)
    ensures
        f.config_error matches Some(e) ==> text::holds(
            config_section(f),
            line(BAD@, "config      "@ + e.text()),
        ),
        f.config_error is None && f.config_exists ==> text::holds(
            config_section(f),
            line(OK@, "config      "@ + f.config_path@),
        ),
        f.config_error is None && !f.config_exists ==> text::holds(
            config_section(f),
            line(OK@, "config      "@ + f.config_path@ + " (absent, using defaults)"@),
        ),
        text::holds(config_section(f), line(OK@, "models dir  "@ + f.models_dir@)),
        crate::paths::has_suffix(config_section(f), line(OK@, "socket      "@ + f.socket@)),
{
    reveal_strlit("");
    let head = "\nConfiguration\n"@;
    let config = match f.config_error {
        Some(e) => line(BAD@, "config      "@ + e.text()),
        None => line(
            OK@,
            "config      "@ + f.config_path@ + (if f.config_exists {
                ""@
            } else {
                " (absent, using defaults)"@
            }),
        ),
    };
    assert("config      "@ + f.config_path@ + ""@ =~= "config      "@ + f.config_path@);
    lemma_three_parts(
        head,
        config,
        line(OK@, "models dir  "@ + f.models_dir@),
        line(OK@, "socket      "@ + f.socket@),
    );
}

/// A model that is not there, or is empty, is marked; of one that is there the
/// files are listed in order.
pub proof fn law_model_is_told(f: Findings)
    ensures
        f.model_files is None ==> crate::paths::has_suffix(
            model_section(f),
            line(BAD@, "not found at "@ + f.model_dir@ + " — run `stt model download`"@),
        ),
        f.model_files matches Some(files) && files@.len() == 0 ==> crate::paths::has_suffix(
            model_section(f),
            line(BAD@, "directory is empty — run `stt model download`"@),
        ),
        f.model_files is Some && f.model_files->0@.len() > 0 ==> crate::paths::has_suffix(
            model_section(f),
            line(
                OK@,
                "files       "@ + text::joined(
                    text::views(order::sorted(f.model_files->0@)),
                    ", "@,
                ),
            ),
        ),
        text::holds(model_section(f), backend_fault(f.config.engine.backend)),
{
    let all = model_section(f);
    let head = "\nModel\n"@;
    let fault = backend_fault(f.config.engine.backend);
    let rest = match f.model_files {
        Some(files) => line(
            OK@,
            engine_name(f.config.engine.backend) + " at "@ + f.model_dir@,
        ) + (if files@.len() == 0 {
            line(BAD@, "directory is empty — run `stt model download`"@)
        } else {
            line(
                OK@,
                "files       "@ + text::joined(text::views(order::sorted(files@)), ", "@),
            )
        }),
        None => line(
            BAD@,
            "not found at "@ + f.model_dir@ + " — run `stt model download`"@,
        ),
    };
    assert(all == head + fault + rest);
    text::lemma_holds(head, fault, rest);
    match f.model_files {
        None => {
            assert(all.skip(all.len() - rest.len()) =~= rest);
        },
        Some(files) => {
            let tail = if files@.len() == 0 {
                line(BAD@, "directory is empty — run `stt model download`"@)
            } else {
                line(
                    OK@,
                    "files       "@ + text::joined(text::views(order::sorted(files@)), ", "@),
                )
            };
            assert(all.skip(all.len() - tail.len()) =~= tail);
        },
    }
}

/// The device that would be recorded from is told first, then the host's
/// default, then all that can be selected; what went wrong is told instead if
/// something did.
pub proof fn law_audio_is_told(selector: Seq<char>, found: Result<InputDevices, AudioError>)
    ensures
        found matches Err(e) ==> crate::paths::has_suffix(
            audio_section(selector, found),
            line(BAD@, e.text()),
        ),
        found matches Ok(d) ==> text::holds(
            audio_section(selector, found),
            recording_lines(audio::picked(selector, d.devices@, d.default)),
        ),
        found matches Ok(d) ==> crate::paths::has_suffix(
            audio_section(selector, found),
            host_default_line(d.default) + selectable_lines(d.devices@),
        ),
{
    let all = audio_section(selector, found);
    match found {
        Err(e) => {
            assert(all.skip(all.len() - line(BAD@, e.text()).len()) =~= line(BAD@, e.text()));
        },
        Ok(d) => {
            let recording = recording_lines(audio::picked(selector, d.devices@, d.default));
            let rest = host_default_line(d.default) + selectable_lines(d.devices@);
            text::lemma_holds("\nAudio input\n"@, recording, rest);
            assert(all =~= "\nAudio input\n"@ + recording + rest);
            assert(all.skip(all.len() - rest.len()) =~= rest);
        },
    }
}

/// A device is told by its id, or by its name if it has none, with its format;
/// that it is preferred is said exactly of the PipeWire one.
pub proof fn law_devices_are_told(d: DeviceInfo)
    ensures
        d.id is Some ==> device_label(d) == d.id->0@,
        d.id is None ==> device_label(d) == d.name@,
        d.default_config is Some ==> device_format(d) == d.default_config->0@,
        d.default_config is None ==> device_format(d) == "unknown format"@,
        text::has_prefix(
            recording_lines(Some(d)),
            line(OK@, "will record from `"@ + device_label(d) + "` — "@ + device_format(d)),
        ),
        recording_lines(Some(d)).len() > line(
            OK@,
            "will record from `"@ + device_label(d) + "` — "@ + device_format(d),
        ).len() <==> (d.id is Some && d.id->0@ == audio::PIPEWIRE_PCM@),
        text::holds(host_default_line(Some(d)), d.name@),
        host_default_line(None).len() == 0,
{
    reveal_strlit("");
    reveal_strlit(
        "      (preferring the PipeWire PCM; ALSA's `default` often captures silence here)\n",
    );
    let first = line(OK@, "will record from `"@ + device_label(d) + "` — "@ + device_format(d));
    assert(recording_lines(Some(d)).take(first.len() as int) =~= first);
    let id = match d.id {
        Some(i) => i@,
        None => "no id"@,
    };
    let before = "  "@ + OK@ + " "@ + "host default "@;
    let after = " ("@ + id + ")"@ + "\n"@;
    text::lemma_holds(before, d.name@, after);
    assert(host_default_line(Some(d)) =~= before + d.name@ + after);
}

/// It is said which backend would be used, or that there is none; every backend
/// has its line.
pub proof fn law_injection_is_told(f: Findings)
    ensures
        chosen_backend(f) matches Some(b) ==> crate::paths::has_suffix(
            injection_section(f),
            "  would use: "@ + b.variant() + "\n"@,
        ),
        chosen_backend(f) is None ==> crate::paths::has_suffix(
            injection_section(f),
            line(
                BAD@,
                "no configured injector is available — transcripts could only reach the clipboard"@,
            ),
        ),
        forall|k: int|
            0 <= k < 5 ==> text::holds(
                injection_section(f),
                #[trigger] backend_line(
                    inject::probe::all_backends()[k],
                    chosen_backend(f),
                    known_globals(f.registry),
                    f.tools,
                ),
            ),
{
    let all = injection_section(f);
    let globals = known_globals(f.registry);
    let chosen = chosen_backend(f);
    let head = "\nText injection (configured order: ["@ + text::joined(
        inject::variants(f.config.inject.backends@),
        ", "@,
    ) + "])\n"@;
    let lines = backend_lines(5, chosen, globals, f.tools);
    let tail = match chosen {
        Some(b) => "  would use: "@ + b.variant() + "\n"@,
        None => line(
            BAD@,
            "no configured injector is available — transcripts could only reach the clipboard"@,
        ),
    };
    assert(all == head + lines + tail);
    assert(crate::paths::has_suffix(all, tail)) by {
        assert(all.skip(all.len() - tail.len()) =~= tail);
    }
    assert forall|k: int| 0 <= k < 5 implies text::holds(
        all,
        #[trigger] backend_line(inject::probe::all_backends()[k], chosen, globals, f.tools),
    ) by {
        let one = backend_line(inject::probe::all_backends()[k], chosen, globals, f.tools);
        lemma_backend_has_its_line(5, k, chosen, globals, f.tools);
        lemma_holds_within(head, lines, tail, one);
    }
}

proof fn lemma_holds_within(h: Seq<char>, l: Seq<char>, t: Seq<char>, one: Seq<char>)
    requires
        text::holds(l, one),
    ensures
        text::holds(h + l + t, one),
{
    let i = choose|i: int|
        0 <= i && i + one.len() <= l.len() && #[trigger] l.subrange(i, i + one.len()) == one;
    let at = h.len() + i;
    assert((h + l + t).subrange(at, at + one.len()) =~= l.subrange(i, i + one.len()));
}

proof fn lemma_backend_has_its_line(
    n: int,
    k: int,
    chosen: Option<InjectBackend>,
    globals: Option<Globals>,
    tools: Tools,
)
    requires
        0 <= k < n,
    ensures
        text::holds(
            backend_lines(n, chosen, globals, tools),
            backend_line(inject::probe::all_backends()[k], chosen, globals, tools),
        ),
    decreases n,
{
    let one = backend_line(inject::probe::all_backends()[k], chosen, globals, tools);
    let before = backend_lines(n - 1, chosen, globals, tools);
    let last = backend_line(inject::probe::all_backends()[n - 1], chosen, globals, tools);
    if k == n - 1 {
        text::lemma_holds(before, one, last);
    } else {
        lemma_backend_has_its_line(n - 1, k, chosen, globals, tools);
        let none = Seq::<char>::empty();
        lemma_holds_within(none, before, last, one);
        assert(none + before + last =~= before + last);
    }
}

/// Each way to start a dictation has its line; that the socket is switched off
/// is warned of exactly if it is.
pub proof fn law_activation_is_told(f: Findings)
    ensures
        text::holds(
            activation_section(f),
            activation_line("Portal"@, activate::portal_finding(f.portal)),
        ),
        text::holds(
            activation_section(f),
            activation_line("Evdev"@, activate::evdev_finding(f.input)),
        ),
        text::holds(
            activation_section(f),
            activation_line(
                "Socket"@,
                activate::socket_finding(crate::paths::socket_place(text::opt_view(f.runtime_dir))),
            ),
        ),
        !f.config.activation.backends@.contains(ActivationBackend::Socket) ==> text::holds(
            activation_section(f),
            line(
                WARN@,
                "the socket backend is disabled in config; it is the only backend that works everywhere"@,
            ),
        ),
        forall|name: Seq<char>, found: (crate::probe::Availability, Seq<char>)| #[trigger]
            activation_line(name, found) == line(found.0.mark(), name + ": "@ + found.1),
{
    let warning = if f.config.activation.backends@.contains(ActivationBackend::Socket) {
        ""@
    } else {
        line(
            WARN@,
            "the socket backend is disabled in config; it is the only backend that works everywhere"@,
        )
    };
    lemma_parts_in_order(
        "\nActivation\n"@,
        activation_line("Portal"@, activate::portal_finding(f.portal)),
        activation_line("Evdev"@, activate::evdev_finding(f.input)),
        activation_line(
            "Socket"@,
            activate::socket_finding(crate::paths::socket_place(text::opt_view(f.runtime_dir))),
        ),
        warning,
        "\n  Bind these in your compositor:\n"@,
        "    bind  = SUPER, D, exec, stt toggle      # toggle mode\n"@,
        "    bind  = SUPER, D, exec, stt start       # push-to-talk\n"@,
        "    bindr = SUPER, D, exec, stt stop\n"@,
    );
}

proof fn lemma_parts_in_order(
    h: Seq<char>,
    a: Seq<char>,
    b: Seq<char>,
    c: Seq<char>,
    d: Seq<char>,
    w: Seq<char>,
    x: Seq<char>,
    y: Seq<char>,
    z: Seq<char>,
)
    ensures
        text::holds(h + a + b + c + d + w + x + y + z, a),
        text::holds(h + a + b + c + d + w + x + y + z, b),
        text::holds(h + a + b + c + d + w + x + y + z, c),
        text::holds(h + a + b + c + d + w + x + y + z, d),
{
    let all = h + a + b + c + d + w + x + y + z;
    let n = h.len() as int;
    let m = n + a.len();
    let k = m + b.len();
    let l = k + c.len();
    assert(all.subrange(n, n + a.len()) =~= a);
    assert(all.subrange(m, m + b.len()) =~= b);
    assert(all.subrange(k, k + c.len()) =~= c);
    assert(all.subrange(l, l + d.len()) =~= d);
}

/// A daemon that runs is told with its state and its engine, one that does not
/// with what stood in the way.
pub proof fn law_daemon_is_told(daemon: Result<StatusReport, ClientError>)
    ensures
        daemon matches Ok(st) ==> crate::paths::has_suffix(
            daemon_section(daemon),
            line(OK@, "running — state "@ + st.state.name() + ", engine "@ + st.engine@),
        ),
        daemon matches Err(e) ==> crate::paths::has_suffix(
            daemon_section(daemon),
            line(WARN@, "not reachable: "@ + e.headline()),
        ),
{
    let all = daemon_section(daemon);
    match daemon {
        Ok(st) => {
            let tail = line(OK@, "running — state "@ + st.state.name() + ", engine "@ + st.engine@);
            assert(all.skip(all.len() - tail.len()) =~= tail);
        },
        Err(e) => {
            let tail = line(WARN@, "not reachable: "@ + e.headline());
            assert(all.skip(all.len() - tail.len()) =~= tail);
        },
    }
}

/// Without a registry no protocol is spoken of; with one, each of the four that
/// matter has its line.
pub proof fn law_protocols_are_told(registry: Result<Globals, RegistryError>)
    ensures
        registry is Err ==> protocol_section(registry).len() == 0,
        registry matches Ok(g) ==> text::holds(
            protocol_section(registry),
            protocol_line(g, "zwp_virtual_keyboard_manager_v1"@, "wtype text injection"@),
        ) && text::holds(
            protocol_section(registry),
            protocol_line(g, "zwlr_layer_shell_v1"@, "recording overlay"@),
        ) && text::holds(
            protocol_section(registry),
            protocol_line(g, "zwp_input_method_manager_v2"@, "input-method injection"@),
        ) && crate::paths::has_suffix(
            protocol_section(registry),
            protocol_line(g, "zwlr_data_control_manager_v1"@, "clipboard access"@),
        ),
{
    if let Ok(g) = registry {
        let head = "\nWayland protocols\n"@;
        let a = protocol_line(g, "zwp_virtual_keyboard_manager_v1"@, "wtype text injection"@);
        let b = protocol_line(g, "zwlr_layer_shell_v1"@, "recording overlay"@);
        let c = protocol_line(g, "zwp_input_method_manager_v2"@, "input-method injection"@);
        let d = protocol_line(g, "zwlr_data_control_manager_v1"@, "clipboard access"@);
        lemma_four_parts(head, a, b, c, d);
    }
}

proof fn lemma_four_parts(h: Seq<char>, a: Seq<char>, b: Seq<char>, c: Seq<char>, d: Seq<char>)
    ensures
        text::holds(h + a + b + c + d, a),
        text::holds(h + a + b + c + d, b),
        text::holds(h + a + b + c + d, c),
        crate::paths::has_suffix(h + a + b + c + d, d),
{
    let all = h + a + b + c + d;
    let n = h.len() as int;
    let m = n + a.len();
    let k = m + b.len();
    assert(all.subrange(n, n + a.len()) =~= a);
    assert(all.subrange(m, m + b.len()) =~= b);
    assert(all.subrange(k, k + c.len()) =~= c);
    assert(all.skip(all.len() - d.len()) =~= d);
}

} // verus!
