//! Audio input devices: how they are described, and which one is used.

use vstd::prelude::*;
use crate::text;

verus! {

/// Sample rate every recognizer here expects.
pub const TARGET_SAMPLE_RATE: u32 = 16_000;

/// Device id of the PipeWire ALSA PCM.
pub const PIPEWIRE_PCM: &'static str = "alsa:pipewire";

/// One input device.
#[derive(Debug, Clone, PartialEq, Eq)]
pub struct DeviceInfo {
    pub name: String,
    /// Stable, persistable identifier. Preferred over `name` in config,
    /// because names are not unique and shift as devices are re-plugged.
    pub id: Option<String>,
    /// The device's own default capture format: the configuration that would
    /// actually be opened.
    pub default_config: Option<String>,
}

/// The input devices available on this host.
#[derive(Debug, Clone)]
pub struct InputDevices {
    /// The host default.
    ///
    /// Kept separate rather than flagged inside [`Self::devices`]: on ALSA the
    /// default is a distinct PCM (`alsa:default`) that does not appear in the
    /// enumeration at all.
    pub default: Option<DeviceInfo>,
    pub devices: Vec<DeviceInfo>,
}

impl Default for InputDevices {
    fn default() -> (r: Self)
        ensures
            r.default is None,
            r.devices@.len() == 0,
    {
        InputDevices { default: None, devices: Vec::new() }
    }
}

/// A capture format, in words.
pub open spec fn config_text(channels: u16, rate: u32, format: Seq<char>) -> Seq<char> {
    text::decimal(channels as nat) + "ch "@ + text::decimal(rate as nat) + "Hz "@ + format
}

/// Describes a device from what could be asked of it: its name, its id and its
/// default capture format (channels, rate and sample format).
pub fn describe(name: Option<String>, id: Option<String>, format: Option<(u16, u32, String)>) -> (r:
    DeviceInfo)
    ensures
        r.name@ == match name {
            Some(n) => n@,
            None => "<unnamed>"@,
        },
        r.id == id,
        text::opt_view(r.default_config) == match format {
            Some(f) => Some(config_text(f.0, f.1, f.2@)),
            None => None,
        },
{
    let default_config = match format {
        Some((channels, rate, sample_format)) => {
            let mut s = text::to_decimal(channels as u64);
            s.append("ch ");
            s.append(text::to_decimal(rate as u64).as_str());
            s.append("Hz ");
            s.append(sample_format.as_str());
            Some(s)
        },
        None => None,
    };
    let name = match name {
        Some(n) => n,
        None => "<unnamed>".to_owned(),
    };
    DeviceInfo { name, id, default_config }
}

/// Why there is no device to record from.
#[derive(Debug, Clone, PartialEq, Eq)]
pub enum AudioError {
    /// The devices could not be listed.
    Enumerating(String),
    /// There is no default device.
    NoDefault,
    /// No device matches; carries the ids there are.
    NoMatch { selector: String, available: Vec<String> },
}

impl AudioError {
    /// The error in words.
    pub open spec fn text(self) -> Seq<char> {
        match self {
            AudioError::Enumerating(e) => "enumerating audio input devices: "@ + e@,
            AudioError::NoDefault => "no default audio input device"@,
            AudioError::NoMatch { selector, available } => "no audio input device matching `"@
                + selector@ + "`; available ids: "@ + (if available@.len() == 0 {
                "(none)"@
            } else {
                text::joined(text::views(available@), ", "@)
            }),
        }
    }

    /// The error in words.
    pub fn message(&self) -> (r: String)
        ensures
            r@ == self.text(),
    {
        match self {
            AudioError::Enumerating(e) => {
                let mut m = "enumerating audio input devices: ".to_owned();
                m.append(e.as_str());
                m
            },
            AudioError::NoDefault => "no default audio input device".to_owned(),
            AudioError::NoMatch { selector, available } => {
                let mut m = "no audio input device matching `".to_owned();
                m.append(selector.as_str());
                m.append("`; available ids: ");
                if available.len() == 0 {
                    m.append("(none)");
                } else {
                    m.append(text::join(available, ", ").as_str());
                }
                m
            },
        }
    }
}

/// Which device is meant.
#[derive(Debug, Clone, Copy, PartialEq, Eq, Structural)]
pub enum Pick {
    /// The listed device at this position.
    Listed(usize),
    /// The host's default device.
    HostDefault,
}

/// Whether a device has this id.
pub open spec fn has_id(d: DeviceInfo, id: Seq<char>) -> bool {
    d.id matches Some(i) && i@ == id
}

fn id_is(d: &DeviceInfo, id: &str) -> (r: bool)
    ensures
        r == has_id(*d, id@),
{
    match &d.id {
        Some(i) => text::same(i.as_str(), id),
        None => false,
    }
}

/// The first device at or after `from` with this id.
pub open spec fn first_by_id(devices: Seq<DeviceInfo>, id: Seq<char>, from: int) -> Option<int>
    decreases devices.len() - from,
{
    if from < 0 || from >= devices.len() {
        None
    } else if has_id(devices[from], id) {
        Some(from)
    } else {
        first_by_id(devices, id, from + 1)
    }
}

/// The first device at or after `from` with this name.
pub open spec fn first_by_name(devices: Seq<DeviceInfo>, name: Seq<char>, from: int) -> Option<int>
    decreases devices.len() - from,
{
    if from < 0 || from >= devices.len() {
        None
    } else if devices[from].name@ == name {
        Some(from)
    } else {
        first_by_name(devices, name, from + 1)
    }
}

fn find_id(devices: &Vec<DeviceInfo>, id: &str) -> (r: Option<usize>)
    ensures
        match r {
            Some(i) => first_by_id(devices@, id@, 0) == Some(i as int) && i < devices@.len(),
            None => first_by_id(devices@, id@, 0) is None,
        },
{
    let mut i: usize = 0;
    while i < devices.len()
        invariant
            i <= devices@.len(),
            first_by_id(devices@, id@, 0) == first_by_id(devices@, id@, i as int),
        decreases devices@.len() - i,
    {
        if id_is(&devices[i], id) {
            return Some(i);
        }
        i += 1;
    }
    None
}

fn find_name(devices: &Vec<DeviceInfo>, name: &str) -> (r: Option<usize>)
    ensures
        match r {
            Some(i) => first_by_name(devices@, name@, 0) == Some(i as int) && i < devices@.len(),
            None => first_by_name(devices@, name@, 0) is None,
        },
{
    let mut i: usize = 0;
    while i < devices.len()
        invariant
            i <= devices@.len(),
            first_by_name(devices@, name@, 0) == first_by_name(devices@, name@, i as int),
        decreases devices@.len() - i,
    {
        if text::same(devices[i].name.as_str(), name) {
            return Some(i);
        }
        i += 1;
    }
    None
}

/// The devices that a selector can name: the listed ones, then the default,
/// which ALSA does not list.
pub open spec fn candidates(listed: Seq<DeviceInfo>, default: Option<DeviceInfo>) -> Seq<
    DeviceInfo,
> {
    match default {
        Some(d) => listed.push(d),
        None => listed,
    }
}

/// The ids, in order, of the first `n` of some devices, as far as they have one.
pub open spec fn ids(devices: Seq<DeviceInfo>, n: int) -> Seq<Seq<char>>
    decreases n,
{
    if n <= 0 {
        Seq::empty()
    } else {
        match devices[n - 1].id {
            Some(i) => ids(devices, n - 1).push(i@),
            None => ids(devices, n - 1),
        }
    }
}

/// Which candidate a selector names: the first with that id, or else the first
/// with that name.
pub open spec fn selected(devices: Seq<DeviceInfo>, selector: Seq<char>) -> Option<int> {
    match first_by_id(devices, selector, 0) {
        Some(i) => Some(i),
        None => first_by_name(devices, selector, 0),
    }
}

/// The device to record from when the user has not named one: the PipeWire
/// PCM if it is listed, or else the host's default.
pub open spec fn default_pick(listed: Option<Seq<DeviceInfo>>, has_default: bool) -> Option<Pick> {
    match listed {
        Some(devices) => match first_by_id(devices, PIPEWIRE_PCM@, 0) {
            Some(i) => Some(Pick::Listed(i as usize)),
            None => if has_default {
                Some(Pick::HostDefault)
            } else {
                None
            },
        },
        None => if has_default {
            Some(Pick::HostDefault)
        } else {
            None
        },
    }
}

/// Pick the device to record from when the user has not named one.
///
/// Prefers the PipeWire PCM over ALSA's `default`, which on a PipeWire system
/// frequently does *not* route capture to the session's default source.
/// Recording silence is the worst possible failure, because it looks like a
/// broken model rather than a broken route.
///
/// `listed` is `None` when the devices could not be listed.
pub fn default_input_device(listed: Option<&Vec<DeviceInfo>>, has_default: bool) -> (r: Result<
    Pick,
    AudioError,
>)
    ensures
        match default_pick(
            match listed {
                Some(devices) => Some(devices@),
                None => None,
            },
            has_default,
        ) {
            Some(pick) => r == Ok::<Pick, AudioError>(pick),
            None => r == Err::<Pick, AudioError>(AudioError::NoDefault),
        },
{
    if let Some(devices) = listed {
        if let Some(i) = find_id(devices, PIPEWIRE_PCM) {
            return Ok(Pick::Listed(i));
        }
    }
    if has_default {
        Ok(Pick::HostDefault)
    } else {
        Err(AudioError::NoDefault)
    }
}

/// The device that a selector stands for, if there is one.
pub open spec fn picked(
    selector: Seq<char>,
    listed: Seq<DeviceInfo>,
    default: Option<DeviceInfo>,
) -> Option<DeviceInfo> {
    if selector == "default"@ {
        match default_pick(Some(listed), default is Some) {
            Some(Pick::Listed(i)) => Some(listed[i as int]),
            Some(Pick::HostDefault) => default,
            None => None,
        }
    } else {
        match selected(candidates(listed, default), selector) {
            Some(i) => Some(candidates(listed, default)[i]),
            None => None,
        }
    }
}

/// Which device the configured selector resolves to, for diagnostics: what
/// [`find_input_device`] finds, described.
pub fn describe_input(
    selector: &str,
    listed: &Vec<DeviceInfo>,
    default: Option<&DeviceInfo>,
) -> (r: Option<DeviceInfo>)
    ensures
        match picked(
            selector@,
            listed@,
            match default {
                Some(d) => Some(*d),
                None => None,
            },
        ) {
            Some(d) => r matches Some(found) && same_device(found, d),
            None => r is None,
        },
{
    if text::same(selector, "default") {
        return describe_default_input(Some(listed), default);
    }
    proof {
        if let Some(d) = default {
            lemma_first_by_id_of_more(listed@, *d, selector@, 0);
            lemma_first_by_name_of_more(listed@, *d, selector@, 0);
        }
    }
    if let Some(i) = find_id(listed, selector) {
        return Some(copy_of(&listed[i]));
    }
    if let Some(d) = default {
        if id_is(d, selector) {
            return Some(copy_of(d));
        }
    }
    if let Some(i) = find_name(listed, selector) {
        return Some(copy_of(&listed[i]));
    }
    if let Some(d) = default {
        if text::same(d.name.as_str(), selector) {
            return Some(copy_of(d));
        }
    }
    None
}

/// One more device is found by its id if none before it is.
proof fn lemma_first_by_id_of_more(
    devices: Seq<DeviceInfo>,
    last: DeviceInfo,
    id: Seq<char>,
    from: int,
)
    requires
        0 <= from <= devices.len(),
    ensures
        first_by_id(devices.push(last), id, from) == match first_by_id(devices, id, from) {
            Some(i) => Some(i),
            None => if has_id(last, id) {
                Some(devices.len() as int)
            } else {
                None
            },
        },
        first_by_id(devices, id, from) matches Some(i) ==> 0 <= i < devices.len(),
    decreases devices.len() - from,
{
    if from < devices.len() {
        lemma_first_by_id_of_more(devices, last, id, from + 1);
    } else {
        assert(first_by_id(devices.push(last), id, from + 1) is None);
    }
}

/// One more device is found by its name if none before it is.
proof fn lemma_first_by_name_of_more(
    devices: Seq<DeviceInfo>,
    last: DeviceInfo,
    name: Seq<char>,
    from: int,
)
    requires
        0 <= from <= devices.len(),
    ensures
        first_by_name(devices.push(last), name, from) == match first_by_name(devices, name, from) {
            Some(i) => Some(i),
            None => if last.name@ == name {
                Some(devices.len() as int)
            } else {
                None
            },
        },
        first_by_name(devices, name, from) matches Some(i) ==> 0 <= i < devices.len(),
    decreases devices.len() - from,
{
    if from < devices.len() {
        lemma_first_by_name_of_more(devices, last, name, from + 1);
    } else {
        assert(first_by_name(devices.push(last), name, from + 1) is None);
    }
}

/// Which device `"default"` resolves to, for diagnostics.
pub fn describe_default_input(listed: Option<&Vec<DeviceInfo>>, default: Option<&DeviceInfo>) -> (r:
    Option<DeviceInfo>)
    ensures
        match default_pick(
            match listed {
                Some(devices) => Some(devices@),
                None => None,
            },
            default is Some,
        ) {
            Some(Pick::Listed(i)) => r matches Some(d) && same_device(d, (listed->0)@[i as int]),
            Some(Pick::HostDefault) => r matches Some(d) && same_device(d, *default->0),
            None => r is None,
        },
{
    match default_input_device(listed, default.is_some()) {
        Ok(Pick::Listed(i)) => match listed {
            Some(devices) => {
                proof {
                    lemma_first_by_id(devices@, PIPEWIRE_PCM@, 0);
                }
                Some(copy_of(&devices[i]))
            },
            None => None,
        },
        Ok(Pick::HostDefault) => match default {
            Some(d) => Some(copy_of(d)),
            None => None,
        },
        Err(_) => None,
    }
}

/// Whether two descriptions say the same.
pub open spec fn same_device(a: DeviceInfo, b: DeviceInfo) -> bool {
    &&& a.name@ == b.name@
    &&& text::opt_view(a.id) == text::opt_view(b.id)
    &&& text::opt_view(a.default_config) == text::opt_view(b.default_config)
}

fn copy_opt(s: &Option<String>) -> (r: Option<String>)
    ensures
        text::opt_view(r) == text::opt_view(*s),
{
    match s {
        Some(t) => Some(t.clone()),
        None => None,
    }
}

fn copy_of(d: &DeviceInfo) -> (r: DeviceInfo)
    ensures
        same_device(r, *d),
{
    DeviceInfo {
        name: d.name.clone(),
        id: copy_opt(&d.id),
        default_config: copy_opt(&d.default_config),
    }
}

/// Resolve the configured device selector.
///
/// `"default"` goes through [`default_input_device`]. Any other value is
/// matched against device ids (stable) first and then human-readable names
/// (what users actually type), including the host default.
pub fn find_input_device(
    selector: &str,
    listed: Result<Vec<DeviceInfo>, String>,
    default: Option<DeviceInfo>,
) -> (r: Result<Pick, AudioError>)
    ensures
        if selector@ == "default"@ {
            match default_pick(
                match listed {
                    Ok(devices) => Some(devices@),
                    Err(_) => None,
                },
                default is Some,
            ) {
                Some(pick) => r == Ok::<Pick, AudioError>(pick),
                None => r == Err::<Pick, AudioError>(AudioError::NoDefault),
            }
        } else {
            match listed {
                Err(e) => r == Err::<Pick, AudioError>(AudioError::Enumerating(e)),
                Ok(devices) => {
                    let all = candidates(devices@, default);
                    match selected(all, selector@) {
                        Some(i) => r == Ok::<Pick, AudioError>(
                            if i < devices@.len() {
                                Pick::Listed(i as usize)
                            } else {
                                Pick::HostDefault
                            },
                        ),
                        None => r matches Err(
                            AudioError::NoMatch { selector: s, available },
                        ) && s@ == selector@ && text::views(available@) == ids(
                            all,
                            all.len() as int,
                        ),
                    }
                },
            }
        },
{
    if text::same(selector, "default") {
        return match &listed {
            Ok(devices) => default_input_device(Some(devices), default.is_some()),
            Err(_) => default_input_device(None, default.is_some()),
        };
    }
    let devices = match listed {
        Ok(devices) => devices,
        Err(e) => return Err(AudioError::Enumerating(e)),
    };
    let count: usize = devices.len();
    let ghost all = candidates(devices@, default);
    let mut candidates: Vec<DeviceInfo> = devices;
    if let Some(d) = default {
        candidates.push(d);
    }
    assert(candidates@ == all);
    let found: Option<usize> = match find_id(&candidates, selector) {
        Some(i) => Some(i),
        None => find_name(&candidates, selector),
    };
    if let Some(i) = found {
        return Ok(
            if i < count {
                Pick::Listed(i)
            } else {
                Pick::HostDefault
            },
        );
    }
    let mut available: Vec<String> = Vec::new();
    let mut i: usize = 0;
    assert(text::views(available@) =~= Seq::<Seq<char>>::empty());
    while i < candidates.len()
        invariant
            i <= candidates@.len(),
            candidates@ == all,
            text::views(available@) == ids(all, i as int),
        decreases candidates@.len() - i,
    {
        if let Some(id) = &candidates[i].id {
            let ghost before = available@;
            available.push(id.clone());
            assert(text::views(available@) =~= text::views(before).push(id@));
        }
        i += 1;
    }
    Err(AudioError::NoMatch { selector: selector.to_owned(), available })
}

proof fn lemma_first_by_id(devices: Seq<DeviceInfo>, id: Seq<char>, from: int)
    requires
        0 <= from,
    ensures
        match first_by_id(devices, id, from) {
            Some(i) => from <= i < devices.len() && has_id(devices[i], id),
            None => forall|j: int| from <= j < devices.len() ==> !has_id(#[trigger] devices[j], id),
        },
    decreases devices.len() - from,
{
    if from < devices.len() && !has_id(devices[from], id) {
        lemma_first_by_id(devices, id, from + 1);
    }
}

/// An id always beats a name: a device whose id is the selector is chosen even
/// when another one that is listed earlier has it as its name.
pub proof fn law_ids_before_names(devices: Seq<DeviceInfo>, selector: Seq<char>, k: int)
    requires
        0 <= k < devices.len(),
        has_id(devices[k], selector),
    ensures
        selected(devices, selector) matches Some(i) && has_id(devices[i], selector),
{
    lemma_first_by_id(devices, selector, 0);
}

/// The host default can be named explicitly, although it is not listed.
pub proof fn law_host_default_is_selectable(
    listed: Seq<DeviceInfo>,
    default: DeviceInfo,
    selector: Seq<char>,
)
    requires
        has_id(default, selector),
    ensures
        selected(candidates(listed, Some(default)), selector) is Some,
{
    let all = candidates(listed, Some(default));
    assert(all[listed.len() as int] == default);
    law_ids_before_names(all, selector, listed.len() as int);
}

/// A selector means the first device with that id; only if there is none, the
/// first with that name; and nothing if there is neither.
pub proof fn law_selectors_mean_one_device(devices: Seq<DeviceInfo>, selector: Seq<char>)
    ensures
        match selected(devices, selector) {
            Some(i) => {
                &&& 0 <= i < devices.len()
                &&& has_id(devices[i], selector) || devices[i].name@ == selector
                &&& has_id(devices[i], selector) ==> forall|j: int|
                    0 <= j < i ==> !has_id(#[trigger] devices[j], selector)
                &&& !has_id(devices[i], selector) ==> {
                    &&& forall|j: int|
                        0 <= j < devices.len() ==> !has_id(#[trigger] devices[j], selector)
                    &&& forall|j: int| 0 <= j < i ==> (#[trigger] devices[j]).name@ != selector
                }
            },
            None => forall|j: int|
                0 <= j < devices.len() ==> !has_id(#[trigger] devices[j], selector)
                    && devices[j].name@ != selector,
        },
{
    lemma_first_by_id(devices, selector, 0);
    lemma_first_by_id_is_first(devices, selector, 0);
    lemma_first_by_name(devices, selector, 0);
}

proof fn lemma_first_by_id_is_first(devices: Seq<DeviceInfo>, id: Seq<char>, from: int)
    requires
        0 <= from,
    ensures
        first_by_id(devices, id, from) matches Some(i) ==> forall|j: int|
            from <= j < i ==> !has_id(#[trigger] devices[j], id),
    decreases devices.len() - from,
{
    if from < devices.len() && !has_id(devices[from], id) {
        lemma_first_by_id_is_first(devices, id, from + 1);
    }
}

proof fn lemma_first_by_name(devices: Seq<DeviceInfo>, name: Seq<char>, from: int)
    requires
        0 <= from,
    ensures
        match first_by_name(devices, name, from) {
            Some(i) => from <= i < devices.len() && devices[i].name@ == name && forall|j: int|
                from <= j < i ==> (#[trigger] devices[j]).name@ != name,
            None => forall|j: int|
                from <= j < devices.len() ==> (#[trigger] devices[j]).name@ != name,
        },
    decreases devices.len() - from,
{
    if from < devices.len() && devices[from].name@ != name {
        lemma_first_by_name(devices, name, from + 1);
    }
}

/// Unless the user names a device, the PipeWire PCM is recorded from wherever
/// it is listed, whatever the host's default is; without it the default is; and
/// nothing is only if there is neither.
pub proof fn law_pipewire_is_preferred(listed: Seq<DeviceInfo>, has_default: bool)
    requires
        listed.len() <= usize::MAX,
    ensures
        (exists|i: int| 0 <= i < listed.len() && has_id(#[trigger] listed[i], "alsa:pipewire"@))
            ==> (default_pick(Some(listed), has_default) matches Some(Pick::Listed(i)) && i
            < listed.len() && has_id(listed[i as int], "alsa:pipewire"@)),
        (forall|i: int| 0 <= i < listed.len() ==> !has_id(#[trigger] listed[i], "alsa:pipewire"@))
            ==> default_pick(Some(listed), has_default) == (if has_default {
            Some(Pick::HostDefault)
        } else {
            None
        }),
        default_pick(None, has_default) == (if has_default {
            Some(Pick::HostDefault)
        } else {
            None
        }),
{
    lemma_first_by_id(listed, PIPEWIRE_PCM@, 0);
}

/// What a report says of the configured device is what a recording opens: by
/// its id or name, or else, for the default, by the preference.
pub proof fn law_picked_devices(
    selector: Seq<char>,
    listed: Seq<DeviceInfo>,
    default: Option<DeviceInfo>,
)
    requires
        selector != "default"@,
    ensures
        match picked(selector, listed, default) {
            Some(d) => {
                &&& has_id(d, selector) || d.name@ == selector
                &&& listed.contains(d) || default == Some(d)
            },
            None => {
                &&& forall|j: int|
                    0 <= j < listed.len() ==> !has_id(#[trigger] listed[j], selector)
                        && listed[j].name@ != selector
                &&& default matches Some(d) ==> !has_id(d, selector) && d.name@ != selector
            },
        },
{
    let all = candidates(listed, default);
    law_selectors_mean_one_device(all, selector);
    match selected(all, selector) {
        Some(i) => {
            if i < listed.len() {
                assert(listed[i] == all[i]);
            }
        },
        None => {
            assert forall|j: int| 0 <= j < listed.len() implies !has_id(
                #[trigger] listed[j],
                selector,
            ) && listed[j].name@ != selector by {
                assert(all[j] == listed[j]);
            }
            if default is Some {
                assert(all[listed.len() as int] == default->0);
            }
        },
    }
}

/// The ids that are offered are those of the devices that have one, in the
/// order in which they were found.
pub proof fn law_offered_ids(devices: Seq<DeviceInfo>, n: int)
    requires
        0 <= n < devices.len(),
    ensures
        ids(devices, 0).len() == 0,
        devices[n].id is Some ==> ids(devices, n + 1) == ids(devices, n).push(devices[n].id->0@),
        devices[n].id is None ==> ids(devices, n + 1) == ids(devices, n),
{
}

/// The host's default device is considered too, after all that are listed.
pub proof fn law_default_is_considered_last(listed: Seq<DeviceInfo>, default: Option<DeviceInfo>)
    ensures
        candidates(listed, default).take(listed.len() as int) == listed,
        default is Some ==> candidates(listed, default).len() == listed.len() + 1 && candidates(
            listed,
            default,
        ).last() == default->0,
        default is None ==> candidates(listed, default).len() == listed.len(),
{
    assert(candidates(listed, default).take(listed.len() as int) =~= listed);
}

/// A device that is handed on keeps its name, its id and its format.
pub proof fn law_devices_stay_themselves(a: DeviceInfo, b: DeviceInfo)
    ensures
        same_device(a, b) <==> a.name@ == b.name@ && ((a.id is Some <==> b.id is Some) && (
        a.id is Some && b.id is Some ==> a.id->0@ == b.id->0@)) && ((a.default_config is Some
            <==> b.default_config is Some) && (a.default_config is Some && b.default_config is Some
            ==> a.default_config->0@ == b.default_config->0@)),
{
}

/// A format tells the channels, the rate and the kind of samples, in this order.
pub proof fn law_formats_tell_all(channels: u16, rate: u32, format: Seq<char>)
    ensures
        text::has_prefix(config_text(channels, rate, format), text::decimal(channels as nat) + "ch "@),
        crate::paths::has_suffix(
            config_text(channels, rate, format),
            "ch "@ + text::decimal(rate as nat) + "Hz "@ + format,
        ),
{
    let t = config_text(channels, rate, format);
    let head = text::decimal(channels as nat) + "ch "@;
    assert(t.take(head.len() as int) =~= head);
    let tail = "ch "@ + text::decimal(rate as nat) + "Hz "@ + format;
    assert(t.skip(t.len() - tail.len()) =~= tail);
}

/// A selector that nothing matches is repeated, with all the ids that there are.
pub proof fn law_unmatched_selectors_are_told(selector: String, available: Vec<String>)
    ensures
        text::has_prefix(
            (AudioError::NoMatch { selector, available }).text(),
            "no audio input device matching `"@ + selector@,
        ),
        available@.len() > 0 ==> crate::paths::has_suffix(
            (AudioError::NoMatch { selector, available }).text(),
            text::joined(text::views(available@), ", "@),
        ),
{
    let t = (AudioError::NoMatch { selector, available }).text();
    let head = "no audio input device matching `"@ + selector@;
    assert(t.take(head.len() as int) =~= head);
    if available@.len() > 0 {
        let tail = text::joined(text::views(available@), ", "@);
        assert(t.skip(t.len() - tail.len()) =~= tail);
    }
}

} // verus!
