//! Wayland globals (protocols) and what can be read from them.
//!
//! Which text-injection and overlay strategies are viable is decided entirely
//! by what the running compositor advertises on its registry.

use vstd::prelude::*;
use crate::order;
use crate::order::Keyed;
use crate::text;

verus! {

/// Interface name for the wlroots layer-shell, used by the recording overlay.
pub const LAYER_SHELL: &'static str = "zwlr_layer_shell_v1";

/// Interface backing `wtype`.
pub const VIRTUAL_KEYBOARD: &'static str = "zwp_virtual_keyboard_manager_v1";

/// Interface backing the input-method injector.
pub const INPUT_METHOD: &'static str = "zwp_input_method_manager_v2";

/// Interface backing `wl-copy` / `wl-paste`.
pub const DATA_CONTROL: &'static str = "zwlr_data_control_manager_v1";

/// One protocol that the compositor advertises.
#[derive(Debug, Clone, PartialEq, Eq)]
pub struct Global {
    pub interface: String,
    pub version: u32,
}

impl Keyed for Global {
    open spec fn key(self) -> Seq<char> {
        self.interface@
    }

    fn sort_key(&self) -> (r: &str) {
        self.interface.as_str()
    }
}

/// Why the registry could not be read; each carries the underlying error.
#[derive(Debug, Clone, PartialEq, Eq)]
pub enum RegistryError {
    Connect(String),
    Roundtrip(String),
}

impl RegistryError {
    /// What went wrong, in short.
    pub open spec fn headline(self) -> Seq<char> {
        match self {
            RegistryError::Connect(_) => "no Wayland connection (is WAYLAND_DISPLAY set?)"@,
            RegistryError::Roundtrip(_) => "Wayland registry roundtrip failed"@,
        }
    }

    /// What went wrong, in short.
    pub fn short_message(&self) -> (r: &'static str)
        ensures
            r@ == self.headline(),
    {
        match self {
            RegistryError::Connect(_) => "no Wayland connection (is WAYLAND_DISPLAY set?)",
            RegistryError::Roundtrip(_) => "Wayland registry roundtrip failed",
        }
    }
}

/// Everything the compositor advertises, sorted by interface name.
#[derive(Debug, Clone)]
pub struct Globals {
    pub globals: Vec<Global>,
}

impl Default for Globals {
    fn default() -> (r: Self)
        ensures
            r.globals@.len() == 0,
    {
        Globals { globals: Vec::new() }
    }
}

/// The position of the first global with this interface.
pub open spec fn first_with(globals: Seq<Global>, interface: Seq<char>, from: int) -> Option<int>
    decreases globals.len() - from,
{
    if from < 0 || from >= globals.len() {
        None
    } else if globals[from].interface@ == interface {
        Some(from)
    } else {
        first_with(globals, interface, from + 1)
    }
}

impl Globals {
    /// Whether the compositor advertises `interface`.
    pub open spec fn advertises(self, interface: Seq<char>) -> bool {
        exists|i: int| 0 <= i < self.globals@.len() && #[trigger] self.globals@[i].interface@ == interface
    }

    /// Orders what the registry listed.
    ///
    /// An error stays an error, which the caller should treat as "not on
    /// Wayland" rather than a hard failure.
    pub fn probe(advertised: Result<Vec<Global>, RegistryError>) -> (r: Result<Self, RegistryError>)
        ensures
            match advertised {
                Ok(list) => r matches Ok(g) && g.globals@ == order::sorted(list@),
                Err(e) => r == Err::<Globals, RegistryError>(e),
            },
    {
        match advertised {
            Ok(list) => Ok(Globals { globals: order::sort(list) }),
            Err(e) => Err(e),
        }
    }

    fn position(&self, interface: &str) -> (r: Option<usize>)
        ensures
            match r {
                Some(i) => first_with(self.globals@, interface@, 0) == Some(i as int) && i
                    < self.globals@.len() && self.globals@[i as int].interface@ == interface@,
                None => first_with(self.globals@, interface@, 0) is None && !self.advertises(
                    interface@,
                ),
            },
    {
        let mut i: usize = 0;
        while i < self.globals.len()
            invariant
                i <= self.globals@.len(),
                first_with(self.globals@, interface@, 0) == first_with(
                    self.globals@,
                    interface@,
                    i as int,
                ),
                forall|j: int| 0 <= j < i ==> #[trigger] self.globals@[j].interface@ != interface@,
            decreases self.globals@.len() - i,
        {
            if text::same(self.globals[i].interface.as_str(), interface) {
                return Some(i);
            }
            i += 1;
        }
        None
    }

    /// Whether the compositor advertises `interface`.
    pub fn has(&self, interface: &str) -> (r: bool)
        ensures
            r == self.advertises(interface@),
    {
        match self.position(interface) {
            Some(i) => {
                assert(self.globals@[i as int].interface@ == interface@);
                true
            },
            None => false,
        }
    }

    /// The version of the first global with this interface.
    pub fn version_of(&self, interface: &str) -> (r: Option<u32>)
        ensures
            match first_with(self.globals@, interface@, 0) {
                Some(i) => r == Some(self.globals@[i].version),
                None => r is None,
            },
    {
        match self.position(interface) {
            Some(i) => Some(self.globals[i].version),
            None => None,
        }
    }
}

/// A probed registry lists the interfaces in ascending order, and lists each
/// exactly as often as the compositor advertised it.
pub proof fn law_probe_sorts(advertised: Seq<Global>)
    ensures
        order::ascending(order::sorted(advertised)),
        order::sorted(advertised).to_multiset() == advertised.to_multiset(),
        order::sorted(advertised).len() == advertised.len(),
{
    order::lemma_sorted_ascends(advertised);
    order::lemma_sorted_keeps_elements(advertised);
}

/// A version is known exactly for the interfaces that are advertised.
pub proof fn law_version_iff_advertised(g: Globals, interface: Seq<char>)
    ensures
        g.advertises(interface) <==> first_with(g.globals@, interface, 0) is Some,
{
    lemma_first_with(g.globals@, interface, 0);
    match first_with(g.globals@, interface, 0) {
        Some(i) => {
            assert(g.globals@[i].interface@ == interface);
        },
        None => {},
    }
}

proof fn lemma_first_with(globals: Seq<Global>, interface: Seq<char>, from: int)
    requires
        0 <= from,
    ensures
        match first_with(globals, interface, from) {
            Some(i) => from <= i < globals.len() && globals[i].interface@ == interface,
            None => forall|j: int|
                from <= j < globals.len() ==> #[trigger] globals[j].interface@ != interface,
        },
    decreases globals.len() - from,
{
    if from < globals.len() && globals[from].interface@ != interface {
        lemma_first_with(globals, interface, from + 1);
    }
}

/// The first of `values` that is set and not empty, or `"unknown"`.
pub open spec fn first_named(values: Seq<Option<String>>) -> Seq<char>
    decreases values.len(),
{
    if values.len() == 0 {
        "unknown"@
    } else {
        match values[0] {
            Some(v) if v@.len() > 0 => v@,
            _ => first_named(values.drop_first()),
        }
    }
}

/// Best-effort identification of the running compositor, for diagnostics only.
///
/// `values` are those of `XDG_CURRENT_DESKTOP`, `XDG_SESSION_DESKTOP` and
/// `DESKTOP_SESSION`, in that order. Never branch behaviour on the result:
/// branch on [`Globals`] instead.
pub fn compositor_name(values: &Vec<Option<String>>) -> (r: String)
    ensures
        r@ == first_named(values@),
{
    let mut i: usize = 0;
    assert(values@.skip(0) =~= values@);
    while i < values.len()
        invariant
            i <= values@.len(),
            first_named(values@) == first_named(values@.skip(i as int)),
        decreases values@.len() - i,
    {
        if let Some(v) = &values[i] {
            if !v.as_str().is_empty() {
                return v.clone();
            }
        }
        assert(values@.skip(i as int).drop_first() =~= values@.skip(i + 1));
        i += 1;
    }
    "unknown".to_owned()
}

/// Whether this process is talking to a Wayland compositor at all, given
/// whether `WAYLAND_DISPLAY` is set.
pub fn is_wayland(wayland_display: Option<&str>) -> (r: bool)
    ensures
        r == wayland_display is Some,
{
    match wayland_display {
        Some(_) => true,
        None => false,
    }
}

/// The version is that of the first global with the interface.
pub proof fn law_first_global_counts(globals: Seq<Global>, interface: Seq<char>)
    ensures
        match first_with(globals, interface, 0) {
            Some(i) => {
                &&& 0 <= i < globals.len()
                &&& globals[i].interface@ == interface
                &&& forall|j: int| 0 <= j < i ==> #[trigger] globals[j].interface@ != interface
            },
            None => forall|j: int|
                0 <= j < globals.len() ==> #[trigger] globals[j].interface@ != interface,
        },
{
    lemma_first_with(globals, interface, 0);
    lemma_first_with_is_first(globals, interface, 0);
}

proof fn lemma_first_with_is_first(globals: Seq<Global>, interface: Seq<char>, from: int)
    requires
        0 <= from,
    ensures
        first_with(globals, interface, from) matches Some(i) ==> forall|j: int|
            from <= j < i ==> #[trigger] globals[j].interface@ != interface,
    decreases globals.len() - from,
{
    if from < globals.len() && globals[from].interface@ != interface {
        lemma_first_with_is_first(globals, interface, from + 1);
    }
}

/// The compositor goes by the first name that is set and not empty; only if
/// there is none it is unknown.
pub proof fn law_first_name_counts(values: Seq<Option<String>>)
    ensures
        (exists|i: int| #[trigger] names_it(values, i)) || first_named(values) == "unknown"@ && forall|
            i: int,
        |
            0 <= i < values.len() ==> (#[trigger] values[i] matches Some(v) ==> v@.len() == 0),
        forall|i: int| #[trigger]
            names_it(values, i) ==> first_named(values) == values[i]->0@,
    decreases values.len(),
{
    if values.len() > 0 {
        let rest = values.drop_first();
        law_first_name_counts(rest);
        if values[0] is Some && values[0]->0@.len() > 0 {
            assert(names_it(values, 0));
        } else {
            assert forall|i: int| #[trigger] names_it(values, i) implies first_named(values)
                == values[i]->0@ by {
                assert(i > 0);
                assert forall|j: int| 0 <= j < i - 1 implies (#[trigger] rest[j] matches Some(v)
                    ==> v@.len() == 0) by {
                    assert(rest[j] == values[j + 1]);
                }
                assert(rest[i - 1] == values[i]);
                assert(names_it(rest, i - 1));
            }
            if exists|i: int| #[trigger] names_it(rest, i) {
                let i = choose|i: int| #[trigger] names_it(rest, i);
                assert(rest[i] == values[i + 1]);
                assert forall|j: int| 0 <= j < i + 1 implies (#[trigger] values[j] matches Some(v)
                    ==> v@.len() == 0) by {
                    if j > 0 {
                        assert(values[j] == rest[j - 1]);
                    }
                }
                assert(names_it(values, i + 1));
            } else {
                assert forall|j: int| 0 <= j < values.len() implies (
                #[trigger] values[j] matches Some(v) ==> v@.len() == 0) by {
                    if j > 0 {
                        assert(values[j] == rest[j - 1]);
                    }
                }
            }
        }
    }
}

/// Whether a value is the first that is set and not empty.
pub open spec fn names_it(values: Seq<Option<String>>, i: int) -> bool {
    &&& 0 <= i < values.len()
    &&& values[i] is Some
    &&& values[i]->0@.len() > 0
    &&& forall|j: int| 0 <= j < i ==> (#[trigger] values[j] matches Some(v) ==> v@.len() == 0)
}

} // verus!
