//! Text injection backends.
//!
//! Wayland deliberately offers no universal "type this text" API, so there is
//! no single correct backend — only a chain of increasingly compromised ones.
//! This module probes what the session supports, builds the best available
//! injector, and guards against sending text to the wrong window.

use vstd::prelude::*;
use crate::config::{InjectBackend, InjectConfig};
use crate::inject::clipboard::{ClipboardInjector, ClipboardOptions};
use crate::inject::keys::ChordError;
use crate::inject::probe::{Probe, Tools, all_backends, covers_all, finding, held, probe_all};
use crate::inject::steps::{InjectStep, StepView, step_views};
use crate::inject::wtype::WtypeInjector;
use crate::text;
use crate::wayland::Globals;

pub mod clipboard;
pub mod focus;
pub mod keys;
pub mod probe;
pub mod steps;
pub mod wtype;

verus! {

/// Puts text into the focused application.
pub trait Injector {
    /// What the backend is called.
    spec fn label(&self) -> Seq<char>;

    /// What it takes to inject `text`.
    spec fn plan(&self, text: Seq<char>) -> Seq<StepView>;

    /// Whether the text is left on the clipboard.
    spec fn copies(&self) -> bool;

    /// What the backend is called.
    fn name(&self) -> (r: &'static str)
        ensures
            r@ == self.label(),
    ;

    /// What to do, in order, to inject `text`.
    fn inject(&self, text: &str) -> (r: Vec<InjectStep>)
        ensures
            step_views(r@) == self.plan(text@),
    ;

    /// Whether this backend already leaves the text on the clipboard.
    ///
    /// Lets the caller skip its own `always_copy` safety copy, which would
    /// otherwise write the selection twice per dictation.
    fn leaves_text_on_clipboard(&self) -> (r: bool)
        ensures
            r == self.copies(),
    ;
}

/// Places the transcript on the clipboard and does nothing else.
pub struct CopyOnlyInjector;

impl Injector for CopyOnlyInjector {
    open spec fn label(&self) -> Seq<char> {
        "copy-only"@
    }

    open spec fn plan(&self, text: Seq<char>) -> Seq<StepView> {
        if text.len() == 0 {
            Seq::empty()
        } else {
            seq![StepView::Copy { text }]
        }
    }

    open spec fn copies(&self) -> bool {
        true
    }

    fn name(&self) -> (r: &'static str) {
        "copy-only"
    }

    fn inject(&self, text: &str) -> (r: Vec<InjectStep>) {
        let mut steps: Vec<InjectStep> = Vec::new();
        if !text.is_empty() {
            steps.push(InjectStep::Copy { text: text.to_owned() });
        }
        assert(step_views(steps@) =~= self.plan(text@));
        steps
    }

    fn leaves_text_on_clipboard(&self) -> (r: bool) {
        true
    }
}

/// Why text could not be copied: there is no program for it.
#[derive(Debug, Clone, Copy, PartialEq, Eq, Structural)]
pub struct NoCopyProgram;

impl NoCopyProgram {
    /// The error in words.
    pub open spec fn text(self) -> Seq<char> {
        "wl-copy not found on $PATH"@
    }

    /// The error in words.
    pub fn message(&self) -> (r: String)
        ensures
            r@ == self.text(),
    {
        "wl-copy not found on $PATH".to_owned()
    }
}

/// Copy text to the clipboard without pasting, with the `wl-copy` that the
/// search path gives now.
///
/// Used as the safety net, so a misdirected or failed injection never loses
/// the text.
pub fn copy_to_clipboard(wl_copy: Option<&str>, text: &str) -> (r: Result<
    InjectStep,
    NoCopyProgram,
>)
    ensures
        match wl_copy {
            Some(program) => r matches Ok(step) && step@ == (StepView::WriteClipboard {
                program: program@,
                text: text@,
            }),
            None => r is Err,
        },
{
    match wl_copy {
        Some(program) => Ok(
            InjectStep::WriteClipboard { program: program.to_owned(), text: text.to_owned() },
        ),
        None => Err(NoCopyProgram),
    }
}

/// Whichever injector this session got.
pub enum AnyInjector {
    Wtype(WtypeInjector),
    Clipboard(ClipboardInjector),
    CopyOnly(CopyOnlyInjector),
}

impl Injector for AnyInjector {
    open spec fn label(&self) -> Seq<char> {
        match *self {
            AnyInjector::Wtype(i) => i.label(),
            AnyInjector::Clipboard(i) => i.label(),
            AnyInjector::CopyOnly(i) => i.label(),
        }
    }

    open spec fn plan(&self, text: Seq<char>) -> Seq<StepView> {
        match *self {
            AnyInjector::Wtype(i) => i.plan(text),
            AnyInjector::Clipboard(i) => i.plan(text),
            AnyInjector::CopyOnly(i) => i.plan(text),
        }
    }

    open spec fn copies(&self) -> bool {
        match *self {
            AnyInjector::Wtype(i) => i.copies(),
            AnyInjector::Clipboard(i) => i.copies(),
            AnyInjector::CopyOnly(i) => i.copies(),
        }
    }

    fn name(&self) -> (r: &'static str) {
        match self {
            AnyInjector::Wtype(i) => i.name(),
            AnyInjector::Clipboard(i) => i.name(),
            AnyInjector::CopyOnly(i) => i.name(),
        }
    }

    fn inject(&self, text: &str) -> (r: Vec<InjectStep>) {
        match self {
            AnyInjector::Wtype(i) => i.inject(text),
            AnyInjector::Clipboard(i) => i.inject(text),
            AnyInjector::CopyOnly(i) => i.inject(text),
        }
    }

    fn leaves_text_on_clipboard(&self) -> (r: bool) {
        match self {
            AnyInjector::Wtype(i) => i.leaves_text_on_clipboard(),
            AnyInjector::Clipboard(i) => i.leaves_text_on_clipboard(),
            AnyInjector::CopyOnly(i) => i.leaves_text_on_clipboard(),
        }
    }
}

/// Why a backend could not be built.
#[derive(Debug, Clone, PartialEq, Eq)]
pub enum ConstructError {
    /// A program that probing found is gone.
    Vanished { program: &'static str },
    /// The paste chord does not parse.
    Chord(ChordError),
    /// Nobody wrote this backend yet.
    NotImplemented { backend: &'static str },
}

impl ConstructError {
    /// The error in words.
    pub open spec fn text(self) -> Seq<char> {
        match self {
            ConstructError::Vanished { program } => program@ + " vanished after probing"@,
            ConstructError::Chord(e) => e.text(),
            ConstructError::NotImplemented { backend } => "the "@ + backend@
                + " backend is not implemented yet"@,
        }
    }

    /// The error in words.
    pub fn message(&self) -> (r: String)
        ensures
            r@ == self.text(),
    {
        match self {
            ConstructError::Vanished { program } => {
                let mut m = (*program).to_owned();
                m.append(" vanished after probing");
                m
            },
            ConstructError::Chord(e) => e.message(),
            ConstructError::NotImplemented { backend } => {
                let mut m = "the ".to_owned();
                m.append(backend);
                m.append(" backend is not implemented yet");
                m
            },
        }
    }
}

/// Whether `r` is what building a backend gives, on a machine with these tools.
pub open spec fn is_construction(
    r: Result<AnyInjector, ConstructError>,
    backend: InjectBackend,
    config: InjectConfig,
    tools: Tools,
) -> bool {
    match backend {
        InjectBackend::Wtype => match tools.wtype {
            Some(bin) => r matches Ok(AnyInjector::Wtype(i)) && i.binary@ == bin@,
            None => r matches Err(ConstructError::Vanished { program }) && program@ == "wtype"@,
        },
        InjectBackend::Clipboard => match (tools.wl_copy, tools.wl_paste) {
            (None, _) => r matches Err(ConstructError::Vanished { program }) && program@
                == "wl-copy"@,
            (Some(_), None) => r matches Err(ConstructError::Vanished { program }) && program@
                == "wl-paste"@,
            (Some(copy), Some(paste)) => {
                let read = keys::reading(keys::components(config.paste_keys@));
                match r {
                    Ok(AnyInjector::Clipboard(i)) => {
                        &&& i.wl_copy@ == copy@
                        &&& i.wl_paste@ == paste@
                        &&& i.restore == config.restore_clipboard
                        &&& i.restore_delay_ms == config.restore_delay_ms
                        &&& match (tools.wtype, i.paste) {
                            (None, None) => true,
                            (Some(bin), Some(p)) => p.wtype@ == bin@ && keys::is_parse_of(
                                Ok(p.chord),
                                config.paste_keys@,
                                read,
                            ),
                            _ => false,
                        }
                    },
                    Err(ConstructError::Chord(e)) => tools.wtype is Some && keys::is_parse_of(
                        Err(e),
                        config.paste_keys@,
                        read,
                    ),
                    _ => false,
                }
            },
        },
        InjectBackend::CopyOnly => r matches Ok(AnyInjector::CopyOnly(_)),
        InjectBackend::Uinput => r matches Err(ConstructError::NotImplemented { backend: b }) && b@
            == "uinput"@,
        InjectBackend::InputMethod => r matches Err(
            ConstructError::NotImplemented { backend: b },
        ) && b@ == "input-method"@,
    }
}

/// Builds one backend.
pub fn construct(backend: InjectBackend, config: &InjectConfig, tools: &Tools) -> (r: Result<
    AnyInjector,
    ConstructError,
>)
    ensures
        is_construction(r, backend, *config, *tools),
{
    match backend {
        InjectBackend::Wtype => match &tools.wtype {
            Some(bin) => Ok(AnyInjector::Wtype(WtypeInjector::new(bin.clone()))),
            None => Err(ConstructError::Vanished { program: "wtype" }),
        },
        InjectBackend::Clipboard => {
            let copy = match &tools.wl_copy {
                Some(copy) => copy.clone(),
                None => return Err(ConstructError::Vanished { program: "wl-copy" }),
            };
            let paste = match &tools.wl_paste {
                Some(paste) => paste.clone(),
                None => return Err(ConstructError::Vanished { program: "wl-paste" }),
            };
            let wtype = match &tools.wtype {
                Some(bin) => Some(bin.clone()),
                None => None,
            };
            let options = ClipboardOptions {
                paste_keys: config.paste_keys.clone(),
                restore: config.restore_clipboard,
                restore_delay_ms: config.restore_delay_ms,
            };
            match ClipboardInjector::new(copy, paste, wtype, &options) {
                Ok(i) => Ok(AnyInjector::Clipboard(i)),
                Err(e) => Err(ConstructError::Chord(e)),
            }
        },
        InjectBackend::CopyOnly => Ok(AnyInjector::CopyOnly(CopyOnlyInjector)),
        InjectBackend::Uinput => Err(ConstructError::NotImplemented { backend: "uinput" }),
        InjectBackend::InputMethod => Err(
            ConstructError::NotImplemented { backend: "input-method" },
        ),
    }
}

/// Whether building a backend succeeds.
pub open spec fn constructible(backend: InjectBackend, config: InjectConfig, tools: Tools) -> bool {
    match backend {
        InjectBackend::Wtype => tools.wtype is Some,
        InjectBackend::Clipboard => {
            &&& tools.wl_copy is Some
            &&& tools.wl_paste is Some
            &&& tools.wtype is Some ==> (keys::reading(
                keys::components(config.paste_keys@),
            ) matches keys::Reading::Keys { modifiers, key } && key is Some)
        },
        InjectBackend::CopyOnly => true,
        InjectBackend::Uinput => false,
        InjectBackend::InputMethod => false,
    }
}

/// The first backend at or after `from` that probes usable and can be built.
pub open spec fn choice(
    backends: Seq<InjectBackend>,
    from: int,
    config: InjectConfig,
    globals: Option<Globals>,
    tools: Tools,
) -> Option<InjectBackend>
    decreases backends.len() - from,
{
    if from < 0 || from >= backends.len() {
        None
    } else if finding(backends[from], globals, tools).0.usable() && constructible(
        backends[from],
        config,
        tools,
    ) {
        Some(backends[from])
    } else {
        choice(backends, from + 1, config, globals, tools)
    }
}

/// No backend in the list can be used here; carries their names.
#[derive(Debug, Clone, PartialEq, Eq)]
pub struct NoInjector {
    pub tried: Vec<String>,
}

/// The variant names of some backends.
pub open spec fn variants(backends: Seq<InjectBackend>) -> Seq<Seq<char>> {
    backends.map_values(|b: InjectBackend| b.variant())
}

impl NoInjector {
    /// The error in words.
    pub open spec fn text(self) -> Seq<char> {
        "no usable text injector (tried: "@ + text::joined(text::views(self.tried@), ", "@)
            + "); run `stt doctor` for details"@
    }

    /// The error in words.
    pub fn message(&self) -> (r: String)
        ensures
            r@ == self.text(),
    {
        let mut m = "no usable text injector (tried: ".to_owned();
        m.append(text::join(&self.tried, ", ").as_str());
        m.append("); run `stt doctor` for details");
        m
    }
}

/// Build the first injector from `config.backends` that this session supports.
///
/// Returns the injector and the probe that justified choosing it, so the
/// daemon can log and report what it settled on.
pub fn build(config: &InjectConfig, globals: Option<&Globals>, tools: &Tools) -> (r: Result<
    (AnyInjector, Probe),
    NoInjector,
>)
    ensures
        match choice(config.backends@, 0, *config, held(globals), *tools) {
            Some(b) => {
                &&& r is Ok
                &&& is_construction(Ok((r->Ok_0).0), b, *config, *tools)
                &&& (r->Ok_0).1.says(b, finding(b, held(globals), *tools))
            },
            None => r matches Err(e) && text::views(e.tried@) == variants(config.backends@),
        },
{
    let probes = probe_all(globals, tools);
    let ghost world = held(globals);
    let mut i: usize = 0;
    while i < config.backends.len()
        invariant
            i <= config.backends@.len(),
            world == held(globals),
            covers_all(probes@, world, *tools),
            choice(config.backends@, 0, *config, world, *tools) == choice(
                config.backends@,
                i as int,
                *config,
                world,
                *tools,
            ),
        decreases config.backends@.len() - i,
    {
        let wanted = config.backends[i];
        let at: usize = probe_position(wanted);
        let probe = &probes[at];
        assert(probe.says(all_backends()[at as int], finding(wanted, world, *tools)));
        if probe.is_usable() {
            // A backend that probed clean but will not build falls through to
            // the next one.
            if let Ok(injector) = construct(wanted, config, tools) {
                return Ok((injector, probe.copied()));
            }
        }
        i += 1;
    }
    let mut tried: Vec<String> = Vec::new();
    let mut k: usize = 0;
    while k < config.backends.len()
        invariant
            k <= config.backends@.len(),
            text::views(tried@) =~= variants(config.backends@).take(k as int),
        decreases config.backends@.len() - k,
    {
        let name = config.backends[k].variant_name();
        let ghost before = tried@;
        tried.push(name.to_owned());
        assert(text::views(tried@) =~= text::views(before).push(name@));
        k += 1;
    }
    assert(text::views(tried@) =~= variants(config.backends@));
    Err(NoInjector { tried })
}

/// Where a backend stands in the report on all of them.
pub(crate) fn probe_position(backend: InjectBackend) -> (r: usize)
    ensures
        r < all_backends().len(),
        all_backends()[r as int] == backend,
{
    match backend {
        InjectBackend::Wtype => 0,
        InjectBackend::Clipboard => 1,
        InjectBackend::Uinput => 2,
        InjectBackend::InputMethod => 3,
        InjectBackend::CopyOnly => 4,
    }
}

/// Building a backend succeeds exactly when it is constructible.
pub proof fn law_construction_succeeds_iff_constructible(
    r: Result<AnyInjector, ConstructError>,
    backend: InjectBackend,
    config: InjectConfig,
    tools: Tools,
)
    requires
        is_construction(r, backend, config, tools),
    ensures
        r is Ok <==> constructible(backend, config, tools),
{
}

/// The chosen backend is in the user's list, probes usable and can be built,
/// and every one that stands before it in the list does not qualify.
pub proof fn law_first_usable_wins(
    config: InjectConfig,
    globals: Option<Globals>,
    tools: Tools,
)
    ensures
        match choice(config.backends@, 0, config, globals, tools) {
            Some(b) => exists|i: int|
                {
                    &&& 0 <= i < config.backends@.len()
                    &&& #[trigger] config.backends@[i] == b
                    &&& finding(b, globals, tools).0.usable()
                    &&& constructible(b, config, tools)
                    &&& forall|j: int|
                        0 <= j < i ==> !(finding(#[trigger] config.backends@[j], globals, tools).0.usable()
                            && constructible(config.backends@[j], config, tools))
                },
            None => forall|j: int|
                0 <= j < config.backends@.len() ==> !(finding(
                    #[trigger] config.backends@[j],
                    globals,
                    tools,
                ).0.usable() && constructible(config.backends@[j], config, tools)),
        },
{
    lemma_choice(config.backends@, 0, config, globals, tools);
}

proof fn lemma_choice(
    backends: Seq<InjectBackend>,
    from: int,
    config: InjectConfig,
    globals: Option<Globals>,
    tools: Tools,
)
    requires
        0 <= from,
    ensures
        match choice(backends, from, config, globals, tools) {
            Some(b) => exists|i: int|
                {
                    &&& from <= i < backends.len()
                    &&& #[trigger] backends[i] == b
                    &&& finding(b, globals, tools).0.usable()
                    &&& constructible(b, config, tools)
                    &&& forall|j: int|
                        from <= j < i ==> !(finding(#[trigger] backends[j], globals, tools).0.usable()
                            && constructible(backends[j], config, tools))
                },
            None => forall|j: int|
                from <= j < backends.len() ==> !(finding(
                    #[trigger] backends[j],
                    globals,
                    tools,
                ).0.usable() && constructible(backends[j], config, tools)),
        },
    decreases backends.len() - from,
{
    if from < backends.len() && !(finding(backends[from], globals, tools).0.usable()
        && constructible(backends[from], config, tools)) {
        lemma_choice(backends, from + 1, config, globals, tools);
    }
}

/// Whenever the list holds copy-only, a Wayland session with `wl-copy` has an
/// injector.
pub proof fn law_copy_only_is_a_last_resort(config: InjectConfig, globals: Globals, tools: Tools)
    requires
        tools.wl_copy is Some,
        config.backends@.contains(InjectBackend::CopyOnly),
    ensures
        choice(config.backends@, 0, config, Some(globals), tools) is Some,
{
    lemma_choice(config.backends@, 0, config, Some(globals), tools);
    let j = choose|j: int|
        0 <= j < config.backends@.len() && #[trigger] config.backends@[j]
            == InjectBackend::CopyOnly;
    assert(config.backends@[j] == InjectBackend::CopyOnly);
}

/// An injector that is built is the one that was asked for, works with the
/// programs that were found, and does what the configuration says: it restores
/// the clipboard if that says so and after the delay it gives, and presses the
/// configured chord if there is wtype to press it with.
pub proof fn law_built_as_configured(
    injector: AnyInjector,
    backend: InjectBackend,
    config: InjectConfig,
    tools: Tools,
)
    requires
        is_construction(Ok(injector), backend, config, tools),
    ensures
        match injector {
            AnyInjector::Wtype(i) => backend is Wtype && tools.wtype is Some && i.binary@
                == tools.wtype->0@,
            AnyInjector::Clipboard(i) => {
                &&& backend is Clipboard
                &&& tools.wl_copy is Some && i.wl_copy@ == tools.wl_copy->0@
                &&& tools.wl_paste is Some && i.wl_paste@ == tools.wl_paste->0@
                &&& i.restore == config.restore_clipboard
                &&& i.restore_delay_ms == config.restore_delay_ms
                &&& i.paste is Some <==> tools.wtype is Some
                &&& i.paste is Some ==> (i.paste->0).wtype@ == tools.wtype->0@
                    && keys::is_parse_of(
                    Ok((i.paste->0).chord),
                    config.paste_keys@,
                    keys::reading(keys::components(config.paste_keys@)),
                )
            },
            AnyInjector::CopyOnly(_) => backend is CopyOnly,
        },
{
}

/// Whichever injector it is, it does what that one does.
pub proof fn law_any_injector_is_what_it_holds(
    w: WtypeInjector,
    c: ClipboardInjector,
    o: CopyOnlyInjector,
    text: Seq<char>,
)
    ensures
        AnyInjector::Wtype(w).plan(text) == w.plan(text),
        AnyInjector::Clipboard(c).plan(text) == c.plan(text),
        AnyInjector::CopyOnly(o).plan(text) == o.plan(text),
        AnyInjector::Wtype(w).label() == w.label(),
        AnyInjector::Clipboard(c).label() == c.label(),
        AnyInjector::CopyOnly(o).label() == o.label(),
{
}

/// Copying leaves the text on the clipboard and runs nothing; for no text it
/// does nothing.
pub proof fn law_copy_only_copies(i: CopyOnlyInjector, text: Seq<char>, d: steps::Desktop)
    ensures
        text.len() > 0 ==> steps::after_all(i.plan(text), d) == (steps::Desktop {
            clipboard: Some(text),
            ..d
        }),
        text.len() == 0 ==> i.plan(text).len() == 0,
{
    reveal_with_fuel(steps::after_all, 2);
    if text.len() > 0 {
        assert(i.plan(text).drop_last().len() == 0);
    }
}

/// A backend that says it leaves the text on the clipboard does, whatever was
/// there before; copying says so.
pub proof fn law_who_leaves_the_text_says_so(
    injector: AnyInjector,
    text: Seq<char>,
    d: steps::Desktop,
)
    requires
        text.len() > 0,
    ensures
        injector.copies() ==> steps::after_all(injector.plan(text), d).clipboard == Some(text),
        injector is CopyOnly ==> injector.copies(),
        injector.copies() ==> steps::after_all(injector.plan(text), d).ran == d.ran,
{
    match injector {
        AnyInjector::CopyOnly(i) => law_copy_only_copies(i, text, d),
        _ => {},
    }
}

/// Whichever backend it is, no text means that nothing is done.
pub proof fn law_nothing_is_done_for_no_text(injector: AnyInjector)
    ensures
        injector.plan(Seq::empty()).len() == 0,
{
}

/// What stands in the way of building an injector is named: a program that is
/// gone, by its name; a chord that does not parse; or that the backend is not
/// implemented.
pub proof fn law_what_cannot_be_built(
    error: ConstructError,
    backend: InjectBackend,
    config: InjectConfig,
    tools: Tools,
)
    requires
        is_construction(Err(error), backend, config, tools),
    ensures
        !(backend is CopyOnly),
        backend is Wtype ==> tools.wtype is None && (error matches ConstructError::Vanished {
            program,
        } && program@ == "wtype"@),
        backend is Clipboard && tools.wl_copy is None ==> (error matches ConstructError::Vanished {
            program,
        } && program@ == "wl-copy"@),
        backend is Clipboard && tools.wl_copy is Some && tools.wl_paste is None ==> (
        error matches ConstructError::Vanished { program } && program@ == "wl-paste"@),
        backend is Clipboard && tools.wl_copy is Some && tools.wl_paste is Some ==> error is Chord
            && tools.wtype is Some,
        backend is Uinput || backend is InputMethod ==> error is NotImplemented,
{
}

/// What has to be there for an injector to be built: the programs that it runs,
/// and for pasting a chord that can be pressed, if there is something to press
/// it with.
pub proof fn law_what_can_be_built(backend: InjectBackend, config: InjectConfig, tools: Tools)
    ensures
        constructible(backend, config, tools) <==> {
            ||| backend is CopyOnly
            ||| backend is Wtype && tools.wtype is Some
            ||| backend is Clipboard && tools.wl_copy is Some && tools.wl_paste is Some && (
            tools.wtype is None || (keys::reading(
                keys::components(config.paste_keys@),
            ) matches keys::Reading::Keys { modifiers, key } && key is Some))
        },
{
}

/// An error names the program or the backend that it is about.
pub proof fn law_construction_errors_name_the_cause(e: ConstructError)
    ensures
        e matches ConstructError::Vanished { program } ==> text::has_prefix(e.text(), program@),
        e matches ConstructError::NotImplemented { backend } ==> text::has_prefix(
            e.text(),
            "the "@ + backend@,
        ),
        e matches ConstructError::Chord(c) ==> e.text() == c.text(),
{
    let t = e.text();
    match e {
        ConstructError::Vanished { program } => {
            assert(t.take(program@.len() as int) =~= program@);
        },
        ConstructError::NotImplemented { backend } => {
            let p = "the "@ + backend@;
            assert(t.take(p.len() as int) =~= p);
        },
        _ => {},
    }
}

} // verus!
