//! The recording overlay: a small always-on-top indicator that shows whether
//! dictation is listening, and how loud you are.
//!
//! This is its state: what the daemon's messages and the compositor's events
//! change, and what a frame shows.

use vstd::prelude::*;
use crate::config;
use crate::text;

verus! {

/// Width of the surface, in pixels.
///
/// The surface is a fixed size and mostly transparent; the pane inside it is
/// sized to its contents. Keeping the surface constant avoids asking the
/// compositor to resize on every preview, which would flicker.
pub const WIDTH: u32 = 780;

/// Height of the surface, in pixels.
pub const HEIGHT: u32 = 96;

/// Gap from the screen edge.
pub const MARGIN: i32 = 72;

/// Number of levels in the meter shown before any text arrives.
pub const BARS: usize = 18;

/// Where to put the indicator.
#[derive(Debug, Clone, Copy, PartialEq, Eq, Structural)]
pub enum OverlayAnchor {
    Top,
    Bottom,
    Center,
}

impl OverlayAnchor {
    /// The place that the user configured.
    pub fn from_config(anchor: config::OverlayAnchor) -> (r: Self)
        ensures
            anchor is Top <==> r is Top,
            anchor is Bottom <==> r is Bottom,
            anchor is Center <==> r is Center,
    {
        match anchor {
            config::OverlayAnchor::Top => OverlayAnchor::Top,
            config::OverlayAnchor::Bottom => OverlayAnchor::Bottom,
            config::OverlayAnchor::Center => OverlayAnchor::Center,
        }
    }
}

/// What the overlay is showing.
#[derive(Debug, Clone, Copy, PartialEq, Eq, Structural)]
pub enum Phase {
    Recording,
    Transcribing,
}

/// Messages from the daemon to the overlay.
///
/// A level is a height of the meter, from nothing to full, carried as the bit
/// pattern of a number: the state only stores it.
#[derive(Debug, Clone, PartialEq, Eq)]
pub enum Cmd {
    Show,
    Level(u32),
    /// Live transcript of what has been said so far.
    Text(String),
    Transcribing,
    Hide,
    Quit,
}

/// What happens to the surface.
#[derive(Debug, Clone, Copy, PartialEq, Eq, Structural)]
pub enum SurfaceChange {
    Keep,
    Create,
    Destroy,
}

/// What one frame shows.
#[derive(Debug, Clone, Copy, PartialEq, Eq, Structural)]
pub struct Frame {
    pub phase: Phase,
    /// Show the transcript rather than the meter.
    pub show_text: bool,
    /// The newest level.
    pub level: u32,
}

/// What the overlay knows.
pub struct State {
    /// There is a surface.
    pub visible: bool,
    /// The surface may be drawn to.
    pub configured: bool,
    pub phase: Phase,
    /// Recent levels, oldest first.
    pub levels: Vec<u32>,
    /// Live transcript, empty until the first preview arrives.
    pub transcript: String,
    /// A font could be loaded. Without one only the meter is shown.
    pub has_font: bool,
    /// When the overlay was last shown, in milliseconds.
    pub started_ms: u64,
    pub quit: bool,
}

/// The overlay's state as plain values.
pub ghost struct StateView {
    pub visible: bool,
    pub configured: bool,
    pub phase: Phase,
    pub levels: Seq<u32>,
    pub transcript: Seq<char>,
    pub has_font: bool,
    pub started_ms: u64,
    pub quit: bool,
}

impl View for State {
    type V = StateView;

    open spec fn view(&self) -> StateView {
        StateView {
            visible: self.visible,
            configured: self.configured,
            phase: self.phase,
            levels: self.levels@,
            transcript: self.transcript@,
            has_font: self.has_font,
            started_ms: self.started_ms,
            quit: self.quit,
        }
    }
}

/// A meter at rest.
pub open spec fn silence() -> Seq<u32> {
    Seq::new(BARS as nat, |i: int| 0u32)
}

impl StateView {
    /// The meter always holds the same number of levels, and only a surface
    /// that exists can be configured.
    pub open spec fn inv(self) -> bool {
        self.levels.len() == BARS && (self.configured ==> self.visible)
    }

    /// The state once the surface is gone.
    pub open spec fn unmapped(self) -> StateView {
        StateView { visible: false, configured: false, ..self }
    }

    /// What is drawn, if anything.
    pub open spec fn drawn(self) -> Option<Frame> {
        if self.visible && self.configured {
            Some(
                Frame {
                    phase: self.phase,
                    show_text: self.transcript.len() > 0 && self.has_font,
                    level: self.levels.last(),
                },
            )
        } else {
            None
        }
    }

    /// How long to sleep between polls, in milliseconds.
    pub open spec fn pause_ms(self) -> u64 {
        if self.visible {
            8
        } else {
            40
        }
    }

    /// The state after a message.
    pub open spec fn after(self, cmd: Cmd, now_ms: u64) -> StateView {
        match cmd {
            Cmd::Show => StateView {
                visible: true,
                configured: self.visible && self.configured,
                phase: Phase::Recording,
                levels: silence(),
                transcript: Seq::empty(),
                started_ms: now_ms,
                ..self
            },
            Cmd::Level(v) => StateView { levels: self.levels.drop_first().push(v), ..self },
            Cmd::Text(t) => StateView { transcript: t@, ..self },
            Cmd::Transcribing => StateView { phase: Phase::Transcribing, ..self },
            Cmd::Hide => self.unmapped(),
            Cmd::Quit => StateView { quit: true, ..self.unmapped() },
        }
    }

    /// What a message asks of the surface.
    pub open spec fn surface_change(self, cmd: Cmd) -> SurfaceChange {
        match cmd {
            Cmd::Show if !self.visible => SurfaceChange::Create,
            Cmd::Hide => SurfaceChange::Destroy,
            Cmd::Quit => SurfaceChange::Destroy,
            _ => SurfaceChange::Keep,
        }
    }
}

fn quiet_meter() -> (r: Vec<u32>)
    ensures
        r@ == silence(),
{
    let mut levels: Vec<u32> = Vec::new();
    let mut i: usize = 0;
    while i < BARS
        invariant
            i <= BARS,
            levels@ =~= Seq::new(i as nat, |j: int| 0u32),
        decreases BARS - i,
    {
        levels.push(0);
        i += 1;
    }
    levels
}

impl State {
    /// A hidden overlay.
    pub fn new(has_font: bool, now_ms: u64) -> (r: Self)
        ensures
            r@.inv(),
            r@ == (StateView {
                visible: false,
                configured: false,
                phase: Phase::Recording,
                levels: silence(),
                transcript: Seq::empty(),
                has_font,
                started_ms: now_ms,
                quit: false,
            }),
    {
        let r = State {
            visible: false,
            configured: false,
            phase: Phase::Recording,
            levels: quiet_meter(),
            transcript: String::new(),
            has_font,
            started_ms: now_ms,
            quit: false,
        };
        assert(r.transcript@ =~= Seq::<char>::empty());
        r
    }

    /// Takes a message from the daemon.
    pub fn apply(&mut self, cmd: Cmd, now_ms: u64) -> (r: SurfaceChange)
        requires
            old(self)@.inv(),
        ensures
            final(self)@.inv(),
            final(self)@ == old(self)@.after(cmd, now_ms),
            r == old(self)@.surface_change(cmd),
    {
        match cmd {
            Cmd::Show => {
                let change = if self.visible {
                    SurfaceChange::Keep
                } else {
                    self.configured = false;
                    SurfaceChange::Create
                };
                self.visible = true;
                self.phase = Phase::Recording;
                self.levels = quiet_meter();
                self.transcript = String::new();
                self.started_ms = now_ms;
                assert(self.transcript@ =~= Seq::<char>::empty());
                change
            },
            Cmd::Level(v) => {
                self.levels.remove(0);
                self.levels.push(v);
                assert(self.levels@ =~= old(self).levels@.drop_first().push(v));
                SurfaceChange::Keep
            },
            Cmd::Text(t) => {
                self.transcript = t;
                SurfaceChange::Keep
            },
            Cmd::Transcribing => {
                self.phase = Phase::Transcribing;
                SurfaceChange::Keep
            },
            Cmd::Hide => {
                self.closed();
                SurfaceChange::Destroy
            },
            Cmd::Quit => {
                self.closed();
                self.quit = true;
                SurfaceChange::Destroy
            },
        }
    }

    /// The daemon is gone without a word.
    pub fn disconnected(&mut self)
        requires
            old(self)@.inv(),
        ensures
            final(self)@.inv(),
            final(self)@ == (StateView { quit: true, ..old(self)@ }),
    {
        self.quit = true;
    }

    /// The surface is gone.
    pub fn closed(&mut self)
        requires
            old(self)@.inv(),
        ensures
            final(self)@.inv(),
            final(self)@ == old(self)@.unmapped(),
    {
        self.visible = false;
        self.configured = false;
    }

    /// The compositor allows the surface to be drawn to. An event for a
    /// surface that is already gone changes nothing.
    pub fn configure(&mut self)
        requires
            old(self)@.inv(),
        ensures
            final(self)@.inv(),
            final(self)@ == (StateView { configured: old(self)@.visible, ..old(self)@ }),
    {
        self.configured = self.visible;
    }

    /// What to draw now, if anything.
    pub fn frame(&self) -> (r: Option<Frame>)
        requires
            self@.inv(),
        ensures
            r == self@.drawn(),
    {
        if !self.visible || !self.configured {
            return None;
        }
        Some(
            Frame {
                phase: self.phase,
                show_text: !self.transcript.as_str().is_empty() && self.has_font,
                level: self.levels[BARS - 1],
            },
        )
    }

    /// How long to sleep between polls, in milliseconds.
    ///
    /// Short enough while visible to keep the meter smooth; lazily when nothing
    /// is on screen.
    pub fn poll_ms(&self) -> (r: u64)
        ensures
            r == self@.pause_ms(),
    {
        if self.visible {
            8
        } else {
            40
        }
    }
}

/// The state after some levels, in order.
pub open spec fn after_levels(v: StateView, values: Seq<u32>, now_ms: u64) -> StateView
    decreases values.len(),
{
    if values.len() == 0 {
        v
    } else {
        after_levels(v, values.drop_last(), now_ms).after(Cmd::Level(values.last()), now_ms)
    }
}

/// The meter scrolls: it holds the newest levels, and after as many as it has
/// places the old ones are gone. Levels change nothing else.
pub proof fn law_level_history_scrolls(v: StateView, values: Seq<u32>, now_ms: u64)
    requires
        v.inv(),
    ensures
        after_levels(v, values, now_ms) == (StateView {
            levels: (v.levels + values).skip(values.len() as int),
            ..v
        }),
        values.len() >= BARS ==> after_levels(v, values, now_ms).levels == values.skip(
            values.len() - BARS,
        ),
    decreases values.len(),
{
    let levels = v.levels;
    if values.len() > 0 {
        law_level_history_scrolls(v, values.drop_last(), now_ms);
        let before = (levels + values.drop_last()).skip(values.len() - 1);
        assert(before.drop_first().push(values.last()) =~= (levels + values).skip(
            values.len() as int,
        ));
    } else {
        assert((levels + values).skip(0) =~= levels);
    }
    assert(values.len() >= BARS ==> (levels + values).skip(values.len() as int) =~= values.skip(
        values.len() - BARS,
    ));
}

/// Showing an overlay starts afresh, whatever it showed before, and showing a
/// visible one does not make a second surface.
pub proof fn law_show_starts_afresh(v: StateView, now_ms: u64)
    ensures
        v.after(Cmd::Show, now_ms).transcript.len() == 0,
        v.after(Cmd::Show, now_ms).levels == silence(),
        forall|i: int| 0 <= i < BARS ==> #[trigger] v.after(Cmd::Show, now_ms).levels[i] == 0,
        v.after(Cmd::Show, now_ms).levels.len() == BARS,
        v.after(Cmd::Show, now_ms).phase is Recording,
        v.after(Cmd::Show, now_ms).surface_change(Cmd::Show) is Keep,
{
}

/// The newest preview is what is shown: a text replaces the transcript, whatever
/// it was, and changes nothing else.
pub proof fn law_newest_text_is_shown(v: StateView, text: String, now_ms: u64)
    ensures
        v.after(Cmd::Text(text), now_ms) == (StateView { transcript: text@, ..v }),
{
}

/// The state after some messages, in order.
pub open spec fn after_messages(v: StateView, cmds: Seq<Cmd>, now_ms: u64) -> StateView
    decreases cmds.len(),
{
    if cmds.len() == 0 {
        v
    } else {
        after_messages(v, cmds.drop_last(), now_ms).after(cmds.last(), now_ms)
    }
}

/// As long as the overlay is not shown anew, the transcript is the last text
/// that came, or the one from before if none did.
pub proof fn law_transcript_is_the_last_text(v: StateView, cmds: Seq<Cmd>, k: int, now_ms: u64)
    requires
        forall|i: int| 0 <= i < cmds.len() ==> !(#[trigger] cmds[i] is Show),
        -1 <= k < cmds.len(),
        forall|i: int| k < i < cmds.len() ==> !(#[trigger] cmds[i] is Text),
        k >= 0 ==> cmds[k] is Text,
    ensures
        after_messages(v, cmds, now_ms).transcript == if k < 0 {
            v.transcript
        } else {
            cmds[k]->Text_0@
        },
    decreases cmds.len(),
{
    if cmds.len() > 0 {
        let front = cmds.drop_last();
        assert(cmds[cmds.len() - 1] == cmds.last());
        assert(forall|i: int| 0 <= i < front.len() ==> #[trigger] front[i] == cmds[i]);
        if k < front.len() {
            law_transcript_is_the_last_text(v, front, k, now_ms);
        }
    }
}

/// A transcription under way changes what the overlay says it does, and nothing
/// else: the words and the meter stay.
pub proof fn law_transcribing_keeps_the_words(v: StateView, now_ms: u64)
    ensures
        v.after(Cmd::Transcribing, now_ms) == (StateView { phase: Phase::Transcribing, ..v }),
{
}

/// A surface exists exactly while the overlay is visible: it is made when the
/// overlay is shown and was not, taken away when it is hidden or quits, and
/// kept otherwise. One that is kept on showing stays drawable.
pub proof fn law_surface_follows_the_overlay(v: StateView, cmd: Cmd, now_ms: u64)
    requires
        v.inv(),
    ensures
        v.surface_change(cmd) is Create <==> cmd is Show && !v.visible,
        v.surface_change(cmd) is Destroy <==> cmd is Hide || cmd is Quit,
        v.after(cmd, now_ms).visible == match v.surface_change(cmd) {
            SurfaceChange::Create => true,
            SurfaceChange::Destroy => false,
            SurfaceChange::Keep => v.visible,
        },
        v.after(cmd, now_ms).configured == match v.surface_change(cmd) {
            SurfaceChange::Create => false,
            SurfaceChange::Destroy => false,
            SurfaceChange::Keep => v.configured,
        },
        v.after(cmd, now_ms).quit == (v.quit || cmd is Quit),
        v.after(cmd, now_ms).has_font == v.has_font,
        v.after(cmd, now_ms).started_ms == if cmd is Show {
            now_ms
        } else {
            v.started_ms
        },
        cmd is Hide || cmd is Quit ==> v.after(cmd, now_ms).transcript == v.transcript && v.after(
            cmd,
            now_ms,
        ).levels == v.levels && v.after(cmd, now_ms).phase == v.phase,
{
}

// ---------------------------------------------------------------- text

/// What is put before a transcript whose beginning was cut.
pub open spec fn ellipsis() -> Seq<char> {
    "… "@
}

/// Whether a word starts at position `i` of `s`.
pub open spec fn word_start(s: Seq<char>, i: int) -> bool {
    !text::whitespace(s[i]) && (i == 0 || text::whitespace(s[i - 1]))
}

/// The earliest word start that can be reached from the end of `s`, stepping
/// back over the word starts before `below` while their tails fit; `best` if
/// there is none.
pub open spec fn earliest_start(
    s: Seq<char>,
    tail_fits: Seq<bool>,
    below: int,
    best: Option<int>,
) -> Option<int>
    decreases below,
{
    if below <= 0 {
        best
    } else if !word_start(s, below - 1) {
        earliest_start(s, tail_fits, below - 1, best)
    } else if tail_fits[below - 1] {
        earliest_start(s, tail_fits, below - 1, Some(below - 1))
    } else {
        best
    }
}

/// Where the longest run of characters starts that reaches the end of `s` and
/// in which every step back still fits.
pub open spec fn run_start(run_fits: Seq<bool>, below: int) -> int
    decreases below,
{
    if below <= 0 || !run_fits[below - 1] {
        below
    } else {
        run_start(run_fits, below - 1)
    }
}

/// Where the shown part of a transcript that is too wide starts: at the
/// earliest word whose tail fits, or, when not even the last word does, at the
/// earliest character.
pub open spec fn cut(s: Seq<char>, tail_fits: Seq<bool>, run_fits: Seq<bool>) -> int {
    match earliest_start(s, tail_fits, s.len() as int, None) {
        Some(start) => start,
        None => run_start(run_fits, s.len() as int),
    }
}

/// Trim `s` from the *left* until it fits, prefixing an ellipsis and cutting
/// at a word boundary.
///
/// `whole_fits` says whether all of it fits. The others are about what is left
/// beside the ellipsis: `tail_fits[i]` says whether the text from character
/// `i` on fits, measured left to right, and `run_fits[i]` whether it does
/// measured right to left.
///
/// The tail is what matters in a live transcript: the newest words are the
/// ones the user is checking. Cutting mid-word reads as a different word
/// rather than a truncation, so whole words are dropped instead. A single word
/// too long for the budget still falls back to a character cut.
pub fn fit_tail(s: &str, whole_fits: bool, tail_fits: &Vec<bool>, run_fits: &Vec<bool>) -> (r:
    String)
    requires
        tail_fits@.len() == s@.len(),
        run_fits@.len() == s@.len(),
    ensures
        r@ == if whole_fits {
            s@
        } else {
            ellipsis() + s@.skip(cut(s@, tail_fits@, run_fits@))
        },
{
    if whole_fits {
        return s.to_owned();
    }
    let chars = text::chars_of(s);
    let mut best: Option<usize> = None;
    let mut below: usize = chars.len();
    let mut going: bool = true;
    while below > 0 && going
        invariant
            below <= chars@.len(),
            chars@ == s@,
            tail_fits@.len() == s@.len(),
            best matches Some(b) ==> b <= chars@.len(),
            earliest_start(s@, tail_fits@, s@.len() as int, None) == if going {
                earliest_start(
                    s@,
                    tail_fits@,
                    below as int,
                    match best {
                        Some(b) => Some(b as int),
                        None => None,
                    },
                )
            } else {
                match best {
                    Some(b) => Some(b as int),
                    None => None,
                }
            },
        decreases below,
    {
        let i: usize = below - 1;
        if !is_whitespace_at(&chars, i) && (i == 0 || is_whitespace_at(&chars, i - 1)) {
            if tail_fits[i] {
                best = Some(i);
            } else {
                going = false;
            }
        }
        below = i;
    }
    let start: usize = match best {
        Some(b) => b,
        None => {
            let mut take: usize = chars.len();
            while take > 0 && run_fits[take - 1]
                invariant
                    take <= chars@.len(),
                    chars@ == s@,
                    run_fits@.len() == s@.len(),
                    run_start(run_fits@, s@.len() as int) == run_start(run_fits@, take as int),
                decreases take,
            {
                take -= 1;
            }
            take
        },
    };
    let mut r = "… ".to_owned();
    r.append(text::string_of(&chars, start, chars.len()).as_str());
    assert(s@.subrange(start as int, s@.len() as int) =~= s@.skip(start as int));
    r
}

fn is_whitespace_at(chars: &Vec<char>, i: usize) -> (r: bool)
    requires
        i < chars@.len(),
    ensures
        r == text::whitespace(chars@[i as int]),
{
    text::is_whitespace(chars[i])
}

proof fn lemma_earliest_start(s: Seq<char>, tail_fits: Seq<bool>, below: int, best: Option<int>)
    requires
        0 <= below <= s.len(),
        tail_fits.len() == s.len(),
        best matches Some(b) ==> below <= b < s.len() && word_start(s, b) && tail_fits[b],
        best is None ==> forall|i: int| below <= i < s.len() ==> !word_start(s, i),
    ensures
        match earliest_start(s, tail_fits, below, best) {
            Some(i) => 0 <= i < s.len() && word_start(s, i) && tail_fits[i],
            None => (forall|i: int| 0 <= i < s.len() ==> !word_start(s, i)) || exists|i: int|
                {
                    &&& 0 <= i < s.len()
                    &&& #[trigger] word_start(s, i)
                    &&& !tail_fits[i]
                    &&& forall|j: int| i < j < s.len() ==> !word_start(s, j)
                },
        },
    decreases below,
{
    if below > 0 {
        if !word_start(s, below - 1) {
            lemma_earliest_start(s, tail_fits, below - 1, best);
        } else if tail_fits[below - 1] {
            lemma_earliest_start(s, tail_fits, below - 1, Some(below - 1));
        }
    }
}

proof fn lemma_run_start(run_fits: Seq<bool>, below: int)
    requires
        0 <= below <= run_fits.len(),
    ensures
        0 <= run_start(run_fits, below) <= below,
        forall|i: int| run_start(run_fits, below) <= i < below ==> run_fits[i],
    decreases below,
{
    if below > 0 && run_fits[below - 1] {
        lemma_run_start(run_fits, below - 1);
    }
}

/// A cut transcript shows its own tail, and starts at a word whose tail fits,
/// unless the last word alone is too wide: then it starts at a character from
/// which on everything fits.
pub proof fn law_elision_cuts_at_a_word(s: Seq<char>, tail_fits: Seq<bool>, run_fits: Seq<bool>)
    requires
        tail_fits.len() == s.len(),
        run_fits.len() == s.len(),
    ensures
        ({
            let at = cut(s, tail_fits, run_fits);
            let last_word_too_wide = exists|i: int|
                {
                    &&& 0 <= i < s.len()
                    &&& #[trigger] word_start(s, i)
                    &&& !tail_fits[i]
                    &&& forall|j: int| i < j < s.len() ==> !word_start(s, j)
                };
            let no_words = forall|i: int| 0 <= i < s.len() ==> !word_start(s, i);
            &&& 0 <= at <= s.len()
            &&& (at < s.len() && word_start(s, at) && tail_fits[at]) || ((last_word_too_wide
                || no_words) && forall|i: int| at <= i < s.len() ==> run_fits[i])
        }),
{
    lemma_earliest_start(s, tail_fits, s.len() as int, None);
    lemma_run_start(run_fits, s.len() as int);
}

/// As much of a transcript is shown as fits: before the word that it starts at
/// there is one that does not, or none at all; and where it is cut within a
/// word, not even one more character would fit.
pub proof fn law_as_much_is_shown_as_fits(s: Seq<char>, tail_fits: Seq<bool>, run_fits: Seq<bool>)
    requires
        tail_fits.len() == s.len(),
        run_fits.len() == s.len(),
    ensures
        ({
            let at = cut(s, tail_fits, run_fits);
            let last_word_fits = exists|i: int|
                {
                    &&& 0 <= i < s.len()
                    &&& #[trigger] word_start(s, i)
                    &&& tail_fits[i]
                    &&& forall|j: int| i < j < s.len() ==> !word_start(s, j)
                };
            if last_word_fits {
                &&& 0 <= at < s.len()
                &&& word_start(s, at)
                &&& forall|i: int|
                    at <= i < s.len() && #[trigger] word_start(s, i) ==> tail_fits[i]
                &&& forall|i: int|
                    0 <= i < at && #[trigger] word_start(s, i) ==> exists|j: int|
                        i <= j < at && #[trigger] word_start(s, j) && !tail_fits[j]
            } else {
                &&& forall|i: int| at <= i < s.len() ==> #[trigger] run_fits[i]
                &&& at > 0 ==> !run_fits[at - 1]
            }
        }),
{
    lemma_stepping_back(s, tail_fits, s.len() as int, None);
    lemma_run_start(run_fits, s.len() as int);
    lemma_run_start_is_first(run_fits, s.len() as int);
    if let Some(at) = earliest_start(s, tail_fits, s.len() as int, None) {
        let i = last_word(s, at);
        assert(word_start(s, i) && tail_fits[i]);
    }
}

/// The last word at or after one.
proof fn last_word(s: Seq<char>, at: int) -> (i: int)
    requires
        0 <= at < s.len(),
        word_start(s, at),
    ensures
        at <= i < s.len(),
        word_start(s, i),
        forall|j: int| i < j < s.len() ==> !word_start(s, j),
    decreases s.len() - at,
{
    if exists|j: int| at < j < s.len() && word_start(s, j) {
        last_word(s, choose|j: int| at < j < s.len() && word_start(s, j))
    } else {
        at
    }
}

proof fn lemma_run_start_is_first(run_fits: Seq<bool>, below: int)
    requires
        0 <= below <= run_fits.len(),
    ensures
        run_start(run_fits, below) > 0 ==> !run_fits[run_start(run_fits, below) - 1],
    decreases below,
{
    if below > 0 && run_fits[below - 1] {
        lemma_run_start_is_first(run_fits, below - 1);
    }
}

/// Stepping back over words ends before the first one, from the end, whose tail
/// does not fit.
proof fn lemma_stepping_back(s: Seq<char>, tail_fits: Seq<bool>, below: int, best: Option<int>)
    requires
        0 <= below <= s.len(),
        tail_fits.len() == s.len(),
        best is None ==> forall|i: int| below <= i < s.len() ==> !word_start(s, i),
        best matches Some(b) ==> {
            &&& below <= b < s.len()
            &&& word_start(s, b)
            &&& forall|i: int| below <= i < b ==> !word_start(s, i)
            &&& forall|i: int| b <= i < s.len() && #[trigger] word_start(s, i) ==> tail_fits[i]
        },
    ensures
        match earliest_start(s, tail_fits, below, best) {
            Some(at) => {
                &&& 0 <= at < s.len()
                &&& word_start(s, at)
                &&& forall|i: int|
                    at <= i < s.len() && #[trigger] word_start(s, i) ==> tail_fits[i]
                &&& forall|i: int|
                    0 <= i < at && #[trigger] word_start(s, i) ==> exists|j: int|
                        i <= j < at && #[trigger] word_start(s, j) && !tail_fits[j]
            },
            None => forall|i: int|
                0 <= i < s.len() && #[trigger] word_start(s, i) && (forall|j: int|
                    i < j < s.len() ==> !word_start(s, j)) ==> !tail_fits[i],
        },
    decreases below,
{
    if below > 0 {
        let k = below - 1;
        if !word_start(s, k) {
            lemma_stepping_back(s, tail_fits, k, best);
        } else if tail_fits[k] {
            lemma_stepping_back(s, tail_fits, k, Some(k));
        } else {
            match best {
                Some(at) => {
                    assert forall|i: int| 0 <= i < at && #[trigger] word_start(s, i) implies exists|
                        j: int,
                    | i <= j < at && #[trigger] word_start(s, j) && !tail_fits[j] by {
                        assert(i <= k < at && word_start(s, k) && !tail_fits[k]);
                    }
                },
                None => {
                    assert forall|i: int|
                        0 <= i < s.len() && #[trigger] word_start(s, i) && (forall|j: int|
                            i < j < s.len() ==> !word_start(s, j)) implies !tail_fits[i] by {
                        if i < k {
                            assert(word_start(s, k));
                        }
                    }
                },
            }
        }
    }
}

/// What a message does not speak of stays as it was.
pub proof fn law_what_a_message_changes(v: StateView, level: u32, text: String, now_ms: u64)
    ensures
        ({
            let w = v.after(Cmd::Show, now_ms);
            &&& w.visible && w.phase is Recording && w.started_ms == now_ms
            &&& w.transcript.len() == 0
            &&& w.configured <==> v.visible && v.configured
            &&& w.has_font == v.has_font && w.quit == v.quit
        }),
        ({
            let w = v.after(Cmd::Level(level), now_ms);
            &&& v.levels.len() > 0 ==> w.levels.last() == level && w.levels.len() == v.levels.len()
            &&& w.visible == v.visible && w.configured == v.configured && w.phase == v.phase
            &&& w.transcript == v.transcript && w.started_ms == v.started_ms
            &&& w.has_font == v.has_font && w.quit == v.quit
        }),
        ({
            let w = v.after(Cmd::Text(text), now_ms);
            &&& w.transcript == text@
            &&& w.visible == v.visible && w.configured == v.configured && w.phase == v.phase
            &&& w.levels == v.levels && w.started_ms == v.started_ms
            &&& w.has_font == v.has_font && w.quit == v.quit
        }),
        ({
            let w = v.after(Cmd::Transcribing, now_ms);
            &&& w.phase is Transcribing
            &&& w.visible == v.visible && w.configured == v.configured
            &&& w.transcript == v.transcript && w.levels == v.levels
            &&& w.started_ms == v.started_ms && w.has_font == v.has_font && w.quit == v.quit
        }),
        ({
            let w = v.after(Cmd::Hide, now_ms);
            &&& !w.visible && !w.configured && w.quit == v.quit
            &&& w.phase == v.phase && w.transcript == v.transcript && w.levels == v.levels
            &&& w.started_ms == v.started_ms && w.has_font == v.has_font
        }),
        ({
            let w = v.after(Cmd::Quit, now_ms);
            &&& !w.visible && !w.configured && w.quit
        }),
{
}

/// What was left out is marked by an ellipsis and a space.
pub proof fn law_what_is_left_out_is_marked()
    ensures
        ellipsis() == seq!['…', ' '],
{
    reveal_strlit("… ");
}

/// A word starts where something visible follows a gap or nothing.
pub proof fn law_words_follow_gaps(s: Seq<char>, i: int)
    requires
        0 <= i < s.len(),
    ensures
        i > 0 ==> (word_start(s, i) <==> text::whitespace(s[i - 1]) && !text::whitespace(s[i])),
        i == 0 ==> (word_start(s, i) <==> !text::whitespace(s[i])),
{
}

/// Something is drawn exactly while the surface is up: the phase that it is in,
/// the level that was heard last, and the words if there are any and there is a
/// font to draw them with.
pub proof fn law_what_is_drawn(v: StateView, level: u32, text: String, now_ms: u64)
    ensures
        v.drawn() is Some <==> v.visible && v.configured,
        v.drawn() matches Some(f) ==> f.phase == v.phase && (f.show_text <==> v.has_font
            && v.transcript.len() > 0),
        v.after(Cmd::Level(level), now_ms).drawn() matches Some(f) ==> f.level == level,
        v.after(Cmd::Text(text), now_ms).drawn() matches Some(f) ==> (f.show_text <==> v.has_font
            && text@.len() > 0),
        v.after(Cmd::Transcribing, now_ms).drawn() matches Some(f) ==> f.phase is Transcribing,
        v.after(Cmd::Hide, now_ms).drawn() is None,
        v.after(Cmd::Quit, now_ms).drawn() is None,
{
}

/// The overlay is looked after more often while it is on screen.
pub proof fn law_polling_is_lazy_when_hidden(v: StateView)
    ensures
        v.visible ==> v.pause_ms() == 8,
        !v.visible ==> v.pause_ms() == 40,
        v.unmapped().pause_ms() == 40,
{
}

} // verus!
