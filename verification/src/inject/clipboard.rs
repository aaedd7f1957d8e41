//! Clipboard-based injection: copy the text, synthesize a paste chord, then
//! put the user's clipboard back.
//!
//! Less elegant than typing, but it is the path that works in the most places,
//! and the only one that handles a long transcript instantly rather than key
//! by key.

use vstd::prelude::*;
use crate::inject::keys::{Chord, ChordError, chord_args, components, is_parse_of, reading};
use crate::inject::steps::{Desktop, InjectStep, StepView, after, after_all, step_views};
use crate::inject::Injector;
use crate::text;

verus! {

/// How to press paste.
pub struct PasteMethod {
    pub wtype: String,
    pub chord: Chord,
}

/// How the clipboard backend should behave.
pub struct ClipboardOptions {
    pub paste_keys: String,
    pub restore: bool,
    pub restore_delay_ms: u32,
}

/// Copies text and pastes it.
pub struct ClipboardInjector {
    pub wl_copy: String,
    pub wl_paste: String,
    /// How to press paste. `None` means that the transcript reaches the
    /// clipboard and the user pastes it themselves.
    pub paste: Option<PasteMethod>,
    pub restore: bool,
    pub restore_delay_ms: u64,
}

impl ClipboardInjector {
    /// Builds the backend; a chord that is needed must parse.
    pub fn new(
        wl_copy: String,
        wl_paste: String,
        wtype: Option<String>,
        options: &ClipboardOptions,
    ) -> (r: Result<Self, ChordError>)
        ensures
            match wtype {
                None => r matches Ok(i) && i.paste is None,
                Some(w) => match r {
                    Ok(i) => i.paste matches Some(p) && p.wtype == w && is_parse_of(
                        Ok(p.chord),
                        options.paste_keys@,
                        reading(components(options.paste_keys@)),
                    ),
                    Err(e) => is_parse_of(
                        Err(e),
                        options.paste_keys@,
                        reading(components(options.paste_keys@)),
                    ),
                },
            },
            r matches Ok(i) ==> {
                &&& i.wl_copy == wl_copy
                &&& i.wl_paste == wl_paste
                &&& i.restore == options.restore
                &&& i.restore_delay_ms == options.restore_delay_ms
            },
    {
        let paste = match wtype {
            Some(wtype) => match Chord::parse(options.paste_keys.as_str()) {
                Ok(chord) => Some(PasteMethod { wtype, chord }),
                Err(e) => return Err(e),
            },
            None => None,
        };
        Ok(
            ClipboardInjector {
                wl_copy,
                wl_paste,
                paste,
                restore: options.restore,
                restore_delay_ms: options.restore_delay_ms as u64,
            },
        )
    }
}

impl Injector for ClipboardInjector {
    open spec fn label(&self) -> Seq<char> {
        "clipboard"@
    }

    open spec fn plan(&self, text: Seq<char>) -> Seq<StepView> {
        if text.len() == 0 {
            Seq::empty()
        } else {
            let save = if self.restore {
                seq![StepView::SaveClipboard { program: self.wl_paste@ }]
            } else {
                Seq::empty()
            };
            let write = seq![StepView::WriteClipboard { program: self.wl_copy@, text }];
            match self.paste {
                // Restoring here would throw away the only copy the user has.
                None => save + write,
                Some(p) => {
                    let press = seq![
                        StepView::Run {
                            program: p.wtype@,
                            args: chord_args(text::views(p.chord.modifiers@), p.chord.key@),
                        },
                    ];
                    let restore = if self.restore {
                        seq![
                            StepView::RestoreClipboard {
                                program: self.wl_copy@,
                                delay_ms: self.restore_delay_ms,
                            },
                        ]
                    } else {
                        Seq::empty()
                    };
                    save + write + press + restore
                },
            }
        }
    }

    open spec fn copies(&self) -> bool {
        false
    }

    fn name(&self) -> (r: &'static str) {
        "clipboard"
    }

    fn inject(&self, text: &str) -> (r: Vec<InjectStep>) {
        let mut steps: Vec<InjectStep> = Vec::new();
        if text.is_empty() {
            assert(step_views(steps@) =~= self.plan(text@));
            return steps;
        }
        if self.restore {
            steps.push(InjectStep::SaveClipboard { program: self.wl_paste.clone() });
        }
        steps.push(
            InjectStep::WriteClipboard { program: self.wl_copy.clone(), text: text.to_owned() },
        );
        if let Some(paste) = &self.paste {
            steps.push(
                InjectStep::Run {
                    program: paste.wtype.clone(),
                    args: paste.chord.to_wtype_args(),
                },
            );
            if self.restore {
                steps.push(
                    InjectStep::RestoreClipboard {
                        program: self.wl_copy.clone(),
                        delay_ms: self.restore_delay_ms,
                    },
                );
            }
        }
        assert(step_views(steps@) =~= self.plan(text@));
        steps
    }

    fn leaves_text_on_clipboard(&self) -> (r: bool) {
        false
    }
}

/// Pasting happens while the clipboard holds the text, and afterwards the
/// clipboard holds what it held before, if it held anything.
pub proof fn law_clipboard_is_restored(i: ClipboardInjector, text: Seq<char>, d: Desktop)
    requires
        text.len() > 0,
        i.restore,
        i.paste is Some,
    ensures
        ({
            let p = i.paste->0;
            let end = after_all(i.plan(text), d);
            &&& end.ran == d.ran.push(
                (
                    p.wtype@,
                    chord_args(text::views(p.chord.modifiers@), p.chord.key@),
                    Some(text),
                ),
            )
            &&& end.clipboard == (if d.clipboard is Some {
                d.clipboard
            } else {
                Some(text)
            })
        }),
{
    let plan = i.plan(text);
    assert(plan.len() == 4);
    lemma_four_steps(plan, d);
}

/// Without a way to paste, nothing runs and the text stays on the clipboard:
/// the only copy is never thrown away.
pub proof fn law_unpasted_text_stays(i: ClipboardInjector, text: Seq<char>, d: Desktop)
    requires
        text.len() > 0,
        i.paste is None,
    ensures
        after_all(i.plan(text), d).clipboard == Some(text),
        after_all(i.plan(text), d).ran == d.ran,
{
    let plan = i.plan(text);
    reveal_with_fuel(after_all, 3);
    assert(plan.last() == (StepView::WriteClipboard { program: i.wl_copy@, text }));
    if i.restore {
        assert(plan.drop_last()[0] == (StepView::SaveClipboard { program: i.wl_paste@ }));
    }
}

proof fn lemma_four_steps(plan: Seq<StepView>, d: Desktop)
    requires
        plan.len() == 4,
    ensures
        after_all(plan, d) == after(plan[3], after(plan[2], after(plan[1], after(plan[0], d)))),
{
    reveal_with_fuel(after_all, 5);
    assert(plan.drop_last().drop_last().drop_last()[0] == plan[0]);
}

/// Where there is a way to paste, it is used, exactly once, and while the
/// clipboard holds the text, whether the clipboard is put back afterwards or
/// not. If it is not, the text stays there.
pub proof fn law_paste_is_pressed_once(i: ClipboardInjector, text: Seq<char>, d: Desktop)
    requires
        text.len() > 0,
        i.paste is Some,
    ensures
        after_all(i.plan(text), d).ran == d.ran.push(
            (
                (i.paste->0).wtype@,
                chord_args(
                    text::views((i.paste->0).chord.modifiers@),
                    (i.paste->0).chord.key@,
                ),
                Some(text),
            ),
        ),
        !i.restore ==> after_all(i.plan(text), d).clipboard == Some(text),
        !i.restore ==> after_all(i.plan(text), d).saved == d.saved,
{
    if i.restore {
        law_clipboard_is_restored(i, text, d);
    } else {
        let plan = i.plan(text);
        reveal_with_fuel(after_all, 3);
        assert(plan.len() == 2);
        assert(plan.drop_last()[0] == plan[0]);
    }
}

/// The clipboard is read and written with the programs that were found, it is
/// remembered exactly if it is to be put back, and it is put back exactly if
/// it was remembered and paste was pressed, after the time that was set.
/// Nothing is done for no text.
pub proof fn law_clipboard_programs_and_delay(i: ClipboardInjector, text: Seq<char>, k: int)
    requires
        0 <= k < i.plan(text).len(),
    ensures
        text.len() > 0,
        match i.plan(text)[k] {
            StepView::SaveClipboard { program } => k == 0 && i.restore && program == i.wl_paste@,
            StepView::WriteClipboard { program, text: t } => program == i.wl_copy@ && t == text && k
                == (if i.restore {
                1int
            } else {
                0
            }),
            StepView::Copy { .. } => false,
            StepView::Run { .. } => i.paste is Some,
            StepView::RestoreClipboard { program, delay_ms } => {
                &&& i.restore
                &&& i.paste is Some
                &&& program == i.wl_copy@
                &&& delay_ms == i.restore_delay_ms
                &&& k == 3
            },
        },
        i.restore && i.paste is Some ==> i.plan(text).len() == 4 && i.plan(
            text,
        )[3] is RestoreClipboard,
        i.restore ==> i.plan(text)[0] is SaveClipboard,
{
}

} // verus!
