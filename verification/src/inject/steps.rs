//! What an injector asks for: programs to run and clipboard writes, in order.

use vstd::prelude::*;
use crate::text;

verus! {

/// One thing to do. A failure ends the injection, except that of
/// [`InjectStep::SaveClipboard`], which saves nothing, and that of
/// [`InjectStep::RestoreClipboard`], which is only logged.
#[derive(Debug, Clone, PartialEq, Eq)]
pub enum InjectStep {
    /// Remember what `program` (`wl-paste`) prints, if it succeeds.
    SaveClipboard { program: String },
    /// Give `text` to `program` (`wl-copy`) on its standard input.
    ///
    /// Never in the foreground: `wl-copy` forks a small server that owns the
    /// selection, and waiting for that would block until another client copies.
    WriteClipboard { program: String, text: String },
    /// Look up `wl-copy` and give it `text`.
    Copy { text: String },
    /// Run `program` (`wtype`) with `args`.
    Run { program: String, args: Vec<String> },
    /// Wait, then give what was remembered to `program` (`wl-copy`), if
    /// anything was. The target application reads the selection asynchronously,
    /// so restoring immediately could hand it the *old* contents.
    RestoreClipboard { program: String, delay_ms: u64 },
}

/// A step as plain values.
pub ghost enum StepView {
    SaveClipboard { program: Seq<char> },
    WriteClipboard { program: Seq<char>, text: Seq<char> },
    Copy { text: Seq<char> },
    Run { program: Seq<char>, args: Seq<Seq<char>> },
    RestoreClipboard { program: Seq<char>, delay_ms: u64 },
}

impl View for InjectStep {
    type V = StepView;

    open spec fn view(&self) -> StepView {
        match *self {
            InjectStep::SaveClipboard { program } => StepView::SaveClipboard { program: program@ },
            InjectStep::WriteClipboard { program, text } => StepView::WriteClipboard {
                program: program@,
                text: text@,
            },
            InjectStep::Copy { text } => StepView::Copy { text: text@ },
            InjectStep::Run { program, args } => StepView::Run {
                program: program@,
                args: text::views(args@),
            },
            InjectStep::RestoreClipboard { program, delay_ms } => StepView::RestoreClipboard {
                program: program@,
                delay_ms,
            },
        }
    }
}

/// Some steps as plain values.
pub open spec fn step_views(steps: Seq<InjectStep>) -> Seq<StepView> {
    steps.map_values(|s: InjectStep| s@)
}

/// The user's session, as far as steps change it.
pub ghost struct Desktop {
    /// What the clipboard holds.
    pub clipboard: Option<Seq<char>>,
    /// What was remembered of it.
    pub saved: Option<Seq<char>>,
    /// The programs that ran, each with its arguments and with what the
    /// clipboard held at that moment.
    pub ran: Seq<(Seq<char>, Seq<Seq<char>>, Option<Seq<char>>)>,
}

/// The session after a step that succeeded.
pub open spec fn after(step: StepView, d: Desktop) -> Desktop {
    match step {
        StepView::SaveClipboard { program } => Desktop { saved: d.clipboard, ..d },
        StepView::WriteClipboard { program, text } => Desktop { clipboard: Some(text), ..d },
        StepView::Copy { text } => Desktop { clipboard: Some(text), ..d },
        StepView::Run { program, args } => Desktop {
            ran: d.ran.push((program, args, d.clipboard)),
            ..d
        },
        StepView::RestoreClipboard { program, delay_ms } => match d.saved {
            Some(text) => Desktop { clipboard: Some(text), ..d },
            None => d,
        },
    }
}

/// The session after some steps, all of which succeeded.
pub open spec fn after_all(steps: Seq<StepView>, d: Desktop) -> Desktop
    decreases steps.len(),
{
    if steps.len() == 0 {
        d
    } else {
        after(steps.last(), after_all(steps.drop_last(), d))
    }
}

} // verus!
