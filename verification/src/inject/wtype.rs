//! Direct typing via `wtype` and the virtual-keyboard protocol.

use vstd::prelude::*;
use crate::inject::steps::{Desktop, InjectStep, StepView, after_all, step_views};
use crate::inject::Injector;
use crate::text;

verus! {

/// Types text with `wtype`.
pub struct WtypeInjector {
    pub binary: String,
}

/// The arguments that make wtype type `text` literally.
pub open spec fn typing(text: Seq<char>) -> Seq<Seq<char>> {
    seq!["--"@, text]
}

impl WtypeInjector {
    pub fn new(binary: String) -> (r: Self)
        ensures
            r.binary == binary,
    {
        WtypeInjector { binary }
    }

    /// Arguments for typing `text` literally.
    ///
    /// The `--` matters: a transcript beginning with a hyphen would otherwise
    /// be parsed as options.
    pub fn type_args(text: &str) -> (r: Vec<String>)
        ensures
            text::views(r@) == typing(text@),
    {
        let r = vec!["--".to_owned(), text.to_owned()];
        assert(text::views(r@) =~= typing(text@));
        r
    }
}

impl Injector for WtypeInjector {
    open spec fn label(&self) -> Seq<char> {
        "wtype"@
    }

    open spec fn plan(&self, text: Seq<char>) -> Seq<StepView> {
        if text.len() == 0 {
            Seq::empty()
        } else {
            seq![StepView::Run { program: self.binary@, args: typing(text) }]
        }
    }

    open spec fn copies(&self) -> bool {
        false
    }

    fn name(&self) -> (r: &'static str) {
        "wtype"
    }

    fn inject(&self, text: &str) -> (r: Vec<InjectStep>) {
        let mut steps: Vec<InjectStep> = Vec::new();
        if !text.is_empty() {
            steps.push(
                InjectStep::Run {
                    program: self.binary.clone(),
                    args: WtypeInjector::type_args(text),
                },
            );
        }
        assert(step_views(steps@) =~= self.plan(text@));
        steps
    }

    fn leaves_text_on_clipboard(&self) -> (r: bool) {
        false
    }
}

/// What is run when a program exits unsuccessfully, in words.
pub open spec fn failure_text(program: Seq<char>, status: Seq<char>, stderr: Seq<char>) -> Seq<
    char,
> {
    program + " failed ("@ + status + "): "@ + text::trimmed(stderr)
}

/// Turns an exit status into a useful error: none on success.
pub fn run_error(program: &str, success: bool, status: &str, stderr: &str) -> (r: Option<String>)
    ensures
        text::opt_view(r) == if success {
            None
        } else {
            Some(failure_text(program@, status@, stderr@))
        },
{
    if success {
        return None;
    }
    let mut m = program.to_owned();
    m.append(" failed (");
    m.append(status);
    m.append("): ");
    m.append(text::trim(stderr).as_str());
    Some(m)
}

/// Whatever was dictated, it reaches wtype as one argument, unchanged, behind
/// the marker that ends the options.
pub proof fn law_text_is_never_an_option(text: Seq<char>)
    ensures
        typing(text).len() == 2,
        typing(text)[0] == "--"@,
        typing(text)[1] == text,
{
}

/// Whatever was dictated is typed, all of it and once: one program runs, the one
/// that was configured, and behind the marker that ends the options it gets the
/// text as it is. The clipboard is left alone. Nothing is done for no text.
pub proof fn law_text_is_typed_whole(i: WtypeInjector, text: Seq<char>, d: Desktop)
    ensures
        text.len() > 0 ==> after_all(i.plan(text), d) == (Desktop {
            ran: d.ran.push((i.binary@, seq!["--"@, text], d.clipboard)),
            ..d
        }),
        text.len() == 0 ==> i.plan(text).len() == 0,
{
    reveal_with_fuel(after_all, 2);
    if text.len() > 0 {
        assert(i.plan(text).drop_last().len() == 0);
        assert(typing(text) =~= seq!["--"@, text]);
    }
}

/// A failure names the program and how it ended, and repeats what it said.
pub proof fn law_failures_are_explained(program: Seq<char>, status: Seq<char>, stderr: Seq<char>)
    ensures
        text::has_prefix(failure_text(program, status, stderr), program + " failed ("@ + status),
        crate::paths::has_suffix(failure_text(program, status, stderr), text::trimmed(stderr)),
{
    let t = failure_text(program, status, stderr);
    let head = program + " failed ("@ + status;
    assert(t.take(head.len() as int) =~= head);
    let tail = text::trimmed(stderr);
    assert(t.skip(t.len() - tail.len()) =~= tail);
}

} // verus!
