//! Running script actions: how the output of a run is classified, and what
//! the launcher does next, so that a script that already ran is never
//! started a second time.
use vstd::prelude::*;

use crate::text::{chars_of, slice_chars, string_of, trim, trim_range};

verus! {

/// The result of running a script to capture its output.
pub enum ScriptCaptureOutcome {
    /// Nothing ran: the action has no script path, or the path is missing.
    NotCapturable,
    /// The script ran and printed nothing but whitespace, or failed.
    RanWithoutOutput,
    /// The script ran and printed this.
    Output(String),
}

/// How the output of a script action is presented.
#[derive(Debug, Clone, Copy, PartialEq, Eq, Structural)]
pub enum ScriptMode {
    /// Run in the background, show nothing.
    Silent,
    /// Run in the background and show the output as a notification.
    Compact,
    /// Show the output view.
    FullOutput,
    /// Show the output view.
    Inline,
}

/// The outcome of a capture run as the specification reads it.
pub ghost enum OutcomeView {
    NotCapturable,
    RanWithoutOutput,
    Output(Seq<char>),
}

impl View for ScriptCaptureOutcome {
    type V = OutcomeView;

    open spec fn view(&self) -> OutcomeView {
        match self {
            ScriptCaptureOutcome::NotCapturable => OutcomeView::NotCapturable,
            ScriptCaptureOutcome::RanWithoutOutput => OutcomeView::RanWithoutOutput,
            ScriptCaptureOutcome::Output(s) => OutcomeView::Output(s@),
        }
    }
}

/// The outcome of a capture run: nothing ran when the script was not
/// started; its output when it printed something other than whitespace;
/// else it ran without output.
pub open spec fn capture_view(started: bool, stdout: Option<Seq<char>>) -> OutcomeView {
    if !started {
        OutcomeView::NotCapturable
    } else {
        match stdout {
            Some(s) => if trim(s).len() > 0 {
                OutcomeView::Output(s)
            } else {
                OutcomeView::RanWithoutOutput
            },
            None => OutcomeView::RanWithoutOutput,
        }
    }
}

/// The view of optional owned text.
pub open spec fn opt_text(v: Option<String>) -> Option<Seq<char>> {
    match v {
        Some(s) => Some(s@),
        None => None,
    }
}

/// Classifies a capture run: `started` tells whether the script was
/// started, `stdout` what it printed when it exited successfully.
pub fn capture_outcome(started: bool, stdout: Option<String>) -> (r: ScriptCaptureOutcome)
    ensures
        r@ == capture_view(started, opt_text(stdout)),
{
    if !started {
        return ScriptCaptureOutcome::NotCapturable;
    }
    match stdout {
        Some(s) => {
            let c = chars_of(s.as_str());
            let (lo, hi) = trim_range(&c);
            if lo < hi {
                ScriptCaptureOutcome::Output(s)
            } else {
                ScriptCaptureOutcome::RanWithoutOutput
            }
        },
        None => ScriptCaptureOutcome::RanWithoutOutput,
    }
}

/// What follows a captured run in the output view.
pub enum ScriptFinish {
    /// Show the output.
    ShowOutput(String),
    /// Close the launcher: the script ran already.
    Close,
    /// Nothing ran: run the action the ordinary, confirmed way.
    RunConfirmed,
}

/// What follows a captured run, as the specification reads it.
pub ghost enum FinishView {
    ShowOutput(Seq<char>),
    Close,
    RunConfirmed,
}

impl View for ScriptFinish {
    type V = FinishView;

    open spec fn view(&self) -> FinishView {
        match self {
            ScriptFinish::ShowOutput(s) => FinishView::ShowOutput(s@),
            ScriptFinish::Close => FinishView::Close,
            ScriptFinish::RunConfirmed => FinishView::RunConfirmed,
        }
    }
}

/// The step after an outcome: its output is shown, a run without output
/// closes the launcher, and only a script that never started is run the
/// ordinary way.
pub open spec fn finish_view(outcome: OutcomeView) -> FinishView {
    match outcome {
        OutcomeView::Output(s) => FinishView::ShowOutput(s),
        OutcomeView::RanWithoutOutput => FinishView::Close,
        OutcomeView::NotCapturable => FinishView::RunConfirmed,
    }
}

/// What follows a captured run.
pub fn finish_step(outcome: ScriptCaptureOutcome) -> (r: ScriptFinish)
    ensures
        r@ == finish_view(outcome@),
{
    match outcome {
        ScriptCaptureOutcome::Output(s) => ScriptFinish::ShowOutput(s),
        ScriptCaptureOutcome::RanWithoutOutput => ScriptFinish::Close,
        ScriptCaptureOutcome::NotCapturable => ScriptFinish::RunConfirmed,
    }
}

/// A script that was started is never started a second time: the step after
/// its capture runs the action again only when nothing ran, and a run with
/// output always shows that output.
pub proof fn lemma_started_script_never_rerun(started: bool, stdout: Option<Seq<char>>)
    ensures
        finish_view(capture_view(started, stdout)) == FinishView::RunConfirmed <==> !started,
        started ==> (stdout matches Some(s) ==> (trim(s).len() > 0 ==> finish_view(
            capture_view(started, stdout),
        ) == FinishView::ShowOutput(s))),
{
}

/// The text of the notification that a compact run shows: its output,
/// trimmed, when there is any.
pub fn compact_notice(outcome: &ScriptCaptureOutcome) -> (r: Option<String>)
    ensures
        match outcome@ {
            OutcomeView::Output(s) => if trim(s).len() > 0 {
                r matches Some(t) && t@ == trim(s)
            } else {
                r is None
            },
            _ => r is None,
        },
{
    match outcome {
        ScriptCaptureOutcome::Output(s) => {
            let c = chars_of(s.as_str());
            let (lo, hi) = trim_range(&c);
            if lo < hi {
                Some(string_of(&slice_chars(&c, lo, hi)))
            } else {
                None
            }
        },
        _ => None,
    }
}

/// Whether a run in `mode` shows the output view; the other modes run in the
/// background and close the launcher at once.
pub fn shows_output_view(mode: ScriptMode) -> (r: bool)
    ensures
        r == (mode == ScriptMode::FullOutput || mode == ScriptMode::Inline),
{
    match mode {
        ScriptMode::FullOutput | ScriptMode::Inline => true,
        _ => false,
    }
}

} // verus!
