use zeshicast::scripts::{
    capture_outcome, compact_notice, finish_step, shows_output_view, ScriptCaptureOutcome,
    ScriptFinish, ScriptMode,
};

#[test]
fn silent_run_is_not_taken_for_a_run_that_never_happened() {
    assert!(matches!(capture_outcome(true, Some("\n".to_string())), ScriptCaptureOutcome::RanWithoutOutput));
    assert!(matches!(capture_outcome(true, None), ScriptCaptureOutcome::RanWithoutOutput));
    assert!(matches!(
        capture_outcome(true, Some("capture-test-output\n".to_string())),
        ScriptCaptureOutcome::Output(ref s) if s == "capture-test-output\n"
    ));
    assert!(matches!(capture_outcome(false, None), ScriptCaptureOutcome::NotCapturable));
}

#[test]
fn only_a_script_that_never_ran_is_run_again() {
    assert!(matches!(finish_step(ScriptCaptureOutcome::RanWithoutOutput), ScriptFinish::Close));
    assert!(matches!(finish_step(ScriptCaptureOutcome::NotCapturable), ScriptFinish::RunConfirmed));
    assert!(matches!(
        finish_step(ScriptCaptureOutcome::Output("x".to_string())),
        ScriptFinish::ShowOutput(ref s) if s == "x"
    ));
}

#[test]
fn compact_runs_notify_trimmed_output() {
    assert_eq!(
        compact_notice(&ScriptCaptureOutcome::Output("  done \n".to_string())).as_deref(),
        Some("done")
    );
    assert_eq!(compact_notice(&ScriptCaptureOutcome::Output(" \n".to_string())), None);
    assert_eq!(compact_notice(&ScriptCaptureOutcome::RanWithoutOutput), None);
    assert!(shows_output_view(ScriptMode::FullOutput));
    assert!(shows_output_view(ScriptMode::Inline));
    assert!(!shows_output_view(ScriptMode::Silent));
    assert!(!shows_output_view(ScriptMode::Compact));
}
