use tidyup::engine::confirm_prompt;
use tidyup::engine::done_marker;
use tidyup::engine::skip_marker;
use tidyup::engine::Engine;
use tidyup::engine::FixAction;
use tidyup::engine::FixState;
use tidyup::engine::ProbeError;
use tidyup::output::Output;

fn report(title: &str, fixable: bool) -> Output {
    Output::new(title.to_string(), "body".to_string(), fixable)
}

#[test]
fn empty_probe_set_finishes_at_once() {
    let mut e = Engine::new(true);
    assert_eq!(e.run_len(), 0);
    assert_eq!(e.next_action(), FixAction::Done);
}

#[test]
fn error_lines() {
    let e = ProbeError::new("permission denied".to_string());
    assert_eq!(e.check_failure_line(), "Failed to run command: permission denied");
    assert_eq!(e.fix_failure_line(), "Failed to apply fix: permission denied");
}

#[test]
fn markers() {
    assert_eq!(confirm_prompt(), "\u{1b}[33mConfirm? [y/N]:\u{1b}[0m ");
    assert_eq!(skip_marker(), "\u{1b}[31mSkipped\u{1b}[0m\n");
    assert_eq!(done_marker(), "\u{1b}[32mDone\u{1b}[0m\n");
}

#[test]
fn collect_renders_and_retains() {
    let mut e = Engine::new(false);
    let block = e.collect_ok(4, report("Cache", true));
    assert_eq!(block, "\u{1b}[36;1mCache (fix available):\u{1b}[0m\nbody\n");
    assert_eq!(e.run_len(), 1);
    assert_eq!(e.entry_probe(0), 4);
    assert_eq!(e.entry_state(0), FixState::Collected);
}

#[test]
fn failed_check_never_enters_the_run() {
    let mut e = Engine::new(true);
    let line = e.collect_err(&ProbeError::new("no such binary".to_string()));
    assert_eq!(line, "Failed to run command: no such binary");
    assert_eq!(e.run_len(), 0);
    assert_eq!(e.next_action(), FixAction::Done);
}

#[test]
fn three_probes_one_failure_one_fix() {
    // Three probes: one check fails, one reports nothing to fix, one offers a
    // fix that the user confirms. Two result blocks, one error line, exactly
    // one fix applied.
    let mut e = Engine::new(true);
    let mut blocks = 0;
    let mut error_lines = 0;
    let _ = e.collect_err(&ProbeError::new("simulated io error".to_string()));
    error_lines += 1;
    let _ = e.collect_ok(1, report("Quiet", false));
    blocks += 1;
    let _ = e.collect_ok(2, report("Fixable", true));
    blocks += 1;
    assert_eq!(blocks, 2);
    assert_eq!(error_lines, 1);
    assert_eq!(e.run_len(), 2);

    let mut applied = 0;
    loop {
        match e.next_action() {
            FixAction::Done => break,
            FixAction::Pass => {}
            FixAction::Prompt(probe) => {
                assert_eq!(probe, 2);
                let go = e.confirm("y\n");
                assert!(go);
                applied += 1;
                e.fix_result(true);
            }
        }
    }
    assert_eq!(applied, 1);
    assert_eq!(e.entry_state(0), FixState::NotRequested);
    assert_eq!(e.entry_state(1), FixState::Fixed);
}

#[test]
fn no_apply_flag_means_no_fix() {
    let mut e = Engine::new(false);
    let _ = e.collect_ok(0, report("A", true));
    let _ = e.collect_ok(1, report("B", true));
    let _ = e.collect_ok(2, report("C", false));
    let mut prompts = 0;
    loop {
        match e.next_action() {
            FixAction::Done => break,
            FixAction::Pass => {}
            FixAction::Prompt(_) => prompts += 1,
        }
    }
    assert_eq!(prompts, 0);
    for i in 0..3 {
        assert_eq!(e.entry_state(i), FixState::NotRequested);
    }
}

#[test]
fn declining_skips_and_moves_on() {
    let mut e = Engine::new(true);
    let _ = e.collect_ok(0, report("A", true));
    let _ = e.collect_ok(1, report("B", true));
    assert_eq!(e.next_action(), FixAction::Prompt(0));
    assert!(!e.confirm("n\n"));
    assert_eq!(e.entry_state(0), FixState::Skipped);
    assert_eq!(e.next_action(), FixAction::Prompt(1));
    assert!(!e.confirm("anything else\n"));
    assert_eq!(e.entry_state(1), FixState::Skipped);
    assert_eq!(e.next_action(), FixAction::Done);
}

#[test]
fn failed_fix_does_not_abort_the_queue() {
    let mut e = Engine::new(true);
    let _ = e.collect_ok(0, report("A", true));
    let _ = e.collect_ok(1, report("B", true));
    assert_eq!(e.next_action(), FixAction::Prompt(0));
    assert!(e.confirm("y"));
    e.fix_result(false);
    assert_eq!(e.entry_state(0), FixState::FixFailed);
    assert_eq!(e.next_action(), FixAction::Prompt(1));
    assert!(e.confirm("y"));
    e.fix_result(true);
    assert_eq!(e.entry_state(1), FixState::Fixed);
    assert_eq!(e.next_action(), FixAction::Done);
}

#[test]
fn unreadable_confirmation_aborts_the_rest() {
    let mut e = Engine::new(true);
    let _ = e.collect_ok(0, report("A", true));
    let _ = e.collect_ok(1, report("B", true));
    assert_eq!(e.next_action(), FixAction::Prompt(0));
    e.abort_confirmations();
    assert_eq!(e.entry_state(0), FixState::Skipped);
    assert_eq!(e.next_action(), FixAction::Done);
    assert_eq!(e.entry_state(1), FixState::Collected);
}

#[test]
fn every_probe_accounted_for() {
    // Five outcomes in, five accounted for: three retained, two error lines.
    let mut e = Engine::new(false);
    let mut error_lines = 0;
    let _ = e.collect_ok(0, report("A", false));
    let _ = e.collect_err(&ProbeError::new("x".to_string()));
    error_lines += 1;
    let _ = e.collect_ok(2, report("B", false));
    let _ = e.collect_err(&ProbeError::new("y".to_string()));
    error_lines += 1;
    let _ = e.collect_ok(4, report("C", true));
    assert_eq!(e.run_len() + error_lines, 5);
}
