use bageri::hooks::{hook_label, truncate_line, HookOutcome, HookOutput, HookSequence};

#[test]
fn blank_lines_are_not_recorded() {
    let mut o = HookOutput::new();
    assert!(!o.record("   ".to_string()));
    assert!(o.record("x".to_string()));
    assert_eq!(o.all, vec!["x".to_string()]);
}

#[test]
fn recent_lines_keep_last_five() {
    let mut o = HookOutput::new();
    for i in 1..=7 {
        o.record(format!("line {i}"));
    }
    assert_eq!(o.all.len(), 7);
    let want: Vec<String> = (3..=7).map(|i| format!("line {i}")).collect();
    assert_eq!(o.recent, want);
}

#[test]
fn long_lines_are_cut_for_display() {
    let long = "a".repeat(81);
    assert_eq!(truncate_line(&long), format!(" {}...", "a".repeat(77)));
    let edge = "b".repeat(80);
    assert_eq!(truncate_line(&edge), format!(" {}", edge));
}

#[test]
fn display_text_lists_recent_lines() {
    let mut o = HookOutput::new();
    assert_eq!(o.display_text("hook 1/2"), "Running hook 1/2...");
    o.record("one".to_string());
    o.record("two".to_string());
    assert_eq!(o.display_text("hook 1/2"), "Running hook 1/2:\n one\n two");
}

#[test]
fn failure_report_holds_all_lines() {
    let mut o = HookOutput::new();
    assert_eq!(o.failure_report(), None);
    for i in 0..6 {
        o.record(format!("l{i}"));
    }
    assert_eq!(o.failure_report(), Some("Hook output:\nl0\nl1\nl2\nl3\nl4\nl5".to_string()));
}

#[test]
fn first_failure_stops_the_sequence() {
    // hooks [A, B]; A fails
    let mut s = HookSequence::new(2);
    assert_eq!(s.next(), Some(0));
    s.finish(false);
    assert_eq!(s.next(), None);
    assert_eq!(s.outcome(), HookOutcome::Failed(0));
}

#[test]
fn hooks_run_in_order_when_all_succeed() {
    let mut s = HookSequence::new(3);
    let mut started = Vec::new();
    while let Some(i) = s.next() {
        started.push(i);
        assert_eq!(s.outcome(), HookOutcome::Running);
        s.finish(true);
    }
    assert_eq!(started, vec![0, 1, 2]);
    assert_eq!(s.outcome(), HookOutcome::Succeeded);
}

#[test]
fn no_hooks_is_success() {
    let s = HookSequence::new(0);
    assert_eq!(s.next(), None);
    assert_eq!(s.outcome(), HookOutcome::Succeeded);
}

#[test]
fn hook_labels_are_numbered_from_one() {
    assert_eq!(hook_label("Running hook ", 0, 2, ": npm ci"), "Running hook 1/2: npm ci");
    assert_eq!(hook_label("Hook ", 9, 12, " failed"), "Hook 10/12 failed");
}
