use spacefree::errors::DeleterError;
use spacefree::gate::{affirmative_response, decide_run, plan_run, Gate, GatePhase, RunDecision};
use spacefree::paths::{expand_roots, validate_roots, RootCheck, RootInput, RootState};
use spacefree::pattern::build_globset;
use spacefree::scan::{merge_scan, scan_entries, FileEntry};
use spacefree::sweep::{plan_sweep, summarize_sweep, FileAction, StepResult, SweepMode};

fn entry(path: &str, size: u64) -> FileEntry {
    FileEntry { path: path.to_string(), is_file: true, size: Some(size) }
}

// ========== scanning ==========
#[test]
fn test_scan_counts_and_lists_matches() {
    // Two files and a directory; include *.txt, no floor: a.txt (5 bytes)
    // matches, b.md does not, the directory never does.
    let entries = vec![
        entry("a.txt", 5),
        entry("b.md", 3),
        FileEntry { path: "sub".to_string(), is_file: false, size: None },
    ];
    let (gs, ex) = build_globset(Some("*.txt"), &None).unwrap();
    let r = scan_entries(&entries, &gs, &ex, 0);
    assert_eq!(r.files, 1);
    assert_eq!(r.bytes, 5);
    assert_eq!(r.matched, vec!["a.txt".to_string()]);
}

#[test]
fn test_scan_min_size_monotone() {
    // Raising the floor never increases the matched count.
    let entries = vec![entry("a.txt", 5), entry("b.txt", 3), entry("c.txt", 10)];
    let (gs, ex) = build_globset(Some("*.txt"), &None).unwrap();
    let at0 = scan_entries(&entries, &gs, &ex, 0).files;
    let at4 = scan_entries(&entries, &gs, &ex, 4).files;
    let at6 = scan_entries(&entries, &gs, &ex, 6).files;
    assert_eq!(at0, 3);
    assert_eq!(at4, 2);
    assert_eq!(at6, 1);
    assert!(at4 <= at0 && at6 <= at4);
}

#[test]
fn test_scan_unreadable_metadata_skipped() {
    let entries = vec![
        entry("a.txt", 5),
        FileEntry { path: "ghost.txt".to_string(), is_file: true, size: None },
    ];
    let (gs, ex) = build_globset(Some("*.txt"), &None).unwrap();
    let r = scan_entries(&entries, &gs, &ex, 0);
    assert_eq!(r.files, 1);
    assert_eq!(r.matched, vec!["a.txt".to_string()]);
}

#[test]
fn test_scan_exclude_never_matches() {
    // A file that the exclude pattern matches is neither counted nor
    // listed, although the accepting pattern alone matches it.
    let entries = vec![entry("logs/app.log", 40), entry("logs/secret_audit.log", 60)];
    let (gs, ex) = build_globset(Some("**/*.log"), &Some("**/secret*.log".to_string())).unwrap();
    let r = scan_entries(&entries, &gs, &ex, 0);
    assert_eq!(r.files, 1);
    assert_eq!(r.bytes, 40);
    assert_eq!(r.matched, vec!["logs/app.log".to_string()]);
}

#[test]
fn test_merge_scan_sums_and_concatenates() {
    let e1 = vec![entry("r1/a.txt", 5)];
    let e2 = vec![entry("r2/b.txt", 7), entry("r2/c.txt", 1)];
    let (gs, ex) = build_globset(Some("**/*.txt"), &None).unwrap();
    let r1 = scan_entries(&e1, &gs, &ex, 0);
    let r2 = scan_entries(&e2, &gs, &ex, 0);
    let merged = merge_scan(r1, r2);
    assert_eq!(merged.files, 3);
    assert_eq!(merged.bytes, 13);
    assert_eq!(
        merged.matched,
        vec!["r1/a.txt".to_string(), "r2/b.txt".to_string(), "r2/c.txt".to_string()]
    );
}

// ========== sweeping ==========
#[test]
fn test_plan_sweep_dry_run_keeps_everything() {
    let matched = vec!["a.txt".to_string(), "b.txt".to_string()];
    let plan = plan_sweep(&matched, &SweepMode::DryRun);
    assert_eq!(plan.len(), 2);
    assert!(plan.iter().all(|s| s.action == FileAction::Keep));
}

#[test]
fn test_plan_sweep_modes() {
    let matched = vec!["a.txt".to_string()];
    assert_eq!(plan_sweep(&matched, &SweepMode::Trash)[0].action, FileAction::MoveToTrash);
    assert_eq!(plan_sweep(&matched, &SweepMode::Permanent)[0].action, FileAction::Remove);
}

#[test]
fn test_summarize_sweep_counts() {
    let results = vec![
        StepResult { path: "a".to_string(), ok: true },
        StepResult { path: "b".to_string(), ok: false },
        StepResult { path: "c".to_string(), ok: true },
    ];
    let o = summarize_sweep(&results);
    assert_eq!(o.deleted, 2);
    assert_eq!(o.failed, 1);
    assert_eq!(o.failed_paths, vec!["b".to_string()]);
}

#[test]
fn test_single_failure_is_isolated() {
    // One locked file among many: all others still count as deleted and
    // the failed list holds exactly the locked one.
    let mut results: Vec<StepResult> = Vec::new();
    for i in 0..10 {
        results.push(StepResult { path: format!("f{i}"), ok: i != 4 });
    }
    let o = summarize_sweep(&results);
    assert_eq!(o.deleted, 9);
    assert_eq!(o.failed, 1);
    assert_eq!(o.failed_paths, vec!["f4".to_string()]);
}

// ========== the confirmation gate ==========
#[test]
fn test_affirmative_tokens() {
    assert!(affirmative_response("yes"));
    assert!(affirmative_response("YES"));
    assert!(affirmative_response("Yes"));
    assert!(affirmative_response("y"));
    assert!(affirmative_response("Y"));
    assert!(affirmative_response("  yes \n"));
    assert!(!affirmative_response("no"));
    assert!(!affirmative_response(""));
    assert!(!affirmative_response("yess"));
    assert!(!affirmative_response("y e s"));
}

#[test]
fn test_decide_run_nothing_matched() {
    assert_eq!(decide_run(0, false, false, None), RunDecision::NothingMatched);
    assert_eq!(decide_run(0, true, true, Some("yes")), RunDecision::NothingMatched);
}

#[test]
fn test_decide_run_consent() {
    assert_eq!(decide_run(3, false, true, None), RunDecision::Sweep);
    assert_eq!(decide_run(3, true, false, None), RunDecision::Sweep);
    assert_eq!(decide_run(3, false, false, Some("yes")), RunDecision::Sweep);
    assert_eq!(decide_run(3, false, false, Some("no")), RunDecision::Cancelled);
    assert_eq!(decide_run(3, false, false, None), RunDecision::Cancelled);
}

#[test]
fn test_declined_gate_plans_nothing() {
    // A declined response cancels the run and the run executes no step,
    // so nothing on disk can change.
    let matched = vec!["a.txt".to_string(), "b.txt".to_string()];
    let d = decide_run(2, false, false, Some("n"));
    assert_eq!(d, RunDecision::Cancelled);
    let plan = plan_run(&d, &matched, &SweepMode::Permanent);
    assert!(plan.is_empty());
}

#[test]
fn test_gate_walkthrough() {
    let mut gate = Gate::new();
    assert_eq!(gate.phase, GatePhase::Idle);
    gate.record_scan(2, 100);
    assert_eq!(gate.phase, GatePhase::Scanned);
    gate.resolve(false, false, Some("yes"));
    assert_eq!(gate.phase, GatePhase::Confirmed);
    gate.begin_sweep();
    assert_eq!(gate.phase, GatePhase::Sweeping);
    gate.finish();
    assert_eq!(gate.phase, GatePhase::Done);
}

#[test]
fn test_gate_declined_and_empty_scan() {
    let mut gate = Gate::new();
    gate.record_scan(0, 0);
    assert_eq!(gate.phase, GatePhase::Done); // nothing matched: no prompt

    let mut gate = Gate::new();
    gate.record_scan(5, 10);
    gate.resolve(false, false, Some("nope"));
    assert_eq!(gate.phase, GatePhase::Declined);
    gate.finish();
    assert_eq!(gate.phase, GatePhase::Done);
}

// ========== root collection ==========
#[test]
fn test_expand_roots_dedup() {
    // The same directory twice, directly and through a list file, stays a
    // single root.
    let inputs = vec![
        RootInput::Directory { path: "J12".to_string() },
        RootInput::Directory { path: "J12".to_string() },
        RootInput::ListFile { path: "jobs.txt".to_string(), content: "J12 J13".to_string() },
    ];
    let roots = expand_roots(&inputs).unwrap();
    assert_eq!(roots, vec!["J12".to_string(), "J13".to_string()]);
}

#[test]
fn test_expand_roots_rejects_other() {
    let inputs = vec![
        RootInput::Directory { path: "J12".to_string() },
        RootInput::Other { path: "/dev/null".to_string() },
    ];
    let r = expand_roots(&inputs);
    assert!(matches!(r, Err(DeleterError::JobDir(p)) if p == "/dev/null"));
}

#[test]
fn test_expand_roots_unreadable() {
    let inputs = vec![RootInput::Unreadable {
        path: "gone".to_string(),
        error: "no such file".to_string(),
    }];
    let r = expand_roots(&inputs);
    assert!(matches!(r, Err(DeleterError::Io(m)) if m == "no such file"));
}

#[test]
fn test_expand_roots_empty() {
    let inputs = vec![RootInput::ListFile {
        path: "empty.txt".to_string(),
        content: "".to_string(),
    }];
    let r = expand_roots(&inputs);
    assert!(matches!(r, Err(DeleterError::NoValidPaths)));
}

#[test]
fn test_validate_roots() {
    let checks = vec![
        RootCheck { path: "J12".to_string(), state: RootState::IsDirectory },
        RootCheck { path: "J13".to_string(), state: RootState::IsDirectory },
    ];
    assert!(validate_roots(&checks).is_ok());

    let checks = vec![
        RootCheck { path: "J12".to_string(), state: RootState::IsDirectory },
        RootCheck { path: "note.txt".to_string(), state: RootState::NotDirectory },
    ];
    let r = validate_roots(&checks);
    assert!(matches!(r, Err(DeleterError::JobDir(p)) if p == "note.txt"));
}

// ========== end to end ==========
#[test]
fn test_end_to_end_permanent_sweep() {
    // A directory holding a.txt (5 bytes) and b.md (3 bytes); accepting
    // pattern *.txt, no size floor, confirmation bypassed, permanent
    // mode: the scan reports one file of five bytes, and the executed
    // sweep removes exactly a.txt.
    let entries = vec![entry("a.txt", 5), entry("b.md", 3)];
    let (gs, ex) = build_globset(Some("*.txt"), &None).unwrap();
    let scan = scan_entries(&entries, &gs, &ex, 0);
    assert_eq!(scan.files, 1);
    assert_eq!(scan.bytes, 5);

    let d = decide_run(scan.files, false, true, None);
    assert_eq!(d, RunDecision::Sweep);
    let plan = plan_run(&d, &scan.matched, &SweepMode::Permanent);
    assert_eq!(plan.len(), 1);
    assert_eq!(plan[0].path, "a.txt");
    assert_eq!(plan[0].action, FileAction::Remove);

    // The runner removes a.txt and reports back; b.md was never planned.
    let results = vec![StepResult { path: "a.txt".to_string(), ok: true }];
    let o = summarize_sweep(&results);
    assert_eq!(o.deleted, 1);
    assert_eq!(o.failed, 0);
    assert!(o.failed_paths.is_empty());
}
