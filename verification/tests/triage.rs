use investigator::entry::{EntryKind, IoFailure};
use investigator::lock::LockProbe;
use investigator::triage::{
    move_to_failed_dir, report_probe, triage_entry, triage_listing, triage_result,
    write_report_aborted_unexpected,
    ReportProbe, Sibling, TriageDecision, TriageError, TriageStep, ABORT_REPORT_TEXT,
};

fn dir(lock: LockProbe, report: ReportProbe) -> Sibling {
    Sibling { kind: EntryKind::Directory, lock, report }
}

#[test]
fn a_run_without_a_lock_file_is_moved() {
    for report in [ReportProbe::Present, ReportProbe::Absent, ReportProbe::Unknown] {
        assert_eq!(triage_entry(&dir(LockProbe::Missing, report)), TriageDecision::Relocate);
    }
}

#[test]
fn an_aborted_run_gets_a_report_and_is_moved() {
    assert_eq!(
        triage_entry(&dir(LockProbe::Free, ReportProbe::Absent)),
        TriageDecision::ReportAndRelocate
    );
}

#[test]
fn an_aborted_run_keeps_its_own_report() {
    assert_eq!(
        triage_entry(&dir(LockProbe::Free, ReportProbe::Present)),
        TriageDecision::Relocate
    );
    assert_eq!(
        triage_entry(&dir(LockProbe::Free, ReportProbe::Unknown)),
        TriageDecision::Relocate
    );
    assert!(write_report_aborted_unexpected(ReportProbe::Absent));
    assert!(!write_report_aborted_unexpected(ReportProbe::Present));
    assert!(!write_report_aborted_unexpected(ReportProbe::Unknown));
}

#[test]
fn a_live_run_is_left_alone() {
    for report in [ReportProbe::Present, ReportProbe::Absent, ReportProbe::Unknown] {
        assert_eq!(triage_entry(&dir(LockProbe::Held, report)), TriageDecision::Skip);
    }
}

#[test]
fn what_is_no_directory_is_left_alone() {
    for kind in [EntryKind::File, EntryKind::Other] {
        for lock in [LockProbe::Missing, LockProbe::Free, LockProbe::Held, LockProbe::Unreadable] {
            let entry = Sibling { kind, lock, report: ReportProbe::Absent };
            assert_eq!(triage_entry(&entry), TriageDecision::Skip);
        }
    }
}

#[test]
fn an_unreadable_lock_file_ends_the_scan() {
    assert_eq!(
        triage_entry(&dir(LockProbe::Unreadable, ReportProbe::Absent)),
        TriageDecision::Abort
    );
}

#[test]
fn the_plan_follows_the_listing() {
    let entries = vec![
        dir(LockProbe::Held, ReportProbe::Absent),
        dir(LockProbe::Free, ReportProbe::Absent),
        Sibling { kind: EntryKind::File, lock: LockProbe::Missing, report: ReportProbe::Absent },
        dir(LockProbe::Missing, ReportProbe::Absent),
        dir(LockProbe::Free, ReportProbe::Present),
    ];
    let plan = move_to_failed_dir(&entries);
    assert_eq!(
        plan.steps,
        vec![
            TriageStep::WriteAbortReport(1),
            TriageStep::Relocate(1),
            TriageStep::Relocate(3),
            TriageStep::Relocate(4),
        ]
    );
    assert_eq!(plan.stopped_at, None);
    assert_eq!(triage_result(&plan, None), Ok(()));
}

#[test]
fn the_plan_stops_at_an_unreadable_lock_file() {
    let entries = vec![
        dir(LockProbe::Free, ReportProbe::Absent),
        dir(LockProbe::Unreadable, ReportProbe::Absent),
        dir(LockProbe::Missing, ReportProbe::Absent),
        dir(LockProbe::Unreadable, ReportProbe::Absent),
    ];
    let plan = move_to_failed_dir(&entries);
    assert_eq!(plan.steps, vec![TriageStep::WriteAbortReport(0), TriageStep::Relocate(0)]);
    assert_eq!(plan.stopped_at, Some(1));
    assert_eq!(triage_result(&plan, None), Err(TriageError::LockFile(1)));
}

#[test]
fn an_empty_directory_of_runs_needs_no_step() {
    let plan = move_to_failed_dir(&Vec::new());
    assert!(plan.steps.is_empty());
    assert_eq!(plan.stopped_at, None);
    assert_eq!(triage_result(&plan, None), Ok(()));
}

#[test]
fn a_fresh_process_leaves_its_own_run_alone() {
    let entries = vec![dir(LockProbe::Held, ReportProbe::Absent)];
    let plan = move_to_failed_dir(&entries);
    assert!(plan.steps.is_empty());
    assert_eq!(plan.stopped_at, None);
}

#[test]
fn a_run_that_cannot_be_moved_is_an_error() {
    let entries = vec![
        dir(LockProbe::Free, ReportProbe::Absent),
        dir(LockProbe::Missing, ReportProbe::Absent),
        dir(LockProbe::Unreadable, ReportProbe::Absent),
    ];
    let plan = move_to_failed_dir(&entries);
    assert_eq!(triage_result(&plan, Some(1)), Err(TriageError::Relocation(0)));
    assert_eq!(triage_result(&plan, Some(2)), Err(TriageError::Relocation(1)));
    assert!(plan.steps[1].failure_is_fatal());
    assert!(plan.steps[2].failure_is_fatal());
}

#[test]
fn a_report_that_cannot_be_written_is_put_up_with() {
    let entries = vec![dir(LockProbe::Free, ReportProbe::Absent)];
    let plan = move_to_failed_dir(&entries);
    assert!(!plan.steps[0].failure_is_fatal());
    assert_eq!(triage_result(&plan, Some(0)), Ok(()));
    assert_eq!(triage_result(&plan, Some(7)), Ok(()));
}

#[test]
fn the_abort_report_says_what_happened() {
    assert_eq!(
        ABORT_REPORT_TEXT,
        "The program run was aborted unexpectedly.\nThis behavior is typically caused by a SIGKILL, but it can also be the result of a program crash or immediate termination."
    );
}

#[test]
fn a_listing_that_was_read_is_planned_like_its_entries() {
    let entries = vec![
        dir(LockProbe::Free, ReportProbe::Absent),
        dir(LockProbe::Held, ReportProbe::Absent),
        dir(LockProbe::Unreadable, ReportProbe::Absent),
    ];
    let plan = triage_listing(&Ok(entries)).unwrap();
    assert_eq!(plan.steps, vec![TriageStep::WriteAbortReport(0), TriageStep::Relocate(0)]);
    assert_eq!(plan.stopped_at, Some(2));
    let plan = triage_listing(&Ok(Vec::new())).unwrap();
    assert!(plan.steps.is_empty());
    assert_eq!(plan.stopped_at, None);
}

#[test]
fn a_directory_of_runs_that_is_not_there_needs_no_step() {
    let plan = triage_listing(&Err(IoFailure::NotFound)).unwrap();
    assert!(plan.steps.is_empty());
    assert_eq!(plan.stopped_at, None);
    assert_eq!(triage_result(&plan, None), Ok(()));
}

#[test]
fn a_directory_of_runs_that_cannot_be_listed_ends_triage() {
    match triage_listing(&Err(IoFailure::Other)) {
        Err(failure) => assert_eq!(failure, IoFailure::Other),
        Ok(plan) => panic!("unexpected plan {:?}", plan),
    }
}

#[test]
fn a_report_is_known_only_where_looking_for_it_worked() {
    assert_eq!(report_probe(&Ok(true)), ReportProbe::Present);
    assert_eq!(report_probe(&Ok(false)), ReportProbe::Absent);
    assert_eq!(report_probe(&Err(IoFailure::Other)), ReportProbe::Unknown);
    assert_eq!(report_probe(&Err(IoFailure::NotFound)), ReportProbe::Unknown);
}
