use investigator::context::{
    cleanup, failed_dir_add, get_data_dir, init, proc_dir, proc_dir_archive_set_callback,
    proc_dir_at, set_proc_dir, startup_next, CleanupPlan, FatalError, ProcDir, RunDir, SetError,
    StartupStep,
};
use investigator::entry::EntryKind;
use investigator::lock::LockProbe;
use investigator::stamp::{run_dir_name, Stamp};
use investigator::triage::{move_to_failed_dir, ReportProbe, Sibling};
use std::path::PathBuf;

fn noon() -> Stamp {
    Stamp { year: 2024, month: 5, day: 17, hour: 12, minute: 0, second: 0 }
}

#[test]
fn a_new_context_has_no_run_directory() {
    let ctx = init(PathBuf::from("/data"));
    assert_eq!(get_data_dir(&ctx), &PathBuf::from("/data"));
    assert_eq!(ctx.get_data_dir(), &PathBuf::from("/data"));
    assert!(matches!(ctx.current_run_dir(), RunDir::Unset));
    assert!(ctx.added_failed_dirs().is_empty());
    assert!(!ctx.has_archive_callback());
}

#[test]
fn the_run_directory_can_be_set_once() {
    let mut ctx = init(PathBuf::from("/data"));
    assert_eq!(set_proc_dir(&mut ctx, PathBuf::from("/tmp/run")), Ok(()));
    match ctx.current_run_dir() {
        RunDir::Explicit(path) => assert_eq!(path, &PathBuf::from("/tmp/run")),
        other => panic!("unexpected run directory {:?}", other),
    }
    assert_eq!(
        set_proc_dir(&mut ctx, PathBuf::from("/tmp/other")),
        Err(SetError::AlreadyInitialized)
    );
    match ctx.current_run_dir() {
        RunDir::Explicit(path) => assert_eq!(path, &PathBuf::from("/tmp/run")),
        other => panic!("unexpected run directory {:?}", other),
    }
}

#[test]
fn the_run_directory_cannot_be_set_after_it_was_asked_for() {
    let mut ctx = init(PathBuf::from("/data"));
    assert_eq!(proc_dir_at(&mut ctx, &noon()), Ok(ProcDir::Fresh(noon())));
    assert_eq!(
        set_proc_dir(&mut ctx, PathBuf::from("/tmp/run")),
        Err(SetError::AlreadyInitialized)
    );
    assert!(matches!(ctx.current_run_dir(), RunDir::Named(_)));
}

#[test]
fn the_run_directory_is_named_after_the_time_of_the_first_call() {
    let mut ctx = init(PathBuf::from("/data"));
    assert_eq!(proc_dir_at(&mut ctx, &noon()), Ok(ProcDir::Fresh(noon())));
    match ctx.current_run_dir() {
        RunDir::Named(name) => assert_eq!(name, b"2024-05-17_12_00_00"),
        other => panic!("unexpected run directory {:?}", other),
    }
    let later = Stamp { second: 1, ..noon() };
    assert_eq!(proc_dir_at(&mut ctx, &later), Ok(ProcDir::Existing));
    match ctx.current_run_dir() {
        RunDir::Named(name) => assert_eq!(name, b"2024-05-17_12_00_00"),
        other => panic!("unexpected run directory {:?}", other),
    }
}

#[test]
fn a_set_run_directory_is_kept_when_asked_for() {
    let mut ctx = init(PathBuf::from("/data"));
    set_proc_dir(&mut ctx, PathBuf::from("/tmp/run")).unwrap();
    assert_eq!(proc_dir_at(&mut ctx, &noon()), Ok(ProcDir::Existing));
    assert_eq!(proc_dir(&mut ctx), Ok(ProcDir::Existing));
    assert!(matches!(ctx.current_run_dir(), RunDir::Explicit(_)));
}

#[test]
fn a_time_that_does_not_exist_names_no_run() {
    let mut ctx = init(PathBuf::from("/data"));
    let never = Stamp { month: 2, day: 30, ..noon() };
    assert_eq!(proc_dir_at(&mut ctx, &never), Err(never));
    assert!(matches!(ctx.current_run_dir(), RunDir::Unset));
}

#[test]
fn the_run_directory_is_named_after_the_clock() {
    let mut ctx = init(PathBuf::from("/data"));
    let stamp = match proc_dir(&mut ctx) {
        Ok(ProcDir::Fresh(stamp)) => stamp,
        other => panic!("unexpected answer {:?}", other),
    };
    let first = match ctx.current_run_dir() {
        RunDir::Named(name) => name.clone(),
        other => panic!("unexpected run directory {:?}", other),
    };
    assert_eq!(Some(first.clone()), run_dir_name(&stamp));
    assert_eq!(first.len(), 19);
    assert_eq!(proc_dir(&mut ctx), Ok(ProcDir::Existing));
    match ctx.current_run_dir() {
        RunDir::Named(name) => assert_eq!(name, &first),
        other => panic!("unexpected run directory {:?}", other),
    }
}

#[test]
fn start_up_goes_step_by_step() {
    assert_eq!(startup_next(StartupStep::CreateDir, true), Ok(StartupStep::Lock));
    assert_eq!(startup_next(StartupStep::Lock, true), Ok(StartupStep::Triage));
    assert_eq!(startup_next(StartupStep::Triage, true), Ok(StartupStep::Prune));
    assert_eq!(startup_next(StartupStep::Prune, true), Ok(StartupStep::Ready));
    assert_eq!(startup_next(StartupStep::Ready, true), Ok(StartupStep::Ready));
}

#[test]
fn start_up_fails_for_good_before_pruning() {
    assert_eq!(
        startup_next(StartupStep::CreateDir, false),
        Err(FatalError::CannotCreateDirectory)
    );
    assert_eq!(startup_next(StartupStep::Lock, false), Err(FatalError::CannotLockDirectory));
    assert_eq!(startup_next(StartupStep::Triage, false), Err(FatalError::CannotMoveFailedRuns));
    assert_eq!(startup_next(StartupStep::Prune, false), Ok(StartupStep::Ready));
    assert_eq!(startup_next(StartupStep::Ready, false), Ok(StartupStep::Ready));
}

#[test]
fn a_clean_exit_removes_the_run_directory() {
    let mut ctx = init(PathBuf::from("/data"));
    assert_eq!(proc_dir_at(&mut ctx, &noon()), Ok(ProcDir::Fresh(noon())));
    assert_eq!(cleanup(&ctx), CleanupPlan { remove_run_dir: true, prune_failed_runs: true });
    let mut ctx = init(PathBuf::from("/data"));
    set_proc_dir(&mut ctx, PathBuf::from("/tmp/run")).unwrap();
    assert_eq!(cleanup(&ctx), CleanupPlan { remove_run_dir: true, prune_failed_runs: true });
}

#[test]
fn a_clean_exit_without_a_run_directory_only_prunes() {
    let ctx = init(PathBuf::from("/data"));
    assert_eq!(cleanup(&ctx), CleanupPlan { remove_run_dir: false, prune_failed_runs: true });
}

#[test]
fn a_process_that_starts_in_an_empty_data_directory_leaves_it_empty() {
    let mut ctx = init(PathBuf::from("/data"));
    assert_eq!(proc_dir_at(&mut ctx, &noon()), Ok(ProcDir::Fresh(noon())));
    // The directory of runs holds the new run alone, and this process holds its lock.
    let siblings =
        vec![Sibling { kind: EntryKind::Directory, lock: LockProbe::Held, report: ReportProbe::Absent }];
    let plan = move_to_failed_dir(&siblings);
    assert!(plan.steps.is_empty());
    assert_eq!(plan.stopped_at, None);
    // The clean exit removes the one run directory there is.
    assert!(cleanup(&ctx).remove_run_dir);
}

#[test]
fn directories_of_failed_runs_are_added_in_order() {
    let mut ctx = init(PathBuf::from("/data"));
    failed_dir_add(&mut ctx, PathBuf::from("/var/crash"));
    failed_dir_add(&mut ctx, PathBuf::from("/var/dumps"));
    assert_eq!(
        ctx.added_failed_dirs(),
        &vec![PathBuf::from("/var/crash"), PathBuf::from("/var/dumps")]
    );
    assert_eq!(get_data_dir(&ctx), &PathBuf::from("/data"));
}

#[test]
fn the_archive_callback_is_noted() {
    let mut ctx = init(PathBuf::from("/data"));
    assert!(!ctx.has_archive_callback());
    proc_dir_archive_set_callback(&mut ctx);
    assert!(ctx.has_archive_callback());
}
