//! The state that one process keeps about its run: where its data lives,
//! which directory belongs to this run, and which directories collect
//! failed runs.
//!
//! One context is made when the process starts and lives as long as it
//! does. Whoever holds it decides who may change it.

use vstd::prelude::*;
use crate::stamp::{current_run_dir_name, run_dir_name, run_dir_name_of, Stamp};

verus! {

/// `std::path::PathBuf`, taken as a value that is carried along and never
/// looked into.
#[verifier::external_type_specification]
#[verifier::external_body]
pub struct ExPathBuf(std::path::PathBuf);

/// The directory of the current run.
#[derive(Debug)]
pub enum RunDir {
    /// None has been chosen yet.
    Unset,
    /// A directory that the application chose itself.
    Explicit(std::path::PathBuf),
    /// The directory of this name below the directory of runs.
    Named(Vec<u8>),
}

/// A directory that collects failed runs.
#[derive(Debug)]
pub enum FailedDir {
    /// The directory of failed runs below the data root.
    Default,
    /// Another directory, added by the application.
    Other(std::path::PathBuf),
}

/// Why the run directory was not set.
#[derive(Clone, Copy, Debug, PartialEq, Eq, Structural)]
pub enum SetError {
    /// The run directory had been chosen before.
    AlreadyInitialized,
}

/// What a call for the run directory found.
#[derive(Clone, Copy, Debug, PartialEq, Eq, Structural)]
pub enum ProcDir {
    /// The run directory had been chosen before; nothing is left to do.
    Existing,
    /// The run directory was named just now, after this local time. It is
    /// yet to be created and locked, and the runs left behind are yet to be
    /// looked through.
    Fresh(Stamp),
}

/// The steps that make a freshly named run directory ready, in order.
#[derive(Clone, Copy, Debug, PartialEq, Eq, Structural)]
pub enum StartupStep {
    /// Create the run directory and the directories above it.
    CreateDir,
    /// Create and lock its lock file.
    Lock,
    /// Move the runs that were left behind to the failed runs.
    Triage,
    /// Delete the oldest failed runs beyond the number that is kept.
    Prune,
    /// Nothing is left to do.
    Ready,
}

/// Why a process cannot go on after start-up.
#[derive(Clone, Copy, Debug, PartialEq, Eq, Structural)]
pub enum FatalError {
    /// The run directory could not be created.
    CannotCreateDirectory,
    /// The run directory could not be locked.
    CannotLockDirectory,
    /// The runs left behind could not be moved.
    CannotMoveFailedRuns,
}

/// What a clean exit has to do.
#[derive(Clone, Copy, Debug, PartialEq, Eq, Structural)]
pub struct CleanupPlan {
    /// Delete the directory of this run with all that is in it, the lock
    /// file included. Where this fails, nothing else is done.
    pub remove_run_dir: bool,
    /// Then delete the oldest failed runs beyond the number that is kept.
    pub prune_failed_runs: bool,
}

/// The state of one process.
#[derive(Debug)]
pub struct RunContext {
    data_dir: std::path::PathBuf,
    run_dir: RunDir,
    added_failed_dirs: Vec<std::path::PathBuf>,
    archive_callback: bool,
}

/// The step after `step`, where `step` succeeded.
pub open spec fn step_after(step: StartupStep) -> StartupStep {
    match step {
        StartupStep::CreateDir => StartupStep::Lock,
        StartupStep::Lock => StartupStep::Triage,
        StartupStep::Triage => StartupStep::Prune,
        StartupStep::Prune => StartupStep::Ready,
        StartupStep::Ready => StartupStep::Ready,
    }
}

/// The error that a failure of `step` ends the process with, if it does. A
/// failure to prune is put up with.
pub open spec fn failure_of(step: StartupStep) -> Option<FatalError> {
    match step {
        StartupStep::CreateDir => Some(FatalError::CannotCreateDirectory),
        StartupStep::Lock => Some(FatalError::CannotLockDirectory),
        StartupStep::Triage => Some(FatalError::CannotMoveFailedRuns),
        StartupStep::Prune => None,
        StartupStep::Ready => None,
    }
}

impl RunDir {
    /// Whether a run directory has been chosen.
    pub open spec fn is_set(&self) -> bool {
        !(self is Unset)
    }
}

impl RunContext {
    /// The data root.
    pub closed spec fn data_dir(&self) -> std::path::PathBuf {
        self.data_dir
    }

    /// The directory of the current run.
    pub closed spec fn run_dir(&self) -> RunDir {
        self.run_dir
    }

    /// The directories that collect failed runs: the default one first,
    /// then those that were added, in the order in which they were added.
    pub closed spec fn failed_dirs(&self) -> Seq<FailedDir> {
        seq![FailedDir::Default] + self.added_failed_dirs@.map_values(
            |path: std::path::PathBuf| FailedDir::Other(path),
        )
    }

    /// Whether a callback is to run before everything is archived.
    pub closed spec fn archive_callback(&self) -> bool {
        self.archive_callback
    }


    /// The data root.
    pub fn get_data_dir(&self) -> (r: &std::path::PathBuf)
        ensures
            *r == self.data_dir(),
    {
        &self.data_dir
    }

    /// The directory of the current run.
    pub fn current_run_dir(&self) -> (r: &RunDir)
        ensures
            *r == self.run_dir(),
    {
        &self.run_dir
    }

    /// The directories that were added to the default directory of failed
    /// runs, in the order in which they were added. The default directory
    /// comes before all of them.
    pub fn added_failed_dirs(&self) -> (r: &Vec<std::path::PathBuf>)
        ensures
            self.failed_dirs().len() == r@.len() + 1,
            self.failed_dirs()[0] == FailedDir::Default,
            forall|i: int| 0 <= i < r@.len() ==> self.failed_dirs()[i + 1] == FailedDir::Other(r@[i]),
    {
        &self.added_failed_dirs
    }

    /// Whether a callback is to run before everything is archived.
    pub fn has_archive_callback(&self) -> (r: bool)
        ensures
            r == self.archive_callback(),
    {
        self.archive_callback
    }
}

/// The state of a process that has just started, with its data below
/// `project_data_dir`: no run directory yet, the default directory of
/// failed runs and no other, no callback.
pub fn init(project_data_dir: std::path::PathBuf) -> (ctx: RunContext)
    ensures
        ctx.data_dir() == project_data_dir,
        ctx.run_dir() is Unset,
        ctx.failed_dirs() == seq![FailedDir::Default],
        !ctx.archive_callback(),
{
    let ctx = RunContext {
        data_dir: project_data_dir,
        run_dir: RunDir::Unset,
        added_failed_dirs: Vec::new(),
        archive_callback: false,
    };
    assert(ctx.failed_dirs() =~= seq![FailedDir::Default]);
    ctx
}

/// The data root of a process.
pub fn get_data_dir(ctx: &RunContext) -> (r: &std::path::PathBuf)
    ensures
        *r == ctx.data_dir(),
{
    ctx.get_data_dir()
}

/// Makes `path` the directory of the current run. This can be done once,
/// and only before the run directory has been asked for.
pub fn set_proc_dir(ctx: &mut RunContext, path: std::path::PathBuf) -> (r: Result<(), SetError>)
    ensures
        final(ctx).data_dir() == old(ctx).data_dir(),
        final(ctx).failed_dirs() == old(ctx).failed_dirs(),
        final(ctx).archive_callback() == old(ctx).archive_callback(),
        old(ctx).run_dir() is Unset ==> r is Ok && final(ctx).run_dir() == RunDir::Explicit(path),
        !(old(ctx).run_dir() is Unset) ==> r == Err::<(), SetError>(SetError::AlreadyInitialized)
            && final(ctx).run_dir() == old(ctx).run_dir(),
{
    match ctx.run_dir {
        RunDir::Unset => {
            ctx.run_dir = RunDir::Explicit(path);
            Ok(())
        },
        _ => Err(SetError::AlreadyInitialized),
    }
}

/// Asks for the run directory at local time `stamp`. A run directory that
/// has been chosen stays; otherwise the run is named after the stamp. A
/// stamp that names no second that exists names no run either: it comes
/// back, and nothing changes.
pub fn proc_dir_at(ctx: &mut RunContext, stamp: &Stamp) -> (r: Result<ProcDir, Stamp>)
    ensures
        final(ctx).data_dir() == old(ctx).data_dir(),
        final(ctx).failed_dirs() == old(ctx).failed_dirs(),
        final(ctx).archive_callback() == old(ctx).archive_callback(),
        old(ctx).run_dir().is_set() ==> r == Ok::<ProcDir, Stamp>(ProcDir::Existing)
            && final(ctx).run_dir() == old(ctx).run_dir(),
        !old(ctx).run_dir().is_set() && stamp.valid() ==> {
            &&& r == Ok::<ProcDir, Stamp>(ProcDir::Fresh(*stamp))
            &&& final(ctx).run_dir() matches RunDir::Named(name)
            &&& name@ == run_dir_name_of(*stamp)
        },
        !old(ctx).run_dir().is_set() && !stamp.valid() ==> r == Err::<ProcDir, Stamp>(*stamp)
            && final(ctx).run_dir() == old(ctx).run_dir(),
{
    match ctx.run_dir {
        RunDir::Unset => {},
        _ => {
            return Ok(ProcDir::Existing);
        },
    }
    match run_dir_name(stamp) {
        Some(name) => {
            ctx.run_dir = RunDir::Named(name);
            Ok(ProcDir::Fresh(*stamp))
        },
        None => Err(*stamp),
    }
}

/// Asks for the run directory. A run directory that has been chosen stays;
/// otherwise the run is named after the local time of the machine. Where
/// the clock hands out a time that does not exist, that time comes back and
/// nothing changes.
pub fn proc_dir(ctx: &mut RunContext) -> (r: Result<ProcDir, Stamp>)
    ensures
        final(ctx).data_dir() == old(ctx).data_dir(),
        final(ctx).failed_dirs() == old(ctx).failed_dirs(),
        final(ctx).archive_callback() == old(ctx).archive_callback(),
        old(ctx).run_dir().is_set() ==> r == Ok::<ProcDir, Stamp>(ProcDir::Existing)
            && final(ctx).run_dir() == old(ctx).run_dir(),
        !old(ctx).run_dir().is_set() ==> match r {
            Ok(found) => {
                &&& found matches ProcDir::Fresh(stamp)
                &&& stamp.valid()
                &&& final(ctx).run_dir() matches RunDir::Named(name)
                &&& name@ == run_dir_name_of(stamp)
            },
            Err(stamp) => !stamp.valid() && final(ctx).run_dir() == old(ctx).run_dir(),
        },
{
    match ctx.run_dir {
        RunDir::Unset => {},
        _ => {
            return Ok(ProcDir::Existing);
        },
    }
    match current_run_dir_name() {
        Ok((stamp, name)) => {
            ctx.run_dir = RunDir::Named(name);
            Ok(ProcDir::Fresh(stamp))
        },
        Err(stamp) => Err(stamp),
    }
}

/// What follows a step of start-up: the next step where it succeeded, and
/// where it failed the error that ends the process, or the next step all the
/// same where the failure is put up with.
pub fn startup_next(step: StartupStep, succeeded: bool) -> (r: Result<StartupStep, FatalError>)
    ensures
        succeeded || failure_of(step) is None ==> r == Ok::<StartupStep, FatalError>(
            step_after(step),
        ),
        !succeeded && failure_of(step) is Some ==> r == Err::<StartupStep, FatalError>(
            failure_of(step).unwrap(),
        ),
{
    if succeeded {
        return Ok(
            match step {
                StartupStep::CreateDir => StartupStep::Lock,
                StartupStep::Lock => StartupStep::Triage,
                StartupStep::Triage => StartupStep::Prune,
                StartupStep::Prune => StartupStep::Ready,
                StartupStep::Ready => StartupStep::Ready,
            },
        );
    }
    match step {
        StartupStep::CreateDir => Err(FatalError::CannotCreateDirectory),
        StartupStep::Lock => Err(FatalError::CannotLockDirectory),
        StartupStep::Triage => Err(FatalError::CannotMoveFailedRuns),
        StartupStep::Prune => Ok(StartupStep::Ready),
        StartupStep::Ready => Ok(StartupStep::Ready),
    }
}

/// What a clean exit has to do: delete the run directory, where one was
/// chosen, and then prune the failed runs.
pub fn cleanup(ctx: &RunContext) -> (plan: CleanupPlan)
    ensures
        plan.remove_run_dir == ctx.run_dir().is_set(),
        plan.prune_failed_runs,
{
    let remove_run_dir = match ctx.run_dir {
        RunDir::Unset => false,
        _ => true,
    };
    CleanupPlan { remove_run_dir, prune_failed_runs: true }
}

/// Adds a directory to those that collect failed runs, behind the ones that
/// are there.
pub fn failed_dir_add(ctx: &mut RunContext, path: std::path::PathBuf)
    ensures
        final(ctx).failed_dirs() == old(ctx).failed_dirs().push(FailedDir::Other(path)),
        final(ctx).data_dir() == old(ctx).data_dir(),
        final(ctx).run_dir() == old(ctx).run_dir(),
        final(ctx).archive_callback() == old(ctx).archive_callback(),
{
    ctx.added_failed_dirs.push(path);
    assert(ctx.failed_dirs() =~= old(ctx).failed_dirs().push(FailedDir::Other(path)));
}

/// Notes that a callback is to run before everything is archived. There can
/// be one callback only.
pub fn proc_dir_archive_set_callback(ctx: &mut RunContext)
    requires
        !old(ctx).archive_callback(),
    ensures
        final(ctx).archive_callback(),
        final(ctx).failed_dirs() == old(ctx).failed_dirs(),
        final(ctx).data_dir() == old(ctx).data_dir(),
        final(ctx).run_dir() == old(ctx).run_dir(),
{
    ctx.archive_callback = true;
}

} // verus!
