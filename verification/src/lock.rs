//! The lock file of a run directory and what its state says about the run.
//!
//! A run holds an exclusive advisory lock on a marker file inside its
//! directory for as long as it lives. A clean exit releases the lock and
//! deletes the file. A killed process does neither: the operating system
//! drops the lock, but the file stays. A later process reads the fate of a
//! run from what it finds.

use vstd::prelude::*;
use crate::entry::IoFailure;

verus! {

/// What was found when the lock file of a run directory was tried.
#[derive(Clone, Copy, Debug, PartialEq, Eq, Structural)]
pub enum LockProbe {
    /// There is no lock file.
    Missing,
    /// The lock file could not be opened, for a reason other than absence.
    Unreadable,
    /// The lock file is there and nobody holds it: it could be locked.
    Free,
    /// The lock file is there and somebody else holds the lock.
    Held,
}

/// What became of the run that a directory belongs to.
#[derive(Clone, Copy, Debug, PartialEq, Eq, Structural)]
pub enum RunState {
    /// No lock file: the run ended with an error of its own, or has been
    /// torn down already.
    Failed,
    /// A lock file that nobody holds: the run was killed or crashed.
    Aborted,
    /// A lock file that is held: the run is alive and owns the directory.
    InUse,
}

/// Why a lock could not be taken.
#[derive(Clone, Copy, Debug, PartialEq, Eq, Structural)]
pub enum LockError {
    /// The lock file could not be created or opened.
    Io,
    /// Another holder has the lock.
    Unavailable,
}

/// What happened when a process tried to create and lock its lock file.
#[derive(Clone, Copy, Debug, PartialEq, Eq, Structural)]
pub enum LockAttempt {
    /// The file could not be created.
    CreateFailed,
    /// The file is there, but the lock was refused.
    Refused,
    /// The file is there and locked by this process.
    Locked,
}

/// The state of a run as the presence of its lock file and the possibility
/// to lock it tell it. Whether the lock can be taken matters only where the
/// file exists.
pub open spec fn interpret(lock_file_exists: bool, acquirable: bool) -> RunState {
    if !lock_file_exists {
        RunState::Failed
    } else if acquirable {
        RunState::Aborted
    } else {
        RunState::InUse
    }
}

/// The state of the run behind a probe, where the probe could tell.
pub open spec fn run_state_of(probe: LockProbe) -> Option<RunState> {
    match probe {
        LockProbe::Missing => Some(interpret(false, false)),
        LockProbe::Free => Some(interpret(true, true)),
        LockProbe::Held => Some(interpret(true, false)),
        LockProbe::Unreadable => None,
    }
}

/// A lock file on disk, for reasoning about what processes do to it: whether
/// the file is there, and which process, if any, holds the lock on it.
pub struct LockFile {
    /// The file exists.
    pub exists: bool,
    /// The process that holds the lock.
    pub holder: Option<nat>,
}

/// A process tries to take the lock without waiting: it creates the file if
/// need be and gets the lock unless somebody holds it. A refused attempt
/// changes nothing.
pub open spec fn acquire(lock: LockFile, process: nat) -> (LockFile, Result<(), LockError>) {
    if lock.holder is Some {
        (lock, Err(LockError::Unavailable))
    } else {
        (LockFile { exists: true, holder: Some(process) }, Ok(()))
    }
}

/// The holder lets go on a clean exit: the lock is released and the file
/// deleted. Anybody else changes nothing.
pub open spec fn release(lock: LockFile, process: nat) -> LockFile {
    if lock.holder == Some(process) {
        LockFile { exists: false, holder: None }
    } else {
        lock
    }
}

/// The holder is killed: the lock is gone with the process, the file stays.
pub open spec fn kill(lock: LockFile, process: nat) -> LockFile {
    if lock.holder == Some(process) {
        LockFile { exists: lock.exists, holder: None }
    } else {
        lock
    }
}

/// What another process finds when it tries the lock file.
pub open spec fn probe(lock: LockFile) -> LockProbe {
    if !lock.exists {
        LockProbe::Missing
    } else if lock.holder is Some {
        LockProbe::Held
    } else {
        LockProbe::Free
    }
}

/// What trying a lock file tells: a file that is not there is missing, one
/// that could not be opened for another reason is unreadable, and one that
/// was opened is free where it could be locked and held where it could not.
pub open spec fn probe_of(tried: Result<bool, IoFailure>) -> LockProbe {
    match tried {
        Ok(true) => LockProbe::Free,
        Ok(false) => LockProbe::Held,
        Err(IoFailure::NotFound) => LockProbe::Missing,
        Err(IoFailure::Other) => LockProbe::Unreadable,
    }
}

/// What was found when a lock file was tried: `tried` is the failure to
/// open the file, or else whether the lock on it could be taken.
pub fn lock_probe(tried: &Result<bool, IoFailure>) -> (r: LockProbe)
    ensures
        r == probe_of(*tried),
{
    match tried {
        Ok(true) => LockProbe::Free,
        Ok(false) => LockProbe::Held,
        Err(IoFailure::NotFound) => LockProbe::Missing,
        Err(IoFailure::Other) => LockProbe::Unreadable,
    }
}

/// The state of the run behind a probe; a lock file that could not be read
/// is a failure of its own.
pub fn classify(probe: LockProbe) -> (r: Result<RunState, LockError>)
    ensures
        run_state_of(probe) matches Some(state) ==> r == Ok::<RunState, LockError>(state),
        run_state_of(probe) is None ==> r == Err::<RunState, LockError>(LockError::Io),
{
    match probe {
        LockProbe::Missing => Ok(RunState::Failed),
        LockProbe::Free => Ok(RunState::Aborted),
        LockProbe::Held => Ok(RunState::InUse),
        LockProbe::Unreadable => Err(LockError::Io),
    }
}

/// The result of taking the lock of the own run directory: success when the
/// file was created and locked, and otherwise the step that failed.
pub fn create_lock_file(attempt: LockAttempt) -> (r: Result<(), LockError>)
    ensures
        r.is_ok() <==> attempt == LockAttempt::Locked,
        attempt == LockAttempt::CreateFailed ==> r == Err::<(), LockError>(LockError::Io),
        attempt == LockAttempt::Refused ==> r == Err::<(), LockError>(LockError::Unavailable),
{
    match attempt {
        LockAttempt::Locked => Ok(()),
        LockAttempt::CreateFailed => Err(LockError::Io),
        LockAttempt::Refused => Err(LockError::Unavailable),
    }
}

/// Of two processes that try for a lock nobody holds, the first gets it and
/// the second is refused; the refusal leaves the lock with the first, and
/// the second finds the run in use.
pub proof fn lemma_one_winner(lock: LockFile, first: nat, second: nat)
    requires
        lock.holder is None,
        first != second,
    ensures
        acquire(lock, first).1 is Ok,
        acquire(acquire(lock, first).0, second).1 == Err::<(), LockError>(LockError::Unavailable),
        acquire(acquire(lock, first).0, second).0 == acquire(lock, first).0,
        acquire(lock, first).0.holder == Some(first),
        run_state_of(probe(acquire(lock, first).0)) == Some(RunState::InUse),
{
}

/// After a clean exit the lock file is gone, and the lock can be taken anew.
pub proof fn lemma_release_removes_lock(lock: LockFile, process: nat)
    requires
        lock.holder is None,
    ensures
        !release(acquire(lock, process).0, process).exists,
        probe(release(acquire(lock, process).0, process)) == LockProbe::Missing,
{
}

/// After a kill the lock file is still there and free: the run shows as
/// aborted to whoever looks next.
pub proof fn lemma_kill_leaves_lock(lock: LockFile, process: nat)
    requires
        lock.holder is None,
    ensures
        kill(acquire(lock, process).0, process).exists,
        probe(kill(acquire(lock, process).0, process)) == LockProbe::Free,
        run_state_of(probe(kill(acquire(lock, process).0, process))) == Some(RunState::Aborted),
{
}

} // verus!
