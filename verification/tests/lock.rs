use investigator::entry::IoFailure;
use investigator::lock::{
    classify, create_lock_file, lock_probe, LockAttempt, LockError, LockProbe, RunState,
};

#[test]
fn lock_state_tells_the_fate_of_a_run() {
    assert_eq!(classify(LockProbe::Missing), Ok(RunState::Failed));
    assert_eq!(classify(LockProbe::Free), Ok(RunState::Aborted));
    assert_eq!(classify(LockProbe::Held), Ok(RunState::InUse));
    assert_eq!(classify(LockProbe::Unreadable), Err(LockError::Io));
}

#[test]
fn taking_the_lock_succeeds_only_when_locked() {
    assert_eq!(create_lock_file(LockAttempt::Locked), Ok(()));
    assert_eq!(create_lock_file(LockAttempt::CreateFailed), Err(LockError::Io));
    assert_eq!(create_lock_file(LockAttempt::Refused), Err(LockError::Unavailable));
}

#[test]
fn trying_a_lock_file_tells_its_state() {
    assert_eq!(lock_probe(&Ok(true)), LockProbe::Free);
    assert_eq!(lock_probe(&Ok(false)), LockProbe::Held);
    assert_eq!(lock_probe(&Err(IoFailure::NotFound)), LockProbe::Missing);
    assert_eq!(lock_probe(&Err(IoFailure::Other)), LockProbe::Unreadable);
}
