//! What triage and a clean exit do to the directories on disk, for
//! reasoning about them.
//!
//! The disk is taken as two directories of run directories, the runs and
//! the failed runs, each run directory with its lock file and its report.
//! Carrying out a step of a triage plan changes the disk; the laws at the
//! end say where every run ends up.

use vstd::prelude::*;
use crate::entry::EntryKind;
use crate::lock::{acquire, kill, probe, LockFile, LockProbe};
use crate::triage::{
    decision,
    entry_steps,
    scanned,
    steps_upto,
    triage_steps,
    ReportProbe,
    Sibling,
    TriageDecision,
    TriageStep,
    ABORT_REPORT_TEXT,
};

verus! {

/// What a run directory holds.
pub struct RunFiles {
    /// Its lock file.
    pub lock: LockFile,
    /// The text of its report, if it has one.
    pub report: Option<Seq<char>>,
}

/// The run directories on disk, by name.
pub struct Disk {
    /// Those in the directory of runs.
    pub runs: Map<Seq<u8>, RunFiles>,
    /// Those in the default directory of failed runs.
    pub failed: Map<Seq<u8>, RunFiles>,
}

/// A disk without any run.
pub open spec fn empty_disk() -> Disk {
    Disk { runs: Map::empty(), failed: Map::empty() }
}

/// A process starts a run: it creates the run directory and takes the lock.
pub open spec fn start_run(disk: Disk, name: Seq<u8>, process: nat) -> Disk {
    Disk {
        runs: disk.runs.insert(
            name,
            RunFiles {
                lock: acquire(LockFile { exists: false, holder: None }, process).0,
                report: None,
            },
        ),
        failed: disk.failed,
    }
}

/// The process of a run is killed: the run directory stays as it is, but
/// nobody holds its lock any more.
pub open spec fn kill_run(disk: Disk, name: Seq<u8>, process: nat) -> Disk {
    Disk {
        runs: disk.runs.insert(
            name,
            RunFiles { lock: kill(disk.runs[name].lock, process), report: disk.runs[name].report },
        ),
        failed: disk.failed,
    }
}

/// A run ends with a clean exit: its directory is deleted with all that is
/// in it.
pub open spec fn clean_exit(disk: Disk, name: Seq<u8>) -> Disk {
    Disk { runs: disk.runs.remove(name), failed: disk.failed }
}

/// What triage finds out about a run directory.
pub open spec fn observe(files: RunFiles) -> Sibling {
    Sibling {
        kind: EntryKind::Directory,
        lock: probe(files.lock),
        report: if files.report is Some {
            ReportProbe::Present
        } else {
            ReportProbe::Absent
        },
    }
}

/// What triage finds out about the runs with the given names, in the order
/// in which they are listed.
pub open spec fn listing_of(disk: Disk, names: Seq<Seq<u8>>) -> Seq<Sibling> {
    Seq::new(names.len(), |i: int| observe(disk.runs[names[i]]))
}

/// The disk after one step of a triage plan was carried out. Writing the
/// report of an aborted run replaces whatever report is there. Moving a run
/// takes it from the runs to the failed runs under its own name; where
/// that name is taken among the failed runs the step fails, and the disk
/// stays as it is.
pub open spec fn step_effect(disk: Disk, names: Seq<Seq<u8>>, step: TriageStep) -> Disk {
    match step {
        TriageStep::WriteAbortReport(i) => Disk {
            runs: disk.runs.insert(
                names[i as int],
                RunFiles { lock: disk.runs[names[i as int]].lock, report: Some(ABORT_REPORT_TEXT@) },
            ),
            failed: disk.failed,
        },
        TriageStep::Relocate(i) => if disk.failed.contains_key(names[i as int]) {
            disk
        } else {
            Disk {
                runs: disk.runs.remove(names[i as int]),
                failed: disk.failed.insert(names[i as int], disk.runs[names[i as int]]),
            }
        },
    }
}

/// The disk after the steps were carried out one after the other.
pub open spec fn steps_effect(disk: Disk, names: Seq<Seq<u8>>, steps: Seq<TriageStep>) -> Disk
    decreases steps.len(),
{
    if steps.len() == 0 {
        disk
    } else {
        step_effect(steps_effect(disk, names, steps.drop_last()), names, steps.last())
    }
}

/// The disk after a triage of the runs with the given names.
pub open spec fn triage_effect(disk: Disk, names: Seq<Seq<u8>>) -> Disk {
    steps_effect(disk, names, triage_steps(listing_of(disk, names)))
}

/// A run that triage takes away: one whose lock nobody holds.
pub open spec fn leaves(files: RunFiles) -> bool {
    probe(files.lock) != LockProbe::Held
}

/// A run directory as it arrives among the failed runs: as it was, and with
/// the report of an aborted run where the run was aborted and had none.
pub open spec fn settled(files: RunFiles) -> RunFiles {
    if probe(files.lock) == LockProbe::Free && files.report is None {
        RunFiles { lock: files.lock, report: Some(ABORT_REPORT_TEXT@) }
    } else {
        files
    }
}

/// The names are those of runs on the disk, each listed once, and none of
/// them is taken among the failed runs.
pub open spec fn lists_runs(disk: Disk, names: Seq<Seq<u8>>) -> bool {
    &&& names.len() <= usize::MAX
    &&& forall|i: int, j: int| 0 <= i < j < names.len() ==> names[i] != names[j]
    &&& forall|i: int| 0 <= i < names.len() ==> disk.runs.contains_key(#[trigger] names[i])
    &&& forall|i: int| 0 <= i < names.len() ==> !disk.failed.contains_key(#[trigger] names[i])
}

spec fn handled(names: Seq<Seq<u8>>, k: int, key: Seq<u8>) -> bool {
    exists|i: int| 0 <= i < k && #[trigger] names[i] == key
}

spec fn agrees_at(disk: Disk, names: Seq<Seq<u8>>, k: int, now: Disk, key: Seq<u8>) -> bool {
    if handled(names, k, key) && leaves(disk.runs[key]) {
        &&& !now.runs.contains_key(key)
        &&& now.failed.contains_key(key)
        &&& now.failed[key] == settled(disk.runs[key])
    } else {
        &&& now.runs.contains_key(key) == disk.runs.contains_key(key)
        &&& now.runs[key] == disk.runs[key]
        &&& now.failed.contains_key(key) == disk.failed.contains_key(key)
        &&& now.failed[key] == disk.failed[key]
    }
}

spec fn agrees(disk: Disk, names: Seq<Seq<u8>>, k: int, now: Disk) -> bool {
    forall|key: Seq<u8>| #[trigger] agrees_at(disk, names, k, now, key)
}

proof fn lemma_scan_is_complete(disk: Disk, names: Seq<Seq<u8>>, upto: int)
    requires
        0 <= upto <= names.len(),
    ensures
        scanned(listing_of(disk, names), upto) == upto,
    decreases upto,
{
    if upto > 0 {
        lemma_scan_is_complete(disk, names, upto - 1);
    }
}

proof fn lemma_effect_agrees(disk: Disk, names: Seq<Seq<u8>>, k: int)
    requires
        lists_runs(disk, names),
        0 <= k <= names.len(),
    ensures
        agrees(disk, names, k, steps_effect(disk, names, steps_upto(listing_of(disk, names), k))),
    decreases k,
{
    let entries = listing_of(disk, names);
    let now = steps_effect(disk, names, steps_upto(entries, k));
    if k == 0 {
        assert forall|key: Seq<u8>| #[trigger] agrees_at(disk, names, k, now, key) by {}
    } else {
        lemma_effect_agrees(disk, names, k - 1);
        let before = steps_upto(entries, k - 1);
        let prev = steps_effect(disk, names, before);
        let name = names[k - 1];
        let files = disk.runs[name];
        let own = entry_steps(entries[k - 1], k - 1);
        assert(agrees_at(disk, names, k - 1, prev, name));
        assert(!handled(names, k - 1, name));
        assert(((k - 1) as usize) as int == k - 1);
        let relocate = TriageStep::Relocate((k - 1) as usize);
        let write = TriageStep::WriteAbortReport((k - 1) as usize);
        assert(steps_upto(entries, k) == before + own);
        assert(entries[k - 1] == observe(files));
        match decision(entries[k - 1]) {
            TriageDecision::Skip => {
                assert(before + own =~= before);
                assert(now == prev);
                assert(!leaves(files));
            },
            TriageDecision::Abort => {
                assert(false);
            },
            TriageDecision::Relocate => {
                assert(own =~= seq![relocate]);
                assert((before + own).drop_last() =~= before);
                assert((before + own).last() == relocate);
                assert(now == step_effect(prev, names, relocate));
                assert(leaves(files) && settled(files) == files);
            },
            TriageDecision::ReportAndRelocate => {
                assert(own =~= seq![write, relocate]);
                let first = seq![write];
                assert((before + own).drop_last() =~= before + first);
                assert((before + own).last() == relocate);
                assert((before + first).drop_last() =~= before);
                assert((before + first).last() == write);
                let mid = step_effect(prev, names, write);
                assert(steps_effect(disk, names, before + first) == mid);
                assert(now == step_effect(mid, names, relocate));
                assert(leaves(files));
                assert(settled(files) == RunFiles {
                    lock: files.lock,
                    report: Some(ABORT_REPORT_TEXT@),
                });
                assert(mid.runs[name] == settled(files));
            },
        }
        assert forall|key: Seq<u8>| #[trigger] agrees_at(disk, names, k, now, key) by {
            assert(agrees_at(disk, names, k - 1, prev, key));
            if key == name {
                assert(handled(names, k, key));
            } else {
                if handled(names, k, key) {
                    let i = choose|i: int| 0 <= i < k && #[trigger] names[i] == key;
                    assert(0 <= i < k - 1 && names[i] == key);
                    assert(handled(names, k - 1, key));
                }
                if handled(names, k - 1, key) {
                    let i = choose|i: int| 0 <= i < k - 1 && #[trigger] names[i] == key;
                    assert(0 <= i < k && names[i] == key);
                    assert(handled(names, k, key));
                }
                assert(now.runs.contains_key(key) == prev.runs.contains_key(key));
                assert(now.runs[key] == prev.runs[key]);
                assert(now.failed.contains_key(key) == prev.failed.contains_key(key));
                assert(now.failed[key] == prev.failed[key]);
            }
        }
    }
}

/// Where every run ends up after triage. A run whose lock is held stays
/// where it is, untouched. Every other run that was listed is gone from the
/// runs and stands among the failed runs, as it was and with the report of
/// an aborted run where it was aborted and had none. What was not listed is
/// untouched.
pub proof fn lemma_triage_effect(disk: Disk, names: Seq<Seq<u8>>, key: Seq<u8>)
    requires
        lists_runs(disk, names),
    ensures
        names.contains(key) && leaves(disk.runs[key]) ==> {
            &&& !triage_effect(disk, names).runs.contains_key(key)
            &&& triage_effect(disk, names).failed.contains_key(key)
            &&& triage_effect(disk, names).failed[key] == settled(disk.runs[key])
        },
        !(names.contains(key) && leaves(disk.runs[key])) ==> {
            &&& triage_effect(disk, names).runs.contains_key(key) == disk.runs.contains_key(key)
            &&& triage_effect(disk, names).runs[key] == disk.runs[key]
            &&& triage_effect(disk, names).failed.contains_key(key) == disk.failed.contains_key(
                key,
            )
            &&& triage_effect(disk, names).failed[key] == disk.failed[key]
        },
{
    let n = names.len() as int;
    lemma_scan_is_complete(disk, names, n);
    lemma_effect_agrees(disk, names, n);
    assert(agrees_at(disk, names, n, triage_effect(disk, names), key));
    if names.contains(key) {
        let i = choose|i: int| 0 <= i < names.len() && names[i] == key;
        assert(0 <= i < n && names[i] == key);
        assert(handled(names, n, key));
    }
    if handled(names, n, key) {
        let i = choose|i: int| 0 <= i < n && #[trigger] names[i] == key;
        assert(names[i] == key);
    }
}

/// After a run was started and ended with a clean exit, neither its
/// directory nor its lock file is left.
pub proof fn lemma_clean_exit_leaves_nothing(disk: Disk, name: Seq<u8>, process: nat)
    ensures
        !clean_exit(start_run(disk, name, process), name).runs.contains_key(name),
        !disk.runs.contains_key(name) ==> clean_exit(start_run(disk, name, process), name).runs
            == disk.runs,
        clean_exit(start_run(disk, name, process), name).failed == disk.failed,
{
    if !disk.runs.contains_key(name) {
        assert(clean_exit(start_run(disk, name, process), name).runs =~= disk.runs);
    }
}

/// A run whose process was killed is moved to the failed runs by the triage
/// of the next process, and holds a report there: its own if it had written
/// one, and otherwise the report of an aborted run.
pub proof fn lemma_killed_run_is_reported(
    disk: Disk,
    names: Seq<Seq<u8>>,
    name: Seq<u8>,
    process: nat,
)
    requires
        lists_runs(disk, names),
        names.contains(name),
        disk.runs[name].lock.exists,
        disk.runs[name].lock.holder == Some(process),
    ensures
        ({
            let before = kill_run(disk, name, process);
            let after = triage_effect(before, names);
            &&& !after.runs.contains_key(name)
            &&& after.failed.contains_key(name)
            &&& after.failed[name].report == match disk.runs[name].report {
                Some(own) => Some(own),
                None => Some(ABORT_REPORT_TEXT@),
            }
        }),
{
    let before = kill_run(disk, name, process);
    assert(lists_runs(before, names));
    lemma_triage_effect(before, names, name);
}

/// A run is never moved onto a failed run of the same name: the step
/// fails, the run stays among the runs, and the failed run stays as it is.
pub proof fn lemma_taken_name_blocks_move(disk: Disk, names: Seq<Seq<u8>>, i: usize)
    requires
        disk.failed.contains_key(names[i as int]),
    ensures
        step_effect(disk, names, TriageStep::Relocate(i)) == disk,
{
}

/// A report that a run wrote itself survives triage word for word, wherever
/// the run ends up.
pub proof fn lemma_own_report_survives(disk: Disk, names: Seq<Seq<u8>>, name: Seq<u8>)
    requires
        lists_runs(disk, names),
        names.contains(name),
        disk.runs[name].report is Some,
    ensures
        ({
            let after = triage_effect(disk, names);
            if leaves(disk.runs[name]) {
                after.failed.contains_key(name) && after.failed[name].report
                    == disk.runs[name].report
            } else {
                after.runs.contains_key(name) && after.runs[name].report == disk.runs[name].report
            }
        }),
{
    lemma_triage_effect(disk, names, name);
    let i = choose|i: int| 0 <= i < names.len() && names[i] == name;
    assert(disk.runs.contains_key(names[i]));
}

/// A run whose process is alive is not touched by the triage of another
/// process: it stays among the runs as it is.
pub proof fn lemma_live_run_stays(disk: Disk, names: Seq<Seq<u8>>, name: Seq<u8>, process: nat)
    requires
        lists_runs(disk, names),
        names.contains(name),
        disk.runs[name].lock.exists,
        disk.runs[name].lock.holder == Some(process),
    ensures
        triage_effect(disk, names).runs.contains_key(name),
        triage_effect(disk, names).runs[name] == disk.runs[name],
        !triage_effect(disk, names).failed.contains_key(name),
{
    lemma_triage_effect(disk, names, name);
    let i = choose|i: int| 0 <= i < names.len() && names[i] == name;
    assert(disk.runs.contains_key(names[i]));
    assert(!disk.failed.contains_key(names[i]));
}

/// A process that starts on an empty disk, looks through the runs and ends
/// with a clean exit leaves the disk empty.
pub proof fn lemma_lone_run_leaves_no_trace(name: Seq<u8>, process: nat)
    ensures
        clean_exit(triage_effect(start_run(empty_disk(), name, process), seq![name]), name)
            == empty_disk(),
{
    let started = start_run(empty_disk(), name, process);
    let names = seq![name];
    assert(lists_runs(started, names));
    let after = triage_effect(started, names);
    let end = clean_exit(after, name);
    assert forall|key: Seq<u8>| !end.runs.contains_key(key) && !end.failed.contains_key(key) by {
        lemma_triage_effect(started, names, key);
        if key == name {
            assert(names[0] == key);
        }
    }
    assert(end.runs =~= Map::<Seq<u8>, RunFiles>::empty());
    assert(end.failed =~= Map::<Seq<u8>, RunFiles>::empty());
}

} // verus!
