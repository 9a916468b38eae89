//! Triage of the run directories that earlier processes left behind.
//!
//! At start-up every sibling of the new run directory is looked at once. A
//! run that ended without a lock file, or whose lock file nobody holds any
//! more, is moved to the directory of failed runs; a run that was killed gets
//! a report that says so, unless it wrote one itself. A run that is still
//! alive is left alone.

use vstd::prelude::*;
use crate::entry::{EntryKind, IoFailure};
use crate::lock::LockProbe;

verus! {

/// Text of the report that triage writes for a run that was aborted.
pub const ABORT_REPORT_TEXT: &'static str =
    "The program run was aborted unexpectedly.\nThis behavior is typically caused by a SIGKILL, but it can also be the result of a program crash or immediate termination.";

/// Whether a run directory holds a report already.
#[derive(Clone, Copy, Debug, PartialEq, Eq, Structural)]
pub enum ReportProbe {
    /// There is a report.
    Present,
    /// There is none.
    Absent,
    /// It could not be found out.
    Unknown,
}

/// What was found out about one entry of the directory of runs.
#[derive(Clone, Copy, Debug, PartialEq, Eq, Structural)]
pub struct Sibling {
    /// What the entry is.
    pub kind: EntryKind,
    /// The state of its lock file.
    pub lock: LockProbe,
    /// Whether it holds a report; looked at only where the lock is free.
    pub report: ReportProbe,
}

/// What to do with one entry.
#[derive(Clone, Copy, Debug, PartialEq, Eq, Structural)]
pub enum TriageDecision {
    /// Leave it where it is.
    Skip,
    /// Move it to the failed runs.
    Relocate,
    /// Write the report of an aborted run into it, then move it.
    ReportAndRelocate,
    /// Give up the whole scan: the state of this entry cannot be known.
    Abort,
}

/// One action of a triage plan, on the entry with the given index.
#[derive(Clone, Copy, Debug, PartialEq, Eq, Structural)]
pub enum TriageStep {
    /// Write the report of an aborted run into the entry.
    WriteAbortReport(usize),
    /// Move the entry, under its own name, to the failed runs. The step
    /// fails where that name is taken there.
    Relocate(usize),
}

/// Why triage failed.
#[derive(Clone, Copy, Debug, PartialEq, Eq, Structural)]
pub enum TriageError {
    /// The lock file of this entry could not be opened.
    LockFile(usize),
    /// This entry could not be moved to the failed runs.
    Relocation(usize),
}

/// The actions to carry out, in order, and where the scan had to stop.
#[derive(Debug)]
pub struct TriagePlan {
    /// What to do, in this order.
    pub steps: Vec<TriageStep>,
    /// The entry whose lock file could not be read, if there is one: the
    /// scan ends in an error there, after the steps have been carried out.
    pub stopped_at: Option<usize>,
}

/// The decision for one entry. Only directories are runs. A run without a
/// lock file is moved. A run whose lock is free was aborted: it is moved,
/// with a report if it has none. A run whose lock is held is left alone.
pub open spec fn decision(e: Sibling) -> TriageDecision {
    if e.kind != EntryKind::Directory {
        TriageDecision::Skip
    } else {
        match e.lock {
            LockProbe::Missing => TriageDecision::Relocate,
            LockProbe::Free => if e.report == ReportProbe::Absent {
                TriageDecision::ReportAndRelocate
            } else {
                TriageDecision::Relocate
            },
            LockProbe::Held => TriageDecision::Skip,
            LockProbe::Unreadable => TriageDecision::Abort,
        }
    }
}

/// The steps that carry out the decision for entry `i`.
pub open spec fn entry_steps(e: Sibling, i: int) -> Seq<TriageStep> {
    match decision(e) {
        TriageDecision::Skip => Seq::empty(),
        TriageDecision::Abort => Seq::empty(),
        TriageDecision::Relocate => seq![TriageStep::Relocate(i as usize)],
        TriageDecision::ReportAndRelocate => seq![
            TriageStep::WriteAbortReport(i as usize),
            TriageStep::Relocate(i as usize),
        ],
    }
}

/// The number of entries that the scan gets through: the index of the first
/// entry among the first `upto` on which it gives up, or `upto`.
pub open spec fn scanned(entries: Seq<Sibling>, upto: int) -> int
    decreases upto,
{
    if upto <= 0 {
        0
    } else {
        let before = scanned(entries, upto - 1);
        if before < upto - 1 || decision(entries[upto - 1]) == TriageDecision::Abort {
            before
        } else {
            upto
        }
    }
}

/// The steps for the first `upto` entries, entry after entry.
pub open spec fn steps_upto(entries: Seq<Sibling>, upto: int) -> Seq<TriageStep>
    decreases upto,
{
    if upto <= 0 {
        Seq::empty()
    } else {
        steps_upto(entries, upto - 1) + entry_steps(entries[upto - 1], upto - 1)
    }
}

/// The steps of the whole scan: those of the entries before the one it
/// gives up on.
pub open spec fn triage_steps(entries: Seq<Sibling>) -> Seq<TriageStep> {
    steps_upto(entries, scanned(entries, entries.len() as int))
}

/// The entry on which the scan gives up, if any.
pub open spec fn triage_stop(entries: Seq<Sibling>) -> Option<usize> {
    let k = scanned(entries, entries.len() as int);
    if k < entries.len() {
        Some(k as usize)
    } else {
        None
    }
}

/// The result of a triage: see [`triage_result`].
pub open spec fn triage_result_spec(
    steps: Seq<TriageStep>,
    stopped_at: Option<usize>,
    failed_step: Option<usize>,
) -> Result<(), TriageError> {
    let after_steps: Result<(), TriageError> = match stopped_at {
        Some(i) => Err(TriageError::LockFile(i)),
        None => Ok(()),
    };
    match failed_step {
        Some(k) => if k < steps.len() && steps[k as int] is Relocate {
            Err(TriageError::Relocation(steps[k as int].target() as usize))
        } else {
            after_steps
        },
        None => after_steps,
    }
}

impl TriageStep {
    /// The entry that the step acts on.
    pub open spec fn target(self) -> int {
        match self {
            TriageStep::WriteAbortReport(i) => i as int,
            TriageStep::Relocate(i) => i as int,
        }
    }

    /// Whether the scan must end in an error when this step fails. A report
    /// that cannot be written is put up with; a run that cannot be moved is
    /// not.
    pub fn failure_is_fatal(&self) -> (r: bool)
        ensures
            r == (*self is Relocate),
    {
        match self {
            TriageStep::Relocate(_) => true,
            TriageStep::WriteAbortReport(_) => false,
        }
    }
}

/// What looking for the report of a run tells: `looked` is whether a report
/// is there, or the failure to find out.
pub open spec fn report_of(looked: Result<bool, IoFailure>) -> ReportProbe {
    match looked {
        Ok(true) => ReportProbe::Present,
        Ok(false) => ReportProbe::Absent,
        Err(_) => ReportProbe::Unknown,
    }
}

/// Whether a run holds a report, from looking for it.
pub fn report_probe(looked: &Result<bool, IoFailure>) -> (r: ReportProbe)
    ensures
        r == report_of(*looked),
{
    match looked {
        Ok(true) => ReportProbe::Present,
        Ok(false) => ReportProbe::Absent,
        Err(_) => ReportProbe::Unknown,
    }
}

/// Decides what to do with one entry.
pub fn triage_entry(e: &Sibling) -> (r: TriageDecision)
    ensures
        r == decision(*e),
{
    match e.kind {
        EntryKind::Directory => match e.lock {
            LockProbe::Missing => TriageDecision::Relocate,
            LockProbe::Free => match e.report {
                ReportProbe::Absent => TriageDecision::ReportAndRelocate,
                _ => TriageDecision::Relocate,
            },
            LockProbe::Held => TriageDecision::Skip,
            LockProbe::Unreadable => TriageDecision::Abort,
        },
        _ => TriageDecision::Skip,
    }
}

/// Whether the report of an aborted run is to be written: only where the
/// directory is known to hold no report.
pub fn write_report_aborted_unexpected(report: ReportProbe) -> (r: bool)
    ensures
        r == (report == ReportProbe::Absent),
{
    match report {
        ReportProbe::Absent => true,
        _ => false,
    }
}

/// Plans the triage of the entries of the directory of runs, in the order
/// in which they were listed.
pub fn move_to_failed_dir(entries: &Vec<Sibling>) -> (plan: TriagePlan)
    ensures
        plan.steps@ == triage_steps(entries@),
        plan.stopped_at == triage_stop(entries@),
{
    let mut steps: Vec<TriageStep> = Vec::new();
    let mut i: usize = 0;
    while i < entries.len()
        invariant
            i <= entries.len(),
            scanned(entries@, i as int) == i,
            steps@ == steps_upto(entries@, i as int),
        decreases entries.len() - i,
    {
        let ghost before = steps@;
        match triage_entry(&entries[i]) {
            TriageDecision::Skip => {},
            TriageDecision::Relocate => {
                steps.push(TriageStep::Relocate(i));
            },
            TriageDecision::ReportAndRelocate => {
                steps.push(TriageStep::WriteAbortReport(i));
                steps.push(TriageStep::Relocate(i));
            },
            TriageDecision::Abort => {
                proof {
                    lemma_scanned_stops(entries@, i as int, entries@.len() as int);
                }
                return TriagePlan { steps, stopped_at: Some(i) };
            },
        }
        assert(steps@ =~= before + entry_steps(entries@[i as int], i as int));
        i += 1;
    }
    TriagePlan { steps, stopped_at: None }
}

/// Plans the triage from the listing of the directory of runs. A directory
/// of runs that is not there holds no run, and nothing is to be done. A
/// directory that could not be listed for any other reason ends triage in
/// that failure: nothing is moved and no report is written.
pub fn triage_listing(listing: &Result<Vec<Sibling>, IoFailure>) -> (r: Result<
    TriagePlan,
    IoFailure,
>)
    ensures
        listing matches Ok(e) ==> r is Ok && r->Ok_0.steps@ == triage_steps(e@)
            && r->Ok_0.stopped_at == triage_stop(e@),
        listing == Err::<Vec<Sibling>, IoFailure>(IoFailure::NotFound) ==> r is Ok
            && r->Ok_0.steps@.len() == 0 && r->Ok_0.stopped_at is None,
        listing == Err::<Vec<Sibling>, IoFailure>(IoFailure::Other) ==> r == Err::<
            TriagePlan,
            IoFailure,
        >(IoFailure::Other),
{
    match listing {
        Ok(entries) => Ok(move_to_failed_dir(entries)),
        Err(IoFailure::NotFound) => Ok(TriagePlan { steps: Vec::new(), stopped_at: None }),
        Err(IoFailure::Other) => Err(IoFailure::Other),
    }
}

/// The result of a triage whose steps were carried out in order, up to the
/// first one that failed for good (`failed_step`, an index into the steps).
/// A run that could not be moved is an error. Otherwise the scan ends in an
/// error where it gave up on an entry, and succeeds where it did not.
pub fn triage_result(plan: &TriagePlan, failed_step: Option<usize>) -> (r: Result<(), TriageError>)
    ensures
        r == triage_result_spec(plan.steps@, plan.stopped_at, failed_step),
{
    match failed_step {
        Some(k) => {
            if k < plan.steps.len() {
                match plan.steps[k] {
                    TriageStep::Relocate(i) => {
                        return Err(TriageError::Relocation(i));
                    },
                    TriageStep::WriteAbortReport(_) => {},
                }
            }
        },
        None => {},
    }
    match plan.stopped_at {
        Some(i) => Err(TriageError::LockFile(i)),
        None => Ok(()),
    }
}

/// Once the scan has given up on entry `k`, it gets no further, however many
/// entries follow.
proof fn lemma_scanned_stops(entries: Seq<Sibling>, k: int, upto: int)
    requires
        0 <= k < upto <= entries.len(),
        scanned(entries, k) == k,
        decision(entries[k]) == TriageDecision::Abort,
    ensures
        scanned(entries, upto) == k,
    decreases upto,
{
    if upto > k + 1 {
        lemma_scanned_stops(entries, k, upto - 1);
    }
}

/// The steps of entry `i` stand together in the steps of any scan that gets
/// past it, right after the steps of the entries before it.
proof fn lemma_entry_steps_in_place(entries: Seq<Sibling>, upto: int, i: int)
    requires
        0 <= i < upto <= entries.len(),
    ensures
        steps_upto(entries, i).len() + entry_steps(entries[i], i).len() <= steps_upto(
            entries,
            upto,
        ).len(),
        steps_upto(entries, upto).subrange(
            steps_upto(entries, i).len() as int,
            (steps_upto(entries, i).len() + entry_steps(entries[i], i).len()) as int,
        ) == entry_steps(entries[i], i),
    decreases upto,
{
    let at = steps_upto(entries, i).len() as int;
    let own = entry_steps(entries[i], i);
    if i == upto - 1 {
        assert(steps_upto(entries, upto).subrange(at, at + own.len()) =~= own);
    } else {
        lemma_entry_steps_in_place(entries, upto - 1, i);
        assert(steps_upto(entries, upto).subrange(at, at + own.len()) =~= steps_upto(
            entries,
            upto - 1,
        ).subrange(at, at + own.len()));
    }
}

/// Every step of a scan belongs to the decision for the entry it acts on,
/// and that entry is one the scan got to.
proof fn lemma_step_has_cause(entries: Seq<Sibling>, upto: int, k: int)
    requires
        0 <= upto <= entries.len() <= usize::MAX,
        0 <= k < steps_upto(entries, upto).len(),
    ensures
        0 <= steps_upto(entries, upto)[k].target() < upto,
        entry_steps(
            entries[steps_upto(entries, upto)[k].target()],
            steps_upto(entries, upto)[k].target(),
        ).contains(steps_upto(entries, upto)[k]),
    decreases upto,
{
    let before = steps_upto(entries, upto - 1);
    if k < before.len() {
        lemma_step_has_cause(entries, upto - 1, k);
    } else {
        let own = entry_steps(entries[upto - 1], upto - 1);
        assert(steps_upto(entries, upto)[k] == own[k - before.len()]);
    }
}

/// A run that was aborted, and that the scan gets to, is moved to the failed
/// runs. Where it holds no report, the report of an aborted run is written
/// into it just before; where it holds one, or that could not be found out,
/// no step writes a report into it.
pub proof fn lemma_aborted_run_is_relocated(entries: Seq<Sibling>, i: int)
    requires
        entries.len() <= usize::MAX,
        0 <= i < scanned(entries, entries.len() as int),
        entries[i].kind == EntryKind::Directory,
        entries[i].lock == LockProbe::Free,
    ensures
        triage_steps(entries).contains(TriageStep::Relocate(i as usize)),
        entries[i].report == ReportProbe::Absent ==> {
            let at = steps_upto(entries, i).len() as int;
            &&& at + 1 < triage_steps(entries).len()
            &&& triage_steps(entries)[at] == TriageStep::WriteAbortReport(i as usize)
            &&& triage_steps(entries)[at + 1] == TriageStep::Relocate(i as usize)
        },
        entries[i].report != ReportProbe::Absent ==> !triage_steps(entries).contains(
            TriageStep::WriteAbortReport(i as usize),
        ),
{
    let upto = scanned(entries, entries.len() as int);
    lemma_scanned_bounds(entries, entries.len() as int);
    lemma_entry_steps_in_place(entries, upto, i);
    let steps = triage_steps(entries);
    let at = steps_upto(entries, i).len() as int;
    let own = entry_steps(entries[i], i);
    assert(steps.subrange(at, at + own.len()) == own);
    if entries[i].report == ReportProbe::Absent {
        assert(steps[at] == steps.subrange(at, at + own.len())[0]);
        assert(steps[at + 1] == steps.subrange(at, at + own.len())[1]);
    } else {
        assert(steps[at] == steps.subrange(at, at + own.len())[0]);
        assert forall|k: int| 0 <= k < steps.len() implies steps[k] != TriageStep::WriteAbortReport(
            i as usize,
        ) by {
            lemma_step_has_cause(entries, upto, k);
        }
    }
}

/// A report is written only into a run that was aborted and holds none: no
/// report that a run wrote itself is ever overwritten.
pub proof fn lemma_report_never_overwritten(entries: Seq<Sibling>, k: int)
    requires
        entries.len() <= usize::MAX,
        0 <= k < triage_steps(entries).len(),
        triage_steps(entries)[k] is WriteAbortReport,
    ensures
        0 <= triage_steps(entries)[k].target() < entries.len(),
        entries[triage_steps(entries)[k].target()].kind == EntryKind::Directory,
        entries[triage_steps(entries)[k].target()].lock == LockProbe::Free,
        entries[triage_steps(entries)[k].target()].report == ReportProbe::Absent,
{
    lemma_scanned_bounds(entries, entries.len() as int);
    lemma_step_has_cause(entries, scanned(entries, entries.len() as int), k);
}

/// A run whose lock is held by a live process is left alone, and so is
/// whatever is not a directory: no step acts on it.
pub proof fn lemma_live_run_untouched(entries: Seq<Sibling>, i: int, k: int)
    requires
        entries.len() <= usize::MAX,
        0 <= i < entries.len(),
        entries[i].lock == LockProbe::Held || entries[i].kind != EntryKind::Directory,
        0 <= k < triage_steps(entries).len(),
    ensures
        triage_steps(entries)[k].target() != i,
{
    lemma_scanned_bounds(entries, entries.len() as int);
    lemma_step_has_cause(entries, scanned(entries, entries.len() as int), k);
}

/// The scan gets through at most the entries there are.
proof fn lemma_scanned_bounds(entries: Seq<Sibling>, upto: int)
    requires
        0 <= upto,
    ensures
        0 <= scanned(entries, upto) <= upto,
    decreases upto,
{
    if upto > 0 {
        lemma_scanned_bounds(entries, upto - 1);
    }
}

} // verus!
