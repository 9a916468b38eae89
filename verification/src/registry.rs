//! Questions about the directories that collect failed runs, and what to do
//! with what they hold.
//!
//! The caller lists each registered directory, in the order of the registry,
//! and hands over what it found; a directory that could not be read is
//! handed over as the failure. The functions here answer from the listings
//! alone, and go through them in order: what comes behind the listing that
//! settles the answer is not looked at.

use vstd::prelude::*;
use crate::entry::{DirEntry, EntryKind, IoFailure};
use crate::retention::{unreadable, Evidence, FailedRun};

verus! {

/// Why a question about the registered directories has no answer.
#[derive(Clone, Copy, Debug, PartialEq, Eq, Structural)]
pub enum RegistryError {
    /// The registered directory with this index could not be read.
    Read(usize),
    /// The contents of an entry of a registered directory could not be read.
    Probe {
        /// Index of the registered directory.
        dir: usize,
        /// Index of the entry in its listing.
        child: usize,
    },
}

/// An entry of a registered directory, by the index of the directory and
/// the index of the entry in its listing.
#[derive(Clone, Copy, Debug, PartialEq, Eq, Structural)]
pub struct ChildRef {
    /// Index of the registered directory.
    pub dir: usize,
    /// Index of the entry in its listing.
    pub child: usize,
}

/// How an entry is deleted.
#[derive(Clone, Copy, Debug, PartialEq, Eq, Structural)]
pub enum RemovalKind {
    /// As a single file.
    File,
    /// As a directory, with all that is in it.
    Tree,
}

/// The deletion of one entry.
#[derive(Clone, Copy, Debug, PartialEq, Eq, Structural)]
pub struct Removal {
    /// The entry to delete.
    pub target: ChildRef,
    /// How to delete it.
    pub kind: RemovalKind,
}

/// What a request for a report of the failed runs leads to.
#[derive(Debug)]
pub enum ReportPlan {
    /// There is nothing to report: no archive is written, and this is no
    /// error.
    NothingToReport,
    /// The targets of these deletions are archived, in this order; once the
    /// archive is written, they are deleted, in this order. How many
    /// deletions are due says [`removals_due`], and how it all ended
    /// [`report_result`].
    Archive(Vec<Removal>),
}

/// How a request for a report of the failed runs ended.
#[derive(Clone, Copy, Debug, PartialEq, Eq, Structural)]
pub enum ReportOutcome {
    /// There was nothing to report, and no archive was written.
    NothingToReport,
    /// The archive was written and everything in it was deleted.
    Written,
}

/// Why a plan with an archive was not carried out in full.
#[derive(Clone, Copy, Debug, PartialEq, Eq, Structural)]
pub enum ReportError {
    /// The archive could not be written. Nothing was deleted.
    NotArchived,
    /// The archive was written and stays, but this entry could not be
    /// deleted; the entries behind it in the plan are left as well.
    NotRemoved(ChildRef),
}

/// Why there is no plan to archive everything.
#[derive(Clone, Copy, Debug, PartialEq, Eq, Structural)]
pub enum ArchiveAllError {
    /// The directory of runs could not be read.
    ReadRuns,
    /// A directory of failed runs could not be read.
    ReadFailed(usize),
    /// There is nothing at all to archive.
    NoSources,
}

/// The plan to archive everything: all runs and all failed runs.
#[derive(Debug)]
pub struct FullArchivePlan {
    /// The number of entries of the directory of runs. All of them are
    /// archived, ahead of the failed runs, and none is deleted.
    pub runs: usize,
    /// The failed runs: the targets are archived in this order, and deleted
    /// in this order once the archive is written.
    pub failed: Vec<Removal>,
}

/// A listing that shows an empty directory.
pub open spec fn shows_empty(listing: Result<Vec<DirEntry>, IoFailure>) -> bool {
    listing matches Ok(entries) && entries@.len() == 0
}

/// A failed run that holds a crash dump.
pub open spec fn evident(e: FailedRun) -> bool {
    e.kind == EntryKind::Directory && e.evidence == Evidence::Present
}

/// A listing that could be read, with every run in it.
pub open spec fn shows_all(listing: Result<Vec<FailedRun>, IoFailure>) -> bool {
    listing matches Ok(entries) && forall|j: int|
        0 <= j < entries@.len() ==> !unreadable(#[trigger] entries@[j])
}

/// A listing in which some run holds a crash dump.
pub open spec fn shows_evidence(listing: Result<Vec<FailedRun>, IoFailure>) -> bool {
    listing matches Ok(entries) && exists|j: int|
        0 <= j < entries@.len() && evident(#[trigger] entries@[j])
}

/// How an entry of the given kind is deleted: a file as a file, anything
/// else as a directory tree.
pub open spec fn removal_kind(kind: EntryKind) -> RemovalKind {
    if kind == EntryKind::File {
        RemovalKind::File
    } else {
        RemovalKind::Tree
    }
}

/// The deletions of the first `upto` entries of the listing of directory
/// `dir`, in order.
pub open spec fn removals_of(entries: Seq<DirEntry>, dir: int, upto: int) -> Seq<Removal>
    decreases upto,
{
    if upto <= 0 {
        Seq::empty()
    } else {
        removals_of(entries, dir, upto - 1).push(
            Removal {
                target: ChildRef { dir: dir as usize, child: (upto - 1) as usize },
                kind: removal_kind(entries[upto - 1].kind),
            },
        )
    }
}

/// The entries of a listing; none where the directory could not be read.
pub open spec fn entries_of(listing: Result<Vec<DirEntry>, IoFailure>) -> Seq<DirEntry> {
    match listing {
        Ok(entries) => entries@,
        Err(_) => Seq::empty(),
    }
}

/// The deletions of all entries of the first `upto` listings, directory
/// after directory.
pub open spec fn all_removals(listings: Seq<Result<Vec<DirEntry>, IoFailure>>, upto: int) -> Seq<
    Removal,
>
    decreases upto,
{
    if upto <= 0 {
        Seq::empty()
    } else {
        all_removals(listings, upto - 1) + removals_of(
            entries_of(listings[upto - 1]),
            upto - 1,
            entries_of(listings[upto - 1]).len() as int,
        )
    }
}

/// The number of deletions that are to be carried out, from the first of
/// the plan on: all of them once the archive is written, and none before.
pub open spec fn removals_due_spec(removals: Seq<Removal>, archive_written: bool) -> nat {
    if archive_written {
        removals.len()
    } else {
        0
    }
}

/// How the work on an archive and its deletions ended. The deletions are
/// carried out in the order of the plan, once the archive is written, up
/// to the first that fails; `failed_removal` is the index of that one. An
/// archive that was not written is an error, and nothing has been deleted.
/// A deletion that failed is an error, and the archive stays.
pub open spec fn removal_result(
    removals: Seq<Removal>,
    archive_written: bool,
    failed_removal: Option<usize>,
) -> Result<(), ReportError> {
    if !archive_written {
        Err(ReportError::NotArchived)
    } else {
        match failed_removal {
            Some(k) => if k < removals.len() {
                Err(ReportError::NotRemoved(removals[k as int].target))
            } else {
                Ok(())
            },
            None => Ok(()),
        }
    }
}

/// How the report of the failed runs ended: see [`removal_result`]. Where
/// there was nothing to report, that is the end of it.
pub open spec fn report_result_spec(
    plan: ReportPlan,
    archive_written: bool,
    failed_removal: Option<usize>,
) -> Result<ReportOutcome, ReportError> {
    match plan {
        ReportPlan::NothingToReport => Ok(ReportOutcome::NothingToReport),
        ReportPlan::Archive(removals) => match removal_result(
            removals@,
            archive_written,
            failed_removal,
        ) {
            Ok(()) => Ok(ReportOutcome::Written),
            Err(error) => Err(error),
        },
    }
}

/// The number of deletions of a plan that are to be carried out, from the
/// first on: all of them once the archive is written, and none before.
pub fn removals_due(removals: &Vec<Removal>, archive_written: bool) -> (r: usize)
    ensures
        r == removals_due_spec(removals@, archive_written),
{
    if archive_written {
        removals.len()
    } else {
        0
    }
}

/// How the work on an archive and its deletions ended, by whether the
/// archive was written and which deletion, if any, was the first to fail.
pub fn removals_result(
    removals: &Vec<Removal>,
    archive_written: bool,
    failed_removal: Option<usize>,
) -> (r: Result<(), ReportError>)
    ensures
        r == removal_result(removals@, archive_written, failed_removal),
{
    if !archive_written {
        return Err(ReportError::NotArchived);
    }
    match failed_removal {
        Some(k) => if k < removals.len() {
            Err(ReportError::NotRemoved(removals[k].target))
        } else {
            Ok(())
        },
        None => Ok(()),
    }
}

/// How the report of the failed runs ended, by whether the archive was
/// written and which deletion, if any, was the first to fail.
pub fn report_result(plan: &ReportPlan, archive_written: bool, failed_removal: Option<usize>) -> (r:
    Result<ReportOutcome, ReportError>)
    ensures
        r == report_result_spec(*plan, archive_written, failed_removal),
{
    match plan {
        ReportPlan::NothingToReport => Ok(ReportOutcome::NothingToReport),
        ReportPlan::Archive(removals) => match removals_result(
            removals,
            archive_written,
            failed_removal,
        ) {
            Ok(()) => Ok(ReportOutcome::Written),
            Err(error) => Err(error),
        },
    }
}

/// How the archive of everything ended, by whether the archive was written
/// and which deletion of a failed run, if any, was the first to fail. The
/// runs themselves are never deleted.
pub fn archive_all_result(
    plan: &FullArchivePlan,
    archive_written: bool,
    failed_removal: Option<usize>,
) -> (r: Result<(), ReportError>)
    ensures
        r == removal_result(plan.failed@, archive_written, failed_removal),
{
    removals_result(&plan.failed, archive_written, failed_removal)
}

/// How an entry of the given kind is deleted.
pub fn rm_dirs(kind: EntryKind) -> (r: RemovalKind)
    ensures
        r == removal_kind(kind),
{
    match kind {
        EntryKind::File => RemovalKind::File,
        _ => RemovalKind::Tree,
    }
}

/// Whether every registered directory is empty. The first directory that
/// is not empty, or could not be read, settles it.
pub fn failed_dir_is_empty(listings: &Vec<Result<Vec<DirEntry>, IoFailure>>) -> (r: Result<
    bool,
    RegistryError,
>)
    ensures
        match r {
            Ok(true) => forall|i: int|
                0 <= i < listings@.len() ==> shows_empty(#[trigger] listings@[i]),
            Ok(false) => exists|k: int|
                0 <= k < listings@.len() && (#[trigger] listings@[k]) is Ok && !shows_empty(
                    listings@[k],
                ) && forall|i: int| 0 <= i < k ==> shows_empty(#[trigger] listings@[i]),
            Err(RegistryError::Read(k)) => k < listings@.len() && listings@[k as int] is Err
                && forall|i: int| 0 <= i < k ==> shows_empty(#[trigger] listings@[i]),
            Err(RegistryError::Probe { .. }) => false,
        },
{
    let mut i: usize = 0;
    while i < listings.len()
        invariant
            i <= listings.len(),
            forall|j: int| 0 <= j < i ==> shows_empty(#[trigger] listings@[j]),
        decreases listings.len() - i,
    {
        match &listings[i] {
            Ok(entries) => {
                if entries.len() > 0 {
                    return Ok(false);
                }
            },
            Err(_) => {
                return Err(RegistryError::Read(i));
            },
        }
        i += 1;
    }
    Ok(true)
}

/// Looks through the runs of one registered directory: whether one of them
/// holds a crash dump, or else the index of the first whose contents could
/// not be read.
pub fn scan_failed_dir(entries: &Vec<FailedRun>) -> (r: Result<bool, usize>)
    ensures
        match r {
            Ok(found) => {
                &&& forall|j: int| 0 <= j < entries@.len() ==> !unreadable(#[trigger] entries@[j])
                &&& found == exists|j: int|
                    0 <= j < entries@.len() && evident(#[trigger] entries@[j])
            },
            Err(c) => {
                &&& c < entries@.len()
                &&& unreadable(entries@[c as int])
                &&& forall|j: int| 0 <= j < c ==> !unreadable(#[trigger] entries@[j])
            },
        },
{
    let mut found = false;
    let mut j: usize = 0;
    while j < entries.len()
        invariant
            j <= entries.len(),
            forall|k: int| 0 <= k < j ==> !unreadable(#[trigger] entries@[k]),
            found == exists|k: int| 0 <= k < j && evident(#[trigger] entries@[k]),
        decreases entries.len() - j,
    {
        let e = &entries[j];
        let is_dir = match e.kind {
            EntryKind::Directory => true,
            _ => false,
        };
        if is_dir {
            match e.evidence {
                Evidence::Unreadable => {
                    return Err(j);
                },
                Evidence::Present => {
                    assert(evident(entries@[j as int]));
                    found = true;
                },
                Evidence::Absent => {},
            }
        }
        j += 1;
    }
    Ok(found)
}

/// Whether a run in a registered directory holds a crash dump. The first
/// directory that holds such a run, or that could not be read in full,
/// settles it.
pub fn failed_dir_any_panic(listings: &Vec<Result<Vec<FailedRun>, IoFailure>>) -> (r: Result<
    bool,
    RegistryError,
>)
    ensures
        match r {
            Ok(true) => exists|d: int|
                0 <= d < listings@.len() && shows_evidence(#[trigger] listings@[d]) && shows_all(
                    listings@[d],
                ) && forall|i: int|
                    0 <= i < d ==> shows_all(#[trigger] listings@[i]) && !shows_evidence(
                        listings@[i],
                    ),
            Ok(false) => forall|i: int|
                0 <= i < listings@.len() ==> shows_all(#[trigger] listings@[i]) && !shows_evidence(
                    listings@[i],
                ),
            Err(RegistryError::Read(d)) => {
                &&& d < listings@.len()
                &&& listings@[d as int] is Err
                &&& forall|i: int|
                    0 <= i < d ==> shows_all(#[trigger] listings@[i]) && !shows_evidence(
                        listings@[i],
                    )
            },
            Err(RegistryError::Probe { dir, child }) => {
                &&& dir < listings@.len()
                &&& listings@[dir as int] matches Ok(entries)
                &&& child < entries@.len()
                &&& unreadable(entries@[child as int])
                &&& forall|j: int| 0 <= j < child ==> !unreadable(#[trigger] entries@[j])
                &&& forall|i: int|
                    0 <= i < dir ==> shows_all(#[trigger] listings@[i]) && !shows_evidence(
                        listings@[i],
                    )
            },
        },
{
    let mut d: usize = 0;
    while d < listings.len()
        invariant
            d <= listings.len(),
            forall|i: int|
                0 <= i < d ==> shows_all(#[trigger] listings@[i]) && !shows_evidence(listings@[i]),
        decreases listings.len() - d,
    {
        match &listings[d] {
            Err(_) => {
                return Err(RegistryError::Read(d));
            },
            Ok(entries) => match scan_failed_dir(entries) {
                Err(child) => {
                    return Err(RegistryError::Probe { dir: d, child });
                },
                Ok(found) => {
                    if found {
                        assert(shows_evidence(listings@[d as int]));
                        return Ok(true);
                    }
                },
            },
        }
        d += 1;
    }
    Ok(false)
}

/// The deletions of all entries of the registered directories, directory
/// after directory, or the first directory that could not be read.
fn collect_removals(listings: &Vec<Result<Vec<DirEntry>, IoFailure>>) -> (r: Result<
    Vec<Removal>,
    usize,
>)
    ensures
        match r {
            Ok(removals) => {
                &&& forall|i: int| 0 <= i < listings@.len() ==> (#[trigger] listings@[i]) is Ok
                &&& removals@ == all_removals(listings@, listings@.len() as int)
            },
            Err(d) => {
                &&& d < listings@.len()
                &&& listings@[d as int] is Err
                &&& forall|i: int| 0 <= i < d ==> (#[trigger] listings@[i]) is Ok
            },
        },
{
    let mut removals: Vec<Removal> = Vec::new();
    let mut d: usize = 0;
    while d < listings.len()
        invariant
            d <= listings.len(),
            forall|i: int| 0 <= i < d ==> (#[trigger] listings@[i]) is Ok,
            removals@ == all_removals(listings@, d as int),
        decreases listings.len() - d,
    {
        match &listings[d] {
            Err(_) => {
                return Err(d);
            },
            Ok(entries) => {
                let ghost done = removals@;
                let mut c: usize = 0;
                while c < entries.len()
                    invariant
                        c <= entries.len(),
                        removals@ == done + removals_of(entries@, d as int, c as int),
                    decreases entries.len() - c,
                {
                    removals.push(
                        Removal {
                            target: ChildRef { dir: d, child: c },
                            kind: rm_dirs(entries[c].kind),
                        },
                    );
                    c += 1;
                    assert(removals@ =~= done + removals_of(entries@, d as int, c as int));
                }
            },
        }
        d += 1;
    }
    Ok(removals)
}

/// Plans the report of the failed runs: every entry of every registered
/// directory is archived and then deleted; where there is no entry at all,
/// there is nothing to report. A directory that could not be read is an
/// error.
pub fn failed_dir_archive_and_remove(listings: &Vec<Result<Vec<DirEntry>, IoFailure>>) -> (r:
    Result<ReportPlan, RegistryError>)
    ensures
        match r {
            Ok(ReportPlan::NothingToReport) => {
                &&& forall|i: int| 0 <= i < listings@.len() ==> shows_empty(#[trigger] listings@[i])
                &&& all_removals(listings@, listings@.len() as int).len() == 0
            },
            Ok(ReportPlan::Archive(removals)) => {
                &&& forall|i: int| 0 <= i < listings@.len() ==> (#[trigger] listings@[i]) is Ok
                &&& removals@.len() > 0
                &&& removals@ == all_removals(listings@, listings@.len() as int)
            },
            Err(RegistryError::Read(d)) => {
                &&& d < listings@.len()
                &&& listings@[d as int] is Err
                &&& forall|i: int| 0 <= i < d ==> (#[trigger] listings@[i]) is Ok
            },
            Err(RegistryError::Probe { .. }) => false,
        },
{
    match collect_removals(listings) {
        Err(d) => Err(RegistryError::Read(d)),
        Ok(removals) => {
            if removals.len() == 0 {
                proof {
                    lemma_no_removals_means_empty(listings@, listings@.len() as int);
                }
                Ok(ReportPlan::NothingToReport)
            } else {
                Ok(ReportPlan::Archive(removals))
            }
        },
    }
}

/// The entries that a list of deletions acts on, in order.
pub open spec fn targets_of(removals: Seq<Removal>) -> Seq<ChildRef> {
    Seq::new(removals.len(), |i: int| removals[i].target)
}

/// Collects what is moved to the trash: every entry of every registered
/// directory, directory after directory, as one batch. A directory that
/// could not be read is an error, and nothing is moved.
pub fn failed_dir_move_to_trash(listings: &Vec<Result<Vec<DirEntry>, IoFailure>>) -> (r: Result<
    Vec<ChildRef>,
    RegistryError,
>)
    ensures
        match r {
            Ok(batch) => {
                &&& forall|i: int| 0 <= i < listings@.len() ==> (#[trigger] listings@[i]) is Ok
                &&& batch@ == targets_of(all_removals(listings@, listings@.len() as int))
            },
            Err(RegistryError::Read(d)) => {
                &&& d < listings@.len()
                &&& listings@[d as int] is Err
                &&& forall|i: int| 0 <= i < d ==> (#[trigger] listings@[i]) is Ok
            },
            Err(RegistryError::Probe { .. }) => false,
        },
{
    match collect_removals(listings) {
        Err(d) => Err(RegistryError::Read(d)),
        Ok(removals) => {
            let mut batch: Vec<ChildRef> = Vec::new();
            let mut i: usize = 0;
            while i < removals.len()
                invariant
                    i <= removals.len(),
                    batch@ == targets_of(removals@).subrange(0, i as int),
                decreases removals.len() - i,
            {
                batch.push(removals[i].target);
                i += 1;
                assert(batch@ =~= targets_of(removals@).subrange(0, i as int));
            }
            assert(batch@ =~= targets_of(removals@));
            Ok(batch)
        },
    }
}

/// Plans the archive of everything: the entries of the directory of runs
/// and the entries of the registered directories. Only the latter are
/// deleted afterwards. With nothing to archive there is no archive.
pub fn proc_dir_archive(
    runs: &Result<Vec<DirEntry>, IoFailure>,
    listings: &Vec<Result<Vec<DirEntry>, IoFailure>>,
) -> (r: Result<FullArchivePlan, ArchiveAllError>)
    ensures
        match r {
            Ok(plan) => {
                &&& runs matches Ok(entries)
                &&& plan.runs == entries@.len()
                &&& forall|i: int| 0 <= i < listings@.len() ==> (#[trigger] listings@[i]) is Ok
                &&& plan.failed@ == all_removals(listings@, listings@.len() as int)
                &&& plan.runs + plan.failed@.len() > 0
            },
            Err(ArchiveAllError::ReadRuns) => runs is Err,
            Err(ArchiveAllError::ReadFailed(d)) => {
                &&& runs is Ok
                &&& d < listings@.len()
                &&& listings@[d as int] is Err
                &&& forall|i: int| 0 <= i < d ==> (#[trigger] listings@[i]) is Ok
            },
            Err(ArchiveAllError::NoSources) => {
                &&& runs matches Ok(entries)
                &&& entries@.len() == 0
                &&& forall|i: int| 0 <= i < listings@.len() ==> (#[trigger] listings@[i]) is Ok
                &&& all_removals(listings@, listings@.len() as int).len() == 0
            },
        },
{
    let count = match runs {
        Ok(entries) => entries.len(),
        Err(_) => {
            return Err(ArchiveAllError::ReadRuns);
        },
    };
    match collect_removals(listings) {
        Err(d) => Err(ArchiveAllError::ReadFailed(d)),
        Ok(failed) => {
            if count == 0 && failed.len() == 0 {
                Err(ArchiveAllError::NoSources)
            } else {
                Ok(FullArchivePlan { runs: count, failed })
            }
        },
    }
}

/// The deletions of a listing are as many as its entries.
proof fn lemma_removals_len(entries: Seq<DirEntry>, dir: int, upto: int)
    requires
        0 <= upto,
    ensures
        removals_of(entries, dir, upto).len() == upto,
    decreases upto,
{
    if upto > 0 {
        lemma_removals_len(entries, dir, upto - 1);
    }
}

/// Where nothing is to be deleted, every directory that was read is empty.
proof fn lemma_no_removals_means_empty(
    listings: Seq<Result<Vec<DirEntry>, IoFailure>>,
    upto: int,
)
    requires
        0 <= upto <= listings.len(),
        forall|i: int| 0 <= i < upto ==> (#[trigger] listings[i]) is Ok,
        all_removals(listings, upto).len() == 0,
    ensures
        forall|i: int| 0 <= i < upto ==> shows_empty(#[trigger] listings[i]),
    decreases upto,
{
    if upto > 0 {
        let last = entries_of(listings[upto - 1]);
        lemma_removals_len(last, upto - 1, last.len() as int);
        lemma_no_removals_means_empty(listings, upto - 1);
    }
}

proof fn lemma_removals_of_index(entries: Seq<DirEntry>, dir: int, upto: int, c: int)
    requires
        0 <= c < upto,
    ensures
        removals_of(entries, dir, upto).len() == upto,
        removals_of(entries, dir, upto)[c] == (Removal {
            target: ChildRef { dir: dir as usize, child: c as usize },
            kind: removal_kind(entries[c].kind),
        }),
    decreases upto,
{
    lemma_removals_len(entries, dir, upto);
    lemma_removals_len(entries, dir, upto - 1);
    if c < upto - 1 {
        lemma_removals_of_index(entries, dir, upto - 1, c);
    }
}

proof fn lemma_all_removals_cover(
    listings: Seq<Result<Vec<DirEntry>, IoFailure>>,
    upto: int,
    d: int,
    c: int,
)
    requires
        0 <= d < upto <= listings.len(),
        0 <= c < entries_of(listings[d]).len(),
    ensures
        all_removals(listings, upto).contains(
            Removal {
                target: ChildRef { dir: d as usize, child: c as usize },
                kind: removal_kind(entries_of(listings[d])[c].kind),
            },
        ),
    decreases upto,
{
    let before = all_removals(listings, upto - 1);
    let last = entries_of(listings[upto - 1]);
    let own = removals_of(last, upto - 1, last.len() as int);
    let wanted = Removal {
        target: ChildRef { dir: d as usize, child: c as usize },
        kind: removal_kind(entries_of(listings[d])[c].kind),
    };
    if d == upto - 1 {
        lemma_removals_of_index(last, upto - 1, last.len() as int, c);
        assert((before + own)[before.len() + c] == wanted);
    } else {
        lemma_all_removals_cover(listings, upto - 1, d, c);
        let k = choose|k: int| 0 <= k < before.len() && before[k] == wanted;
        assert((before + own)[k] == wanted);
    }
}

/// Every entry of every registered directory is deleted once it has been
/// archived: a file as a file, anything else with all that is in it.
pub proof fn lemma_every_entry_is_removed(
    listings: Seq<Result<Vec<DirEntry>, IoFailure>>,
    d: int,
    c: int,
)
    requires
        0 <= d < listings.len(),
        0 <= c < entries_of(listings[d]).len(),
    ensures
        all_removals(listings, listings.len() as int).contains(
            Removal {
                target: ChildRef { dir: d as usize, child: c as usize },
                kind: removal_kind(entries_of(listings[d])[c].kind),
            },
        ),
{
    lemma_all_removals_cover(listings, listings.len() as int, d, c);
}

} // verus!
