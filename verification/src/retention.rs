//! How many failed runs are kept, and which ones go.
//!
//! Failed runs pile up in one directory. Those that hold a crash dump are
//! evidence and stay until somebody archives or trashes them. Of the others
//! only a bounded number is kept: the oldest beyond the bound are deleted.
//! Run directories are named by their start time, so the order of their
//! names is their order in time.

use vstd::prelude::*;
use crate::entry::{DirEntry, EntryKind, IoFailure};
use crate::names::{
    is_panic_file_name,
    has_panic_extension,
    lemma_lex_le_antisymmetric,
    lemma_lex_le_total,
    lemma_lex_le_transitive,
    lex_le,
    name_le,
};

verus! {

/// Whether a failed run holds a crash dump.
#[derive(Clone, Copy, Debug, PartialEq, Eq, Structural)]
pub enum Evidence {
    /// It holds at least one.
    Present,
    /// It holds none.
    Absent,
    /// Its contents could not be read.
    Unreadable,
}

/// An entry of the directory of failed runs.
#[derive(Debug)]
pub struct FailedRun {
    /// The name of the entry.
    pub name: Vec<u8>,
    /// What the entry is.
    pub kind: EntryKind,
    /// Whether it holds a crash dump; looked at only for directories.
    pub evidence: Evidence,
}

/// Why nothing was evicted.
#[derive(Clone, Copy, Debug, PartialEq, Eq, Structural)]
pub enum RetentionError {
    /// The contents of the entry with this index could not be read.
    Unreadable(usize),
}

/// A file whose name carries the crash-dump extension.
pub open spec fn is_panic_file(e: DirEntry) -> bool {
    e.kind == EntryKind::File && has_panic_extension(e.name@)
}

/// Whether something of the given kind, with the given entries if it is a
/// directory, holds a crash dump: it is a directory, and one of its entries
/// is a file with the crash-dump extension.
pub open spec fn holds_panic(kind: EntryKind, entries: Seq<DirEntry>) -> bool {
    kind == EntryKind::Directory && exists|i: int|
        0 <= i < entries.len() && is_panic_file(#[trigger] entries[i])
}

/// What is known about the crash dumps of an entry of the given kind, whose
/// listing is given where it is a directory: a directory that could not be
/// read is unreadable, and nothing but a directory holds a crash dump.
pub open spec fn evidence_in(kind: EntryKind, listing: Result<Vec<DirEntry>, IoFailure>) -> Evidence {
    if kind != EntryKind::Directory {
        Evidence::Absent
    } else {
        match listing {
            Err(_) => Evidence::Unreadable,
            Ok(entries) => if holds_panic(kind, entries@) {
                Evidence::Present
            } else {
                Evidence::Absent
            },
        }
    }
}

/// A failed run that retention may delete: a directory without a crash dump.
pub open spec fn evictable(e: FailedRun) -> bool {
    e.kind == EntryKind::Directory && e.evidence == Evidence::Absent
}

/// A directory whose contents could not be read.
pub open spec fn unreadable(e: FailedRun) -> bool {
    e.kind == EntryKind::Directory && e.evidence == Evidence::Unreadable
}

/// The number of evictable runs among the first `upto` entries.
pub open spec fn evictable_count(entries: Seq<FailedRun>, upto: int) -> nat
    decreases upto,
{
    if upto <= 0 {
        0
    } else {
        evictable_count(entries, upto - 1) + if evictable(entries[upto - 1]) {
            1nat
        } else {
            0nat
        }
    }
}

/// The number of runs to delete so that at most `max_keep` evictable ones
/// remain.
pub open spec fn excess(entries: Seq<FailedRun>, max_keep: nat) -> nat {
    let n = evictable_count(entries, entries.len() as int);
    if n > max_keep {
        (n - max_keep) as nat
    } else {
        0
    }
}

/// Whether `evict` lists, by index and oldest first, the runs that retention
/// deletes: exactly the excess, all of them evictable, none twice, in the
/// order of their names, and none of them younger than an evictable run
/// that stays.
pub open spec fn is_eviction(entries: Seq<FailedRun>, max_keep: nat, evict: Seq<usize>) -> bool {
    &&& evict.len() == excess(entries, max_keep)
    &&& forall|k: int|
        0 <= k < evict.len() ==> (#[trigger] evict[k]) < entries.len() && evictable(
            entries[evict[k] as int],
        )
    &&& forall|a: int, b: int| 0 <= a < b < evict.len() ==> evict[a] != evict[b]
    &&& forall|a: int, b: int|
        0 <= a < b < evict.len() ==> lex_le(
            entries[evict[a] as int].name@,
            entries[evict[b] as int].name@,
        )
    &&& forall|k: int, j: int|
        0 <= k < evict.len() && 0 <= j < entries.len() && evictable(entries[j])
            && !evict.contains(j as usize) ==> lex_le(
            entries[#[trigger] evict[k] as int].name@,
            (#[trigger] entries[j]).name@,
        )
}

/// Whether something of the given kind holds a crash dump, given its
/// entries where it is a directory.
pub fn dir_has_panic(kind: EntryKind, entries: &Vec<DirEntry>) -> (r: bool)
    ensures
        r == holds_panic(kind, entries@),
{
    match kind {
        EntryKind::Directory => {},
        _ => {
            return false;
        },
    }
    let mut i: usize = 0;
    while i < entries.len()
        invariant
            i <= entries.len(),
            kind == EntryKind::Directory,
            forall|j: int| 0 <= j < i ==> !is_panic_file(#[trigger] entries@[j]),
        decreases entries.len() - i,
    {
        let e = &entries[i];
        let is_file = match e.kind {
            EntryKind::File => true,
            _ => false,
        };
        if is_file && is_panic_file_name(e.name.as_slice()) {
            assert(is_panic_file(entries@[i as int]));
            return true;
        }
        i += 1;
    }
    false
}

/// What is known about the crash dumps of an entry of the given kind, from
/// the listing of the entry where it is a directory.
pub fn evidence_of(kind: EntryKind, listing: &Result<Vec<DirEntry>, IoFailure>) -> (r: Evidence)
    ensures
        r == evidence_in(kind, *listing),
{
    match kind {
        EntryKind::Directory => {},
        _ => {
            return Evidence::Absent;
        },
    }
    match listing {
        Err(_) => Evidence::Unreadable,
        Ok(entries) => if dir_has_panic(kind, entries) {
            Evidence::Present
        } else {
            Evidence::Absent
        },
    }
}

/// Sorted by name, oldest first.
spec fn sorted_by_name(entries: Seq<FailedRun>, order: Seq<usize>) -> bool {
    forall|a: int, b: int|
        0 <= a < b < order.len() ==> lex_le(
            entries[order[a] as int].name@,
            entries[order[b] as int].name@,
        )
}

/// Holds each evictable entry among the first `upto`, once, and nothing
/// else.
spec fn lists_evictable(entries: Seq<FailedRun>, upto: int, order: Seq<usize>) -> bool {
    &&& order.len() == evictable_count(entries, upto)
    &&& forall|k: int|
        0 <= k < order.len() ==> (#[trigger] order[k]) < upto && evictable(
            entries[order[k] as int],
        )
    &&& forall|a: int, b: int| 0 <= a < b < order.len() ==> order[a] != order[b]
    &&& forall|j: int|
        0 <= j < upto && evictable(#[trigger] entries[j]) ==> order.contains(j as usize)
}

/// Plans the retention of a directory of failed runs: which entries to
/// delete, by index and oldest first, so that at most `max_keep` runs
/// without a crash dump remain. Nothing is deleted where the contents of a
/// run could not be read.
pub fn cleanup_dir(entries: &Vec<FailedRun>, max_keep: usize) -> (r: Result<
    Vec<usize>,
    RetentionError,
>)
    ensures
        match r {
            Ok(evict) => {
                &&& forall|j: int| 0 <= j < entries@.len() ==> !unreadable(#[trigger] entries@[j])
                &&& is_eviction(entries@, max_keep as nat, evict@)
            },
            Err(RetentionError::Unreadable(i)) => {
                &&& i < entries@.len()
                &&& unreadable(entries@[i as int])
                &&& forall|j: int| 0 <= j < i ==> !unreadable(#[trigger] entries@[j])
            },
        },
{
    let mut order: Vec<usize> = Vec::new();
    let mut i: usize = 0;
    while i < entries.len()
        invariant
            i <= entries.len(),
            forall|j: int| 0 <= j < i ==> !unreadable(#[trigger] entries@[j]),
            lists_evictable(entries@, i as int, order@),
            sorted_by_name(entries@, order@),
        decreases entries.len() - i,
    {
        let e = &entries[i];
        let is_dir = match e.kind {
            EntryKind::Directory => true,
            _ => false,
        };
        if is_dir {
            match e.evidence {
                Evidence::Unreadable => {
                    return Err(RetentionError::Unreadable(i));
                },
                Evidence::Present => {},
                Evidence::Absent => {
                    insert_by_name(entries, &mut order, i);
                },
            }
        }
        i += 1;
    }
    let n = order.len();
    if n > max_keep {
        let ghost all = order@;
        order.truncate(n - max_keep);
        proof {
            let evict = order@;
            assert forall|k: int, j: int|
                0 <= k < evict.len() && 0 <= j < entries@.len() && evictable(entries@[j])
                    && !evict.contains(j as usize) implies lex_le(
                entries@[#[trigger] evict[k] as int].name@,
                (#[trigger] entries@[j]).name@,
            ) by {
                assert(all.contains(j as usize));
                let p = choose|p: int| 0 <= p < all.len() && all[p] == j as usize;
                if p < evict.len() {
                    assert(evict[p] == j as usize);
                }
                assert(all[k] == evict[k]);
            }
        }
    } else {
        order.truncate(0);
    }
    Ok(order)
}

/// Puts entry `i` into a list that is sorted by name, behind the entries
/// whose names are at most its own.
fn insert_by_name(entries: &Vec<FailedRun>, order: &mut Vec<usize>, i: usize)
    requires
        i < entries@.len(),
        evictable(entries@[i as int]),
        lists_evictable(entries@, i as int, old(order)@),
        sorted_by_name(entries@, old(order)@),
    ensures
        lists_evictable(entries@, i + 1, final(order)@),
        sorted_by_name(entries@, final(order)@),
{
    let name = entries[i].name.as_slice();
    let mut p: usize = 0;
    while p < order.len() && name_le(entries[order[p]].name.as_slice(), name)
        invariant
            p <= order@.len(),
            order@ == old(order)@,
            i < entries@.len(),
            name@ == entries@[i as int].name@,
            lists_evictable(entries@, i as int, order@),
            forall|q: int|
                0 <= q < p ==> lex_le(entries@[#[trigger] order@[q] as int].name@, name@),
        decreases order@.len() - p,
    {
        p += 1;
    }
    let ghost before = order@;
    order.insert(p, i);
    proof {
        let after = order@;
        assert(after == before.insert(p as int, i));
        assert forall|a: int, b: int| 0 <= a < b < after.len() implies lex_le(
            entries@[after[a] as int].name@,
            entries@[after[b] as int].name@,
        ) by {
            if b < p {
                assert(after[a] == before[a] && after[b] == before[b]);
            } else if b == p {
                assert(after[a] == before[a]);
            } else if a < p {
                assert(after[a] == before[a] && after[b] == before[b - 1]);
            } else if a == p {
                assert(after[b] == before[b - 1]);
                lemma_lex_le_total(entries@[before[p as int] as int].name@, name@);
                if b - 1 > p {
                    lemma_lex_le_transitive(
                        name@,
                        entries@[before[p as int] as int].name@,
                        entries@[before[b - 1] as int].name@,
                    );
                }
            } else {
                assert(after[a] == before[a - 1] && after[b] == before[b - 1]);
            }
        }
        assert forall|k: int| 0 <= k < after.len() implies (#[trigger] after[k]) < i + 1
            && evictable(entries@[after[k] as int]) by {
            if k < p {
                assert(after[k] == before[k]);
            } else if k > p {
                assert(after[k] == before[k - 1]);
            }
        }
        assert forall|a: int, b: int| 0 <= a < b < after.len() implies after[a] != after[b] by {
            if a != p && b != p {
                let a0 = if a < p { a } else { a - 1 };
                let b0 = if b < p { b } else { b - 1 };
                assert(after[a] == before[a0] && after[b] == before[b0]);
            } else if a == p {
                assert(after[b] == before[b - 1]);
            } else {
                assert(after[a] == before[a]);
            }
        }
        assert forall|j: int| 0 <= j < i + 1 && evictable(#[trigger] entries@[j]) implies after.contains(
            j as usize,
        ) by {
            if j == i {
                assert(after[p as int] == i);
            } else {
                assert(before.contains(j as usize));
                let q = choose|q: int| 0 <= q < before.len() && before[q] == j as usize;
                if q < p {
                    assert(after[q] == j as usize);
                } else {
                    assert(after[q + 1] == j as usize);
                }
            }
        }
    }
}

/// No two entries have the same name, as in any directory.
pub open spec fn distinct_names(entries: Seq<FailedRun>) -> bool {
    forall|i: int, j: int|
        0 <= i < j < entries.len() ==> (#[trigger] entries[i]).name@ != (#[trigger] entries[j]).name@
}

proof fn lemma_evictions_agree(
    entries: Seq<FailedRun>,
    max_keep: nat,
    first: Seq<usize>,
    second: Seq<usize>,
    upto: int,
)
    requires
        distinct_names(entries),
        is_eviction(entries, max_keep, first),
        is_eviction(entries, max_keep, second),
        0 <= upto <= first.len(),
    ensures
        forall|i: int| 0 <= i < upto ==> first[i] == second[i],
    decreases upto,
{
    if upto > 0 {
        lemma_evictions_agree(entries, max_keep, first, second, upto - 1);
        let x = first[upto - 1];
        let y = second[upto - 1];
        lemma_comes_no_later(entries, max_keep, first, second, upto - 1);
        lemma_comes_no_later(entries, max_keep, second, first, upto - 1);
        lemma_lex_le_antisymmetric(entries[x as int].name@, entries[y as int].name@);
        if x != y {
            if x < y {
                assert(entries[x as int].name@ != entries[y as int].name@);
            } else {
                assert(entries[y as int].name@ != entries[x as int].name@);
            }
        }
    }
}

/// Of two evictions that agree before position `at`, the first names no
/// younger run at `at` than the second does.
proof fn lemma_comes_no_later(
    entries: Seq<FailedRun>,
    max_keep: nat,
    first: Seq<usize>,
    second: Seq<usize>,
    at: int,
)
    requires
        is_eviction(entries, max_keep, first),
        is_eviction(entries, max_keep, second),
        0 <= at < first.len(),
        forall|i: int| 0 <= i < at ==> first[i] == second[i],
    ensures
        lex_le(entries[first[at] as int].name@, entries[second[at] as int].name@),
{
    let x = first[at];
    let y = second[at];
    assert(y < entries.len() && evictable(entries[y as int]));
    if first.contains(y) {
        let p = choose|p: int| 0 <= p < first.len() && first[p] == y;
        if p < at {
            assert(second[p] == y);
            assert(second[p] != second[at]);
        } else if p == at {
            crate::names::lemma_lex_le_reflexive(entries[x as int].name@);
        }
    } else {
        assert(entries[y as int].name@ == entries[y as int].name@);
        assert(lex_le(entries[first[at] as int].name@, entries[y as int].name@));
    }
}

/// Retention leaves no choice: in a directory, where no two entries have
/// the same name, there is one list of runs to delete and no other.
pub proof fn lemma_eviction_is_determined(
    entries: Seq<FailedRun>,
    max_keep: nat,
    first: Seq<usize>,
    second: Seq<usize>,
)
    requires
        distinct_names(entries),
        is_eviction(entries, max_keep, first),
        is_eviction(entries, max_keep, second),
    ensures
        first == second,
{
    lemma_evictions_agree(entries, max_keep, first, second, first.len() as int);
    assert(first =~= second);
}

} // verus!
