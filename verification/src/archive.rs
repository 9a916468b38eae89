//! Which entries of a set of directory trees go into an archive, and under
//! which name.
//!
//! The caller walks each source tree and reports what it found. This module
//! decides, entry by entry, what the archive holds. Names inside the archive
//! keep up to three trailing components of the source's own path, so that an
//! unpacked archive shows each run below the directory it was collected from.

use vstd::prelude::*;
use crate::entry::{copy_name, lemma_names_of_push, names_of, EntryKind};

verus! {

/// One entry found while walking a source tree.
#[derive(Debug)]
pub struct WalkEntry {
    /// Path components below the source; empty for the source itself.
    pub rel: Vec<Vec<u8>>,
    /// What the entry is.
    pub kind: EntryKind,
}

/// A source of an archive: a path and everything found below it, in the
/// order of the walk.
#[derive(Debug)]
pub struct SourceTree {
    /// The components of the source's path.
    pub path: Vec<Vec<u8>>,
    /// The source itself and all that lies below it.
    pub entries: Vec<WalkEntry>,
}

/// One entry of the archive to be written.
#[derive(Clone, Copy, Debug, PartialEq, Eq, Structural)]
pub struct ArchiveItem {
    /// Index of the source tree.
    pub source: usize,
    /// Index of the entry in that tree's walk.
    pub entry: usize,
    /// Whether this is an explicit directory entry rather than a file.
    pub is_dir: bool,
}

/// Why no archive was planned.
#[derive(Clone, Copy, Debug, PartialEq, Eq, Structural)]
pub enum ArchiveError {
    /// There was nothing to archive: the list of sources was empty.
    NoSources,
}

/// Separator of the components of a name inside an archive: `/`.
pub const ARCHIVE_SEPARATOR: u8 = 0x2f;

impl WalkEntry {
    /// The components of the entry below its source.
    pub open spec fn rel_names(&self) -> Seq<Seq<u8>> {
        names_of(self.rel@)
    }
}

impl SourceTree {
    /// The components of the source's path.
    pub open spec fn path_names(&self) -> Seq<Seq<u8>> {
        names_of(self.path@)
    }
}

/// How many trailing components of a source path of the given depth stay in
/// the names of its entries: names are taken relative to the ancestor three
/// levels up. A path too short to have that ancestor falls back to the
/// source itself each time a level is missing, which leaves one component
/// for a path of depth one and none otherwise.
pub open spec fn retained_components(depth: nat) -> nat {
    if depth >= 3 {
        3
    } else if depth == 1 {
        1
    } else {
        0
    }
}

/// The name of an entry inside the archive, as components: the retained
/// tail of the source path, then the entry's path below the source.
pub open spec fn entry_name(path: Seq<Seq<u8>>, rel: Seq<Seq<u8>>) -> Seq<Seq<u8>> {
    path.skip(path.len() - retained_components(path.len())) + rel
}

/// What the archive holds for entry `e` of source `s`: every file, every
/// directory whose name in the archive is not empty, and nothing else.
pub open spec fn entry_item(tree: SourceTree, s: int, e: int) -> Option<ArchiveItem> {
    let entry = tree.entries[e];
    match entry.kind {
        EntryKind::File => Some(ArchiveItem { source: s as usize, entry: e as usize, is_dir: false }),
        EntryKind::Directory => if entry_name(tree.path_names(), entry.rel_names()).len() > 0 {
            Some(ArchiveItem { source: s as usize, entry: e as usize, is_dir: true })
        } else {
            None
        },
        EntryKind::Other => None,
    }
}

/// The archive items of the first `upto` entries of source `s`.
pub open spec fn tree_items(tree: SourceTree, s: int, upto: int) -> Seq<ArchiveItem>
    decreases upto,
{
    if upto <= 0 {
        Seq::empty()
    } else {
        let before = tree_items(tree, s, upto - 1);
        match entry_item(tree, s, upto - 1) {
            Some(item) => before.push(item),
            None => before,
        }
    }
}

/// The archive items of the first `upto` sources, source after source.
pub open spec fn archive_items(sources: Seq<SourceTree>, upto: int) -> Seq<ArchiveItem>
    decreases upto,
{
    if upto <= 0 {
        Seq::empty()
    } else {
        archive_items(sources, upto - 1) + tree_items(
            sources[upto - 1],
            upto - 1,
            sources[upto - 1].entries.len() as int,
        )
    }
}

/// The components of a name joined by `/`.
pub open spec fn joined(parts: Seq<Seq<u8>>) -> Seq<u8>
    decreases parts.len(),
{
    if parts.len() == 0 {
        Seq::empty()
    } else if parts.len() == 1 {
        parts[0]
    } else {
        joined(parts.drop_last()) + seq![ARCHIVE_SEPARATOR] + parts.last()
    }
}

/// Number of trailing components of a source path that stay in the names of
/// its entries.
pub fn retained_depth(depth: usize) -> (r: usize)
    ensures
        r == retained_components(depth as nat),
        r <= depth,
{
    if depth >= 3 {
        3
    } else if depth == 1 {
        1
    } else {
        0
    }
}

/// The name of an entry inside the archive, as components.
pub fn archive_entry_name(path: &Vec<Vec<u8>>, rel: &Vec<Vec<u8>>) -> (r: Vec<Vec<u8>>)
    ensures
        names_of(r@) == entry_name(names_of(path@), names_of(rel@)),
{
    let n = path.len();
    let keep = retained_depth(n);
    let start = n - keep;
    let mut out: Vec<Vec<u8>> = Vec::new();
    let mut i: usize = start;
    while i < n
        invariant
            start <= i <= n,
            n == path.len(),
            names_of(out@) == names_of(path@).subrange(start as int, i as int),
        decreases n - i,
    {
        let name = copy_name(&path[i]);
        proof {
            lemma_names_of_push(out@, name);
        }
        out.push(name);
        i += 1;
        assert(names_of(out@) =~= names_of(path@).subrange(start as int, i as int));
    }
    let ghost head = names_of(out@);
    let mut j: usize = 0;
    while j < rel.len()
        invariant
            j <= rel.len(),
            names_of(out@) == head + names_of(rel@).subrange(0, j as int),
        decreases rel.len() - j,
    {
        let name = copy_name(&rel[j]);
        proof {
            lemma_names_of_push(out@, name);
        }
        out.push(name);
        j += 1;
        assert(names_of(out@) =~= head + names_of(rel@).subrange(0, j as int));
    }
    assert(names_of(out@) =~= entry_name(names_of(path@), names_of(rel@)));
    out
}

/// The name of an entry inside the archive as the archive stores it: its
/// components joined by forward slashes.
pub fn archive_entry_path(path: &Vec<Vec<u8>>, rel: &Vec<Vec<u8>>) -> (r: Vec<u8>)
    ensures
        r@ == joined(entry_name(names_of(path@), names_of(rel@))),
{
    let parts = archive_entry_name(path, rel);
    let mut out: Vec<u8> = Vec::new();
    let mut i: usize = 0;
    while i < parts.len()
        invariant
            i <= parts.len(),
            out@ == joined(names_of(parts@).subrange(0, i as int)),
        decreases parts.len() - i,
    {
        let ghost before = names_of(parts@).subrange(0, i as int);
        let ghost after = names_of(parts@).subrange(0, i + 1);
        proof {
            assert(after.drop_last() =~= before);
            assert(after.last() == parts@[i as int]@);
        }
        if i > 0 {
            out.push(ARCHIVE_SEPARATOR);
        }
        let part = &parts[i];
        let mut k: usize = 0;
        let ghost base = out@;
        while k < part.len()
            invariant
                k <= part.len(),
                out@ == base + part@.subrange(0, k as int),
            decreases part.len() - k,
        {
            out.push(part[k]);
            k += 1;
            assert(out@ =~= base + part@.subrange(0, k as int));
        }
        proof {
            assert(part@.subrange(0, part@.len() as int) =~= part@);
            if i == 0 {
                assert(base =~= Seq::<u8>::empty());
                assert(out@ =~= part@);
            } else {
                assert(base =~= joined(before) + seq![ARCHIVE_SEPARATOR]);
            }
        }
        i += 1;
    }
    assert(names_of(parts@).subrange(0, parts@.len() as int) =~= names_of(parts@));
    out
}

/// Plans the archive of `sources`: for every source in turn, and for every
/// entry in the order of its walk, an item for each file and for each
/// directory with a non-empty name. An empty list of sources is an error.
pub fn create_archive(sources: &Vec<SourceTree>) -> (r: Result<Vec<ArchiveItem>, ArchiveError>)
    ensures
        sources@.len() == 0 ==> r == Err::<Vec<ArchiveItem>, ArchiveError>(ArchiveError::NoSources),
        sources@.len() > 0 ==> r.is_ok() && r.unwrap()@ == archive_items(
            sources@,
            sources@.len() as int,
        ),
{
    if sources.len() == 0 {
        return Err(ArchiveError::NoSources);
    }
    let mut items: Vec<ArchiveItem> = Vec::new();
    let mut s: usize = 0;
    while s < sources.len()
        invariant
            s <= sources.len(),
            items@ == archive_items(sources@, s as int),
        decreases sources.len() - s,
    {
        let tree = &sources[s];
        let keep = retained_depth(tree.path.len());
        let ghost done = items@;
        let mut e: usize = 0;
        while e < tree.entries.len()
            invariant
                e <= tree.entries.len(),
                *tree == sources@[s as int],
                keep == retained_components(tree.path@.len()),
                items@ == done + tree_items(*tree, s as int, e as int),
            decreases tree.entries.len() - e,
        {
            let entry = &tree.entries[e];
            proof {
                let name = entry_name(tree.path_names(), entry.rel_names());
                assert(name.len() == keep + entry.rel@.len());
            }
            match entry.kind {
                EntryKind::File => {
                    items.push(ArchiveItem { source: s, entry: e, is_dir: false });
                },
                EntryKind::Directory => {
                    if keep > 0 || entry.rel.len() > 0 {
                        items.push(ArchiveItem { source: s, entry: e, is_dir: true });
                    }
                },
                EntryKind::Other => {},
            }
            e += 1;
            assert(items@ =~= done + tree_items(*tree, s as int, e as int));
        }
        s += 1;
    }
    Ok(items)
}

/// An item that stands before another in the order of the walk: in an
/// earlier source, or earlier in the same source.
pub open spec fn item_before(a: ArchiveItem, b: ArchiveItem) -> bool {
    a.source < b.source || (a.source == b.source && a.entry < b.entry)
}

proof fn lemma_tree_items_sound(tree: SourceTree, s: int, upto: int, k: int)
    requires
        0 <= s <= usize::MAX,
        0 <= upto <= tree.entries@.len(),
        0 <= k < tree_items(tree, s, upto).len(),
    ensures
        tree_items(tree, s, upto)[k].source == s,
        tree_items(tree, s, upto)[k].entry < upto,
        entry_item(tree, s, tree_items(tree, s, upto)[k].entry as int) == Some(
            tree_items(tree, s, upto)[k],
        ),
    decreases upto,
{
    assert(tree.entries@.len() == tree.entries.len());
    let before = tree_items(tree, s, upto - 1);
    if k < before.len() {
        lemma_tree_items_sound(tree, s, upto - 1, k);
    }
}

proof fn lemma_tree_items_complete(tree: SourceTree, s: int, upto: int, e: int)
    requires
        0 <= e < upto <= tree.entries@.len(),
        entry_item(tree, s, e) is Some,
    ensures
        tree_items(tree, s, upto).contains(entry_item(tree, s, e).unwrap()),
    decreases upto,
{
    let before = tree_items(tree, s, upto - 1);
    let all = tree_items(tree, s, upto);
    if e == upto - 1 {
        assert(all[all.len() - 1] == entry_item(tree, s, e).unwrap());
    } else {
        lemma_tree_items_complete(tree, s, upto - 1, e);
        let item = entry_item(tree, s, e).unwrap();
        let k = choose|k: int| 0 <= k < before.len() && before[k] == item;
        assert(all[k] == item);
    }
}

proof fn lemma_tree_items_ordered(tree: SourceTree, s: int, upto: int, a: int, b: int)
    requires
        0 <= s <= usize::MAX,
        0 <= upto <= tree.entries@.len(),
        0 <= a < b < tree_items(tree, s, upto).len(),
    ensures
        tree_items(tree, s, upto)[a].entry < tree_items(tree, s, upto)[b].entry,
    decreases upto,
{
    assert(tree.entries@.len() == tree.entries.len());
    let before = tree_items(tree, s, upto - 1);
    if b < before.len() {
        lemma_tree_items_ordered(tree, s, upto - 1, a, b);
    } else {
        lemma_tree_items_sound(tree, s, upto - 1, a);
    }
}

proof fn lemma_archive_items_sound(sources: Seq<SourceTree>, upto: int, k: int)
    requires
        0 <= upto <= sources.len() <= usize::MAX,
        0 <= k < archive_items(sources, upto).len(),
    ensures
        archive_items(sources, upto)[k].source < upto,
        archive_items(sources, upto)[k].entry < sources[archive_items(
            sources,
            upto,
        )[k].source as int].entries@.len(),
        entry_item(
            sources[archive_items(sources, upto)[k].source as int],
            archive_items(sources, upto)[k].source as int,
            archive_items(sources, upto)[k].entry as int,
        ) == Some(archive_items(sources, upto)[k]),
    decreases upto,
{
    let before = archive_items(sources, upto - 1);
    if k < before.len() {
        lemma_archive_items_sound(sources, upto - 1, k);
    } else {
        let tree = sources[upto - 1];
        lemma_tree_items_sound(tree, upto - 1, tree.entries@.len() as int, k - before.len());
    }
}

/// The archive holds nothing but entries of its sources: each item is what
/// the archive holds for the entry it points to.
pub proof fn lemma_archive_holds_only_entries(sources: Seq<SourceTree>, k: int)
    requires
        sources.len() <= usize::MAX,
        0 <= k < archive_items(sources, sources.len() as int).len(),
    ensures
        ({
            let item = archive_items(sources, sources.len() as int)[k];
            &&& item.source < sources.len()
            &&& item.entry < sources[item.source as int].entries@.len()
            &&& entry_item(sources[item.source as int], item.source as int, item.entry as int)
                == Some(item)
        }),
{
    lemma_archive_items_sound(sources, sources.len() as int, k);
}

proof fn lemma_archive_items_complete(sources: Seq<SourceTree>, upto: int, s: int, e: int)
    requires
        0 <= s < upto <= sources.len(),
        0 <= e < sources[s].entries@.len(),
        entry_item(sources[s], s, e) is Some,
    ensures
        archive_items(sources, upto).contains(entry_item(sources[s], s, e).unwrap()),
    decreases upto,
{
    let before = archive_items(sources, upto - 1);
    let last = tree_items(sources[upto - 1], upto - 1, sources[upto - 1].entries@.len() as int);
    let item = entry_item(sources[s], s, e).unwrap();
    if s == upto - 1 {
        lemma_tree_items_complete(sources[s], s, sources[s].entries@.len() as int, e);
        let k = choose|k: int| 0 <= k < last.len() && last[k] == item;
        assert((before + last)[before.len() + k] == item);
    } else {
        lemma_archive_items_complete(sources, upto - 1, s, e);
        let k = choose|k: int| 0 <= k < before.len() && before[k] == item;
        assert((before + last)[k] == item);
    }
}

/// The archive leaves out no file: every file found in a source has its
/// item, and so has every directory whose name in the archive is not empty.
pub proof fn lemma_archive_is_complete(sources: Seq<SourceTree>, s: int, e: int)
    requires
        0 <= s < sources.len(),
        0 <= e < sources[s].entries@.len(),
    ensures
        sources[s].entries@[e].kind == EntryKind::File ==> archive_items(
            sources,
            sources.len() as int,
        ).contains(ArchiveItem { source: s as usize, entry: e as usize, is_dir: false }),
        entry_item(sources[s], s, e) matches Some(item) ==> archive_items(
            sources,
            sources.len() as int,
        ).contains(item),
{
    if entry_item(sources[s], s, e) is Some {
        lemma_archive_items_complete(sources, sources.len() as int, s, e);
    }
}

proof fn lemma_archive_items_ordered(sources: Seq<SourceTree>, upto: int, a: int, b: int)
    requires
        0 <= upto <= sources.len() <= usize::MAX,
        0 <= a < b < archive_items(sources, upto).len(),
    ensures
        item_before(archive_items(sources, upto)[a], archive_items(sources, upto)[b]),
    decreases upto,
{
    let before = archive_items(sources, upto - 1);
    let tree = sources[upto - 1];
    if b < before.len() {
        lemma_archive_items_ordered(sources, upto - 1, a, b);
    } else if a < before.len() {
        lemma_archive_items_sound(sources, upto - 1, a);
        lemma_tree_items_sound(tree, upto - 1, tree.entries@.len() as int, b - before.len());
    } else {
        lemma_tree_items_sound(tree, upto - 1, tree.entries@.len() as int, a - before.len());
        lemma_tree_items_sound(tree, upto - 1, tree.entries@.len() as int, b - before.len());
        lemma_tree_items_ordered(
            tree,
            upto - 1,
            tree.entries@.len() as int,
            a - before.len(),
            b - before.len(),
        );
    }
}

/// The items of an archive stand in the order of the walk, source after
/// source; so none stands there twice.
pub proof fn lemma_archive_in_walk_order(sources: Seq<SourceTree>, a: int, b: int)
    requires
        sources.len() <= usize::MAX,
        0 <= a < b < archive_items(sources, sources.len() as int).len(),
    ensures
        item_before(
            archive_items(sources, sources.len() as int)[a],
            archive_items(sources, sources.len() as int)[b],
        ),
        archive_items(sources, sources.len() as int)[a] != archive_items(
            sources,
            sources.len() as int,
        )[b],
{
    lemma_archive_items_ordered(sources, sources.len() as int, a, b);
}

} // verus!
