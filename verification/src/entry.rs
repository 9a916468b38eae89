//! What the library is told about a directory entry: its name, what kind of
//! thing it is, and whether reading it failed.

use vstd::prelude::*;
use vstd::slice::*;

verus! {

/// What a directory entry turned out to be when it was inspected.
#[derive(Clone, Copy, Debug, PartialEq, Eq, Structural)]
pub enum EntryKind {
    /// A regular file.
    File,
    /// A directory.
    Directory,
    /// Anything else, or an entry that vanished before it was inspected.
    Other,
}

/// Why an operation on the file system did not succeed, as far as the
/// decisions of this library depend on it.
#[derive(Clone, Copy, Debug, PartialEq, Eq, Structural)]
pub enum IoFailure {
    /// The file or directory does not exist.
    NotFound,
    /// Any other failure.
    Other,
}

/// An entry of a directory, by name and kind.
#[derive(Debug)]
pub struct DirEntry {
    /// The name of the entry.
    pub name: Vec<u8>,
    /// What the entry is.
    pub kind: EntryKind,
}

/// The names held by a vector of names, in order.
pub open spec fn names_of(v: Seq<Vec<u8>>) -> Seq<Seq<u8>> {
    Seq::new(v.len(), |i: int| v[i]@)
}

/// Appending a name to a vector of names appends it to the names held.
pub proof fn lemma_names_of_push(v: Seq<Vec<u8>>, name: Vec<u8>)
    ensures
        names_of(v.push(name)) == names_of(v).push(name@),
{
    assert(names_of(v.push(name)) =~= names_of(v).push(name@));
}

/// A copy of a name.
pub fn copy_name(name: &Vec<u8>) -> (r: Vec<u8>)
    ensures
        r@ == name@,
{
    slice_to_vec(name.as_slice())
}

} // verus!
