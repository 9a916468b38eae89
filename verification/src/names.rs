//! Fixed names of the on-disk layout, and the order and predicates on entry
//! names that the rest of the library relies on.
//!
//! An entry name is the last component of a path, held as the bytes the
//! operating system reports for it.

use vstd::prelude::*;
use vstd::string::*;

verus! {

/// Directory, below the data root, that holds one directory per run.
pub const PROC_DIR_NAME: &'static str = "proc";

/// Directory, below the data root, that collects the runs that failed.
pub const PROC_FAILED_DIR_NAME: &'static str = "proc_failed";

/// Marker file inside a run directory; it is locked while the run is alive.
pub const LOCK_FILE_NAME: &'static str = "run.lock";

/// Plain-text file inside a run directory that says how the run ended.
pub const REPORT_FILE_NAME: &'static str = "exit_report.txt";

/// Extension of a crash dump inside a run directory.
pub const PANIC_FILE_EXTENSION: &'static str = "panic";

/// Extension of the archives that bundle run directories.
pub const ARCHIVE_DEFAULT_FILE_EXTENSION: &'static str = "zip";

/// Media type under which an archive is offered.
pub const ARCHIVE_MIME_TYPE: &'static str = "application/x-zip";

/// Number of failed runs without a crash dump that retention keeps.
pub const KEEP_NUMBER_OF_FAILED_RUNS: usize = 20;

/// The bytes of a string whose characters are all ASCII.
pub open spec fn ascii(s: Seq<char>) -> Seq<u8> {
    Seq::new(s.len(), |i: int| s[i] as u8)
}

/// The bytes `.panic`: a dot followed by [`PANIC_FILE_EXTENSION`].
pub open spec fn panic_suffix() -> Seq<u8> {
    seq![0x2eu8, 0x70u8, 0x61u8, 0x6eu8, 0x69u8, 0x63u8]
}

/// A name carries the crash-dump extension when it ends in `.panic` and the
/// dot is not its first byte (a leading dot marks a hidden file, not an
/// extension).
pub open spec fn has_panic_extension(name: Seq<u8>) -> bool {
    name.len() > 6 && name.subrange(name.len() - 6, name.len() as int) == panic_suffix()
}

/// The suffix that [`has_panic_extension`] looks for is the dot and the
/// extension constant.
pub proof fn lemma_panic_suffix_is_extension()
    ensures
        panic_suffix() == ascii("."@ + PANIC_FILE_EXTENSION@),
{
    reveal_strlit(".");
    reveal_strlit("panic");
    assert(panic_suffix() =~= ascii("."@ + PANIC_FILE_EXTENSION@));
}

/// Whether `name` is the name of a crash dump.
pub fn is_panic_file_name(name: &[u8]) -> (r: bool)
    ensures
        r == has_panic_extension(name@),
{
    let n = name.len();
    if n <= 6 {
        return false;
    }
    let r = name[n - 6] == 0x2e && name[n - 5] == 0x70 && name[n - 4] == 0x61 && name[n - 3]
        == 0x6e && name[n - 2] == 0x69 && name[n - 1] == 0x63;
    proof {
        let tail = name@.subrange(n - 6, n as int);
        if r {
            assert(tail =~= panic_suffix());
        } else {
            assert(tail[0] == name@[n - 6]);
            assert(tail[1] == name@[n - 5]);
            assert(tail[2] == name@[n - 4]);
            assert(tail[3] == name@[n - 3]);
            assert(tail[4] == name@[n - 2]);
            assert(tail[5] == name@[n - 1]);
        }
    }
    r
}

/// Lexicographic order of two names from position `i` on, given that they
/// agree before it: the first differing byte decides, and a name that ends
/// first comes first.
pub open spec fn lex_le_from(a: Seq<u8>, b: Seq<u8>, i: int) -> bool
    decreases a.len() - i,
{
    if i >= a.len() {
        true
    } else if i >= b.len() {
        false
    } else if a[i] != b[i] {
        a[i] < b[i]
    } else {
        lex_le_from(a, b, i + 1)
    }
}

/// Lexicographic order on names, byte by byte.
pub open spec fn lex_le(a: Seq<u8>, b: Seq<u8>) -> bool {
    lex_le_from(a, b, 0)
}

/// Whether `a` comes before `b`, or equals it, in lexicographic order.
pub fn name_le(a: &[u8], b: &[u8]) -> (r: bool)
    ensures
        r == lex_le(a@, b@),
{
    let mut i: usize = 0;
    while i < a.len() && i < b.len()
        invariant
            i <= a.len(),
            i <= b.len(),
            lex_le(a@, b@) == lex_le_from(a@, b@, i as int),
        decreases a.len() - i,
    {
        if a[i] != b[i] {
            return a[i] < b[i];
        }
        i += 1;
    }
    i >= a.len()
}

proof fn lemma_lex_refl_from(a: Seq<u8>, i: int)
    requires
        0 <= i,
    ensures
        lex_le_from(a, a, i),
    decreases a.len() - i,
{
    if i < a.len() {
        lemma_lex_refl_from(a, i + 1);
    }
}

proof fn lemma_lex_total_from(a: Seq<u8>, b: Seq<u8>, i: int)
    requires
        0 <= i,
    ensures
        lex_le_from(a, b, i) || lex_le_from(b, a, i),
    decreases a.len() - i,
{
    if i < a.len() && i < b.len() && a[i] == b[i] {
        lemma_lex_total_from(a, b, i + 1);
    }
}

proof fn lemma_lex_antisym_from(a: Seq<u8>, b: Seq<u8>, i: int)
    requires
        0 <= i <= a.len(),
        i <= b.len(),
        a.subrange(0, i) == b.subrange(0, i),
        lex_le_from(a, b, i),
        lex_le_from(b, a, i),
    ensures
        a == b,
    decreases a.len() - i,
{
    if i >= a.len() || i >= b.len() {
        assert(a.len() == b.len());
        assert(a =~= a.subrange(0, i));
        assert(b =~= b.subrange(0, i));
    } else {
        assert(a[i] == b[i]);
        assert(a.subrange(0, i + 1) =~= a.subrange(0, i).push(a[i]));
        assert(b.subrange(0, i + 1) =~= b.subrange(0, i).push(b[i]));
        lemma_lex_antisym_from(a, b, i + 1);
    }
}

proof fn lemma_lex_trans_from(a: Seq<u8>, b: Seq<u8>, c: Seq<u8>, i: int)
    requires
        0 <= i,
        lex_le_from(a, b, i),
        lex_le_from(b, c, i),
    ensures
        lex_le_from(a, c, i),
    decreases a.len() - i,
{
    if i < a.len() && i < b.len() && i < c.len() && a[i] == b[i] && b[i] == c[i] {
        lemma_lex_trans_from(a, b, c, i + 1);
    }
}

/// Every name is at most itself.
pub proof fn lemma_lex_le_reflexive(a: Seq<u8>)
    ensures
        lex_le(a, a),
{
    lemma_lex_refl_from(a, 0);
}

/// Of two names, one is at most the other.
pub proof fn lemma_lex_le_total(a: Seq<u8>, b: Seq<u8>)
    ensures
        lex_le(a, b) || lex_le(b, a),
{
    lemma_lex_total_from(a, b, 0);
}

/// Two names that are each at most the other are the same name.
pub proof fn lemma_lex_le_antisymmetric(a: Seq<u8>, b: Seq<u8>)
    requires
        lex_le(a, b),
        lex_le(b, a),
    ensures
        a == b,
{
    assert(a.subrange(0, 0) =~= b.subrange(0, 0));
    lemma_lex_antisym_from(a, b, 0);
}

/// The order on names is transitive.
pub proof fn lemma_lex_le_transitive(a: Seq<u8>, b: Seq<u8>, c: Seq<u8>)
    requires
        lex_le(a, b),
        lex_le(b, c),
    ensures
        lex_le(a, c),
{
    lemma_lex_trans_from(a, b, c, 0);
}

proof fn lemma_lex_from_shift(p1: Seq<u8>, s1: Seq<u8>, p2: Seq<u8>, s2: Seq<u8>, j: int)
    requires
        p1.len() == p2.len(),
        0 <= j,
    ensures
        lex_le_from(p1 + s1, p2 + s2, p1.len() + j) == lex_le_from(s1, s2, j),
    decreases s1.len() - j,
{
    if j < s1.len() && j < s2.len() {
        assert((p1 + s1)[p1.len() + j] == s1[j]);
        assert((p2 + s2)[p1.len() + j] == s2[j]);
        if s1[j] == s2[j] {
            lemma_lex_from_shift(p1, s1, p2, s2, j + 1);
        }
    }
}

proof fn lemma_lex_from_prefix(p1: Seq<u8>, s1: Seq<u8>, p2: Seq<u8>, s2: Seq<u8>, i: int)
    requires
        p1.len() == p2.len(),
        0 <= i <= p1.len(),
    ensures
        lex_le_from(p1 + s1, p2 + s2, i) == if p1.skip(i) == p2.skip(i) {
            lex_le(s1, s2)
        } else {
            lex_le_from(p1, p2, i)
        },
    decreases p1.len() - i,
{
    if i == p1.len() {
        assert(p1.skip(i) =~= p2.skip(i));
        lemma_lex_from_shift(p1, s1, p2, s2, 0);
    } else {
        assert((p1 + s1)[i] == p1[i]);
        assert((p2 + s2)[i] == p2[i]);
        assert(p1.skip(i)[0] == p1[i]);
        assert(p2.skip(i)[0] == p2[i]);
        if p1[i] == p2[i] {
            lemma_lex_from_prefix(p1, s1, p2, s2, i + 1);
            assert(p1.skip(i) =~= seq![p1[i]] + p1.skip(i + 1));
            assert(p2.skip(i) =~= seq![p2[i]] + p2.skip(i + 1));
            if p1.skip(i) == p2.skip(i) {
                assert(p1.skip(i + 1) =~= p1.skip(i).skip(1));
                assert(p2.skip(i + 1) =~= p2.skip(i).skip(1));
            }
        }
    }
}

/// Two names that start with parts of the same length compare by those
/// parts, and by what follows where the parts are equal.
pub proof fn lemma_lex_le_concat(p1: Seq<u8>, s1: Seq<u8>, p2: Seq<u8>, s2: Seq<u8>)
    requires
        p1.len() == p2.len(),
    ensures
        lex_le(p1 + s1, p2 + s2) == if p1 == p2 {
            lex_le(s1, s2)
        } else {
            lex_le(p1, p2)
        },
{
    lemma_lex_from_prefix(p1, s1, p2, s2, 0);
    assert(p1.skip(0) =~= p1);
    assert(p2.skip(0) =~= p2);
}

/// Default file name of the archive that bundles everything a run left
/// behind: `<binary_name>_report.zip`.
pub fn create_report_file_name(binary_name: &str) -> (r: String)
    ensures
        r@ == binary_name@ + "_report."@ + ARCHIVE_DEFAULT_FILE_EXTENSION@,
{
    let mut name = String::from_str(binary_name);
    name.append("_report.");
    name.append(ARCHIVE_DEFAULT_FILE_EXTENSION);
    name
}

/// Default file name of the archive that bundles the failed runs:
/// `<binary_name>_problem_report.zip`.
pub fn create_problem_report_file_name(binary_name: &str) -> (r: String)
    ensures
        r@ == binary_name@ + "_problem_report."@ + ARCHIVE_DEFAULT_FILE_EXTENSION@,
{
    let mut name = String::from_str(binary_name);
    name.append("_problem_report.");
    name.append(ARCHIVE_DEFAULT_FILE_EXTENSION);
    name
}

} // verus!
