use investigator::entry::{DirEntry, EntryKind, IoFailure};
use investigator::names::KEEP_NUMBER_OF_FAILED_RUNS;
use investigator::retention::{
    cleanup_dir, dir_has_panic, evidence_of, Evidence, FailedRun, RetentionError,
};

fn run(name: &str, evidence: Evidence) -> FailedRun {
    FailedRun { name: name.as_bytes().to_vec(), kind: EntryKind::Directory, evidence }
}

fn file(name: &str) -> DirEntry {
    DirEntry { name: name.as_bytes().to_vec(), kind: EntryKind::File }
}

#[test]
fn twenty_five_runs_lose_their_five_oldest() {
    let mut entries = Vec::new();
    // Listed newest first, so that the order of the listing is not the order of age.
    for day in (1..=25).rev() {
        entries.push(run(&format!("2024-01-{:02}_00_00_00", day), Evidence::Absent));
    }
    entries.push(run("2023-01-01_00_00_00", Evidence::Present));
    let evict = cleanup_dir(&entries, KEEP_NUMBER_OF_FAILED_RUNS).unwrap();
    assert_eq!(evict, vec![24, 23, 22, 21, 20]);
    let names: Vec<&[u8]> = evict.iter().map(|&i| entries[i].name.as_slice()).collect();
    assert_eq!(
        names,
        vec![
            b"2024-01-01_00_00_00".as_slice(),
            b"2024-01-02_00_00_00".as_slice(),
            b"2024-01-03_00_00_00".as_slice(),
            b"2024-01-04_00_00_00".as_slice(),
            b"2024-01-05_00_00_00".as_slice(),
        ]
    );
}

#[test]
fn a_run_with_a_crash_dump_is_never_evicted() {
    let mut entries = vec![run("1999-01-01_00_00_00", Evidence::Present)];
    for day in 1..=30 {
        entries.push(run(&format!("2024-01-{:02}_00_00_00", day), Evidence::Absent));
    }
    let evict = cleanup_dir(&entries, 0).unwrap();
    assert_eq!(evict.len(), 30);
    assert!(!evict.contains(&0));
}

#[test]
fn runs_with_crash_dumps_do_not_count() {
    let mut entries = Vec::new();
    for day in 1..=20 {
        entries.push(run(&format!("2024-01-{:02}_00_00_00", day), Evidence::Absent));
    }
    for day in 1..=10 {
        entries.push(run(&format!("2023-01-{:02}_00_00_00", day), Evidence::Present));
    }
    assert_eq!(cleanup_dir(&entries, 20), Ok(Vec::new()));
}

#[test]
fn nothing_is_evicted_within_the_bound() {
    assert_eq!(cleanup_dir(&Vec::new(), 20), Ok(Vec::new()));
    let entries = vec![run("b", Evidence::Absent), run("a", Evidence::Absent)];
    assert_eq!(cleanup_dir(&entries, 2), Ok(Vec::new()));
    assert_eq!(cleanup_dir(&entries, 3), Ok(Vec::new()));
    assert_eq!(cleanup_dir(&entries, usize::MAX), Ok(Vec::new()));
}

#[test]
fn eviction_stops_at_the_bound() {
    let entries = vec![
        run("c", Evidence::Absent),
        run("a", Evidence::Absent),
        run("d", Evidence::Absent),
        run("b", Evidence::Absent),
    ];
    assert_eq!(cleanup_dir(&entries, 3), Ok(vec![1]));
    assert_eq!(cleanup_dir(&entries, 2), Ok(vec![1, 3]));
    assert_eq!(cleanup_dir(&entries, 1), Ok(vec![1, 3, 0]));
    assert_eq!(cleanup_dir(&entries, 0), Ok(vec![1, 3, 0, 2]));
}

#[test]
fn only_directories_are_evicted() {
    let entries = vec![
        FailedRun { name: b"a".to_vec(), kind: EntryKind::File, evidence: Evidence::Absent },
        FailedRun { name: b"b".to_vec(), kind: EntryKind::Other, evidence: Evidence::Unreadable },
        run("c", Evidence::Absent),
        run("d", Evidence::Absent),
    ];
    assert_eq!(cleanup_dir(&entries, 1), Ok(vec![2]));
}

#[test]
fn an_unreadable_run_stops_retention() {
    let entries = vec![
        run("a", Evidence::Absent),
        run("b", Evidence::Unreadable),
        run("c", Evidence::Absent),
        run("d", Evidence::Unreadable),
    ];
    assert_eq!(cleanup_dir(&entries, 0), Err(RetentionError::Unreadable(1)));
}

#[test]
fn a_shorter_name_comes_first() {
    let entries = vec![run("ab", Evidence::Absent), run("a", Evidence::Absent)];
    assert_eq!(cleanup_dir(&entries, 1), Ok(vec![1]));
}

#[test]
fn a_directory_with_a_panic_file_holds_a_crash_dump() {
    let entries = vec![file("run.lock"), file("2018-02-14T00:28:07Z.panic"), file("exit_report.txt")];
    assert!(dir_has_panic(EntryKind::Directory, &entries));
}

#[test]
fn a_directory_without_a_panic_file_holds_none() {
    assert!(!dir_has_panic(EntryKind::Directory, &Vec::new()));
    let entries = vec![file("run.lock"), file("exit_report.txt"), file("notes"), file(".panic")];
    assert!(!dir_has_panic(EntryKind::Directory, &entries));
}

#[test]
fn a_directory_named_like_a_panic_file_is_no_crash_dump() {
    let entries = vec![DirEntry { name: b"old.panic".to_vec(), kind: EntryKind::Directory }];
    assert!(!dir_has_panic(EntryKind::Directory, &entries));
    let entries = vec![DirEntry { name: b"old.panic".to_vec(), kind: EntryKind::Other }];
    assert!(!dir_has_panic(EntryKind::Directory, &entries));
}

#[test]
fn what_is_no_directory_holds_no_crash_dump() {
    let entries = vec![file("a.panic")];
    assert!(!dir_has_panic(EntryKind::File, &entries));
    assert!(!dir_has_panic(EntryKind::Other, &entries));
}

#[test]
fn evidence_comes_from_the_listing_of_a_directory() {
    let with_dump = Ok(vec![file("run.lock"), file("2018-02-14T00:28:07Z.panic")]);
    let without = Ok(vec![file("run.lock")]);
    assert_eq!(evidence_of(EntryKind::Directory, &with_dump), Evidence::Present);
    assert_eq!(evidence_of(EntryKind::Directory, &without), Evidence::Absent);
    assert_eq!(evidence_of(EntryKind::Directory, &Ok(Vec::new())), Evidence::Absent);
    assert_eq!(evidence_of(EntryKind::Directory, &Err(IoFailure::Other)), Evidence::Unreadable);
    assert_eq!(evidence_of(EntryKind::Directory, &Err(IoFailure::NotFound)), Evidence::Unreadable);
}

#[test]
fn what_is_no_directory_is_never_evidence() {
    let with_dump = Ok(vec![file("a.panic")]);
    assert_eq!(evidence_of(EntryKind::File, &with_dump), Evidence::Absent);
    assert_eq!(evidence_of(EntryKind::Other, &with_dump), Evidence::Absent);
    assert_eq!(evidence_of(EntryKind::File, &Err(IoFailure::Other)), Evidence::Absent);
}
