use investigator::names::{
    create_problem_report_file_name, create_report_file_name, is_panic_file_name, name_le,
    KEEP_NUMBER_OF_FAILED_RUNS, LOCK_FILE_NAME, PANIC_FILE_EXTENSION, REPORT_FILE_NAME,
};

#[test]
fn report_file_names_carry_the_archive_extension() {
    assert_eq!(create_report_file_name("viewer"), "viewer_report.zip");
    assert_eq!(create_problem_report_file_name("viewer"), "viewer_problem_report.zip");
    assert_eq!(create_report_file_name(""), "_report.zip");
}

#[test]
fn layout_constants() {
    assert_eq!(LOCK_FILE_NAME, "run.lock");
    assert_eq!(REPORT_FILE_NAME, "exit_report.txt");
    assert_eq!(PANIC_FILE_EXTENSION, "panic");
    assert_eq!(KEEP_NUMBER_OF_FAILED_RUNS, 20);
}

#[test]
fn panic_file_names_are_recognised() {
    assert!(is_panic_file_name(b"2018-02-14T00:28:07Z.panic"));
    assert!(is_panic_file_name(b"a.panic"));
    assert!(is_panic_file_name(b"..panic"));
    assert!(!is_panic_file_name(b".panic"));
    assert!(!is_panic_file_name(b"panic"));
    assert!(!is_panic_file_name(b"run.lock"));
    assert!(!is_panic_file_name(b"exit_report.txt"));
    assert!(!is_panic_file_name(b"a.panic.txt"));
    assert!(!is_panic_file_name(b"a.Panic"));
    assert!(!is_panic_file_name(b""));
}

#[test]
fn names_are_ordered_byte_by_byte() {
    assert!(name_le(b"", b""));
    assert!(name_le(b"", b"a"));
    assert!(!name_le(b"a", b""));
    assert!(name_le(b"2024-01-01_00_00_00", b"2024-01-01_00_00_01"));
    assert!(!name_le(b"2024-01-02_00_00_00", b"2024-01-01_23_59_59"));
    assert!(name_le(b"abc", b"abc"));
    assert!(name_le(b"ab", b"abc"));
    assert!(!name_le(b"abc", b"ab"));
    assert!(name_le(b"a\x7f", b"a\x80"));
}
