use investigator::report::{log_sysinfo, setup_panic, write_report_error, PanicLocation};

#[test]
fn exit_report_frames_the_error() {
    assert_eq!(
        write_report_error("disk full"),
        "The program run exited with error:\ndisk full\n"
    );
    assert_eq!(write_report_error(""), "The program run exited with error:\n\n");
}

#[test]
fn panic_dump_with_a_location() {
    let location = PanicLocation { file: "src/main.rs".to_string(), line: 42, column: 7 };
    assert_eq!(
        setup_panic(Some("worker"), Some("index out of bounds"), Some(&location), "0: main\n"),
        "Thread 'worker' panicked at 'index out of bounds': src/main.rs:42:7\n0: main\n"
    );
}

#[test]
fn panic_dump_without_a_location() {
    assert_eq!(
        setup_panic(Some("worker"), Some("boom"), None, "trace"),
        "Thread 'worker' panicked at 'boom'\ntrace"
    );
}

#[test]
fn panic_dump_of_a_nameless_thread_and_cause() {
    assert_eq!(
        setup_panic(None, None, None, ""),
        "Thread '<unnamed>' panicked at 'Box<Any>'\n"
    );
}

#[test]
fn panic_dump_writes_numbers_in_decimal() {
    let location = PanicLocation { file: "a.rs".to_string(), line: 0, column: u32::MAX };
    assert_eq!(
        setup_panic(Some("t"), Some("c"), Some(&location), "b"),
        "Thread 't' panicked at 'c': a.rs:0:4294967295\nb"
    );
    let location = PanicLocation { file: "a.rs".to_string(), line: 10, column: 1009 };
    assert_eq!(
        setup_panic(Some("t"), Some("c"), Some(&location), "b"),
        "Thread 't' panicked at 'c': a.rs:10:1009\nb"
    );
}

#[test]
fn sysinfo_line_with_everything_known() {
    assert_eq!(
        log_sysinfo(Some("Linux"), Some("6.1"), Some("Debian 12"), Some("box")),
        "System='Linux' Kernel='6.1' OS='Debian 12' Hostname=box"
    );
}

#[test]
fn sysinfo_line_with_nothing_known() {
    assert_eq!(
        log_sysinfo(None, None, None, None),
        "System='unknown' Kernel='unknown' OS='unknown' Hostname=unknown"
    );
    assert_eq!(
        log_sysinfo(Some("Linux"), None, Some("Debian"), None),
        "System='Linux' Kernel='unknown' OS='Debian' Hostname=unknown"
    );
}
