//! The texts that a run leaves behind: the report of how it ended, the dump
//! of a crash, and the line that describes the machine.

use vstd::prelude::*;
use vstd::string::*;

verus! {

/// Name used for a thread that has none.
pub const UNNAMED_THREAD: &'static str = "<unnamed>";

/// Cause used for a crash whose payload is no text.
pub const UNKNOWN_CAUSE: &'static str = "Box<Any>";

/// What stands for a piece of information about the machine that is not
/// to be had.
pub const UNKNOWN: &'static str = "unknown";

/// Where in the source a crash happened.
#[derive(Debug)]
pub struct PanicLocation {
    /// The source file.
    pub file: String,
    /// The line, from 1.
    pub line: u32,
    /// The column, from 1.
    pub column: u32,
}

/// The text of a digit.
pub open spec fn digit_text(d: int) -> Seq<char> {
    if d == 0 {
        "0"@
    } else if d == 1 {
        "1"@
    } else if d == 2 {
        "2"@
    } else if d == 3 {
        "3"@
    } else if d == 4 {
        "4"@
    } else if d == 5 {
        "5"@
    } else if d == 6 {
        "6"@
    } else if d == 7 {
        "7"@
    } else if d == 8 {
        "8"@
    } else {
        "9"@
    }
}

/// A number in decimal digits.
pub open spec fn decimal_text(n: nat) -> Seq<char>
    decreases n,
{
    if n < 10 {
        digit_text(n as int)
    } else {
        decimal_text(n / 10) + digit_text((n % 10) as int)
    }
}

/// The text, or what stands for it where there is none.
pub open spec fn text_or(text: Option<&str>, fallback: Seq<char>) -> Seq<char> {
    match text {
        Some(t) => t@,
        None => fallback,
    }
}

/// The report of a run that ended with an error: a heading, the error, and
/// a line break.
pub open spec fn exit_report(error: Seq<char>) -> Seq<char> {
    "The program run exited with error:\n"@ + error + "\n"@
}

/// The place of a crash as `file:line:column`.
pub open spec fn location_text(location: PanicLocation) -> Seq<char> {
    location.file@ + ":"@ + decimal_text(location.line as nat) + ":"@ + decimal_text(
        location.column as nat,
    )
}

/// The dump of a crash: the thread, the cause, the place where it is known,
/// and the stack below.
pub open spec fn panic_dump_of(
    thread_name: Option<&str>,
    cause: Option<&str>,
    location: Option<PanicLocation>,
    backtrace: Seq<char>,
) -> Seq<char> {
    let head = "Thread '"@ + text_or(thread_name, UNNAMED_THREAD@) + "' panicked at '"@ + text_or(
        cause,
        UNKNOWN_CAUSE@,
    ) + "'"@;
    match location {
        Some(place) => head + ": "@ + location_text(place) + "\n"@ + backtrace,
        None => head + "\n"@ + backtrace,
    }
}

/// The line that describes the machine.
pub open spec fn sysinfo_line(
    system: Option<&str>,
    kernel: Option<&str>,
    os: Option<&str>,
    hostname: Option<&str>,
) -> Seq<char> {
    "System='"@ + text_or(system, UNKNOWN@) + "' Kernel='"@ + text_or(kernel, UNKNOWN@)
        + "' OS='"@ + text_or(os, UNKNOWN@) + "' Hostname="@ + text_or(hostname, UNKNOWN@)
}

fn digit_str(d: u32) -> (r: &'static str)
    requires
        d < 10,
    ensures
        r@ == digit_text(d as int),
{
    if d == 0 {
        "0"
    } else if d == 1 {
        "1"
    } else if d == 2 {
        "2"
    } else if d == 3 {
        "3"
    } else if d == 4 {
        "4"
    } else if d == 5 {
        "5"
    } else if d == 6 {
        "6"
    } else if d == 7 {
        "7"
    } else if d == 8 {
        "8"
    } else {
        "9"
    }
}

/// Appends a number in decimal digits.
fn append_decimal(text: &mut String, n: u32)
    ensures
        final(text)@ == old(text)@ + decimal_text(n as nat),
    decreases n,
{
    if n >= 10 {
        append_decimal(text, n / 10);
    }
    text.append(digit_str(n % 10));
    assert(text@ =~= old(text)@ + decimal_text(n as nat));
}

/// Appends a text, or what stands for it where there is none.
fn append_or(text: &mut String, piece: Option<&str>, fallback: &str)
    ensures
        final(text)@ == old(text)@ + text_or(piece, fallback@),
{
    match piece {
        Some(p) => text.append(p),
        None => text.append(fallback),
    }
}

/// The report that a run appends to its report file when it ends with an
/// error; `error` is the error written out.
pub fn write_report_error(error: &str) -> (r: String)
    ensures
        r@ == exit_report(error@),
{
    let mut text = String::from_str("The program run exited with error:\n");
    text.append(error);
    text.append("\n");
    text
}

/// The dump that is written when a thread crashes. A thread without a name
/// and a cause that is no text get a fixed text each; the place is left out
/// where it is not known.
pub fn setup_panic(
    thread_name: Option<&str>,
    cause: Option<&str>,
    location: Option<&PanicLocation>,
    backtrace: &str,
) -> (r: String)
    ensures
        r@ == panic_dump_of(
            thread_name,
            cause,
            match location {
                Some(place) => Some(*place),
                None => None,
            },
            backtrace@,
        ),
{
    let mut text = String::from_str("Thread '");
    append_or(&mut text, thread_name, UNNAMED_THREAD);
    text.append("' panicked at '");
    append_or(&mut text, cause, UNKNOWN_CAUSE);
    text.append("'");
    match location {
        Some(place) => {
            text.append(": ");
            let ghost head = text@;
            text.append(place.file.as_str());
            text.append(":");
            append_decimal(&mut text, place.line);
            text.append(":");
            append_decimal(&mut text, place.column);
            assert(text@ =~= head + location_text(*place));
        },
        None => {},
    }
    text.append("\n");
    text.append(backtrace);
    assert(text@ =~= panic_dump_of(
        thread_name,
        cause,
        match location {
            Some(place) => Some(*place),
            None => None,
        },
        backtrace@,
    ));
    text
}

/// The line that describes the machine in the log; what is not known reads
/// `unknown`.
pub fn log_sysinfo(
    system: Option<&str>,
    kernel: Option<&str>,
    os: Option<&str>,
    hostname: Option<&str>,
) -> (r: String)
    ensures
        r@ == sysinfo_line(system, kernel, os, hostname),
{
    let mut text = String::from_str("System='");
    append_or(&mut text, system, UNKNOWN);
    text.append("' Kernel='");
    append_or(&mut text, kernel, UNKNOWN);
    text.append("' OS='");
    append_or(&mut text, os, UNKNOWN);
    text.append("' Hostname=");
    append_or(&mut text, hostname, UNKNOWN);
    text
}

} // verus!
