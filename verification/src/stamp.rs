//! Names that are made from a point in time: the name of a run directory,
//! from the local time at which the run started, and the name of a crash
//! dump, from the time of the crash.

use vstd::prelude::*;
use crate::names::{has_panic_extension, lemma_lex_le_concat, lex_le, lex_le_from, panic_suffix};

verus! {

/// Pattern of the name of a run directory: year, month, day, hour, minute
/// and second of the local time, each padded with zeros to a fixed width.
pub const CURRENT_DIR_FMT: &'static str = "%Y-%m-%d_%H_%M_%S";

/// Smallest year that a date can have.
pub const MIN_YEAR: i32 = -262143;

/// Largest year that a date can have.
pub const MAX_YEAR: i32 = 262142;

/// First second, counted from 1970-01-01T00:00:00Z, that lies beyond the
/// year 9999 and has no four-digit year any more.
pub const END_OF_YEAR_9999: u64 = 253_402_300_800;

/// One billion: the nanoseconds in a second.
pub const NANOS_PER_SECOND: u32 = 1_000_000_000;

/// A point in local time, to the second.
#[derive(Clone, Copy, Debug, PartialEq, Eq, Structural)]
pub struct Stamp {
    /// Year of the proleptic Gregorian calendar; year 0 is 1 BCE.
    pub year: i32,
    /// Month, from 1.
    pub month: u32,
    /// Day of the month, from 1.
    pub day: u32,
    /// Hour, from 0 to 23.
    pub hour: u32,
    /// Minute, from 0 to 59.
    pub minute: u32,
    /// Second, from 0 to 59.
    pub second: u32,
}

/// Whether a year has a 29th of February.
pub open spec fn is_leap_year(year: int) -> bool {
    year % 4 == 0 && (year % 100 != 0 || year % 400 == 0)
}

/// The number of days of a month.
pub open spec fn days_in_month(year: int, month: int) -> int {
    if month == 2 {
        if is_leap_year(year) {
            29
        } else {
            28
        }
    } else if month == 4 || month == 6 || month == 9 || month == 11 {
        30
    } else {
        31
    }
}

impl Stamp {
    /// What the clock promises of every stamp it hands out: each field lies
    /// in the range of its unit.
    pub open spec fn in_range(self) -> bool {
        &&& 1 <= self.month <= 12
        &&& 1 <= self.day <= 31
        &&& self.hour <= 23
        &&& self.minute <= 59
        &&& self.second <= 59
    }

    /// The stamp names a second that exists: a day of the calendar, in a
    /// year that dates can have, and a time of day.
    pub open spec fn valid(self) -> bool {
        &&& MIN_YEAR <= self.year <= MAX_YEAR
        &&& 1 <= self.month <= 12
        &&& 1 <= self.day <= days_in_month(self.year as int, self.month as int)
        &&& self.hour <= 23
        &&& self.minute <= 59
        &&& self.second <= 59
    }

    /// The stamp is not later than `other`: it is earlier in the first
    /// field, from the year down, in which the two differ.
    pub open spec fn not_later(self, other: Stamp) -> bool {
        if self.year != other.year {
            self.year < other.year
        } else if self.month != other.month {
            self.month < other.month
        } else if self.day != other.day {
            self.day < other.day
        } else if self.hour != other.hour {
            self.hour < other.hour
        } else if self.minute != other.minute {
            self.minute < other.minute
        } else {
            self.second <= other.second
        }
    }
}

/// The ASCII digit for a number below ten.
pub open spec fn digit(d: int) -> u8 {
    (0x30 + d) as u8
}

/// A number below a hundred in two digits.
pub open spec fn two_digits(n: int) -> Seq<u8> {
    seq![digit(n / 10), digit(n % 10)]
}

/// A number below ten thousand in four digits.
pub open spec fn four_digits(n: int) -> Seq<u8> {
    seq![digit(n / 1000), digit(n / 100 % 10), digit(n / 10 % 10), digit(n % 10)]
}

/// A number in decimal digits, without leading zeros.
pub open spec fn decimal(n: nat) -> Seq<u8>
    decreases n,
{
    if n < 10 {
        seq![digit(n as int)]
    } else {
        decimal(n / 10).push(digit((n % 10) as int))
    }
}

/// A year as it stands in a name: four digits for the years 0 to 9999, and
/// otherwise a sign followed by at least four digits.
pub open spec fn year_text(year: int) -> Seq<u8> {
    if 0 <= year <= 9999 {
        four_digits(year)
    } else if year > 9999 {
        seq![0x2bu8] + decimal(year as nat)
    } else if year >= -9999 {
        seq![0x2du8] + four_digits(-year)
    } else {
        seq![0x2du8] + decimal((-year) as nat)
    }
}

/// The name of the directory of a run that started at the given time:
/// `YYYY-MM-DD_hh_mm_ss`.
pub open spec fn run_dir_name_of(stamp: Stamp) -> Seq<u8> {
    year_text(stamp.year as int) + seq![0x2du8] + two_digits(stamp.month as int) + seq![0x2du8]
        + two_digits(stamp.day as int) + seq![0x5fu8] + two_digits(stamp.hour as int) + seq![
        0x5fu8,
    ] + two_digits(stamp.minute as int) + seq![0x5fu8] + two_digits(stamp.second as int)
}

/// The text of a point in time as RFC 3339 writes it in UTC, by the seconds
/// since 1970-01-01T00:00:00Z and the nanoseconds of the second:
/// `YYYY-MM-DDThh:mm:ssZ`, with nine digits of fraction before the `Z`
/// where the nanoseconds are not zero. It is used for nanoseconds in whole
/// hundreds only, which every machine keeps.
pub uninterp spec fn rfc3339_text(secs: int, nanos: int) -> Seq<u8>;

/// The name of the crash dump of a crash at the given time.
pub open spec fn panic_file_name_of(secs: int, nanos: int) -> Seq<u8> {
    rfc3339_text(secs, nanos) + panic_suffix()
}

/// The local time of the machine, read through `chrono::Local::now` and
/// taken apart with the accessors of `chrono::Datelike` and
/// `chrono::Timelike`. Trusted: each accessor stays in the range that its
/// documentation gives.
#[verifier::external_body]
fn local_now() -> (r: Stamp)
    ensures
        r.in_range(),
{
    let now = chrono::Local::now();
    Stamp {
        year: chrono::Datelike::year(&now),
        month: chrono::Datelike::month(&now),
        day: chrono::Datelike::day(&now),
        hour: chrono::Timelike::hour(&now),
        minute: chrono::Timelike::minute(&now),
        second: chrono::Timelike::second(&now),
    }
}

/// A stamp formatted by `chrono` with [`CURRENT_DIR_FMT`], through
/// `NaiveDate::from_ymd_opt`, `NaiveDate::and_hms_opt` and
/// `NaiveDateTime::format`. Trusted: the two constructors refuse exactly the
/// stamps that are not valid, and the pattern writes the year in four
/// digits, or signed beyond 0 to 9999, and every other field in two digits.
#[verifier::external_body]
fn format_stamp(stamp: &Stamp) -> (r: Option<Vec<u8>>)
    ensures
        r is Some <==> stamp.valid(),
        r matches Some(name) ==> name@ == run_dir_name_of(*stamp),
{
    let date = chrono::NaiveDate::from_ymd_opt(stamp.year, stamp.month, stamp.day)?;
    let time = date.and_hms_opt(stamp.hour, stamp.minute, stamp.second)?;
    Some(time.format(CURRENT_DIR_FMT).to_string().into_bytes())
}

/// A point in time formatted by `humantime::format_rfc3339`, which reads
/// the seconds and nanoseconds back from a `std::time::SystemTime`. Trusted:
/// the text is twenty bytes long without a fraction and thirty with one. A
/// system time holds nanoseconds or, on some systems, steps of a hundred
/// nanoseconds, so the text is that of the two numbers only where the
/// nanoseconds are whole hundreds, and may lack the fraction where they are
/// not. The time must lie before the year 10000, beyond which the formatter
/// fails.
#[verifier::external_body]
fn format_rfc3339(secs: u64, nanos: u32) -> (r: Vec<u8>)
    requires
        secs < END_OF_YEAR_9999,
        nanos < NANOS_PER_SECOND,
    ensures
        nanos % 100 == 0 ==> r@ == rfc3339_text(secs as int, nanos as int),
        r@.len() == 20 || r@.len() == 30,
        nanos == 0 ==> r@.len() == 20,
{
    let time = std::time::UNIX_EPOCH + std::time::Duration::new(secs, nanos);
    humantime::format_rfc3339(time).to_string().into_bytes()
}

/// The name of the directory of a run that started at `stamp`, or nothing
/// where the stamp names no second that exists.
pub fn run_dir_name(stamp: &Stamp) -> (r: Option<Vec<u8>>)
    ensures
        r is Some <==> stamp.valid(),
        r matches Some(name) ==> name@ == run_dir_name_of(*stamp),
{
    format_stamp(stamp)
}

/// The name of the directory of a run that starts now, with the local time
/// it was made from. Where the clock hands out a time that does not exist,
/// that time comes back as the error.
pub fn current_run_dir_name() -> (r: Result<(Stamp, Vec<u8>), Stamp>)
    ensures
        match r {
            Ok((stamp, name)) => stamp.valid() && name@ == run_dir_name_of(stamp),
            Err(stamp) => stamp.in_range() && !stamp.valid(),
        },
{
    let stamp = local_now();
    match run_dir_name(&stamp) {
        Some(name) => Ok((stamp, name)),
        None => Err(stamp),
    }
}

/// The name of a crash dump from the text of the time of the crash: the
/// text, then `.panic`.
pub fn panic_file_name_from(text: Vec<u8>) -> (r: Vec<u8>)
    ensures
        r@ == text@ + panic_suffix(),
        text@.len() > 0 ==> has_panic_extension(r@),
{
    let mut name = text;
    name.push(0x2e);
    name.push(0x70);
    name.push(0x61);
    name.push(0x6e);
    name.push(0x69);
    name.push(0x63);
    proof {
        assert(name@ =~= text@ + panic_suffix());
        assert(name@.subrange(name@.len() - 6, name@.len() as int) =~= panic_suffix());
    }
    name
}

/// The name of the crash dump of a crash at the given time, counted from
/// 1970-01-01T00:00:00Z: the time as RFC 3339 writes it, then `.panic`.
/// There is no name for a time beyond the year 9999, nor for a count of
/// nanoseconds that is no part of a second. The fraction of the second is
/// as fine as the machine keeps time: the name is that of the two numbers
/// where the nanoseconds are whole hundreds.
pub fn panic_file_name(secs: u64, nanos: u32) -> (r: Option<Vec<u8>>)
    ensures
        r is Some <==> secs < END_OF_YEAR_9999 && nanos < NANOS_PER_SECOND,
        r matches Some(name) ==> {
            &&& has_panic_extension(name@)
            &&& name@.len() == 26 || name@.len() == 36
            &&& nanos == 0 ==> name@.len() == 26
            &&& nanos % 100 == 0 ==> name@ == panic_file_name_of(secs as int, nanos as int)
        },
{
    if secs >= END_OF_YEAR_9999 || nanos >= NANOS_PER_SECOND {
        return None;
    }
    Some(panic_file_name_from(format_rfc3339(secs, nanos)))
}

proof fn lemma_two_digits_order(x: int, y: int)
    requires
        0 <= x <= 99,
        0 <= y <= 99,
    ensures
        (two_digits(x) == two_digits(y)) == (x == y),
        lex_le(two_digits(x), two_digits(y)) == (x <= y),
        two_digits(x).len() == 2,
{
    reveal_with_fuel(lex_le_from, 3);
    if two_digits(x) == two_digits(y) {
        assert(two_digits(x)[0] == two_digits(y)[0]);
        assert(two_digits(x)[1] == two_digits(y)[1]);
    }
}

proof fn lemma_four_digits_split(x: int)
    requires
        0 <= x <= 9999,
    ensures
        four_digits(x) == two_digits(x / 100) + two_digits(x % 100),
        0 <= x / 100 <= 99,
        0 <= x % 100 <= 99,
        x == (x / 100) * 100 + x % 100,
{
    let high = x / 100;
    let low = x % 100;
    assert(x / 1000 == high / 10);
    assert(x / 100 % 10 == high % 10);
    assert(x / 10 % 10 == low / 10);
    assert(x % 10 == low % 10);
    assert(four_digits(x) =~= two_digits(high) + two_digits(low));
}

proof fn lemma_four_digits_order(x: int, y: int)
    requires
        0 <= x <= 9999,
        0 <= y <= 9999,
    ensures
        (four_digits(x) == four_digits(y)) == (x == y),
        lex_le(four_digits(x), four_digits(y)) == (x <= y),
        four_digits(x).len() == 4,
{
    lemma_four_digits_split(x);
    lemma_four_digits_split(y);
    let hx = two_digits(x / 100);
    let lx = two_digits(x % 100);
    let hy = two_digits(y / 100);
    let ly = two_digits(y % 100);
    lemma_two_digits_order(x / 100, y / 100);
    lemma_two_digits_order(x % 100, y % 100);
    lemma_lex_le_concat(hx, lx, hy, ly);
    if hx + lx == hy + ly {
        assert(hx =~= (hx + lx).take(2));
        assert(hy =~= (hy + ly).take(2));
        assert(lx =~= (hx + lx).skip(2));
        assert(ly =~= (hy + ly).skip(2));
    }
}

/// A field of two digits and a separator in front of the rest of a name:
/// two such names compare by the field, and by the rest where the fields
/// are equal.
proof fn lemma_field_order(sep: u8, x: int, rest_x: Seq<u8>, y: int, rest_y: Seq<u8>)
    requires
        0 <= x <= 99,
        0 <= y <= 99,
    ensures
        lex_le(seq![sep] + two_digits(x) + rest_x, seq![sep] + two_digits(y) + rest_y) == if x
            != y {
            x < y
        } else {
            lex_le(rest_x, rest_y)
        },
        (seq![sep] + two_digits(x) + rest_x == seq![sep] + two_digits(y) + rest_y) == (x == y
            && rest_x == rest_y),
{
    let head_x = seq![sep] + two_digits(x);
    let head_y = seq![sep] + two_digits(y);
    lemma_two_digits_order(x, y);
    lemma_lex_le_concat(seq![sep], two_digits(x), seq![sep], two_digits(y));
    lemma_lex_le_concat(head_x, rest_x, head_y, rest_y);
    if head_x == head_y {
        assert(two_digits(x) =~= head_x.skip(1));
        assert(two_digits(y) =~= head_y.skip(1));
    }
    if head_x + rest_x == head_y + rest_y {
        assert(head_x =~= (head_x + rest_x).take(3));
        assert(head_y =~= (head_y + rest_y).take(3));
        assert(rest_x =~= (head_x + rest_x).skip(3));
        assert(rest_y =~= (head_y + rest_y).skip(3));
    }
}

/// The names of run directories sort like the times they are made from, as
/// long as the year has four digits: a name comes before another exactly
/// when its time is not later, and two times have the same name only when
/// they are the same time.
pub proof fn lemma_run_dir_names_sort_by_time(a: Stamp, b: Stamp)
    requires
        a.valid(),
        b.valid(),
        0 <= a.year <= 9999,
        0 <= b.year <= 9999,
    ensures
        lex_le(run_dir_name_of(a), run_dir_name_of(b)) == a.not_later(b),
        (run_dir_name_of(a) == run_dir_name_of(b)) == (a == b),
        run_dir_name_of(a).len() == 19,
{
    let dash = 0x2du8;
    let under = 0x5fu8;
    let a5 = seq![under] + two_digits(a.second as int) + Seq::<u8>::empty();
    let b5 = seq![under] + two_digits(b.second as int) + Seq::<u8>::empty();
    let a4 = seq![under] + two_digits(a.minute as int) + a5;
    let b4 = seq![under] + two_digits(b.minute as int) + b5;
    let a3 = seq![under] + two_digits(a.hour as int) + a4;
    let b3 = seq![under] + two_digits(b.hour as int) + b4;
    let a2 = seq![dash] + two_digits(a.day as int) + a3;
    let b2 = seq![dash] + two_digits(b.day as int) + b3;
    let a1 = seq![dash] + two_digits(a.month as int) + a2;
    let b1 = seq![dash] + two_digits(b.month as int) + b2;
    let ya = four_digits(a.year as int);
    let yb = four_digits(b.year as int);
    assert(run_dir_name_of(a) =~= ya + a1);
    assert(run_dir_name_of(b) =~= yb + b1);
    assert(lex_le(Seq::<u8>::empty(), Seq::<u8>::empty()));
    lemma_field_order(under, a.second as int, Seq::empty(), b.second as int, Seq::empty());
    lemma_field_order(under, a.minute as int, a5, b.minute as int, b5);
    lemma_field_order(under, a.hour as int, a4, b.hour as int, b4);
    lemma_field_order(dash, a.day as int, a3, b.day as int, b3);
    lemma_field_order(dash, a.month as int, a2, b.month as int, b2);
    lemma_four_digits_order(a.year as int, b.year as int);
    lemma_lex_le_concat(ya, a1, yb, b1);
    if ya + a1 == yb + b1 {
        assert(ya =~= (ya + a1).take(4));
        assert(yb =~= (yb + b1).take(4));
        assert(a1 =~= (ya + a1).skip(4));
        assert(b1 =~= (yb + b1).skip(4));
    }
}

} // verus!
