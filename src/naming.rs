//! Names of saved screenshots, from the local time of the capture.

use vstd::prelude::*;
use vstd::string::*;

verus! {

/// A local calendar date and time of day, to the second.
#[derive(Clone, Copy, Debug, PartialEq, Eq, Structural)]
pub struct Timestamp {
    pub year: i32,
    pub month: u32,
    pub day: u32,
    pub hour: u32,
    pub minute: u32,
    pub second: u32,
}

/// The `strftime` pattern of the time in a screenshot's name.
pub const FILE_TIME_FORMAT: &'static str = "%Y%m%d_%H%M%S";

/// What every screenshot's name starts with.
pub const FILE_PREFIX: &'static str = "Screenshot_";

/// The extension of a saved screenshot: the files are PNG images.
pub const FILE_EXTENSION: &'static str = ".png";

/// Whether `year` is a leap year of the proleptic Gregorian calendar.
pub open spec fn is_leap_year(year: int) -> bool {
    (year % 4 == 0 && year % 100 != 0) || year % 400 == 0
}

/// The number of days in `month` (1 to 12) of `year`.
pub open spec fn days_in_month(year: int, month: int) -> int {
    if month == 2 {
        if is_leap_year(year) {
            29
        } else {
            28
        }
    } else if month == 4 || month == 6 || month == 9 || month == 11 {
        30
    } else {
        31
    }
}

/// `t` is a real date and time between the years 0 and 9999.
pub open spec fn valid_timestamp(t: Timestamp) -> bool {
    &&& 0 <= t.year <= 9999
    &&& 1 <= t.month <= 12
    &&& 1 <= t.day <= days_in_month(t.year as int, t.month as int)
    &&& t.hour < 24
    &&& t.minute < 60
    &&& t.second < 60
}

/// The decimal digit `d`, from 0 to 9.
pub open spec fn digit(d: int) -> char {
    if d == 0 {
        '0'
    } else if d == 1 {
        '1'
    } else if d == 2 {
        '2'
    } else if d == 3 {
        '3'
    } else if d == 4 {
        '4'
    } else if d == 5 {
        '5'
    } else if d == 6 {
        '6'
    } else if d == 7 {
        '7'
    } else if d == 8 {
        '8'
    } else {
        '9'
    }
}

/// The last `width` decimal digits of the non-negative `n`, padded with
/// zeros on the left.
pub open spec fn zero_padded(n: int, width: nat) -> Seq<char>
    decreases width,
{
    if width == 0 {
        Seq::empty()
    } else {
        zero_padded(n / 10, (width - 1) as nat).push(digit(n % 10))
    }
}

/// The time in a screenshot's name: year, month and day, an underscore, then
/// hour, minute and second, each zero-padded (`20210708_093405`).
pub open spec fn timestamp_text(t: Timestamp) -> Seq<char> {
    zero_padded(t.year as int, 4) + zero_padded(t.month as int, 2) + zero_padded(t.day as int, 2)
        + seq!['_'] + zero_padded(t.hour as int, 2) + zero_padded(t.minute as int, 2)
        + zero_padded(t.second as int, 2)
}

/// Relies on chrono's `NaiveDate::from_ymd_opt`, `NaiveDate::and_hms_opt`
/// and `NaiveDateTime::format`: a valid date and time is accepted, and the
/// pattern `%Y%m%d_%H%M%S` writes the year zero-padded to four digits and
/// each other field zero-padded to two.
#[verifier::external_body]
fn format_timestamp(t: &Timestamp, pattern: &str) -> (r: Option<String>)
    requires
        pattern@ == FILE_TIME_FORMAT@,
    ensures
        valid_timestamp(*t) ==> r is Some && r.unwrap()@ == timestamp_text(*t),
{
    match chrono::NaiveDate::from_ymd_opt(t.year, t.month, t.day) {
        Some(date) => match date.and_hms_opt(t.hour, t.minute, t.second) {
            Some(time) => Some(time.format(pattern).to_string()),
            None => None,
        },
        None => None,
    }
}

impl Timestamp {
    /// Whether this is a real date and time between the years 0 and 9999.
    pub fn is_valid(&self) -> (r: bool)
        ensures
            r == valid_timestamp(*self),
    {
        if self.year < 0 || self.year > 9999 || self.month < 1 || self.month > 12 {
            return false;
        }
        let leap = (self.year % 4 == 0 && self.year % 100 != 0) || self.year % 400 == 0;
        let month_days: u32 = if self.month == 2 {
            if leap {
                29
            } else {
                28
            }
        } else if self.month == 4 || self.month == 6 || self.month == 9 || self.month == 11 {
            30
        } else {
            31
        };
        1 <= self.day && self.day <= month_days && self.hour < 24 && self.minute < 60
            && self.second < 60
    }
}

/// The file name of a screenshot captured at `t`:
/// `Screenshot_YYYYMMDD_HHMMSS.png`; `None` when `t` is no valid date and time
/// between the years 0 and 9999.
pub fn screenshot_file_name(t: &Timestamp) -> (r: Option<String>)
    ensures
        r is Some <==> valid_timestamp(*t),
        r matches Some(name) ==> name@ == FILE_PREFIX@ + timestamp_text(*t) + FILE_EXTENSION@,
{
    if !t.is_valid() {
        return None;
    }
    let time = format_timestamp(t, FILE_TIME_FORMAT).unwrap();
    let name = String::from_str(FILE_PREFIX);
    let name = name.concat(time.as_str());
    Some(name.concat(FILE_EXTENSION))
}

} // verus!
