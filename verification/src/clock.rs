//! Local wall-clock stamps.
use vstd::prelude::*;

verus! {

/// `c` is an ASCII digit.
pub open spec fn ascii_digit(c: char) -> bool {
    '0' <= c <= '9'
}

/// `s` ends with a date and time of day to the minute: `-MM-DD HH:MM` after a year of at least
/// four characters.
pub open spec fn minute_stamp_shape(s: Seq<char>) -> bool {
    let n = s.len() as int;
    &&& n >= 16
    &&& s[n - 12] == '-' && ascii_digit(s[n - 11]) && ascii_digit(s[n - 10])
    &&& s[n - 9] == '-' && ascii_digit(s[n - 8]) && ascii_digit(s[n - 7])
    &&& s[n - 6] == ' ' && ascii_digit(s[n - 5]) && ascii_digit(s[n - 4])
    &&& s[n - 3] == ':' && ascii_digit(s[n - 2]) && ascii_digit(s[n - 1])
}

/// `s` is a time of day `HH:MM:SS`.
pub open spec fn time_of_day_shape(s: Seq<char>) -> bool {
    &&& s.len() == 8
    &&& ascii_digit(s[0]) && ascii_digit(s[1]) && s[2] == ':'
    &&& ascii_digit(s[3]) && ascii_digit(s[4]) && s[5] == ':'
    &&& ascii_digit(s[6]) && ascii_digit(s[7])
}

/// The local time as `%Y-%m-%d %H:%M` (`chrono::Local::now().format(..)`).
///
/// The time depends on the clock; stated is only the shape chrono's format gives every time
/// (a year of at least four characters, then two-digit month, day, hour and minute).
#[verifier::external_body]
pub(crate) fn local_minute_stamp() -> (res: String)
    ensures
        minute_stamp_shape(res@),
{
    chrono::Local::now().format("%Y-%m-%d %H:%M").to_string()
}

/// The local time as `%Y-%m-%d %H:%M:%S` (`chrono::Local::now().format(..)`).
///
/// The time depends on the clock; stated is only the shape chrono's format gives every time:
/// a stamp to the minute followed by `:` and two-digit seconds.
#[verifier::external_body]
pub(crate) fn local_second_stamp() -> (res: String)
    ensures
        res@.len() >= 19,
        minute_stamp_shape(res@.take(res@.len() - 3)),
        res@[res@.len() - 3] == ':' && ascii_digit(res@[res@.len() - 2]) && ascii_digit(res@[res@.len() - 1]),
{
    chrono::Local::now().format("%Y-%m-%d %H:%M:%S").to_string()
}

/// The local time of day as `%H:%M:%S` (`chrono::Local::now().format(..)`).
///
/// The time depends on the clock; stated is only its shape, `HH:MM:SS`.
#[verifier::external_body]
pub(crate) fn local_time_of_day() -> (res: String)
    ensures
        time_of_day_shape(res@),
{
    chrono::Local::now().format("%H:%M:%S").to_string()
}

/// The local wall-clock time, read as if it were UTC, in whole seconds since the Unix epoch
/// (`chrono::Local::now().naive_local().and_utc().timestamp()`).
///
/// The result depends on the clock, so nothing is stated about it.
#[verifier::external_body]
pub(crate) fn local_now_seconds() -> i64 {
    chrono::Local::now().naive_local().and_utc().timestamp()
}

} // verus!
