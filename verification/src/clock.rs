//! The local time, written as headers show it.

use vstd::prelude::*;

verus! {

/// How a timestamp is written.
pub const TIMESTAMP_FORMAT: &'static str = "%Y/%m/%d %H:%M:%S";

/// One of the ten ASCII digits.
pub open spec fn ascii_digit(c: char) -> bool {
    '0' <= c <= '9'
}

/// A text of ASCII digits.
pub open spec fn ascii_digits(s: Seq<char>) -> bool {
    forall|i: int| 0 <= i < s.len() ==> ascii_digit(#[trigger] s[i])
}

/// The number that two digits stand for.
pub open spec fn two_digit_number(tens: char, ones: char) -> int {
    (tens as int - '0' as int) * 10 + (ones as int - '0' as int)
}

/// Two digits at this place, which stand for a number from `low` to `high`.
pub open spec fn two_digits(s: Seq<char>, place: int, low: int, high: int) -> bool {
    &&& ascii_digit(s[place])
    &&& ascii_digit(s[place + 1])
    &&& low <= two_digit_number(s[place], s[place + 1]) <= high
}

/// A year of the clock: four digits from 1969 on, the year that zones behind
/// UTC had when the clock started; or, for a year that four digits do not hold,
/// a plus sign and at least five digits, the first of them no zero.
pub open spec fn year_text(s: Seq<char>) -> bool {
    ||| {
        &&& s.len() == 4
        &&& ascii_digits(s)
        &&& two_digit_number(s[0], s[1]) * 100 + two_digit_number(s[2], s[3]) >= 1969
    }
    ||| s.len() >= 6 && s[0] == '+' && s[1] != '0' && ascii_digits(s.skip(1))
}

/// What stands behind the year: a month and a day, and a time of day that may
/// be a leap second, written `/mm/dd HH:MM:SS`.
pub open spec fn after_year_text(s: Seq<char>) -> bool {
    &&& s.len() == 15
    &&& s[0] == '/' && two_digits(s, 1, 1, 12)
    &&& s[3] == '/' && two_digits(s, 4, 1, 31)
    &&& s[6] == ' ' && two_digits(s, 7, 0, 23)
    &&& s[9] == ':' && two_digits(s, 10, 0, 59)
    &&& s[12] == ':' && two_digits(s, 13, 0, 60)
}

/// What the clock may show.
pub open spec fn clock_text(s: Seq<char>) -> bool {
    &&& s.len() >= 19
    &&& year_text(s.take(s.len() - 15))
    &&& after_year_text(s.skip(s.len() - 15))
}

/// `chrono::Local::now`, formatted by `DateTime::format` and `to_string`.
///
/// Which time comes back rests on the clock and the time zone of the machine,
/// so only the shape of the text and the ranges of its numbers are claimed. The
/// clock is taken to stand at 1970 or later, and the time zone to be known and
/// less than a day away from UTC: `chrono` panics where the machine has it
/// otherwise.
#[verifier::external_body]
fn local_time(format: &str) -> (text: String)
    requires
        format@ == TIMESTAMP_FORMAT@,
    ensures
        clock_text(text@),
{
    chrono::Local::now().format(format).to_string()
}

/// The current local time.
pub fn current_timestamp() -> (timestamp: String)
    ensures
        clock_text(timestamp@),
{
    local_time(TIMESTAMP_FORMAT)
}

} // verus!
