//! The shape of the two header lines that carry a timestamp.

use vstd::prelude::*;

use crate::text::{blank, single_line};

verus! {

/// The pattern of the line that says when a file was created.
pub const CREATED_LINE_PATTERN: &'static str =
    r"^/\*   Created: \d{4}/\d{2}/\d{2} \d{2}:\d{2}:\d{2} by .{18}#\+#\s{4}#\+#\s{13}\*/$";

/// The pattern of the line that says when a file was last updated.
pub const UPDATED_LINE_PATTERN: &'static str =
    r"^/\*   Updated: \d{4}/\d{2}/\d{2} \d{2}:\d{2}:\d{2} by .{17}###\s{3}########\.fr\s{7}\*/$";

/// Whether a character that is not ASCII has the Unicode general category
/// `Decimal_Number`, as the tables of the `regex` crate have it.
pub uninterp spec fn decimal_number_beyond_ascii(c: char) -> bool;

/// What `\d` matches: the ASCII digits, and beyond ASCII the decimal numbers
/// of Unicode.
pub open spec fn pattern_digit(c: char, beyond_ascii: spec_fn(char) -> bool) -> bool {
    if c as u32 <= 0x7f {
        '0' <= c <= '9'
    } else {
        beyond_ascii(c)
    }
}

/// A date and a time: `dddd/dd/dd dd:dd:dd`, with `d` for a digit.
pub open spec fn stamp_form(s: Seq<char>, digit: spec_fn(char) -> bool) -> bool {
    &&& s.len() == 19
    &&& digit(s[0]) && digit(s[1]) && digit(s[2]) && digit(s[3])
    &&& s[4] == '/'
    &&& digit(s[5]) && digit(s[6])
    &&& s[7] == '/'
    &&& digit(s[8]) && digit(s[9])
    &&& s[10] == ' '
    &&& digit(s[11]) && digit(s[12])
    &&& s[13] == ':'
    &&& digit(s[14]) && digit(s[15])
    &&& s[16] == ':'
    &&& digit(s[17]) && digit(s[18])
}

/// What `CREATED_LINE_PATTERN` matches, given what a digit is.
pub open spec fn created_line_form(line: Seq<char>, digit: spec_fn(char) -> bool) -> bool {
    &&& line.len() == 80
    &&& line.subrange(0, 14) == "/*   Created: "@
    &&& stamp_form(line.subrange(14, 33), digit)
    &&& line.subrange(33, 37) == " by "@
    &&& single_line(line.subrange(37, 55))
    &&& line.subrange(55, 58) == "#+#"@
    &&& blank(line.subrange(58, 62))
    &&& line.subrange(62, 65) == "#+#"@
    &&& blank(line.subrange(65, 78))
    &&& line.subrange(78, 80) == "*/"@
}

/// What `UPDATED_LINE_PATTERN` matches, given what a digit is.
pub open spec fn updated_line_form(line: Seq<char>, digit: spec_fn(char) -> bool) -> bool {
    &&& line.len() == 80
    &&& line.subrange(0, 14) == "/*   Updated: "@
    &&& stamp_form(line.subrange(14, 33), digit)
    &&& line.subrange(33, 37) == " by "@
    &&& single_line(line.subrange(37, 54))
    &&& line.subrange(54, 57) == "###"@
    &&& blank(line.subrange(57, 60))
    &&& line.subrange(60, 71) == "########.fr"@
    &&& blank(line.subrange(71, 78))
    &&& line.subrange(78, 80) == "*/"@
}

/// The digits of the two patterns.
pub open spec fn stamp_digit() -> spec_fn(char) -> bool {
    |c: char| pattern_digit(c, |d: char| decimal_number_beyond_ascii(d))
}

/// A date and a time as the two patterns ask for them.
pub open spec fn is_stamp(s: Seq<char>) -> bool {
    stamp_form(s, stamp_digit())
}

/// `Regex::new` and `Regex::is_match`, for the two patterns of this module.
///
/// Both patterns are anchored at both ends and have one length, so a match is
/// a statement on each place of the line: the characters that stand for
/// themselves, `\d` for a digit, `\s` for a character with the property
/// `White_Space`, `.` for any character but a line feed. Which characters
/// beyond ASCII `\d` takes is left to the name `decimal_number_beyond_ascii`.
#[verifier::external_body]
fn regex_is_match(pattern: &str, line: &str) -> (b: bool)
    requires
        pattern@ == CREATED_LINE_PATTERN@ || pattern@ == UPDATED_LINE_PATTERN@,
    ensures
        pattern@ == CREATED_LINE_PATTERN@ ==> b == created_line_form(
            line@,
            |c: char| pattern_digit(c, |d: char| decimal_number_beyond_ascii(d)),
        ),
        pattern@ == UPDATED_LINE_PATTERN@ ==> b == updated_line_form(
            line@,
            |c: char| pattern_digit(c, |d: char| decimal_number_beyond_ascii(d)),
        ),
{
    regex::Regex::new(pattern).expect("valid header line pattern").is_match(line)
}

/// Tells whether `line` says when a file was created.
pub fn header_created_line_matches(line: &str) -> (b: bool)
    ensures
        b == created_line_form(line@, stamp_digit()),
{
    regex_is_match(CREATED_LINE_PATTERN, line)
}

/// Tells whether `line` says when a file was last updated.
pub fn header_updated_line_matches(line: &str) -> (b: bool)
    ensures
        b == updated_line_form(line@, stamp_digit()),
{
    regex_is_match(UPDATED_LINE_PATTERN, line)
}

} // verus!
