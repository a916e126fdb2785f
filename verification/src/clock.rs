//! The UTC timestamp that each record carries.
use vstd::prelude::*;
use vstd::utf8::*;

verus! {

/// How a timestamp is written: date, time of day, and nanoseconds.
pub const TIMESTAMP_FORMAT: &'static str = "%Y-%m-%d %H:%M:%S%.9f";

/// The characters of `s` from `from` up to `to` are decimal digits.
pub open spec fn all_digits(s: Seq<char>, from: int, to: int) -> bool {
    forall|i: int| from <= i < to ==> '0' <= #[trigger] s[i] <= '9'
}

/// The characters of `s` from `from` up to `to` are the digits of a number from `low` up to `high`.
pub open spec fn number_within(s: Seq<char>, from: int, to: int, low: int, high: int) -> bool {
    &&& all_digits(s, from, to)
    &&& low <= crate::text::digits_value(s.subrange(from, to)) <= high
}

/// The two characters of `s` from `at` on are the digits of a number from `low` up to `high`.
pub open spec fn two_digits(s: Seq<char>, at: int, low: int, high: int) -> bool {
    number_within(s, at, at + 2, low, high)
}

/// The year has a 29th of February.
pub open spec fn is_leap_year(year: int) -> bool {
    year % 4 == 0 && (year % 100 != 0 || year % 400 == 0)
}

/// How many days a month has.
pub open spec fn days_in(year: int, month: int) -> int {
    if month == 2 {
        if is_leap_year(year) {
            29
        } else {
            28
        }
    } else if month == 4 || month == 6 || month == 9 || month == 11 {
        30
    } else {
        31
    }
}

/// The last year that a timestamp can be of.
pub const LAST_YEAR: u32 = 262_142;

/// The most characters that a timestamp has.
pub const TIMESTAMP_SIZE: usize = 32;

/// `s` reads `year-MM-DD hh:mm:ss.nnnnnnnnn`, and is a moment of a day that there is. The year is
/// 1970 or later and has four digits; one after 9999 has a plus sign and five or six digits.
pub open spec fn is_timestamp(s: Seq<char>) -> bool {
    let y = s.len() - 25;
    let year = crate::text::digits_value(
        if s[0] == '+' {
            s.subrange(1, y)
        } else {
            s.subrange(0, y)
        },
    );
    let month = crate::text::digits_value(s.subrange(y + 1, y + 3));
    &&& (y == 4 && number_within(s, 0, y, 1970, 9999)) || ((y == 6 || y == 7) && s[0] == '+'
        && number_within(s, 1, y, 10_000, LAST_YEAR as int))
    &&& s[y] == '-'
    &&& two_digits(s, y + 1, 1, 12)
    &&& s[y + 3] == '-'
    &&& two_digits(s, y + 4, 1, days_in(year, month))
    &&& s[y + 6] == ' '
    &&& two_digits(s, y + 7, 0, 23)
    &&& s[y + 9] == ':'
    &&& two_digits(s, y + 10, 0, 59)
    &&& s[y + 12] == ':'
    &&& two_digits(s, y + 13, 0, 59)
    &&& s[y + 15] == '.'
    &&& all_digits(s, y + 16, y + 25)
}

/// A timestamp can stand inside a JSON string as it is: it is ASCII, at most `TIMESTAMP_SIZE`
/// characters long, and holds neither a quote nor a backslash nor a control character.
pub proof fn timestamp_is_plain(s: Seq<char>)
    requires
        is_timestamp(s),
    ensures
        is_ascii_chars(s),
        29 <= s.len() <= TIMESTAMP_SIZE,
        encode_utf8(s).len() == s.len(),
        forall|i: int|
            0 <= i < s.len() ==> ' ' <= #[trigger] s[i] && s[i] != '"' && s[i] != '\\',
{
    let y = s.len() - 25;
    assert forall|i: int| 0 <= i < s.len() implies ' ' <= #[trigger] s[i] <= ':' && s[i] != '"' by {
        if i >= y {
            let k = i - y;
            assert(k == 0 || 1 <= k < 3 || k == 3 || 4 <= k < 6 || k == 6 || 7 <= k < 9 || k == 9
                || 10 <= k < 12 || k == 12 || 13 <= k < 15 || k == 15 || 16 <= k < 25);
        }
    }
    is_ascii_chars_encode_utf8(s);
}

/// Where the parts of a timestamp stand: the year up to the first dash, two digits each for month,
/// day, hour, minute and second, and nine for the nanoseconds.
pub proof fn timestamp_reads(s: Seq<char>)
    requires
        is_timestamp(s),
    ensures
        ({
            let y = s.len() - 25;
            &&& y == 4 || (y == 6 || y == 7) && s[0] == '+'
            &&& s[y] == '-' && s[y + 3] == '-' && s[y + 6] == ' ' && s[y + 9] == ':' && s[y + 12]
                == ':' && s[y + 15] == '.'
            &&& forall|i: int|
                0 <= i < s.len() && i != y && i != y + 3 && i != y + 6 && i != y + 9 && i != y + 12
                    && i != y + 15 && !(i == 0 && s[0] == '+') ==> '0' <= #[trigger] s[i] <= '9'
        }),
        TIMESTAMP_FORMAT@ == "%Y-%m-%d %H:%M:%S%.9f"@,
{
    let y = s.len() - 25;
    assert forall|i: int|
        0 <= i < s.len() && i != y && i != y + 3 && i != y + 6 && i != y + 9 && i != y + 12 && i != y
            + 15 && !(i == 0 && s[0] == '+') implies '0' <= #[trigger] s[i] <= '9' by {
        if i >= y {
            let k = i - y;
            assert(1 <= k < 3 || 4 <= k < 6 || 7 <= k < 9 || 10 <= k < 12 || 13 <= k < 15 || 16 <= k
                < 25);
        }
    }
}

/// Calls `chrono::Utc::now`, and `format` and `to_string` on what it returns: the current time,
/// written in the given format. Of this one format it is claimed that the text is a timestamp,
/// whatever the time is. Which time it is is not said. chrono stops the program where the clock
/// stands before 1970 or after the last year, and knows no leap seconds of the clock.
#[verifier::external_body]
fn utc_now(format: &str) -> (text: String)
    requires
        format@ == TIMESTAMP_FORMAT@,
    ensures
        is_timestamp(text@),
{
    chrono::Utc::now().format(format).to_string()
}

/// The current time as a timestamp.
pub fn timestamp() -> (text: String)
    ensures
        is_timestamp(text@),
{
    utc_now(TIMESTAMP_FORMAT)
}

} // verus!
