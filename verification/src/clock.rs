//! The calendar in Los Angeles, where the events are held, read from the system clock through
//! `chrono` and `chrono-tz`.

use vstd::prelude::*;

use crate::text::{is_digit, text_le};

verus! {

/// A year as chrono's `%Y` writes it: four digits, zero-padded, for the years 0 to 9999, and
/// otherwise a sign (`+` or `-`) followed by at least four digits.
pub open spec fn is_year_text(s: Seq<char>) -> bool {
    ||| s.len() == 4 && forall|i: int| 0 <= i < 4 ==> is_digit(#[trigger] s[i])
    ||| s.len() >= 5 && (s[0] == '+' || s[0] == '-') && forall|i: int|
        1 <= i < s.len() ==> is_digit(#[trigger] s[i])
}

/// A date as chrono's `%Y-%m-%d` writes it: a year as `%Y` writes it, a dash, the month in two
/// digits, a dash, and the day of the month in two digits.
pub open spec fn is_date_text(s: Seq<char>) -> bool {
    &&& s.len() >= 10
    &&& is_year_text(s.take(s.len() - 6))
    &&& s[s.len() - 6] == '-'
    &&& is_digit(s[s.len() - 5]) && is_digit(s[s.len() - 4])
    &&& s[s.len() - 3] == '-'
    &&& is_digit(s[s.len() - 2]) && is_digit(s[s.len() - 1])
}

/// A year that the clock can give: not written with a minus sign, and, when written in four digits,
/// `1969` or later. chrono's clock reads no moment before 1970 in UTC, which is still 1969 in Los
/// Angeles.
pub open spec fn year_from_1969(s: Seq<char>) -> bool {
    &&& s.len() > 0
    &&& s[0] != '-'
    &&& s.len() == 4 ==> text_le("1969"@, s)
}

/// A date whose year the clock can give (see `year_from_1969`).
pub open spec fn date_from_1969(s: Seq<char>) -> bool {
    year_from_1969(s.take(s.len() - 6))
}

/// The present moment in Los Angeles, written with a chrono format pattern: `%Y` gives the year
/// (such as `2026`), `%Y-%m-%d` the date (such as `2026-03-07`).
///
/// Calls `chrono::Utc::now`, converts the instant to `chrono_tz::America::Los_Angeles` with
/// `DateTime::with_timezone`, and writes it with `DateTime::format` and `to_string`. The text
/// depends on the moment of the call, so only its shape is claimed, which holds whatever the
/// moment: chrono writes `%Y` as four zero-padded digits for the years 0 to 9999 and with a sign
/// otherwise, and `%m` and `%d` as two zero-padded digits; and the moment is not before 1970 in
/// UTC, since `Utc::now` panics on a system clock set before the Unix epoch, so the year is 1969
/// or later. Only the two patterns above are admitted, since `to_string` panics on a pattern that
/// chrono cannot write. Which moment is read is not stated.
#[verifier::external_body]
pub(crate) fn los_angeles_now(pattern: &str) -> (text: String)
    requires
        pattern@ == "%Y"@ || pattern@ == "%Y-%m-%d"@,
    ensures
        pattern@ == "%Y"@ ==> is_year_text(text@),
        pattern@ == "%Y-%m-%d"@ ==> is_date_text(text@),
        pattern@ == "%Y"@ ==> year_from_1969(text@),
        pattern@ == "%Y-%m-%d"@ ==> date_from_1969(text@),
{
    chrono::Utc::now().with_timezone(&chrono_tz::America::Los_Angeles).format(pattern).to_string()
}

} // verus!
