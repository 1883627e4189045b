//! What the web routes answer: the link a request is redirected to, or `None` for "not found".
//!
//! `/<event>` and `/<event>/alt` go to the event's current stream, `/<event>/<day>` and
//! `/<event>/<day>/alt` to the stream of a day counted from 1. Event codes are compared in
//! lowercase.

use vstd::prelude::*;

use vstd::utf8::is_ascii_chars;

use crate::clock::{date_from_1969, is_date_text, is_year_text, year_from_1969};
use crate::data::{
    current_stream_in, day_stream_in, get_current_stream, get_day_stream, get_day_stream_for_year,
    get_stream_on_date, schedule_of,
};
use crate::schedule::{stream_table, EventStream, YearEntry};
use crate::text::is_digit;

verus! {

/// The text that `str::to_lowercase` makes of `s`: each character replaced by its lowercase
/// mapping in Unicode.
pub uninterp spec fn lowercase(s: Seq<char>) -> Seq<char>;

/// A character with the ASCII capitals `A` to `Z` replaced by `a` to `z`.
pub open spec fn ascii_lower_char(c: char) -> char {
    if ('A' as u32) <= (c as u32) <= ('Z' as u32) {
        ((c as u32) + 32) as char
    } else {
        c
    }
}

/// A text with the ASCII capitals `A` to `Z` replaced by `a` to `z`, and nothing else changed.
pub open spec fn ascii_lowercase(s: Seq<char>) -> Seq<char> {
    s.map_values(|c: char| ascii_lower_char(c))
}

/// Calls `str::to_lowercase`. Claims that the result depends on the text alone, through
/// `lowercase`, and, for a text of ASCII characters only, what the Unicode lowercase mapping is
/// there: `A` to `Z` become `a` to `z` and every other ASCII character stays as it is. The
/// mapping of other characters is not written out.
#[verifier::external_body]
fn to_lowercase(s: &str) -> (lower: String)
    ensures
        lower@ == lowercase(s@),
        is_ascii_chars(s@) ==> lower@ == ascii_lowercase(s@),
{
    s.to_lowercase()
}

/// The number written by the decimal digits `d`.
pub open spec fn decimal_value(d: Seq<char>) -> nat
    decreases d.len(),
{
    if d.len() == 0 {
        0
    } else {
        decimal_value(d.drop_last()) * 10 + ((d.last() as u32) - ('0' as u32)) as nat
    }
}

/// The digits of a number written with an optional leading `+`: the text without that sign.
pub open spec fn unsigned_digits(s: Seq<char>) -> Seq<char> {
    if s.len() > 0 && s[0] == '+' {
        s.drop_first()
    } else {
        s
    }
}

/// One or more characters, all ASCII decimal digits.
pub open spec fn all_digits(d: Seq<char>) -> bool {
    d.len() > 0 && forall|i: int| 0 <= i < d.len() ==> is_digit(#[trigger] d[i])
}

/// The `usize` that the text `s` writes in decimal, as `str::parse::<usize>` (that is,
/// `usize::from_str_radix` with radix 10) reads it: an optional `+` followed by one or more ASCII
/// digits, whose value fits in a `usize`. Any other text writes none.
pub open spec fn decimal_usize(s: Seq<char>) -> Option<usize> {
    let digits = unsigned_digits(s);
    if all_digits(digits) && decimal_value(digits) <= usize::MAX {
        Some(decimal_value(digits) as usize)
    } else {
        None
    }
}

/// A number written in digits is at least the number written by any first part of them.
pub proof fn lemma_decimal_value_prefix(d: Seq<char>, k: int)
    requires
        0 <= k <= d.len(),
        forall|i: int| 0 <= i < d.len() ==> is_digit(#[trigger] d[i]),
    ensures
        decimal_value(d.take(k)) <= decimal_value(d),
    decreases d.len(),
{
    if k == d.len() {
        assert(d.take(k) =~= d);
    } else {
        let rest = d.drop_last();
        assert(rest.take(k) =~= d.take(k));
        assert forall|i: int| 0 <= i < rest.len() implies is_digit(#[trigger] rest[i]) by {
            assert(rest[i] == d[i]);
        }
        lemma_decimal_value_prefix(rest, k);
    }
}

/// Reads the `usize` that `s` writes in decimal (see `decimal_usize`).
fn parse_usize(s: &str) -> (n: Option<usize>)
    ensures
        n == decimal_usize(s@),
{
    let len = s.unicode_len();
    let mut start: usize = 0;
    if len > 0 && s.get_char(0) == '+' {
        start = 1;
    }
    let ghost digits = unsigned_digits(s@);
    assert(digits =~= s@.skip(start as int));
    if start >= len {
        return None;
    }
    let mut value: usize = 0;
    let mut i: usize = start;
    assert(digits.take(0) =~= Seq::<char>::empty());
    while i < len
        invariant
            len == s@.len(),
            start <= i <= len,
            digits == unsigned_digits(s@),
            digits =~= s@.skip(start as int),
            forall|k: int| 0 <= k < i - start ==> is_digit(#[trigger] digits[k]),
            value == decimal_value(digits.take(i - start)),
        decreases len - i,
    {
        let c = s.get_char(i);
        assert(c == digits[i - start]);
        if !(('0' as u32) <= (c as u32) && (c as u32) <= ('9' as u32)) {
            return None;
        }
        let digit = ((c as u32) - ('0' as u32)) as usize;
        let ghost k = i - start;
        assert(digits.take(k + 1).drop_last() =~= digits.take(k));
        assert(decimal_value(digits.take(k + 1)) == value * 10 + digit);
        let next = match value.checked_mul(10) {
            Some(tens) => tens.checked_add(digit),
            None => None,
        };
        match next {
            Some(v) => {
                value = v;
            },
            None => {
                proof {
                    if all_digits(digits) {
                        lemma_decimal_value_prefix(digits, k + 1);
                    }
                }
                return None;
            },
        }
        i = i + 1;
    }
    assert(digits.take(len - start) =~= digits);
    Some(value)
}

/// The day, counted from 0, that a day route's text names, counting from 1: none when the text is
/// not a whole number of at least 1.
pub open spec fn day_index_of(day: Seq<char>) -> Option<int> {
    match decimal_usize(day) {
        Some(n) => if n >= 1 {
            Some(n - 1)
        } else {
            None
        },
        None => None,
    }
}

/// What a day route answers for the season `year`: when `day` writes a number `n` of 1 or more,
/// the link for day `n - 1` (counted from 0) of the event, else nothing.
pub open spec fn day_route_in(
    t: Seq<YearEntry>,
    year: Seq<char>,
    event_lower: Seq<char>,
    day: Seq<char>,
    alt: bool,
) -> Option<&'static str> {
    match day_index_of(day) {
        Some(i) => day_stream_in(t, year, event_lower, i, alt),
        None => None,
    }
}

fn day_index(day: &str) -> (index: Option<usize>)
    ensures
        match index {
            Some(i) => day_index_of(day@) == Some(i as int),
            None => day_index_of(day@) is None,
        },
{
    let day_num = match parse_usize(day) {
        Some(d) => d,
        None => return None,
    };
    if day_num < 1 {
        return None;
    }
    Some(day_num - 1)
}

/// The answer of the day routes in the season `year`: the link for the day that `day` names,
/// counting from 1, of the event whose code is `event` in lowercase; `None` when `day` is not a
/// whole number of at least 1, or the event has no such day.
pub fn day_route_for_year(year: &str, event: &str, day: &str, alt: bool) -> (link: Option<
    &'static str,
>)
    ensures
        link == day_route_in(stream_table(), year@, lowercase(event@), day@, alt),
        is_ascii_chars(event@) ==> link == day_route_in(
            stream_table(),
            year@,
            ascii_lowercase(event@),
            day@,
            alt,
        ),
{
    let day_index = match day_index(day) {
        Some(i) => i,
        None => return None,
    };
    let event_lower = to_lowercase(event);
    get_day_stream_for_year(year, event_lower.as_str(), day_index, alt)
}

/// The answer of the current-stream routes for the season `year` on the date `today` (written
/// `YYYY-MM-DD`): the current stream of the event whose code is `event` in lowercase, as
/// `get_stream_on_date` finds it.
pub fn current_route_on_date(year: &str, event: &str, today: &str, alt: bool) -> (link: Option<
    &'static str,
>)
    ensures
        link == current_stream_in(stream_table(), year@, lowercase(event@), today@, alt),
        is_ascii_chars(event@) ==> link == current_stream_in(
            stream_table(),
            year@,
            ascii_lowercase(event@),
            today@,
            alt,
        ),
{
    let event_lower = to_lowercase(event);
    get_stream_on_date(year, event_lower.as_str(), today, alt)
}

/// The answer of the current-stream routes: the current stream of the event whose code is
/// `event` in lowercase.
fn current_route(event: &str, alt: bool) -> (link: Option<&'static str>)
    ensures
        exists|year: Seq<char>, today: Seq<char>|
            is_year_text(year) && year_from_1969(year) && is_date_text(today) && date_from_1969(today) && link == #[trigger] current_stream_in(
                stream_table(),
                year,
                lowercase(event@),
                today,
                alt,
            ),
        is_ascii_chars(event@) ==> exists|year: Seq<char>, today: Seq<char>|
            is_year_text(year) && year_from_1969(year) && is_date_text(today) && date_from_1969(today) && link == #[trigger] current_stream_in(
                stream_table(),
                year,
                ascii_lowercase(event@),
                today,
                alt,
            ),
{
    let event_lower = to_lowercase(event);
    get_current_stream(event_lower.as_str(), alt)
}

/// `GET /<event>`: the current stream of the event, in the current season. The answer is the
/// one for the year and the date that the clock gives, and for the event code in lowercase
/// (ASCII capitals made small, for an ASCII code).
pub fn current_stream(event: &str) -> (link: Option<&'static str>)
    ensures
        exists|year: Seq<char>, today: Seq<char>|
            is_year_text(year) && year_from_1969(year) && is_date_text(today) && date_from_1969(today) && link == #[trigger] current_stream_in(
                stream_table(),
                year,
                lowercase(event@),
                today,
                false,
            ),
        is_ascii_chars(event@) ==> exists|year: Seq<char>, today: Seq<char>|
            is_year_text(year) && year_from_1969(year) && is_date_text(today) && date_from_1969(today) && link == #[trigger] current_stream_in(
                stream_table(),
                year,
                ascii_lowercase(event@),
                today,
                false,
            ),
{
    current_route(event, false)
}

/// `GET /<event>/alt`: the current alternate stream of the event, in the current season (see
/// `current_stream`).
pub fn current_stream_alt(event: &str) -> (link: Option<&'static str>)
    ensures
        exists|year: Seq<char>, today: Seq<char>|
            is_year_text(year) && year_from_1969(year) && is_date_text(today) && date_from_1969(today) && link == #[trigger] current_stream_in(
                stream_table(),
                year,
                lowercase(event@),
                today,
                true,
            ),
        is_ascii_chars(event@) ==> exists|year: Seq<char>, today: Seq<char>|
            is_year_text(year) && year_from_1969(year) && is_date_text(today) && date_from_1969(today) && link == #[trigger] current_stream_in(
                stream_table(),
                year,
                ascii_lowercase(event@),
                today,
                true,
            ),
{
    current_route(event, true)
}

/// The answer of the day routes in the season the clock gives. The day is read before the clock,
/// so a day that names none is not found whatever the clock says.
fn day_route(event: &str, day: &str, alt: bool) -> (link: Option<&'static str>)
    ensures
        exists|year: Seq<char>|
            is_year_text(year) && year_from_1969(year) && link == #[trigger] day_route_in(
                stream_table(),
                year,
                lowercase(event@),
                day@,
                alt,
            ),
        is_ascii_chars(event@) ==> exists|year: Seq<char>|
            is_year_text(year) && year_from_1969(year) && link == #[trigger] day_route_in(
                stream_table(),
                year,
                ascii_lowercase(event@),
                day@,
                alt,
            ),
{
    let day_index = match day_index(day) {
        Some(i) => i,
        None => {
            // The answer is "not found" in every season; witness one.
            let ghost year = seq!['2', '0', '2', '6'];
            assert(is_year_text(year)) by {
                assert forall|i: int| 0 <= i < 4 implies is_digit(#[trigger] year[i]) by {
                    assert(i == 0 || i == 1 || i == 2 || i == 3);
                }
            }
            assert(year_from_1969(year)) by {
                reveal_strlit("1969");
                assert("1969"@[0] == '1' && year[0] == '2');
            }
            assert(day_route_in(stream_table(), year, lowercase(event@), day@, alt) is None);
            assert(day_route_in(stream_table(), year, ascii_lowercase(event@), day@, alt) is None);
            return None;
        },
    };
    let event_lower = to_lowercase(event);
    let link = get_day_stream(event_lower.as_str(), day_index, alt);
    proof {
        let year = choose|year: Seq<char>|
            is_year_text(year) && year_from_1969(year) && link == #[trigger] day_stream_in(
                stream_table(),
                year,
                event_lower@,
                day_index as int,
                alt,
            );
        assert(link == day_route_in(stream_table(), year, lowercase(event@), day@, alt));
    }
    link
}

/// `GET /<event>/<day>`: the stream of a day of the event, counted from 1, in the current season.
/// The answer is the one for the year that the clock gives, and for the event code in lowercase
/// (ASCII capitals made small, for an ASCII code).
pub fn day_stream(event: &str, day: &str) -> (link: Option<&'static str>)
    ensures
        exists|year: Seq<char>|
            is_year_text(year) && year_from_1969(year) && link == #[trigger] day_route_in(
                stream_table(),
                year,
                lowercase(event@),
                day@,
                false,
            ),
        is_ascii_chars(event@) ==> exists|year: Seq<char>|
            is_year_text(year) && year_from_1969(year) && link == #[trigger] day_route_in(
                stream_table(),
                year,
                ascii_lowercase(event@),
                day@,
                false,
            ),
{
    day_route(event, day, false)
}

/// `GET /<event>/<day>/alt`: the alternate stream of a day of the event, counted from 1, in the
/// current season (see `day_stream`).
pub fn day_stream_alt(event: &str, day: &str) -> (link: Option<&'static str>)
    ensures
        exists|year: Seq<char>|
            is_year_text(year) && year_from_1969(year) && link == #[trigger] day_route_in(
                stream_table(),
                year,
                lowercase(event@),
                day@,
                true,
            ),
        is_ascii_chars(event@) ==> exists|year: Seq<char>|
            is_year_text(year) && year_from_1969(year) && link == #[trigger] day_route_in(
                stream_table(),
                year,
                ascii_lowercase(event@),
                day@,
                true,
            ),
{
    day_route(event, day, true)
}

/// The routes ignore the case of the event code: codes with the same lowercase form get the same
/// answers.
pub proof fn lemma_routes_ignore_case(
    a: Seq<char>,
    b: Seq<char>,
    year: Seq<char>,
    today: Seq<char>,
    day: Seq<char>,
    alt: bool,
)
    requires
        lowercase(a) == lowercase(b),
    ensures
        day_route_in(stream_table(), year, lowercase(a), day, alt) == day_route_in(
            stream_table(),
            year,
            lowercase(b),
            day,
            alt,
        ),
        current_stream_in(stream_table(), year, lowercase(a), today, alt) == current_stream_in(
            stream_table(),
            year,
            lowercase(b),
            today,
            alt,
        ),
{
}

/// The routes ignore the case of the letters of an ASCII event code: two ASCII codes that are
/// the same once their capitals are made small get the same answers, in every season, on every
/// date and for every day.
pub proof fn lemma_routes_ignore_ascii_case(
    a: Seq<char>,
    b: Seq<char>,
    year: Seq<char>,
    today: Seq<char>,
    day: Seq<char>,
    alt: bool,
)
    requires
        is_ascii_chars(a),
        is_ascii_chars(b),
        ascii_lowercase(a) == ascii_lowercase(b),
    ensures
        day_route_in(stream_table(), year, ascii_lowercase(a), day, alt) == day_route_in(
            stream_table(),
            year,
            ascii_lowercase(b),
            day,
            alt,
        ),
        current_stream_in(stream_table(), year, ascii_lowercase(a), today, alt)
            == current_stream_in(stream_table(), year, ascii_lowercase(b), today, alt),
{
}

/// An ASCII event code and its lowercase form get the same answers: the lowercase form is ASCII
/// too, and the routes answer both as that form.
pub proof fn lemma_code_and_lowercase_form_agree(
    e: Seq<char>,
    year: Seq<char>,
    today: Seq<char>,
    day: Seq<char>,
    alt: bool,
)
    requires
        is_ascii_chars(e),
    ensures
        is_ascii_chars(ascii_lowercase(e)),
        day_route_in(stream_table(), year, ascii_lowercase(e), day, alt) == day_route_in(
            stream_table(),
            year,
            ascii_lowercase(ascii_lowercase(e)),
            day,
            alt,
        ),
        current_stream_in(stream_table(), year, ascii_lowercase(e), today, alt)
            == current_stream_in(
            stream_table(),
            year,
            ascii_lowercase(ascii_lowercase(e)),
            today,
            alt,
        ),
{
    lemma_ascii_lowercase_settles(e);
    lemma_routes_ignore_ascii_case(e, ascii_lowercase(e), year, today, day, alt);
}

/// The main and the alternate day routes find a day in the same cases, and the same day: the one
/// that `day` names, whose main stream the main route gives and whose alternate stream (or,
/// lacking one, main stream) the alternate route gives.
pub proof fn lemma_day_routes_agree(
    t: Seq<YearEntry>,
    year: Seq<char>,
    event_lower: Seq<char>,
    day: Seq<char>,
)
    ensures
        day_route_in(t, year, event_lower, day, true) is Some <==> day_route_in(
            t,
            year,
            event_lower,
            day,
            false,
        ) is Some,
        day_route_in(t, year, event_lower, day, false) is Some ==> (schedule_of(
            t,
            year,
            event_lower,
        ) matches Some(s) && day_index_of(day) matches Some(i) && 0 <= i < s.len()
            && day_route_in(t, year, event_lower, day, false) == Some(s[i].stream)
            && day_route_in(t, year, event_lower, day, true) == Some(s[i].link_for(true))),
{
}

/// A day route names day `n` of the event, counted from 1, when `day` writes the number `n` in
/// decimal: it answers that day's link when the event has such a day, and nothing otherwise,
/// as it does when `day` writes no number.
pub proof fn lemma_day_route_names_a_day(
    t: Seq<YearEntry>,
    year: Seq<char>,
    event_lower: Seq<char>,
    day: Seq<char>,
    alt: bool,
    s: Seq<EventStream>,
)
    requires
        schedule_of(t, year, event_lower) == Some(s),
    ensures
        match decimal_usize(day) {
            Some(n) => if 1 <= n <= s.len() {
                day_route_in(t, year, event_lower, day, alt) == Some(s[n - 1].link_for(alt))
            } else {
                day_route_in(t, year, event_lower, day, alt) is None
            },
            None => true,
        },
        decimal_usize(day) is None ==> day_route_in(t, year, event_lower, day, alt) is None,
{
}

/// Lowercasing an ASCII code keeps it ASCII and changes nothing on a second pass, so a code and
/// its lowercase form name the same event: both are answered as the lowercase form.
pub proof fn lemma_ascii_lowercase_settles(e: Seq<char>)
    requires
        is_ascii_chars(e),
    ensures
        is_ascii_chars(ascii_lowercase(e)),
        ascii_lowercase(ascii_lowercase(e)) == ascii_lowercase(e),
{
    let l = ascii_lowercase(e);
    assert forall|i: int| 0 <= i < l.len() implies '\0' <= #[trigger] l[i] <= '\u{7f}' by {
        assert(l[i] == ascii_lower_char(e[i]));
    }
    assert(ascii_lowercase(l) =~= l);
}

} // verus!
