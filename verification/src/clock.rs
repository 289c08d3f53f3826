//! Time: moments are nanoseconds since the Unix epoch.

use chrono::Datelike;
use vstd::prelude::*;

verus! {

/// Nanoseconds in a second.
pub const SECOND: i128 = 1_000_000_000;

/// The first second of the `chrono` crate's calendar: the year -262143 begins.
pub const FIRST_SECOND: i64 = -8_334_601_228_800;

/// The last second of the `chrono` crate's calendar: the year 262142 ends.
pub const LAST_SECOND: i64 = 8_210_266_876_799;

/// The last moment at which the library computes deadlines: what is added to it stays in the calendar.
pub const LAST_MOMENT: i128 = 8_210_266_000_000_000_000_000;

/// The calendar's moment that is nearest to a moment: the moment itself where the calendar reaches it.
pub open spec fn within_calendar(moment: i128) -> int {
    if moment < FIRST_SECOND * SECOND {
        FIRST_SECOND * SECOND
    } else if moment > LAST_SECOND * SECOND + 999_999_999 {
        LAST_SECOND * SECOND + 999_999_999
    } else {
        moment as int
    }
}

/// The whole seconds of a moment in the calendar, counted from the Unix epoch.
pub open spec fn seconds_of(moment: i128) -> i64 {
    (within_calendar(moment) / SECOND as int) as i64
}

/// The nanoseconds of a moment in the calendar after its last whole second.
pub open spec fn rest_of(moment: i128) -> u32 {
    (within_calendar(moment) % SECOND as int) as u32
}

/// A moment in whole seconds and the nanoseconds after them.
fn split(moment: i128) -> (parts: (i64, u32))
    ensures
        parts.0 == seconds_of(moment),
        parts.1 == rest_of(moment),
        FIRST_SECOND <= parts.0 <= LAST_SECOND,
        parts.1 < SECOND,
        parts.0 * SECOND + parts.1 == within_calendar(moment),
{
    let first: i128 = -8_334_601_228_800_000_000_000;
    let last: i128 = 8_210_266_876_799_999_999_999;
    let near: i128 = if moment < first {
        first
    } else if moment > last {
        last
    } else {
        moment
    };
    assert(SECOND == 1_000_000_000 && FIRST_SECOND * 1_000_000_000 == first && LAST_SECOND
        * 1_000_000_000 + 999_999_999 == last);
    assert(near == within_calendar(moment));
    let since: u128 = (near - first) as u128;
    let seconds: u128 = since / 1_000_000_000;
    let rest: u128 = since % 1_000_000_000;
    assert(near / 1_000_000_000 == seconds + FIRST_SECOND && near % 1_000_000_000 == rest);
    (seconds as i64 + FIRST_SECOND, rest as u32)
}

/// The year and the month of a second in UTC, as the `chrono` crate's calendar gives them; none where
/// the calendar does not reach it.
pub uninterp spec fn utc_month(seconds: i64) -> Option<(i32, u32)>;

/// `DateTime::from_timestamp` with `Datelike::year` and `Datelike::month`: the calendar month in UTC,
/// which is one of twelve. The calendar has every second from its first to its last.
#[verifier::external_body]
fn month_of_second(seconds: i64) -> (month: Option<(i32, u32)>)
    ensures
        month == utc_month(seconds),
        month is Some == (FIRST_SECOND <= seconds <= LAST_SECOND),
        month matches Some(m) ==> 1 <= m.1 <= 12,
{
    let moment = chrono::DateTime::from_timestamp(seconds, 0)?;
    Some((moment.year(), moment.month()))
}

/// The calendar month of a moment in UTC.
pub open spec fn calendar_month(moment: i128) -> (i32, u32) {
    utc_month(seconds_of(moment))->0
}

/// The calendar month of a moment in UTC, which is one of twelve.
pub fn month_of(moment: i128) -> (month: (i32, u32))
    ensures
        month == calendar_month(moment),
        1 <= month.1 <= 12,
{
    let (seconds, _): (i64, u32) = split(moment);
    match month_of_second(seconds) {
        Some(month) => month,
        None => (1970, 1),
    }
}

/// What `DateTime::parse_from_rfc3339` reads in a text: whole seconds since the Unix epoch and the
/// nanoseconds after them.
pub uninterp spec fn parsed_rfc3339(text: Seq<char>) -> Option<(i64, u32)>;

/// What `DateTime::to_rfc3339` writes of a second since the Unix epoch and the nanoseconds after it, in
/// UTC; none where the calendar does not reach it.
pub uninterp spec fn rfc3339_text(seconds: i64, rest: u32) -> Option<Seq<char>>;

/// `DateTime::from_timestamp` with `DateTime::to_rfc3339`: a function of both numbers. The calendar has
/// every second from its first to its last.
#[verifier::external_body]
fn write_rfc3339(seconds: i64, rest: u32) -> (text: Option<String>)
    ensures
        text is Some == rfc3339_text(seconds, rest) is Some,
        text matches Some(t) ==> rfc3339_text(seconds, rest) == Some(t@),
        FIRST_SECOND <= seconds <= LAST_SECOND && rest < SECOND ==> text is Some,
{
    Some(chrono::DateTime::from_timestamp(seconds, rest)?.to_rfc3339())
}

/// A moment as RFC 3339 text in UTC.
pub open spec fn moment_text(moment: i128) -> Seq<char> {
    rfc3339_text(seconds_of(moment), rest_of(moment))->0
}

/// Writes a moment as RFC 3339 text in UTC.
pub fn write_moment(moment: i128) -> (text: String)
    ensures
        text@ == moment_text(moment),
        rfc3339_text(seconds_of(moment), rest_of(moment)) == Some(text@),
{
    let (seconds, rest): (i64, u32) = split(moment);
    match write_rfc3339(seconds, rest) {
        Some(text) => text,
        None => String::new(),
    }
}

/// Whether a moment lies in a year of four digits, which RFC 3339 text can name.
pub open spec fn has_plain_year(moment: i128) -> bool {
    PLAIN_YEARS_BEGIN * SECOND <= moment < PLAIN_YEARS_END * SECOND
}

/// The second at which the year 0000 begins.
pub const PLAIN_YEARS_BEGIN: i64 = -62_167_219_200;

/// The second at which the year 10000 begins.
pub const PLAIN_YEARS_END: i64 = 253_402_300_800;

/// `DateTime::parse_from_rfc3339`, with `timestamp` and `timestamp_subsec_nanos` of its result: a
/// function of the text, and what `DateTime::to_rfc3339` wrote in a year of four digits reads back.
#[verifier::external_body]
pub(crate) fn parse_rfc3339(text: &str) -> (moment: Option<(i64, u32)>)
    ensures
        moment == parsed_rfc3339(text@),
        forall|seconds: i64, rest: u32|
            #[trigger] rfc3339_text(seconds, rest) == Some(text@) && PLAIN_YEARS_BEGIN <= seconds
                < PLAIN_YEARS_END && rest < SECOND ==> moment == Some((seconds, rest)),
{
    let moment = chrono::DateTime::parse_from_rfc3339(text).ok()?;
    Some((moment.timestamp(), moment.timestamp_subsec_nanos()))
}

/// The moment that RFC 3339 text says. A leap second counts as the second after it.
pub open spec fn read_rfc3339(text: Seq<char>) -> Option<i128> {
    match parsed_rfc3339(text) {
        Some((seconds, rest)) => Some((seconds * SECOND + rest) as i128),
        None => None,
    }
}

/// Reads a moment from RFC 3339 text. What was written of a moment in a year of four digits reads back
/// as that moment.
pub fn read_moment_text(text: &str) -> (moment: Option<i128>)
    ensures
        moment == read_rfc3339(text@),
        forall|known: i128| #[trigger]
            has_plain_year(known) && rfc3339_text(seconds_of(known), rest_of(known)) == Some(text@)
                ==> moment_text(known) == text@ && moment == Some(known),
{
    let parsed: Option<(i64, u32)> = parse_rfc3339(text);
    proof {
        assert forall|known: i128| #[trigger]
            has_plain_year(known) && rfc3339_text(seconds_of(known), rest_of(known)) == Some(
                text@,
            ) implies moment_text(known) == text@ && (parsed matches Some((seconds, rest))
            && seconds * SECOND + rest == known) by {
            assert(SECOND == 1_000_000_000);
        }
    }
    match parsed {
        Some((seconds, rest)) => {
            assert(SECOND == 1_000_000_000);
            Some(seconds as i128 * 1_000_000_000 + rest as i128)
        },
        None => None,
    }
}

/// The nanoseconds from one moment to a later one.
pub fn time_between(from: i128, to: i128) -> (n: u128)
    requires
        from <= to,
    ensures
        n == to - from,
{
    if from >= 0 || to < 0 {
        (to - from) as u128
    } else {
        to as u128 + ((-(from + 1)) as u128 + 1)
    }
}

/// Whether at least so many nanoseconds have passed from one moment to another.
pub fn has_passed(nanoseconds: u64, from: i128, to: i128) -> (r: bool)
    ensures
        r == (to - from >= nanoseconds),
{
    from <= to && time_between(from, to) >= nanoseconds as u128
}

/// Whether the month of `a` comes before that of `b`.
pub open spec fn month_before(a: (i32, u32), b: (i32, u32)) -> bool {
    a.0 < b.0 || (a.0 == b.0 && a.1 < b.1)
}

/// Whether `moment` lies in the month of `now` or in a later one.
pub open spec fn since_month_start(moment: i128, now: i128) -> bool {
    !month_before(calendar_month(moment), calendar_month(now))
}

/// Whether `moment` lies in the month of `now` or in a later one.
pub fn in_or_after_month(moment: i128, now: i128) -> (r: bool)
    ensures
        r == since_month_start(moment, now),
{
    let a = month_of(moment);
    let b = month_of(now);
    !(a.0 < b.0 || (a.0 == b.0 && a.1 < b.1))
}

/// A moment of the calendar is its seconds and the rest, which is less than a second.
pub proof fn law_a_moment_is_its_seconds_and_the_rest(moment: i128)
    requires
        FIRST_SECOND * SECOND <= moment <= LAST_SECOND * SECOND + 999_999_999,
    ensures
        seconds_of(moment) * SECOND + rest_of(moment) == moment,
        0 <= rest_of(moment) < SECOND,
{
    assert(SECOND == 1_000_000_000);
}

/// A moment lies in its own month; of two months just one comes first, unless they are the same.
pub proof fn law_months_are_in_order(moment: i128, a: (i32, u32), b: (i32, u32), c: (i32, u32))
    ensures
        since_month_start(moment, moment),
        a == b || month_before(a, b) || month_before(b, a),
        !(month_before(a, b) && month_before(b, a)),
        month_before(a, b) && month_before(b, c) ==> month_before(a, c),
        a.0 == b.0 ==> (month_before(a, b) <==> a.1 < b.1),
        a.0 < b.0 ==> month_before(a, b),
{
}

} // verus!
