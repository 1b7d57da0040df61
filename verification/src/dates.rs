//! Moments in time, and how a date is written on a command line.

use crate::text;
use crate::text::{chars_of, read_integer, string_of, text_eq, to_ascii_lower, trim};
use chrono::Datelike;
use vstd::prelude::*;

verus! {

/// A moment: whole seconds since the start of 1970 in UTC, and nanoseconds. A
/// leap second has a billion nanoseconds or more.
#[derive(Debug, Clone, Copy, PartialEq, Eq, Structural)]
pub struct Timestamp {
    pub secs: i64,
    pub nanos: u32,
}

/// The seconds of a day.
pub const DAY: i64 = 86400;

/// The first second of the calendar: the start of the year -262143.
pub const FIRST_SECOND: i64 = -8334601228800;

/// The last second of the calendar: the end of the year 262142.
pub const LAST_SECOND: i64 = 8210266876799;

/// The number, in days since the start of the common era, of the first day of
/// 1970.
pub const EPOCH_DAY: i64 = 719163;

/// Whether a number of seconds is one of the calendar.
pub open spec fn on_calendar(secs: int) -> bool {
    FIRST_SECOND <= secs <= LAST_SECOND
}

impl Timestamp {
    /// Whether the moment is one of the calendar.
    pub open spec fn valid(self) -> bool {
        on_calendar(self.secs as int) && self.nanos < 2_000_000_000
    }

    /// Whether the moment is earlier than another.
    pub open spec fn earlier(self, other: Timestamp) -> bool {
        self.secs < other.secs || (self.secs == other.secs && self.nanos < other.nanos)
    }

    /// Whether the moment is earlier than another.
    pub fn is_before(&self, other: &Timestamp) -> (r: bool)
        ensures
            r == self.earlier(*other),
    {
        self.secs < other.secs || (self.secs == other.secs && self.nanos < other.nanos)
    }
}

/// The start of the day of a moment.
pub open spec fn day_start(secs: int) -> int {
    secs - secs % (DAY as int)
}

/// The moment one day later. A leap second has no counterpart on the next day:
/// its billion of nanoseconds is dropped.
pub open spec fn next_day(t: Timestamp) -> Option<Timestamp> {
    let nanos = if t.nanos >= 1_000_000_000 {
        t.nanos - 1_000_000_000
    } else {
        t.nanos as int
    };
    if on_calendar(t.secs + DAY) {
        Some(Timestamp { secs: (t.secs + DAY) as i64, nanos: nanos as u32 })
    } else {
        None
    }
}

/// The moment one day later, if the calendar has it.
pub fn day_after(t: &Timestamp) -> (r: Option<Timestamp>)
    requires
        t.valid(),
    ensures
        r == next_day(*t),
{
    let secs = t.secs + DAY;
    let nanos = if t.nanos >= 1_000_000_000 {
        t.nanos - 1_000_000_000
    } else {
        t.nanos
    };
    if secs > LAST_SECOND {
        None
    } else {
        Some(Timestamp { secs, nanos })
    }
}

// ---- Reading ----------------------------------------------------------------

/// The moment that `chrono` reads in a text of RFC 3339, if any.
pub uninterp spec fn rfc3339(s: Seq<char>) -> Option<Timestamp>;

/// The day that `chrono` reads in a text of the form `%Y-%m-%d`, if any, as its
/// number in days since the start of the common era.
pub uninterp spec fn calendar_day(s: Seq<char>) -> Option<i32>;

/// `chrono::DateTime::parse_from_rfc3339`: the moment that a text writes, which
/// [`rfc3339`] names. It is one of the calendar, with less than two billion
/// nanoseconds.
#[verifier::external_body]
fn read_rfc3339(s: &str) -> (r: Option<Timestamp>)
    ensures
        r == rfc3339(s@),
        r matches Some(t) ==> t.valid(),
{
    match chrono::DateTime::parse_from_rfc3339(s) {
        Ok(t) => Some(Timestamp { secs: t.timestamp(), nanos: t.timestamp_subsec_nanos() }),
        Err(_) => None,
    }
}

/// `chrono::NaiveDate::parse_from_str` with the format `%Y-%m-%d`: the day that
/// a text writes, which [`calendar_day`] names. It is one of the calendar.
#[verifier::external_body]
fn read_calendar_day(s: &str) -> (r: Option<i32>)
    ensures
        r == calendar_day(s@),
        r matches Some(d) ==> on_calendar((d - EPOCH_DAY) * DAY),
{
    match chrono::NaiveDate::parse_from_str(s, "%Y-%m-%d") {
        Ok(d) => Some(d.num_days_from_ce()),
        Err(_) => None,
    }
}

/// `chrono::Utc::now`: the moment of the call by the machine's clock. It is one
/// of the calendar, and no leap second. A clock that stands before 1970 makes
/// it panic.
#[verifier::external_body]
fn clock() -> (r: Timestamp)
    ensures
        clock_reading(r),
{
    let now = chrono::Utc::now();
    Timestamp { secs: now.timestamp(), nanos: now.timestamp_subsec_nanos() }
}

/// Whether a clock can read a moment.
pub open spec fn clock_reading(t: Timestamp) -> bool {
    on_calendar(t.secs as int) && t.nanos < 1_000_000_000
}

/// The moment of the call.
pub fn now() -> (r: Timestamp)
    ensures
        clock_reading(r),
{
    clock()
}

/// The moment that a text of RFC 3339 writes, if any.
pub fn parse_rfc3339(s: &str) -> (r: Option<Timestamp>)
    ensures
        r == rfc3339(s@),
        r matches Some(t) ==> t.valid(),
{
    read_rfc3339(s)
}

// ---- Date specs -------------------------------------------------------------

/// Why a date spec gives no moment.
#[derive(Debug, PartialEq, Eq)]
pub enum DateError {
    /// The spec has none of the accepted forms.
    Unreadable(String),
    /// The spec is a span that leads out of the calendar.
    OutOfRange,
}

/// What a [`DateError`] says.
pub enum DateErrorView {
    Unreadable(Seq<char>),
    OutOfRange,
}

impl View for DateError {
    type V = DateErrorView;

    open spec fn view(&self) -> DateErrorView {
        match self {
            DateError::Unreadable(s) => DateErrorView::Unreadable(s@),
            DateError::OutOfRange => DateErrorView::OutOfRange,
        }
    }
}

/// The seconds of the unit that a letter stands for.
pub open spec fn unit_seconds(c: char) -> Option<int> {
    if c == 's' {
        Some(1)
    } else if c == 'm' {
        Some(60)
    } else if c == 'h' {
        Some(3600)
    } else if c == 'd' {
        Some(86400)
    } else if c == 'w' {
        Some(604800)
    } else {
        None
    }
}

/// The seconds of a span: an integer, and the letter of its unit.
pub open spec fn span(s: Seq<char>) -> Option<int> {
    if s.len() == 0 {
        None
    } else {
        match (text::integer(s.drop_last()), unit_seconds(s.last())) {
            (Some(n), Some(u)) => Some(n * u),
            _ => None,
        }
    }
}

/// The start of the day with a number.
pub open spec fn start_of(day: i32) -> Timestamp {
    Timestamp { secs: ((day - EPOCH_DAY) * DAY) as i64, nanos: 0 }
}

/// A number of seconds as a moment, where the calendar has it.
pub open spec fn placed(secs: int, nanos: u32) -> Result<Timestamp, DateErrorView> {
    if on_calendar(secs) {
        Ok(Timestamp { secs: secs as i64, nanos })
    } else {
        Err(DateErrorView::OutOfRange)
    }
}

/// What is said of a spec that has none of the accepted forms.
pub open spec fn unreadable(s: Seq<char>) -> Seq<char> {
    "could not parse date spec `"@ + s
        + "` — try `today`, `7d`, `2h`, or ISO date `YYYY-MM-DD`"@
}

/// The moment that a spec gives, given what the clock reads and what is read in
/// the spec as a day and as a moment. The spec is trimmed and in small letters;
/// the text as it was written goes into the error.
pub open spec fn resolved(
    written: Seq<char>,
    spec: Seq<char>,
    now: Timestamp,
    day: Option<i32>,
    moment: Option<Timestamp>,
) -> Result<Timestamp, DateErrorView> {
    if spec == "today"@ {
        placed(day_start(now.secs as int), 0)
    } else if spec == "yesterday"@ {
        if on_calendar(now.secs - DAY) {
            placed(day_start(now.secs - DAY), 0)
        } else {
            Err(DateErrorView::OutOfRange)
        }
    } else {
        match span(spec) {
            Some(d) => placed(now.secs - d, now.nanos),
            None => match day {
                Some(n) => Ok(start_of(n)),
                None => match moment {
                    Some(t) => Ok(t),
                    None => Err(DateErrorView::Unreadable(unreadable(written))),
                },
            },
        }
    }
}

/// The moment that a spec gives when the clock reads `now`.
pub open spec fn date_at(s: Seq<char>, now: Timestamp) -> Result<Timestamp, DateErrorView> {
    let spec = text::ascii_lower(text::trimmed(s));
    resolved(s, spec, now, calendar_day(spec), rfc3339(spec))
}

/// What a result of reading a date says.
pub open spec fn date_view(r: Result<Timestamp, DateError>) -> Result<Timestamp, DateErrorView> {
    match r {
        Ok(t) => Ok(t),
        Err(e) => Err(e@),
    }
}

/// The seconds of the unit that a letter stands for.
fn unit(c: char) -> (r: Option<i128>)
    ensures
        match r {
            Some(u) => unit_seconds(c) == Some(u as int) && 1 <= u <= 604800,
            None => unit_seconds(c) is None,
        },
{
    if c == 's' {
        Some(1)
    } else if c == 'm' {
        Some(60)
    } else if c == 'h' {
        Some(3600)
    } else if c == 'd' {
        Some(86400)
    } else if c == 'w' {
        Some(604800)
    } else {
        None
    }
}

/// The seconds of a span such as `7d` or `2h`.
pub fn parse_relative(s: &str) -> (r: Option<i128>)
    ensures
        match r {
            Some(d) => span(s@) == Some(d as int) && -5_600_000_000_000_000_000_000_000 <= d
                <= 5_600_000_000_000_000_000_000_000,
            None => span(s@) is None,
        },
{
    let cs = chars_of(s);
    if cs.len() == 0 {
        return None;
    }
    let last = cs.len() - 1;
    let digits = string_of(&cs, 0, last);
    assert(digits@ =~= s@.drop_last());
    match (read_integer(digits.as_str()), unit(cs[last])) {
        (Some(n), Some(u)) => {
            assert(-5_600_000_000_000_000_000_000_000 <= n * u
                <= 5_600_000_000_000_000_000_000_000) by (nonlinear_arith)
                requires
                    -9223372036854775808 <= n <= 9223372036854775807,
                    1 <= u <= 604800,
            ;
            Some(n as i128 * u)
        },
        _ => None,
    }
}

/// A number of seconds as a moment, where the calendar has it.
fn place(secs: i128, nanos: u32) -> (r: Result<Timestamp, DateError>)
    ensures
        date_view(r) == placed(secs as int, nanos),
{
    if secs < FIRST_SECOND as i128 || secs > LAST_SECOND as i128 {
        Err(DateError::OutOfRange)
    } else {
        Ok(Timestamp { secs: secs as i64, nanos })
    }
}

/// The start of the day of a number of seconds.
fn floor_day(secs: i64) -> (r: i128)
    requires
        on_calendar(secs as int),
    ensures
        r == day_start(secs as int),
{
    let wide: i128 = secs as i128 + 100_000_000 * DAY as i128;
    wide - wide % (DAY as i128) - 100_000_000 * DAY as i128
}

/// The moment that a spec gives, given what the clock reads and what is read in
/// the spec as a day and as a moment.
pub fn resolve_date(
    written: &str,
    spec: &str,
    now: Timestamp,
    day: Option<i32>,
    moment: Option<Timestamp>,
) -> (r: Result<Timestamp, DateError>)
    requires
        clock_reading(now),
    ensures
        date_view(r) == resolved(written@, spec@, now, day, moment),
{
    if text_eq(spec, "today") {
        place(floor_day(now.secs), 0)
    } else if text_eq(spec, "yesterday") {
        if now.secs - DAY < FIRST_SECOND {
            Err(DateError::OutOfRange)
        } else {
            place(floor_day(now.secs - DAY), 0)
        }
    } else {
        match parse_relative(spec) {
            Some(d) => place(now.secs as i128 - d, now.nanos),
            None => match day {
                Some(n) => Ok(Timestamp { secs: (n as i64 - EPOCH_DAY) * DAY, nanos: 0 }),
                None => match moment {
                    Some(t) => Ok(t),
                    None => {
                        let mut message: String = "could not parse date spec `".to_owned();
                        message.append(written);
                        message.append("` — try `today`, `7d`, `2h`, or ISO date `YYYY-MM-DD`");
                        Err(DateError::Unreadable(message))
                    },
                },
            },
        }
    }
}

/// The moment that a spec gives when the clock reads `now`: `today` and
/// `yesterday` are the midnights in UTC, `7d` or `2h` is that long before now,
/// and a date or an RFC 3339 timestamp is itself.
pub fn parse_date_spec_at(s: &str, now: Timestamp) -> (r: Result<Timestamp, DateError>)
    requires
        clock_reading(now),
    ensures
        date_view(r) == date_at(s@, now),
        r matches Ok(t) ==> t.valid(),
{
    let spec = to_ascii_lower(trim(s).as_str());
    let day = read_calendar_day(spec.as_str());
    let moment = read_rfc3339(spec.as_str());
    resolve_date(s, spec.as_str(), now, day, moment)
}

/// The moment that a spec gives at the time of the call.
pub fn parse_date_spec(s: &str) -> (r: Result<Timestamp, DateError>)
    ensures
        exists|now: Timestamp|
            #[trigger] clock_reading(now) && date_view(r) == date_at(s@, now),
        r matches Ok(t) ==> t.valid(),
{
    let now = clock();
    parse_date_spec_at(s, now)
}

impl DateError {
    /// What went wrong, for a reader.
    pub fn message(&self) -> (r: String)
        ensures
            r@ == (match self@ {
                DateErrorView::Unreadable(s) => s,
                DateErrorView::OutOfRange => "the date is out of range"@,
            }),
    {
        match self {
            DateError::Unreadable(s) => s.clone(),
            DateError::OutOfRange => "the date is out of range".to_owned(),
        }
    }
}

// ---- What holds of date specs -----------------------------------------------

/// `today` is the start of the day that now lies in, and `yesterday` is the
/// start of the day before.
pub proof fn law_today_follows_yesterday(now: Timestamp)
    requires
        clock_reading(now),
        on_calendar(now.secs - DAY),
    ensures
        date_at("today"@, now) matches Ok(today) && {
            &&& today.nanos == 0
            &&& today.secs as int % DAY as int == 0
            &&& today.secs <= now.secs < today.secs + DAY
            &&& date_at("yesterday"@, now) matches Ok(yesterday) && next_day(yesterday) == Some(
                today,
            )
        },
{
    reveal_strlit("today");
    reveal_strlit("yesterday");
    assert(text::trimmed("today"@) =~= "today"@);
    assert(text::trimmed("yesterday"@) =~= "yesterday"@);
    assert(text::ascii_lower("today"@) =~= "today"@);
    assert(text::ascii_lower("yesterday"@) =~= "yesterday"@);
    assert("today"@.len() != "yesterday"@.len());
}

/// Moments are ordered by their seconds, and within a second by their
/// nanoseconds.
pub proof fn law_moments_are_ordered(a: Timestamp, b: Timestamp)
    ensures
        a.secs < b.secs ==> a.earlier(b) && !b.earlier(a),
        a.secs == b.secs ==> (a.earlier(b) <==> a.nanos < b.nanos),
        a.earlier(b) || b.earlier(a) || a == b,
{
}

/// The next day is a day's seconds later, at the same fraction of a second.
pub proof fn law_next_day_is_a_day_later(t: Timestamp)
    requires
        t.valid(),
    ensures
        next_day(t) matches Some(u) ==> u.secs == t.secs + 86400 && t.earlier(u) && (t.nanos
            < 1_000_000_000 ==> u.nanos == t.nanos),
        next_day(t) is None <==> t.secs + 86400 > 8210266876799,
{
}

/// A span goes back from now by its number of seconds, minutes, hours, days or
/// weeks, as far as the calendar goes.
pub proof fn law_span_goes_back(n: nat, c: char, seconds: int, now: Timestamp)
    requires
        n <= i64::MAX,
        (c == 's' && seconds == 1) || (c == 'm' && seconds == 60) || (c == 'h' && seconds == 3600)
            || (c == 'd' && seconds == 86400) || (c == 'w' && seconds == 604800),
    ensures
        date_at(text::decimal(n).push(c), now) == (if -8334601228800 <= now.secs - n * seconds
            <= 8210266876799 {
            Ok::<Timestamp, DateErrorView>(
                Timestamp { secs: (now.secs - n * seconds) as i64, nanos: now.nanos },
            )
        } else {
            Err(DateErrorView::OutOfRange)
        }),
{
    let s = text::decimal(n).push(c);
    text::law_decimal_is_read_back(n);
    assert('0' <= s[0] <= '9') by {
        assert(s[0] == text::decimal(n)[0]);
    }
    assert(s.drop_last() =~= text::decimal(n));
    assert(text::trimmed(s) == s);
    assert forall|i: int| 0 <= i < s.len() implies !('A' <= #[trigger] s[i] <= 'Z') by {
        if i < text::decimal(n).len() {
            assert('0' <= text::decimal(n)[i] <= '9');
        }
    }
    assert(text::ascii_lower(s) =~= s);
    reveal_strlit("today");
    reveal_strlit("yesterday");
    assert(s != "today"@ && s != "yesterday"@);
}

/// A spec that is neither a name nor a span is a day, from its start on in UTC;
/// else a moment as it is written; else it is refused, and quoted.
pub proof fn law_dates_are_themselves(s: Seq<char>, spec: Seq<char>, now: Timestamp)
    requires
        spec == text::ascii_lower(text::trimmed(s)),
        spec != "today"@,
        spec != "yesterday"@,
        spec.len() > 0 ==> text::integer(spec.drop_last()) is None || !(spec.last() == 's'
            || spec.last() == 'm' || spec.last() == 'h' || spec.last() == 'd' || spec.last()
            == 'w'),
    ensures
        calendar_day(spec) matches Some(d) ==> date_at(s, now) == Ok::<Timestamp, DateErrorView>(
            Timestamp { secs: ((d - 719163) * 86400) as i64, nanos: 0 },
        ),
        calendar_day(spec) is None ==> (rfc3339(spec) matches Some(t) ==> date_at(s, now) == Ok::<
            Timestamp,
            DateErrorView,
        >(t)),
        calendar_day(spec) is None && rfc3339(spec) is None ==> date_at(s, now) == Err::<
            Timestamp,
            DateErrorView,
        >(
            DateErrorView::Unreadable(
                "could not parse date spec `"@ + s
                    + "` — try `today`, `7d`, `2h`, or ISO date `YYYY-MM-DD`"@,
            ),
        ),
{
}

/// Neither blanks around a spec nor its capitals change the moment that it
/// gives.
pub proof fn law_blanks_and_case_do_not_matter(s: Seq<char>, t: Seq<char>, now: Timestamp)
    requires
        text::ascii_lower(text::trimmed(s)) == text::ascii_lower(text::trimmed(t)),
    ensures
        date_at(s, now) is Ok <==> date_at(t, now) is Ok,
        date_at(s, now) is Ok ==> date_at(s, now) == date_at(t, now),
{
}

/// A leap second has no counterpart on the next day: a billion of its
/// nanoseconds is dropped. Moments of the calendar, and of a clock, are those
/// within it.
pub proof fn law_leap_seconds_are_dropped(t: Timestamp)
    ensures
        t.valid() && t.nanos >= 1_000_000_000 ==> (next_day(t) matches Some(u) ==> u.nanos
            == t.nanos - 1_000_000_000),
        t.valid() <==> -8334601228800 <= t.secs <= 8210266876799 && t.nanos < 2_000_000_000,
        clock_reading(t) <==> -8334601228800 <= t.secs <= 8210266876799 && t.nanos < 1_000_000_000,
{
}

/// What is read is a moment, or the error that it is.
pub proof fn law_dates_are_seen(r: Result<Timestamp, DateError>)
    ensures
        r matches Ok(t) ==> date_view(r) == Ok::<Timestamp, DateErrorView>(t),
        r matches Err(e) ==> date_view(r) == Err::<Timestamp, DateErrorView>(e@),
        r matches Err(DateError::Unreadable(s)) ==> date_view(r) == Err::<Timestamp, DateErrorView>(
            DateErrorView::Unreadable(s@),
        ),
{
}

/// A span is an integer, with or without a sign, and the letter of a unit; it
/// leads back from now, or forward where it is negative.
pub proof fn law_spans_have_signs(
    s: Seq<char>,
    spec: Seq<char>,
    n: int,
    seconds: int,
    now: Timestamp,
)
    requires
        spec == text::ascii_lower(text::trimmed(s)),
        spec.len() > 0,
        spec != "today"@,
        spec != "yesterday"@,
        text::integer(spec.drop_last()) == Some(n),
        (spec.last() == 's' && seconds == 1) || (spec.last() == 'm' && seconds == 60) || (
        spec.last() == 'h' && seconds == 3600) || (spec.last() == 'd' && seconds == 86400) || (
        spec.last() == 'w' && seconds == 604800),
    ensures
        date_at(s, now) == (if -8334601228800 <= now.secs - n * seconds <= 8210266876799 {
            Ok::<Timestamp, DateErrorView>(
                Timestamp { secs: (now.secs - n * seconds) as i64, nanos: now.nanos },
            )
        } else {
            Err(DateErrorView::OutOfRange)
        }),
{
}

/// `today` and `yesterday` are midnights in UTC however they are written.
pub proof fn law_named_days_are_midnights(s: Seq<char>, now: Timestamp)
    requires
        clock_reading(now),
        on_calendar(now.secs - 86400),
    ensures
        text::ascii_lower(text::trimmed(s)) == "today"@ ==> (date_at(s, now) matches Ok(t) && t.nanos
            == 0 && t.secs as int % 86400 == 0 && t.secs <= now.secs < t.secs + 86400),
        text::ascii_lower(text::trimmed(s)) == "yesterday"@ ==> (date_at(s, now) matches Ok(t)
            && t.nanos == 0 && t.secs as int % 86400 == 0 && t.secs + 86400 <= now.secs < t.secs
            + 172800),
{
    reveal_strlit("today");
    reveal_strlit("yesterday");
    assert("today"@.len() != "yesterday"@.len());
}

} // verus!
