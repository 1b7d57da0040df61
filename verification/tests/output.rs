//! Formats, rows, and dates.

use chrono::{Duration as ChronoDuration, NaiveDate, Utc};
use granola::dates::{
    day_after, parse_date_spec, parse_date_spec_at, parse_relative, parse_rfc3339, resolve_date,
    DateError, Timestamp, FIRST_SECOND, LAST_SECOND,
};
use granola::json::Json;
use granola::meetings::resolve_meeting_id_from_documents;
use granola::output::{error_value, meeting_rows, message_value, Format, Row};
use granola::wire::parse_json;

fn doc(s: &str) -> Json {
    parse_json(s).expect("a document")
}

fn at(secs: i64) -> Timestamp {
    Timestamp { secs, nanos: 0 }
}

fn midnight(y: i32, m: u32, d: u32) -> i64 {
    NaiveDate::from_ymd_opt(y, m, d)
        .unwrap()
        .and_hms_opt(0, 0, 0)
        .unwrap()
        .and_utc()
        .timestamp()
}

#[test]
fn parses_today() {
    let before = Utc::now().date_naive();
    let d = parse_date_spec("today").unwrap();
    let after = Utc::now().date_naive();
    let today = chrono::DateTime::from_timestamp(d.secs, d.nanos).unwrap();
    assert!(today.date_naive() == before || today.date_naive() == after);
    assert_eq!(today.time(), chrono::NaiveTime::MIN);
}

#[test]
fn parses_relative_days() {
    let d = parse_date_spec("7d").unwrap();
    let expected = Utc::now() - ChronoDuration::days(7);
    // within 1s tolerance
    assert!((d.secs - expected.timestamp()).abs() < 2);
}

#[test]
fn parses_iso_date() {
    let d = parse_date_spec("2025-08-18").unwrap();
    assert_eq!(d, at(midnight(2025, 8, 18)));
    assert_eq!(d, at(1755475200));
}

#[test]
fn rejects_garbage() {
    assert!(parse_date_spec("not-a-date").is_err());
}

#[test]
fn date_specs_are_read_against_the_clock() {
    // 2026-11-15T13:14:15.5Z
    let now = Timestamp { secs: 1794748455, nanos: 500_000_000 };
    let read = |s: &str| parse_date_spec_at(s, now);
    assert_eq!(read("today"), Ok(at(midnight(2026, 11, 15))));
    assert_eq!(read(" Yesterday\n"), Ok(at(midnight(2026, 11, 14))));
    for (spec, secs) in [("45s", 45), ("30m", 1800), ("2H", 7200), ("7d", 604800), ("+1w", 604800)] {
        assert_eq!(
            read(spec),
            Ok(Timestamp { secs: now.secs - secs, nanos: now.nanos }),
            "{spec}"
        );
    }
    // A negative span lies ahead.
    assert_eq!(read("-1d"), Ok(Timestamp { secs: now.secs + 86400, nanos: now.nanos }));
    assert_eq!(read("2025-08-18"), Ok(at(1755475200)));
    assert_eq!(read("2025-08-18T14:04:59Z"), Ok(at(1755525899)));
    assert_eq!(
        read("2025-08-18t16:04:59.25+02:00"),
        Ok(Timestamp { secs: 1755525899, nanos: 250_000_000 })
    );
    for bad in ["", "d", "7", "7x", "7 d", "1.5d", "+d", "99999999999999999999s", "2025-13-01"] {
        assert_eq!(
            read(bad),
            Err(DateError::Unreadable(format!(
                "could not parse date spec `{bad}` — try `today`, `7d`, `2h`, or ISO date `YYYY-MM-DD`"
            ))),
            "{bad:?}"
        );
    }
    // A span that leads out of the calendar.
    assert_eq!(read("9000000000000s"), Err(DateError::OutOfRange));
    assert_eq!(read("9223372036854775807w"), Err(DateError::OutOfRange));
    assert_eq!(read("-9223372036854775808w"), Err(DateError::OutOfRange));
    assert_eq!(DateError::OutOfRange.message(), "the date is out of range");
}

#[test]
fn the_calendar_is_that_of_chrono() {
    assert_eq!(FIRST_SECOND, chrono::DateTime::<Utc>::MIN_UTC.timestamp());
    assert_eq!(LAST_SECOND, chrono::DateTime::<Utc>::MAX_UTC.timestamp());
    let now = at(0);
    // The last span that fits, and the first that does not.
    let fits = format!("{}s", -LAST_SECOND);
    assert_eq!(parse_date_spec_at(&fits, now), Ok(at(LAST_SECOND)));
    let over = format!("{}s", -LAST_SECOND - 1);
    assert_eq!(parse_date_spec_at(&over, now), Err(DateError::OutOfRange));
    let under = format!("{}s", -FIRST_SECOND + 1);
    assert_eq!(parse_date_spec_at(&under, now), Err(DateError::OutOfRange));
    assert!(chrono::DateTime::from_timestamp(0, 0)
        .unwrap()
        .checked_sub_signed(ChronoDuration::seconds(-FIRST_SECOND + 1))
        .is_none());
    // Days of the whole calendar are read.
    for (s, y, m, d) in [("0001-01-01", 1, 1, 1), ("1970-01-01", 1970, 1, 1), ("9999-12-31", 9999, 12, 31)] {
        assert_eq!(parse_date_spec_at(s, now), Ok(at(midnight(y, m, d))), "{s}");
    }
}

#[test]
fn days_begin_at_midnight_before_the_epoch_too() {
    let now = at(-1);
    assert_eq!(parse_date_spec_at("today", now), Ok(at(-86400)));
    assert_eq!(parse_date_spec_at("yesterday", now), Ok(at(-172800)));
    assert_eq!(parse_date_spec_at("yesterday", at(FIRST_SECOND)), Err(DateError::OutOfRange));
    assert_eq!(parse_date_spec_at("today", at(FIRST_SECOND)), Ok(at(FIRST_SECOND)));
}

#[test]
fn the_next_day_drops_a_leap_second() {
    let leap = parse_rfc3339("2016-12-31T23:59:60.5Z").unwrap();
    assert_eq!(leap, Timestamp { secs: 1483228799, nanos: 1_500_000_000 });
    assert_eq!(day_after(&leap), Some(Timestamp { secs: 1483315199, nanos: 500_000_000 }));
    let by_chrono = chrono::DateTime::parse_from_rfc3339("2016-12-31T23:59:60.5Z").unwrap()
        + ChronoDuration::days(1);
    assert_eq!(by_chrono.timestamp(), 1483315199);
    assert_eq!(by_chrono.timestamp_subsec_nanos(), 500_000_000);
    assert_eq!(day_after(&at(LAST_SECOND)), None);
}

#[test]
fn spans_are_an_integer_and_a_unit() {
    assert_eq!(parse_relative("3w"), Some(1814400));
    assert_eq!(parse_relative("-2m"), Some(-120));
    assert_eq!(parse_relative("9223372036854775807s"), Some(9223372036854775807));
    assert_eq!(parse_relative("9223372036854775808s"), None);
    assert_eq!(parse_relative("1dd"), None);
    assert_eq!(parse_relative("٣d"), None);
}

#[test]
fn what_is_read_decides_in_order() {
    let now = at(1000);
    let day = Some(719163);
    let moment = Some(at(7));
    assert_eq!(resolve_date("x", "10s", now, day, moment), Ok(at(990)));
    assert_eq!(resolve_date("x", "y", now, day, moment), Ok(at(0)));
    assert_eq!(resolve_date("x", "y", now, None, moment), Ok(at(7)));
    assert!(matches!(
        resolve_date("x", "y", now, None, None),
        Err(DateError::Unreadable(m)) if m.contains("`x`")
    ));
}

#[test]
fn moments_are_ordered() {
    let a = Timestamp { secs: 1, nanos: 5 };
    assert!(a.is_before(&Timestamp { secs: 1, nanos: 6 }));
    assert!(a.is_before(&at(2)));
    assert!(!a.is_before(&a));
    assert!(!a.is_before(&at(1)));
    assert_eq!(parse_rfc3339("2025-08-18"), None);
}

#[test]
fn formats_have_names() {
    for f in [Format::Json, Format::Yaml, Format::Table, Format::Markdown, Format::Text] {
        assert_eq!(Format::parse(f.name()), Ok(f));
        assert_eq!(f.name().to_uppercase().parse::<Format>(), Ok(f));
    }
    assert_eq!(Format::parse("md"), Ok(Format::Markdown));
    assert_eq!(Format::parse("TXT"), Ok(Format::Text));
    assert_eq!(Format::parse("XML"), Err("unknown format: xml".to_string()));
}

#[test]
fn rows_are_short() {
    let rows = meeting_rows(&vec![
        doc(r#"{ "id": "aaaaaaaa-1111", "created_at": "2026-07-15T17:00:00Z", "title": "T", "_origin": "shared" }"#),
        doc(r#"{ "id": "äöü", "created_at": "no time" }"#),
        doc(r#"{}"#),
    ]);
    let row = |id: &str, date: &str, title: &str, origin: &str| Row {
        id: id.to_string(),
        date: date.to_string(),
        title: title.to_string(),
        origin: origin.to_string(),
    };
    assert_eq!(
        rows,
        vec![
            row("aaaaaaaa", "2026-07-15", "T", "shared"),
            row("äöü", "no time", "(untitled)", "owned"),
            row("", "", "(untitled)", "owned"),
        ]
    );
}

#[test]
fn a_shown_id_is_resolved() {
    let meetings = vec![
        doc(r#"{"id":"0a1b2c3d-0000-4000-8000-000000000001"}"#),
        doc(r#"{"id":"0a1b2c3e-0000-4000-8000-000000000002"}"#),
    ];
    for (row, id) in meeting_rows(&meetings).iter().zip([
        "0a1b2c3d-0000-4000-8000-000000000001",
        "0a1b2c3e-0000-4000-8000-000000000002",
    ]) {
        assert_eq!(row.id.len(), 8);
        assert_eq!(
            resolve_meeting_id_from_documents(&row.id, &meetings),
            Ok(id.to_string())
        );
    }
}

#[test]
fn messages_and_errors_are_documents() {
    assert_eq!(
        error_value("c", "m"),
        doc(r#"{ "error": { "code": "c", "message": "m" } }"#)
    );
    let Json::Object(fields) = message_value("c", "m") else {
        panic!("an object");
    };
    assert_eq!(
        fields,
        vec![
            ("ok".to_string(), Json::Bool(true)),
            ("code".to_string(), Json::Text("c".to_string())),
            ("message".to_string(), Json::Text("m".to_string())),
        ]
    );
}
