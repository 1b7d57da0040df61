//! Fetching all meetings, selecting some, and paging.

use granola::dates::{parse_rfc3339, DateError, Timestamp};
use granola::json::Json;
use granola::merge::{batch_of, Ask, Merge};
use granola::query::{
    is_selected, is_title_found, is_within, list_meetings, MeetingQuery, MeetingQuerySpec,
    QueryError,
};
use granola::wire::parse_json;

fn doc(s: &str) -> Json {
    parse_json(s).expect("a document")
}

fn at(s: &str) -> Timestamp {
    parse_rfc3339(s).expect("a moment")
}

fn ids(meetings: &[Json]) -> Vec<&str> {
    meetings.iter().map(|m| m.text("id").expect("an id")).collect()
}

fn page_of(from: usize, n: usize) -> Json {
    let docs: Vec<String> = (from..from + n)
        .map(|i| format!(r#"{{"id":"d{i}","updated_at":"{i:05}"}}"#))
        .collect();
    doc(&format!(r#"{{"docs":[{}]}}"#, docs.join(",")))
}

#[test]
fn owned_documents_are_paged_through() {
    let m = Merge::start(false);
    assert_eq!(m.ask(), Some(Ask::Documents { limit: 100, offset: 0 }));
    let m = m.answer(Some(page_of(0, 100))).expect("goes on");
    assert_eq!(m.ask(), Some(Ask::Documents { limit: 100, offset: 100 }));
    let m = m.answer(Some(page_of(100, 3))).expect("goes on");
    assert_eq!(m.ask(), None);
    let all = m.meetings();
    assert_eq!(all.len(), 103);
    assert_eq!(ids(&all)[..2], ["d102", "d101"]);
    assert_eq!(all[0].text("_origin"), Some("owned"));
    // A request that fails ends the fetch.
    assert!(Merge::start(false).answer(None).is_none());
}

#[test]
fn paging_stops_after_a_thousand_documents() {
    let mut m = Merge::start(false);
    let mut asked = 0;
    while let Some(ask) = m.ask() {
        assert_eq!(ask, Ask::Documents { limit: 100, offset: asked * 100 });
        m = m.answer(Some(page_of(asked as usize * 100, 100))).expect("goes on");
        asked += 1;
    }
    assert_eq!(asked, 10);
    assert_eq!(m.meetings().len(), 1000);
}

#[test]
fn shared_documents_are_merged() {
    let m = Merge::start(true);
    let m = m
        .answer(Some(doc(
            r#"{"docs":[{"id":"own","updated_at":"2"},{"no":"id"},7,{"id":"own2","updated_at":"2"}]}"#,
        )))
        .expect("goes on");
    assert_eq!(m.ask(), Some(Ask::Lists));
    let m = m
        .answer(Some(doc(
            r#"[{"documents":[{"id":"s1"},{"id":"own"},{}],"document_ids":["s2","s1",5]},
                {"document_ids":["own2","s3"]},
                3]"#,
        )))
        .expect("goes on");
    assert_eq!(
        m.ask(),
        Some(Ask::Batch(vec!["s1".to_string(), "s2".to_string(), "s3".to_string()]))
    );
    let m = m
        .answer(Some(doc(
            r#"{"documents":[{"id":"s1","updated_at":"3"},{"id":"s2","_origin":"x"}]}"#,
        )))
        .expect("goes on");
    assert_eq!(m.ask(), None);
    let all = m.meetings();
    assert_eq!(ids(&all), vec!["s1", "own", "own2", "s2"]);
    assert_eq!(all[0].text("_origin"), Some("shared"));
    assert_eq!(all[1].text("_origin"), Some("owned"));
    assert_eq!(all[3].text("_origin"), Some("shared"));
}

#[test]
fn an_owned_document_stays_owned() {
    let m = Merge::start(true)
        .answer(Some(doc(r#"{"docs":[{"id":"own"}]}"#)))
        .expect("goes on")
        .answer(Some(doc(r#"[{"document_ids":["own","s"]}]"#)))
        .expect("goes on");
    assert_eq!(m.ask(), Some(Ask::Batch(vec!["s".to_string()])));
    let m = m.answer(Some(doc(r#"{"docs":[{"id":"s"}]}"#))).expect("goes on");
    let all = m.meetings();
    let origins: Vec<Option<&str>> = all.iter().map(|d| d.text("_origin")).collect();
    assert_eq!(origins, vec![Some("owned"), Some("shared")]);
}

#[test]
fn lists_may_fail_and_batches_may_not() {
    let owned = || {
        Merge::start(true)
            .answer(Some(doc(r#"{"docs":[{"id":"own"}]}"#)))
            .expect("goes on")
    };
    let m = owned().answer(None).expect("lists may fail");
    assert_eq!(m.ask(), None);
    assert_eq!(m.meetings().len(), 1);
    let m = owned().answer(Some(doc("{}"))).expect("lists may be none");
    assert_eq!(m.ask(), None);
    let m = owned()
        .answer(Some(doc(r#"[{"document_ids":["s"]}]"#)))
        .expect("goes on");
    assert!(m.answer(None).is_none());
}

#[test]
fn shared_documents_come_in_batches() {
    let names: Vec<String> = (0..205).map(|i| format!(r#""s{i}""#)).collect();
    let mut m = Merge::start(true)
        .answer(Some(doc("{}")))
        .expect("goes on")
        .answer(Some(doc(&format!(r#"[{{"document_ids":[{}]}}]"#, names.join(",")))))
        .expect("goes on");
    let mut sizes = Vec::new();
    while let Some(ask) = m.ask() {
        match ask {
            Ask::Batch(ids) => {
                assert_eq!(ids[0], format!("s{}", sizes.len() * 100));
                sizes.push(ids.len());
            }
            other => panic!("{other:?}"),
        }
        m = m.answer(Some(doc(r#"{"docs":[]}"#))).expect("goes on");
    }
    assert_eq!(sizes, vec![100, 100, 5]);
    // The first of two keys counts, whatever it holds.
    assert_eq!(batch_of(&doc(r#"{"documents":5,"docs":[1]}"#)).len(), 0);
    assert_eq!(batch_of(&doc(r#"{"docs":[1]}"#)).len(), 1);
}

#[test]
fn a_later_document_of_the_same_id_replaces_the_earlier() {
    let m = Merge::start(false)
        .answer(Some(doc(
            r#"{"docs":[{"id":"a","title":"old"},{"id":"b"},{"id":"a","title":"new"}]}"#,
        )))
        .expect("goes on");
    let all = m.meetings();
    assert_eq!(ids(&all), vec!["a", "b"]);
    assert_eq!(all[0].text("title"), Some("new"));
}

fn spec() -> MeetingQuerySpec<'static> {
    MeetingQuerySpec {
        date: None,
        since: None,
        until: None,
        created_since: None,
        created_until: None,
        updated_since: None,
        updated_until: None,
        search: None,
        limit: 20,
        offset: 0,
        include_shared: true,
    }
}

#[test]
fn written_bounds_are_read() {
    let now = at("2026-03-10T12:00:00Z");
    let mut s = spec();
    s.date = Some("2026-03-01");
    let q = s.resolve_at(now).expect("a query");
    assert_eq!(q.created_since, Some(at("2026-03-01T00:00:00Z")));
    assert_eq!(q.created_until, Some(at("2026-03-02T00:00:00Z")));

    // Written bounds win, and the longer name over the shorter.
    s.since = Some("2026-02-01");
    s.created_until = Some("today");
    s.until = Some("yesterday");
    s.updated_since = Some("2h");
    s.search = Some("ÄBC");
    s.limit = 0;
    s.offset = 7;
    s.include_shared = false;
    assert_eq!(
        s.resolve_at(now),
        Ok(MeetingQuery {
            created_since: Some(at("2026-02-01T00:00:00Z")),
            created_until: Some(at("2026-03-10T00:00:00Z")),
            updated_since: Some(at("2026-03-10T10:00:00Z")),
            updated_until: None,
            search: Some("äbc".to_string()),
            limit: 1,
            offset: 7,
            include_shared: false,
        })
    );
    s.limit = 201;
    assert_eq!(s.resolve_at(now).map(|q| q.limit), Ok(200));
    assert_eq!(s.resolve().map(|q| q.limit), Ok(200));
}

#[test]
fn a_bound_that_gives_no_moment_is_named() {
    let now = at("2026-03-10T12:00:00Z");
    let unreadable = |field: &str, text: &str| {
        Err(QueryError {
            field: field.to_string(),
            cause: DateError::Unreadable(format!(
                "could not parse date spec `{text}` — try `today`, `7d`, `2h`, or ISO date `YYYY-MM-DD`"
            )),
        })
    };
    let mut s = spec();
    s.updated_until = Some("z");
    assert_eq!(s.resolve_at(now), unreadable("updated_until", "z"));
    s.updated_since = Some("y");
    assert_eq!(s.resolve_at(now), unreadable("updated_since", "y"));
    s.until = Some("w");
    assert_eq!(s.resolve_at(now), unreadable("until", "w"));
    s.created_since = Some("v");
    assert_eq!(s.resolve_at(now), unreadable("since", "v"));
    s.date = Some("u");
    let e = s.resolve_at(now).expect_err("no moment");
    assert_eq!(e.field, "date");
    assert!(e.message().contains("u"), "{}", e.message());
    let mut s = spec();
    s.date = Some("+262142-12-31");
    assert_eq!(
        s.resolve_at(now),
        Err(QueryError { field: "date".to_string(), cause: DateError::OutOfRange })
    );
}

fn open_query() -> MeetingQuery {
    spec().resolve_at(at("2026-03-10T12:00:00Z")).expect("a query")
}

#[test]
fn pages_follow_each_other() {
    let all: Vec<Json> = (0..7)
        .map(|i| doc(&format!(r#"{{"id":"m{i}","title":"{}"}}"#, if i == 3 { "x" } else { "Abc" })))
        .collect();
    let mut q = open_query();
    q.search = Some("abc".to_string());
    q.limit = 4;
    let first = list_meetings(&all, &q);
    assert_eq!((first.total_matched, first.offset), (6, 0));
    assert_eq!(ids(&first.meetings), vec!["m0", "m1", "m2", "m4"]);
    q.offset = 4;
    let second = list_meetings(&all, &q);
    assert_eq!((second.total_matched, second.offset), (6, 4));
    assert_eq!(ids(&second.meetings), vec!["m5", "m6"]);
    q.offset = u32::MAX;
    assert_eq!(list_meetings(&all, &q).meetings.len(), 0);
}

#[test]
fn a_meeting_is_selected_by_all_conditions() {
    let m = doc(
        r#"{"title":"Straße PLAN","created_at":"2026-03-01T10:00:00Z","updated_at":"2026-03-05T10:00:00Z"}"#,
    );
    let mut q = open_query();
    assert!(is_selected(&m, &q));
    q.created_since = Some(at("2026-03-01T10:00:00Z"));
    q.created_until = Some(at("2026-03-01T10:00:01Z"));
    q.updated_since = Some(at("2026-03-05T00:00:00Z"));
    q.search = Some("straße p".to_string());
    assert!(is_selected(&m, &q));
    q.updated_until = Some(at("2026-03-05T10:00:00Z"));
    assert!(!is_selected(&m, &q));
    assert!(is_title_found(None, None));
    assert!(!is_title_found(None, Some("")));
    assert!(is_title_found(Some("A"), Some("")));
    assert!(is_title_found(Some("un été"), Some("été")));
    assert!(!is_title_found(Some("a"), Some("A")));
    assert!(is_within(None, None, None));
    assert!(!is_within(None, Some(at("2026-03-05T10:00:00Z")), None));
}
