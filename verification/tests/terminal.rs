//! What the terminal's commands print.

use granola::api;
use granola::auth;
use granola::auth::Cause;
use granola::cli::{
    auth_login, auth_logout, auth_status, is_stale_credentials_error, list_text, meeting_context,
    meeting_export, meeting_list, meeting_notes, meeting_transcript, meeting_view, notes_markdown,
    print_context_summary, show, transcript_text, Failure, Outcome, Printed, Shown,
};
use granola::codes;
use granola::dates::DateError;
use granola::json::Json;
use granola::output::{error_value, message_value, Format};
use granola::query::QueryError;
use granola::wire::parse_json;

fn doc(s: &str) -> Json {
    parse_json(s).expect("a document")
}

fn cause(text: &str) -> Cause {
    Cause::new(text.to_string())
}

fn rejected() -> api::Error {
    api::Error::Http { status: 401, message: "unauthorized".into() }
}

fn problem(o: Outcome) -> (&'static str, String) {
    match o {
        Outcome::Problem { code, message } => (code, message),
        other => panic!("{other:?}"),
    }
}

#[test]
fn a_login_ends_by_import_and_trial() {
    assert_eq!(
        auth_login(None, false, None),
        Outcome::Message {
            code: codes::OK,
            message: "Credentials imported and validated".into()
        }
    );
    let (code, message) = problem(auth_login(None, false, Some(rejected())));
    assert_eq!(code, "stale_credentials");
    assert!(message.starts_with("Imported credentials were rejected by Granola."));
    assert_eq!(
        auth_login(None, false, Some(api::Error::Transport("dns".into()))),
        Outcome::Fault("transport: dns".into())
    );
    let (code, message) = problem(auth_login(
        Some(auth::Error::NoDesktopCredentials { tried: vec!["/a".into(), "/b".into()] }),
        false,
        None,
    ));
    assert_eq!(code, "no_desktop_credentials");
    assert_eq!(
        message,
        "could not find Granola credentials on disk. Looked in: /a, /b. Is the Granola desktop app installed and signed in?"
    );
    // With a key that has moved away the same failures mean something else.
    let (code, _) = problem(auth_login(
        Some(auth::Error::NoDesktopCredentials { tried: Vec::new() }),
        true,
        None,
    ));
    assert_eq!(code, "no_bootstrap_credentials");
    let rejected_token = || Some(auth::Error::RefreshRejected { status: 400 });
    assert_eq!(problem(auth_login(rejected_token(), true, None)).0, "bootstrap_refresh_rejected");
    assert_eq!(
        auth_login(rejected_token(), false, None),
        Outcome::Fault("refresh token rejected by authentication provider (HTTP 400)".into())
    );
    assert_eq!(
        auth_login(Some(auth::Error::NoHomeDir), true, None),
        Outcome::Fault("could not determine user home/cache directory".into())
    );
}

#[test]
fn a_status_ends_by_the_keychain_and_trial() {
    assert_eq!(
        auth_status(Ok(true), None),
        Outcome::Message { code: codes::OK, message: "Authenticated and validated".into() }
    );
    assert_eq!(
        problem(auth_status(Ok(false), None)),
        ("unauthenticated", "Not logged in. Run `granola auth login`.".to_string())
    );
    assert_eq!(
        problem(auth_status(
            Ok(true),
            Some(api::Error::Auth(auth::Error::RefreshRejected { status: 400 }))
        ))
        .0,
        "stale_credentials"
    );
    assert_eq!(
        auth_status(Err(auth::Error::Keyring(cause("k"))), None),
        Outcome::Fault("keychain: k: k".into())
    );
    assert_eq!(
        auth_logout(None),
        Outcome::Message { code: codes::OK, message: "Logged out".into() }
    );
    assert_eq!(
        auth_logout(Some(auth::Error::Keyring(cause("k")))),
        Outcome::Fault("keychain: k: k".into())
    );
    assert_eq!(
        auth_status(Ok(true), Some(api::Error::Auth(auth::Error::NoHomeDir))),
        Outcome::Fault(
            "auth: could not determine user home/cache directory: could not determine user home/cache directory"
                .into()
        )
    );
    assert!(is_stale_credentials_error(&rejected()));
    assert!(!is_stale_credentials_error(&api::Error::Unauthenticated));
}

#[test]
fn programs_find_a_document() {
    let well = || Outcome::Message { code: codes::OK, message: "fine".into() };
    let wrong = || Outcome::Problem { code: codes::UNAUTHENTICATED, message: "no".into() };
    assert_eq!(
        show(well(), Format::Json),
        Shown { document: Some(message_value("ok", "fine")), line: None, error: None }
    );
    assert_eq!(
        show(well(), Format::Yaml),
        Shown { document: None, line: Some("fine".into()), error: None }
    );
    assert_eq!(
        show(wrong(), Format::Json),
        Shown {
            document: Some(error_value("unauthenticated", "no")),
            line: None,
            error: Some("no".into())
        }
    );
    assert_eq!(
        show(wrong(), Format::Table),
        Shown { document: None, line: None, error: Some("no".into()) }
    );
    assert_eq!(
        show(Outcome::Fault("bad".into()), Format::Json),
        Shown {
            document: Some(error_value("failed", "bad")),
            line: None,
            error: Some("bad".into())
        }
    );
    assert_eq!(
        show(Outcome::Fault("bad".into()), Format::Text),
        Shown { document: None, line: None, error: Some("bad".into()) }
    );
}

fn no_service() -> Failure {
    Failure::Service(api::Error::Transport("dns".into()))
}

fn failed_as_json(message: &str) -> Printed {
    Printed {
        document: Some(error_value("failed", message)),
        rows: None,
        text: None,
        error: Some(message.to_string()),
    }
}

#[test]
fn a_failed_command_prints_an_error_document() {
    let words = "transport: dns";
    assert_eq!(meeting_list(Err(no_service()), Format::Json), failed_as_json(words));
    assert_eq!(meeting_view(Err(no_service()), Format::Json), failed_as_json(words));
    assert_eq!(meeting_notes(Err(no_service()), Format::Json), failed_as_json(words));
    assert_eq!(
        meeting_transcript(Err(no_service()), true, Format::Json),
        failed_as_json(words)
    );
    assert_eq!(meeting_context(Err(no_service()), Format::Json), failed_as_json(words));
    assert_eq!(
        meeting_list(Err(no_service()), Format::Yaml),
        Printed { document: None, rows: None, text: None, error: Some(words.into()) }
    );
    let bound = QueryError {
        field: "since".into(),
        cause: DateError::Unreadable("could not parse".into()),
    };
    assert_eq!(
        meeting_list(Err(Failure::Query(bound)), Format::Json),
        failed_as_json("invalid `since`: could not parse")
    );
    assert_eq!(
        meeting_context(Ok((doc("{}"), doc("{}"))), Format::Json),
        failed_as_json("Granola returned a transcript payload that is not a segment array")
    );
}

#[test]
fn commands_print_by_format() {
    let meetings = || vec![doc(r#"{"id":"0a1b2c3d-x","title":"A","created_at":"2026-01-01T1"}"#)];
    let listed = meeting_list(Ok(meetings()), Format::Yaml);
    assert_eq!(listed.document, Some(Json::Array(meetings())));
    let listed = meeting_list(Ok(meetings()), Format::Table);
    assert_eq!(listed.document, None);
    let rows = listed.rows.expect("rows");
    assert_eq!((rows[0].id.as_str(), rows[0].date.as_str()), ("0a1b2c3d", "2026-01-01"));
    let listed = meeting_list(Ok(meetings()), Format::Text);
    assert_eq!(listed.text.as_deref(), Some("- 2026-01-01T1 · A (0a1b2c3d-x)\n"));
    assert_eq!(listed.error, None);

    let d = || doc(r#"{"title":"T","notes_markdown":"mine"}"#);
    assert_eq!(meeting_view(Ok(d()), Format::Table).document, Some(d()));
    let noted = meeting_notes(Ok(d()), Format::Markdown).text.expect("a text");
    assert_eq!(noted, format!("{}\n", notes_markdown(&d())));
    let noted = meeting_notes(Ok(d()), Format::Json).document.expect("a document");
    assert_eq!(noted.text("my_notes"), Some("mine"));

    let t = || doc(SEGMENTS);
    assert_eq!(meeting_transcript(Ok(t()), false, Format::Json).document, Some(t()));
    assert_eq!(
        meeting_transcript(Ok(t()), false, Format::Table).text.as_deref(),
        Some("[T1] (system) hi\n[] () yo\n")
    );
    let context = meeting_context(Ok((d(), t())), Format::Text).text.expect("a text");
    assert!(context.starts_with("Meeting: T\n"), "{context}");
    assert!(meeting_context(Ok((d(), t())), Format::Yaml).document.is_some());
}

#[test]
fn meetings_are_listed_in_lines() {
    assert_eq!(
        list_text(&vec![
            doc(r#"{"id":"a","title":"A","created_at":"C"}"#),
            doc(r#"{"title":null}"#)
        ]),
        "- C · A (a)\n-  · (untitled) ()\n"
    );
    assert_eq!(list_text(&Vec::new()), "");
}

const SEGMENTS: &str = r#"[
    {"text": "hi", "source": "system", "start_timestamp": "T1",
     "detectedSpeaker": {"participantName": "Ada"}},
    {"text": "yo"}
]"#;

#[test]
fn a_transcript_is_printed_in_lines() {
    let t = doc(SEGMENTS);
    assert_eq!(transcript_text(&t, "", false), "[T1] (system) hi\n[] () yo\n");
    assert_eq!(transcript_text(&t, "- ", false), "- [T1] (system) hi\n- [] () yo\n");
    assert!(transcript_text(&t, "", true).contains("Ada"));
    assert_eq!(transcript_text(&doc("{}"), "", true), "");
}

#[test]
fn notes_are_printed_without_a_title() {
    let d = doc(r#"{"title":"T","notes_markdown":"mine"}"#);
    let text = notes_markdown(&d);
    assert!(text.contains("mine"));
    assert!(!text.contains("# T"));
    assert!(!text.starts_with(char::is_whitespace));
    let export = meeting_export(&d, None);
    assert!(export.starts_with("# T\n"), "{export}");
    assert!(export.contains("mine"));
    assert_eq!(
        meeting_export(&d, Some(&doc(SEGMENTS))),
        format!("{export}\n## Transcript\n\n- [T1] (system) hi\n- [] () yo\n")
    );
    assert!(meeting_export(&doc("{}"), None).starts_with("# (untitled)"));
}

#[test]
fn a_context_is_printed() {
    let c = doc(
        r#"{"document":{"title":"Plan","id":"m1"},
            "attribution":{"channels":[
                {"source":"system","segment_count":3,"detected_speaker_names":["Ada","Bob"]},
                {"segment_count":1,"detected_speaker_names":[""]},
                {"source":"microphone","detected_speaker_names":[]}]}}"#,
    );
    assert_eq!(
        print_context_summary(&c),
        "Meeting: Plan\nDocument ID: m1\nTranscript channels:\n- system: 3 segments; detected speakers: Ada, Bob\n- unknown: 1 segments\n- microphone: 0 segments\nRaw data: `granola meeting view <id> --output json` and `granola meeting transcript <id> --output json`.\n"
    );
    assert!(print_context_summary(&doc("{}")).starts_with("Meeting: (untitled)\nTranscript channels:\nRaw"));
}
