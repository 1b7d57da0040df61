//! The server's tools: arguments and answers.

use granola::api;
use granola::args::{
    meeting_list_parameters, ArgsError, AuthArgs, ListMeetingsArgs, MeetingIdFormatArgs, NotesArgs,
    ReservedArgs, ResponseFormat, DEFAULT_LIMIT,
};
use granola::auth;
use granola::codes;
use granola::desktop::DesktopState;
use granola::json::{Json, Number};
use granola::mcp::{
    annotate_segment, attendee_label, context_markdown, failure_text, mcp_recovery_text,
    meeting_markdown, render_auth_report, tell_channel, transcript_markdown, GranolaServer,
    Response,
};
use granola::query::MeetingPage;
use granola::report::{AuthReport, RecoveryHint};
use granola::session::CredentialSource;
use granola::wire::parse_json;
use serde_json::Value;

fn doc(s: &str) -> Json {
    parse_json(s).expect("a document")
}

fn value(j: &Json) -> Value {
    match j {
        Json::Null => Value::Null,
        Json::Bool(b) => Value::Bool(*b),
        Json::Number(Number::Unsigned(n)) => Value::from(*n),
        Json::Number(Number::Negative(n)) => Value::from(*n),
        Json::Number(Number::Decimal(s)) => serde_json::from_str(s).expect("a number"),
        Json::Text(s) => Value::String(s.clone()),
        Json::Array(v) => Value::Array(v.iter().map(value).collect()),
        Json::Object(v) => {
            let mut m = serde_json::Map::new();
            for (k, x) in v {
                m.insert(k.clone(), value(x));
            }
            Value::Object(m)
        }
    }
}

fn json_of(r: Response) -> Value {
    match r {
        Response::Json(j) => value(&j),
        Response::Text(s) => panic!("a text: {s}"),
    }
}

fn text_of(r: Response) -> String {
    match r {
        Response::Text(s) => s,
        Response::Json(_) => panic!("a document"),
    }
}

fn list_args(s: &str) -> Result<ListMeetingsArgs, ArgsError> {
    ListMeetingsArgs::from_json(&doc(s))
}

fn notes_args(s: &str) -> Result<NotesArgs, ArgsError> {
    NotesArgs::from_json(&doc(s))
}

fn auth_args(s: &str) -> Result<AuthArgs, ArgsError> {
    AuthArgs::from_json(&doc(s))
}

fn report(code: &'static str, recovery: RecoveryHint) -> AuthReport {
    AuthReport {
        ok: false,
        code,
        message: "Stored credentials were rejected by Granola.".into(),
        credentials_present: true,
        validated: false,
        source: None,
        desktop: DesktopState {
            plaintext_files: vec!["stored-accounts.json".into()],
            encrypted_files: Vec::new(),
            storage_dek_present: false,
            plaintext_refresh_token_present: true,
            needs_cross_app_keychain: false,
        },
        recovery,
    }
}

#[test]
fn auth_args_accept_the_documented_shape_and_reject_typos() {
    let args = auth_args(r#"{"response_format":"markdown"}"#)
        .expect("the documented flat shape must deserialise");
    assert!(matches!(args.response_format, ResponseFormat::Markdown));

    let defaults = auth_args("{}").expect("all fields optional");
    assert!(matches!(defaults.response_format, ResponseFormat::Json));

    assert!(auth_args(r#"{"_meta":{}}"#).is_ok());
    assert!(auth_args(r#"{"responseFormat":"json"}"#).is_err());
    assert!(auth_args(r#"{"params":{}}"#).is_err());
}

#[test]
fn a_self_repairable_state_never_tells_the_agent_to_use_a_terminal() {
    let text = mcp_recovery_text(RecoveryHint::Reimport).expect("a hint");
    assert!(text.contains("granola_auth_login"), "{text}");
    for banned in ["terminal", "browser flow", "sign in", "log in"] {
        assert!(!text.to_lowercase().contains(banned), "{banned:?}: {text}");
    }
}

#[test]
fn states_needing_a_human_say_so() {
    for hint in [RecoveryHint::ApproveKeychain, RecoveryHint::FixKeychainAccess] {
        let text = mcp_recovery_text(hint).expect("a hint");
        assert!(text.contains("terminal"), "{hint:?} should defer: {text}");
    }
}

#[test]
fn a_working_state_suggests_nothing() {
    assert!(mcp_recovery_text(RecoveryHint::Nothing).is_none());
}

#[test]
fn rendered_reports_carry_the_code_and_the_next_step() {
    let report = report(codes::STALE_CREDENTIALS, RecoveryHint::Reimport);

    let parsed = json_of(render_auth_report(&report, ResponseFormat::Json));
    assert_eq!(parsed["code"], "stale_credentials");
    assert_eq!(parsed["recovery"], "reimport");
    assert!(parsed["next_step"]
        .as_str()
        .expect("next_step")
        .contains("granola_auth_login"));

    let markdown = text_of(render_auth_report(&report, ResponseFormat::Markdown));
    assert!(markdown.contains("stale_credentials"), "{markdown}");
    assert!(markdown.contains("Next step"), "{markdown}");
}

#[test]
fn a_healthy_report_renders_without_a_next_step() {
    let mut healthy = report(codes::OK, RecoveryHint::Nothing);
    healthy.ok = true;
    let parsed = json_of(render_auth_report(&healthy, ResponseFormat::Json));
    assert!(parsed.get("next_step").is_none(), "{parsed}");
    assert_eq!(
        text_of(render_auth_report(&healthy, ResponseFormat::Markdown)),
        "# Granola authentication\n\n- **Status**: ok\n- **Code**: `ok`\n\nStored credentials were rejected by Granola.\n"
    );
}

#[test]
fn a_report_is_a_document() {
    let mut r = report(codes::API_UNREACHABLE, RecoveryHint::Retry);
    r.source = Some(CredentialSource::Bootstrap);
    let wanted: Value = serde_json::from_str(
        r#"{
            "ok": false,
            "code": "api_unreachable",
            "message": "Stored credentials were rejected by Granola.",
            "credentials_present": true,
            "validated": false,
            "source": "bootstrap",
            "desktop": {
                "plaintext_files": ["stored-accounts.json"],
                "encrypted_files": [],
                "storage_dek_present": false,
                "plaintext_refresh_token_present": true,
                "needs_cross_app_keychain": false
            },
            "recovery": "retry"
        }"#,
    )
    .unwrap();
    assert_eq!(value(&r.to_json()), wanted);
    let names: Vec<&str> = [
        RecoveryHint::Nothing,
        RecoveryHint::Reimport,
        RecoveryHint::SignInToDesktop,
        RecoveryHint::ApproveKeychain,
        RecoveryHint::FixKeychainAccess,
        RecoveryHint::Retry,
        RecoveryHint::DeadEnd,
    ]
    .iter()
    .map(|h| h.name())
    .collect();
    assert_eq!(
        names,
        vec![
            "none",
            "reimport",
            "sign_in_to_desktop",
            "approve_keychain",
            "fix_keychain_access",
            "retry",
            "dead_end"
        ]
    );
    assert_eq!(
        text_of(render_auth_report(&r, ResponseFormat::Markdown)),
        "# Granola authentication\n\n- **Status**: not working\n- **Code**: `api_unreachable`\n\nStored credentials were rejected by Granola.\n\n**Next step**: Granola's API could not be reached. Retry the original tool call shortly.\n"
    );
}

#[test]
fn reserved_underscore_keys_are_accepted_and_ignored() {
    let args = list_args(r#"{"limit":2,"_meta":{"progressToken":1}}"#)
        .expect("_meta must not be treated as a typo");
    assert_eq!(args.limit, 2);

    assert!(list_args(r#"{"_futureThing":"x"}"#).is_ok());
    assert!(notes_args(r#"{"meeting_id":"a","_meta":{}}"#).is_ok());
}

#[test]
fn only_a_leading_underscore_is_exempt() {
    for bad in [r#"{"limit_":2}"#, r#"{"my_limit":2}"#, r#"{"limitt":2}"#] {
        assert!(list_args(bad).is_err(), "should reject: {bad}");
    }
}

#[test]
fn reserved_keys_do_not_weaken_the_rest_of_the_check() {
    let err = list_args(r#"{"_meta":{},"params":{"limit":2}}"#)
        .expect_err("`params` is still unknown even alongside _meta");
    assert!(err.message().contains("params"), "unexpected: {}", err.message());
}

#[test]
fn list_args_reject_wrongly_nested_params() {
    let err = list_args(r#"{"params":{"limit":2}}"#)
        .expect_err("a nested params object must not deserialise to defaults");
    assert!(
        err.message().contains("unknown field"),
        "unexpected error: {}",
        err.message()
    );
}

#[test]
fn list_args_reject_misspelled_field() {
    assert!(list_args(r#"{"limitt":2}"#).is_err());
    assert!(list_args(r#"{"limit":2,"nonsense":true}"#).is_err());
}

#[test]
fn id_args_reject_unknown_fields() {
    assert!(notes_args(r#"{"meeting_id":"abc"}"#).is_ok());
    assert!(notes_args(r#"{"meetingId":"abc"}"#).is_err());
}

#[test]
fn notes_default_to_markdown() {
    let args = notes_args(r#"{"meeting_id":"abc"}"#).unwrap();
    assert!(matches!(args.response_format, ResponseFormat::Markdown));
}

#[test]
fn list_args_accept_documented_shape_and_defaults() {
    let args = list_args(r#"{"since":"7d","limit":2,"response_format":"markdown"}"#)
        .expect("the documented flat shape must deserialise");
    assert_eq!(args.limit, 2);
    assert!(matches!(args.response_format, ResponseFormat::Markdown));

    let defaults = list_args("{}").expect("all fields optional");
    assert_eq!(defaults.limit, DEFAULT_LIMIT);
    assert!(matches!(defaults.response_format, ResponseFormat::Json));
    assert!(defaults.since.is_none());
}

#[test]
fn arguments_are_refused_with_their_reason() {
    assert_eq!(
        list_args(r#"{"b":1,"_x":1,"a":2}"#).map_err(|e| e.message()),
        Err("unknown fields: `a`, `b`. Arguments are passed flat, not wrapped in a `params` object; see the tool's inputSchema.".to_string())
    );
    assert_eq!(
        auth_args(r#"{"params":1}"#).map_err(|e| e.message()),
        Err("unknown field: `params`. Arguments are passed flat, not wrapped in a `params` object; see the tool's inputSchema.".to_string())
    );
    assert_eq!(notes_args("{}"), Err(ArgsError::Missing("meeting_id".into())));
    assert_eq!(
        ArgsError::Missing("meeting_id".into()).message(),
        "missing field `meeting_id`"
    );
    for (bad, words) in [
        (r#"{"limit":-1}"#, "invalid value: integer `-1`, expected u32"),
        (
            r#"{"limit":-9223372036854775808}"#,
            "invalid value: integer `-9223372036854775808`, expected u32",
        ),
        (r#"{"limit":4294967296}"#, "invalid value: integer `4294967296`, expected u32"),
        (r#"{"limit":null}"#, "invalid type: null, expected u32"),
        (r#"{"limit":"ten"}"#, r#"invalid type: string "ten", expected u32"#),
        (r#"{"limit":"a\"\n"}"#, r#"invalid type: string "a\"\n", expected u32"#),
        (r#"{"offset":1.50}"#, "invalid type: floating point `1.5`, expected u32"),
        (r#"{"offset":1e3}"#, "invalid type: floating point `1000.0`, expected u32"),
        (r#"{"offset":true}"#, "invalid type: boolean `true`, expected u32"),
        (r#"{"include_shared":null}"#, "invalid type: null, expected a boolean"),
        (r#"{"include_shared":{}}"#, "invalid type: map, expected a boolean"),
        (r#"{"since":5}"#, "invalid type: integer `5`, expected a string"),
        (r#"{"search":false}"#, "invalid type: boolean `false`, expected a string"),
        (
            r#"{"response_format":"yaml"}"#,
            "unknown variant `yaml`, expected `json` or `markdown`",
        ),
        (
            r#"{"response_format":"JSON"}"#,
            "unknown variant `JSON`, expected `json` or `markdown`",
        ),
        (
            r#"{"response_format":{"yaml":1}}"#,
            "unknown variant `yaml`, expected `json` or `markdown`",
        ),
        (r#"{"response_format":{"json":1}}"#, "invalid type: integer `1`, expected unit"),
        (
            r#"{"response_format":{"json":null,"markdown":null}}"#,
            "invalid value: map, expected map with a single key",
        ),
        (r#"{"response_format":[]}"#, "invalid type: sequence, expected string or map"),
        ("[]", "invalid type: sequence, expected struct ListMeetingsArgs"),
        // The first that is wrong is told, before what is not known.
        (
            r#"{"a":1,"include_shared":0,"limit":null}"#,
            "invalid type: integer `0`, expected a boolean",
        ),
    ] {
        assert_eq!(list_args(bad), Err(ArgsError::Invalid(words.to_string())), "{bad}");
        assert_eq!(list_args(bad).unwrap_err().message(), words);
    }
    assert_eq!(
        notes_args(r#"{"meeting_id":null}"#).unwrap_err().message(),
        "invalid type: null, expected a string"
    );
    assert_eq!(
        notes_args(r#"{"a":1,"response_format":null}"#).unwrap_err().message(),
        "invalid type: null, expected string or map"
    );
    assert_eq!(notes_args(r#"{"a":1}"#), Err(ArgsError::Missing("meeting_id".into())));
    assert_eq!(
        notes_args("7").unwrap_err().message(),
        "invalid type: integer `7`, expected struct NotesArgs"
    );
    assert_eq!(
        MeetingIdFormatArgs::from_json(&Json::Null).unwrap_err().message(),
        "invalid type: null, expected struct MeetingIdFormatArgs"
    );
    assert_eq!(
        auth_args("\"x\"").unwrap_err().message(),
        "invalid type: string \"x\", expected struct AuthArgs"
    );
    // The other way of naming a format.
    assert_eq!(
        auth_args(r#"{"response_format":{"markdown":null}}"#).map(|a| a.response_format),
        Ok(ResponseFormat::Markdown)
    );
}

#[test]
fn a_repeated_argument_is_refused() {
    let twice = Json::Object(vec![
        ("limit".to_string(), Json::Number(Number::Unsigned(1))),
        ("limit".to_string(), Json::Null),
    ]);
    assert_eq!(
        ListMeetingsArgs::from_json(&twice).unwrap_err().message(),
        "duplicate field `limit`"
    );
    let reserved = Json::Object(vec![
        ("_meta".to_string(), Json::Null),
        ("_meta".to_string(), Json::Null),
    ]);
    assert!(AuthArgs::from_json(&reserved).is_ok());
}

#[test]
fn arguments_are_refused_in_the_words_of_serde() {
    for text in [
        "null",
        "true",
        "false",
        "-1",
        "4294967295",
        "4294967296",
        "18446744073709551615",
        "18446744073709551616",
        "-9223372036854775808",
        "0.1",
        "-0.0",
        "1e300",
        "1.5e-7",
        "\"\"",
        "\"a\\u0000\\u00e9\\u200b'\\\\\"",
        "[1]",
        "{}",
    ] {
        let v: Value = serde_json::from_str(text).expect("a document");
        let number = serde_json::from_value::<u32>(v.clone()).map_err(|e| e.to_string());
        let read = list_args(&format!(r#"{{"limit":{text}}}"#));
        assert_eq!(read.map(|a| a.limit).map_err(|e| e.message()), number);
        let truth = serde_json::from_value::<bool>(v.clone()).map_err(|e| e.to_string());
        let read = list_args(&format!(r#"{{"include_shared":{text}}}"#));
        assert_eq!(read.map(|a| a.include_shared).map_err(|e| e.message()), truth);
        let words = serde_json::from_value::<Option<String>>(v.clone()).map_err(|e| e.to_string());
        let read = list_args(&format!(r#"{{"since":{text}}}"#));
        assert_eq!(read.map(|a| a.since).map_err(|e| e.message()), words);
        let id = serde_json::from_value::<String>(v).map_err(|e| e.to_string());
        let read = notes_args(&format!(r#"{{"meeting_id":{text}}}"#));
        assert_eq!(read.map(|a| a.meeting_id).map_err(|e| e.message()), id);
    }
}

#[test]
fn every_list_parameter_is_taken() {
    let args = list_args(
        r#"{"date":"2026-01-01","since":"a","until":"b","created_since":"c","created_until":"d",
            "updated_since":"e","updated_until":"f","search":null,"limit":4294967295,"offset":3,
            "include_shared":false}"#,
    )
    .expect("all of them");
    assert_eq!(args.limit, u32::MAX);
    assert_eq!(args.search, None);
    assert_eq!(args.reserved, ReservedArgs);
    let q = args.query();
    assert_eq!(
        (q.date, q.since, q.until, q.created_since, q.created_until),
        (Some("2026-01-01"), Some("a"), Some("b"), Some("c"), Some("d"))
    );
    assert_eq!((q.updated_since, q.updated_until, q.search), (Some("e"), Some("f"), None));
    assert_eq!((q.limit, q.offset, q.include_shared), (u32::MAX, 3, false));

    // The parameters that are announced are those that are taken.
    let names = meeting_list_parameters();
    assert_eq!(names.len(), 11);
    for name in names {
        let refused = list_args(&format!(r#"{{"{name}":[]}}"#));
        let words = refused.unwrap_err().message();
        assert!(words.starts_with("invalid type: sequence, expected "), "{name}: {words}");
    }
    let id = MeetingIdFormatArgs::from_json(&doc(r#"{"meeting_id":"abc"}"#)).unwrap();
    assert_eq!((id.meeting_id.as_str(), id.response_format), ("abc", ResponseFormat::Json));
    assert_eq!(ResponseFormat::default(), ResponseFormat::Json);
}

#[test]
fn advice_is_given_where_credentials_are_the_trouble() {
    let text = failure_text(&api::Error::Unauthenticated);
    assert!(text.starts_with("no Granola credentials are stored\n\nCall `granola_auth_login`"));
    assert!(text.ends_with("Call `granola_auth_status` first for the specific cause."));
    assert_eq!(failure_text(&api::Error::Transport("dns".into())), "transport: dns");
    assert!(failure_text(&api::Error::Auth(auth::Error::NoDesktopCredentials {
        tried: Vec::new()
    }))
    .contains("granola_auth_status"));
}

#[test]
fn a_meeting_is_told_in_lines() {
    let m = doc(
        r#"{
            "id": "m1",
            "title": "Plan",
            "created_at": "2026-01-01T00:00:00Z",
            "google_calendar_event": {
                "start": {"dateTime": "S"},
                "end": {"dateTime": "E"}
            },
            "people": {
                "conferencing": {"type": "zoom"},
                "attendees": [
                    {"details": {"person": {"name": {"fullName": "Ada"}}}, "name": "x"},
                    {"name": "Bob", "email": "b@x"},
                    {"email": "c@x"},
                    {"name": ""},
                    {}
                ]
            }
        }"#,
    );
    assert_eq!(
        meeting_markdown(&m),
        "### Plan\n- **ID**: `m1`\n- **Start**: S\n- **End**: E\n- **Platform**: zoom\n- **Attendees**: Ada, Bob, c@x"
    );
    assert_eq!(
        meeting_markdown(&doc(r#"{"title": "", "created_at": "C"}"#)),
        "### (Untitled)\n- **ID**: ``\n- **Start**: C\n- **Platform**: unknown"
    );
    // An empty name hides the address behind it.
    assert_eq!(attendee_label(&doc(r#"{"name": "", "email": "c@x"}"#)), None);
}

fn page() -> MeetingPage {
    MeetingPage {
        total_matched: 5,
        offset: 2,
        meetings: vec![doc(r#"{"id": "a", "title": "A"}"#), doc(r#"{"id": "b"}"#)],
    }
}

#[test]
fn a_page_is_told() {
    let v = json_of(GranolaServer.list_meetings(&page(), ResponseFormat::Json));
    assert_eq!(v["total_matched"], 5);
    assert_eq!(v["offset"], 2);
    assert_eq!(v["count"], 2);
    assert_eq!(v["meetings"][0]["id"], "a");
    assert_eq!(v.as_object().unwrap().len(), 4);
    assert_eq!(
        text_of(GranolaServer.list_meetings(&page(), ResponseFormat::Markdown)),
        "# Meetings (3-4 of 5)\n\n### A\n- **ID**: `a`\n- **Start**: \n- **Platform**: unknown\n\n### (Untitled)\n- **ID**: `b`\n- **Start**: \n- **Platform**: unknown\n"
    );
    let mut all = page();
    all.total_matched = 2;
    all.offset = 0;
    assert!(text_of(GranolaServer.list_meetings(&all, ResponseFormat::Markdown))
        .starts_with("# Meetings (2 found)\n\n### A"));
}

const SEGMENTS: &str = r#"[
    {"text": " hi ", "source": "system", "start_timestamp": "T1",
     "detectedSpeaker": {"participantName": "Fathom Notetaker"}},
    {"text": "  "},
    {"text": "yo", "start_timestamp": "T2", "source": "microphone"},
    {"text": "me", "source": "microphone", "detectedSpeaker": {"participantName": "Ada"}}
]"#;

#[test]
fn a_transcript_is_told() {
    assert_eq!(
        transcript_markdown(&doc(SEGMENTS)),
        "# Transcript\n\n**Fathom Notetaker** _(notetaker bot)_ _(source: system; T1)_: hi\n\n**microphone audio** _(source: microphone; T2)_: yo\n\n**Ada** _(source: microphone; )_: me\n"
    );
    assert_eq!(transcript_markdown(&doc("{}")), "# Transcript\n");
    let v = json_of(GranolaServer.get_transcript(&doc(SEGMENTS), ResponseFormat::Json));
    assert_eq!(v.as_array().unwrap().len(), 4);
    assert_eq!(v[0]["speaker"], "Fathom Notetaker");
    assert_eq!(v[0]["speaker_is_likely_bot"], true);
    assert_eq!(v[0]["text"], " hi ");
    assert_eq!(v[2]["speaker"], Value::Null);
    assert_eq!(v[2]["speaker_is_likely_bot"], false);
    assert_eq!(v[3]["detectedSpeaker"]["participantName"], "Ada");
    assert_eq!(
        json_of(GranolaServer.get_transcript(&doc("{}"), ResponseFormat::Json)),
        Value::Array(Vec::new())
    );
    assert_eq!(
        text_of(GranolaServer.get_transcript(&doc(SEGMENTS), ResponseFormat::Markdown)),
        transcript_markdown(&doc(SEGMENTS))
    );
    // What is no object is left alone; a field of that name is replaced.
    assert_eq!(annotate_segment(&Json::Null), Json::Null);
    assert_eq!(
        value(&annotate_segment(&doc(r#"{"speaker": "raw"}"#))).to_string(),
        r#"{"speaker":null,"speaker_is_likely_bot":false}"#
    );
}

#[test]
fn notes_are_told() {
    let d = doc(r#"{"title": "T", "notes_markdown": "mine"}"#);
    let v = json_of(GranolaServer.get_notes(&d, ResponseFormat::Json));
    assert_eq!(v.as_object().unwrap().len(), 2);
    assert!(text_of(GranolaServer.get_notes(&d, ResponseFormat::Markdown)).starts_with("# T\n"));
}

#[test]
fn a_context_is_told() {
    let d = doc(
        r#"{"id": "m1", "title": "Plan", "people": {"attendees": [{"name": "Ada"}]},
            "google_calendar_event": {"start": {"dateTime": "S"}}}"#,
    );
    let r = GranolaServer
        .get_meeting_context(&d, &doc(SEGMENTS), ResponseFormat::Markdown)
        .expect("a context");
    assert_eq!(
        text_of(r),
        "# Plan\n\n- **ID**: `m1`\n- **Start**: S\n- **Attendees**: Ada\n- **Transcript segments**: 4\n\n## Transcript channels\n\n- microphone: 2 segments; detected speakers: Ada\n- system: 1 segments; detected speakers: Fathom Notetaker\n- unknown: 1 segments\n"
    );
    let v = json_of(
        GranolaServer
            .get_meeting_context(&d, &doc(SEGMENTS), ResponseFormat::Json)
            .expect("a context"),
    );
    assert_eq!(v["transcript"]["segment_count"], 4);
    assert!(GranolaServer
        .get_meeting_context(&d, &doc("{}"), ResponseFormat::Json)
        .is_err());
    assert_eq!(context_markdown(&doc("{}")), "# (untitled)\n\n## Transcript channels\n\n");
    assert_eq!(
        tell_channel(&doc(r#"{"detected_speaker_names": ["", 3]}"#)),
        "- unknown: 0 segments; detected speakers: "
    );
}
