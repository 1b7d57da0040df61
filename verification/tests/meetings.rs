//! Meetings: filters, ids, notes, attribution, summaries and context.

use granola::attribution::{
    attribution_summary, format_transcript_segment, has_notetaker_marker,
    looks_like_notetaker_bot, segment_speaker_name,
};
use granola::dates::{parse_rfc3339, Timestamp};
use granola::json::{Json, Number};
use granola::meetings::{
    full_document, looks_like_full_meeting_id, meeting_context_value, meeting_summary,
    person_display_name, resolve_meeting_id_from_documents, IdError,
};
use granola::notes::{demote_headings, has_own_notes, meeting_notes};
use granola::query::{in_date_range, in_timestamp_range};
use granola::wire::parse_json;
use serde_json::Value;

fn doc(s: &str) -> Json {
    parse_json(s).expect("a document")
}

fn value(j: &Json) -> Value {
    match j {
        Json::Null => Value::Null,
        Json::Bool(b) => Value::Bool(*b),
        Json::Number(Number::Unsigned(n)) => Value::from(*n),
        Json::Number(Number::Negative(n)) => Value::from(*n),
        Json::Number(Number::Decimal(s)) => serde_json::from_str(s).expect("a number"),
        Json::Text(s) => Value::String(s.clone()),
        Json::Array(v) => Value::Array(v.iter().map(value).collect()),
        Json::Object(v) => {
            let mut m = serde_json::Map::new();
            for (k, x) in v {
                m.insert(k.clone(), value(x));
            }
            Value::Object(m)
        }
    }
}

fn expected(s: &str) -> Value {
    serde_json::from_str(s).expect("a document")
}

fn timestamp(s: &str) -> Timestamp {
    parse_rfc3339(s).expect("a moment")
}

#[test]
fn date_range_uses_created_at_not_updated_at() {
    let meeting = doc(
        r#"{ "created_at": "2026-07-15T17:00:00Z", "updated_at": "2026-08-01T17:00:00Z" }"#,
    );
    assert!(in_date_range(
        &meeting,
        Some(timestamp("2026-07-15T00:00:00Z")),
        Some(timestamp("2026-07-16T00:00:00Z")),
    ));
}

#[test]
fn date_range_excludes_its_upper_bound() {
    let meeting = doc(r#"{ "created_at": "2026-07-16T00:00:00Z" }"#);
    assert!(!in_date_range(
        &meeting,
        Some(timestamp("2026-07-15T00:00:00Z")),
        Some(timestamp("2026-07-16T00:00:00Z")),
    ));
}

#[test]
fn a_meeting_without_a_moment_lies_within_no_bounds() {
    let meeting = doc(r#"{ "created_at": "yesterday", "updated_at": 5 }"#);
    assert!(in_date_range(&meeting, None, None));
    assert!(!in_date_range(&meeting, Some(timestamp("2026-07-15T00:00:00Z")), None));
    assert!(!in_timestamp_range(
        &meeting,
        "updated_at",
        None,
        Some(timestamp("2026-07-15T00:00:00Z")),
    ));
}

#[test]
fn keeps_full_meeting_uuid() {
    let meetings = vec![doc(r#"{ "id": "aaaaaaaa-1111-4111-8111-111111111111" }"#)];
    let resolved =
        resolve_meeting_id_from_documents("aaaaaaaa-1111-4111-8111-111111111111", &meetings)
            .expect("full id should be preserved");
    assert_eq!(resolved, "aaaaaaaa-1111-4111-8111-111111111111");
}

#[test]
fn resolves_unique_short_prefix() {
    let meetings = vec![
        doc(r#"{ "id": "aaaaaaaa-1111-4111-8111-111111111111" }"#),
        doc(r#"{ "id": "bbbbbbbb-2222-4222-8222-222222222222" }"#),
    ];
    let resolved = resolve_meeting_id_from_documents("aaaaaaaa", &meetings)
        .expect("short prefix should resolve");
    assert_eq!(resolved, "aaaaaaaa-1111-4111-8111-111111111111");
}

#[test]
fn errors_on_ambiguous_prefix() {
    let meetings = vec![
        doc(r#"{ "id": "aaaaaaaa-1111-4111-8111-111111111111" }"#),
        doc(r#"{ "id": "aaaaaaaa-3333-4333-8333-333333333333" }"#),
    ];
    let err = resolve_meeting_id_from_documents("aaaaaaaa", &meetings)
        .expect_err("ambiguous prefix should fail");
    assert!(
        err.message().contains("matched multiple recent meetings"),
        "unexpected error: {}",
        err.message()
    );
}

#[test]
fn errors_on_missing_prefix() {
    let meetings = vec![doc(r#"{ "id": "aaaaaaaa-1111-4111-8111-111111111111" }"#)];
    let err = resolve_meeting_id_from_documents("deadbeef", &meetings)
        .expect_err("missing prefix should fail");
    assert!(
        err.message().contains("did not match any recent meeting"),
        "unexpected error: {}",
        err.message()
    );
}

#[test]
fn a_blank_id_is_refused_and_white_space_is_cut() {
    let meetings = vec![doc(r#"{ "id": "abc" }"#), doc(r#"{ "title": "no id" }"#)];
    assert_eq!(resolve_meeting_id_from_documents("  ", &meetings), Err(IdError::Empty));
    assert_eq!(IdError::Empty.message(), "meeting ID cannot be empty");
    assert_eq!(resolve_meeting_id_from_documents(" ab\n", &meetings), Ok("abc".to_string()));
    assert_eq!(
        resolve_meeting_id_from_documents("x", &meetings),
        Err(IdError::Unknown("x".to_string()))
    );
}

#[test]
fn a_full_id_has_36_bytes_and_four_dashes() {
    assert!(looks_like_full_meeting_id("aaaaaaaa-1111-4111-8111-111111111111"));
    assert!(!looks_like_full_meeting_id("aaaaaaaa-1111-4111-8111-11111111111"));
    assert!(!looks_like_full_meeting_id("aaaaaaaa-1111-4111-8111+111111111111"));
    // Bytes count, not characters: 34 characters, two of them of two bytes.
    assert!(looks_like_full_meeting_id("ééaaaa-1111-4111-8111-111111111111"));
    assert!(!looks_like_full_meeting_id(&"é-".repeat(4000)));
}

#[test]
fn attribution_summary_uses_nested_detected_speaker() {
    let transcript = doc(
        r#"[{
            "source": "system",
            "start_timestamp": "2026-07-22T16:31:21.054Z",
            "text": "Thanks for that.",
            "detectedSpeaker": { "participantName": "Rae Nakamura" }
        }]"#,
    );
    assert_eq!(
        value(&attribution_summary(&transcript)),
        expected(
            r#"{
                "channels": [{
                    "source": "system",
                    "segment_count": 1,
                    "detected_speaker_names": ["Rae Nakamura"]
                }],
                "likely_notetaker_bots": [],
                "speaker_attribution": "Only names present in raw transcript segments are listed; no calendar-based inference is applied. Names matching known notetaker vendors are additionally listed in likely_notetaker_bots."
            }"#
        )
    );
}

#[test]
fn attribution_summary_falls_back_to_legacy_speaker_field() {
    let transcript = doc(
        r#"[{
            "source": "microphone",
            "start_timestamp": "2026-07-22T16:31:21.054Z",
            "text": "Hello.",
            "detected_speaker_name": "Sam"
        }]"#,
    );
    assert_eq!(
        value(&attribution_summary(&transcript)),
        expected(
            r#"{
                "channels": [{
                    "source": "microphone",
                    "segment_count": 1,
                    "detected_speaker_names": ["Sam"]
                }],
                "likely_notetaker_bots": [],
                "speaker_attribution": "Only names present in raw transcript segments are listed; no calendar-based inference is applied. Names matching known notetaker vendors are additionally listed in likely_notetaker_bots."
            }"#
        )
    );
}

#[test]
fn transcript_attribution_output_keeps_raw_source() {
    let segment = doc(
        r#"{
            "source": "system",
            "start_timestamp": "2026-07-22T16:31:21.054Z",
            "text": "Hello.",
            "detectedSpeaker": { "participantName": "Rae Nakamura" }
        }"#,
    );
    assert_eq!(
        format_transcript_segment(&segment),
        "[2026-07-22T16:31:21.054Z] (system; speaker: Rae Nakamura) Hello."
    );
}

#[test]
fn an_empty_speaker_name_is_none() {
    let segment = doc(
        r#"{ "detectedSpeaker": { "participantName": "" }, "detected_speaker_name": "Sam" }"#,
    );
    assert_eq!(segment_speaker_name(&segment), Some("Sam"));
    assert_eq!(segment_speaker_name(&doc(r#"{ "detected_speaker_name": "" }"#)), None);
    assert_eq!(
        format_transcript_segment(&doc(r#"{ "source": "system", "text": "Hi" }"#)),
        "[] (system) Hi"
    );
}

#[test]
fn attribution_summary_does_not_infer_names_for_unnamed_channels() {
    let transcript = doc(
        r#"[
            { "source": "microphone", "text": "Hey Rae." },
            { "source": "system", "text": "Hi." },
            {
                "source": "system",
                "text": "Thanks.",
                "detectedSpeaker": { "participantName": "Rae Nakamura" }
            }
        ]"#,
    );
    assert_eq!(
        value(&attribution_summary(&transcript)),
        expected(
            r#"{
                "channels": [
                    {
                        "source": "microphone",
                        "segment_count": 1,
                        "detected_speaker_names": []
                    },
                    {
                        "source": "system",
                        "segment_count": 2,
                        "detected_speaker_names": ["Rae Nakamura"]
                    }
                ],
                "likely_notetaker_bots": [],
                "speaker_attribution": "Only names present in raw transcript segments are listed; no calendar-based inference is applied. Names matching known notetaker vendors are additionally listed in likely_notetaker_bots."
            }"#
        )
    );
}

#[test]
fn channels_and_names_are_ordered_and_distinct() {
    let transcript = doc(
        r#"[
            { "source": "system", "detected_speaker_name": "Zoe" },
            { "text": "nobody" },
            { "source": "microphone", "detected_speaker_name": "Al" },
            { "source": "system", "detected_speaker_name": "Bo" },
            { "source": "system", "detected_speaker_name": "Zoe" }
        ]"#,
    );
    let summary = value(&attribution_summary(&transcript));
    assert_eq!(
        summary["channels"],
        expected(
            r#"[
                { "source": "microphone", "segment_count": 1, "detected_speaker_names": ["Al"] },
                { "source": "system", "segment_count": 3, "detected_speaker_names": ["Bo", "Zoe"] },
                { "source": "unknown", "segment_count": 1, "detected_speaker_names": [] }
            ]"#
        )
    );
    // The counts add up to the segments.
    let total: u64 = summary["channels"]
        .as_array()
        .unwrap()
        .iter()
        .map(|c| c["segment_count"].as_u64().unwrap())
        .sum();
    assert_eq!(total, 5);
    // A transcript that is no array has no channels.
    assert_eq!(value(&attribution_summary(&doc("{}")))["channels"], expected("[]"));
}

#[test]
fn context_is_compact_and_omits_raw_sensitive_fields() {
    let document = doc(
        r#"{
            "id": "meeting-123",
            "title": "Rae / Sam",
            "last_viewed_panel": {
                "content": {
                    "type": "doc",
                    "content": [{ "type": "paragraph", "content": [{ "type": "text", "text": "Decision" }] }]
                }
            },
            "unrecognized_document_field": { "kept": true },
            "people": {
                "creator": { "email": "person@example.com", "name": "Sam Okafor" },
                "attendees": [{ "details": { "person": { "name": { "fullName": "Rae" } } } }]
            },
            "google_calendar_event": {
                "start": { "dateTime": "2026-07-22T17:00:00Z", "timeZone": "America/Los_Angeles" },
                "end": { "dateTime": "2026-07-22T17:30:00Z", "timeZone": "America/Los_Angeles" }
            },
            "url": "https://calendar.example.com/private"
        }"#,
    );
    let transcript = doc(
        r#"[
            {
                "id": "segment-123",
                "source": "system",
                "text": "Hello.",
                "unrecognized_segment_field": { "kept": true }
            }
        ]"#,
    );

    let context = value(&meeting_context_value(&document, &transcript).unwrap());
    assert_eq!(context.pointer("/document/id"), Some(&Value::from("meeting-123")));
    assert_eq!(context.pointer("/notes/available"), Some(&Value::from(true)));
    assert_eq!(context.pointer("/transcript/segment_count"), Some(&Value::from(1)));
    assert_eq!(context.pointer("/people/creator_name"), Some(&Value::from("Sam Okafor")));
    assert_eq!(
        context.pointer("/people/attendee_names"),
        Some(&Value::from(vec!["Rae"]))
    );
    assert!(context.pointer("/document/people").is_none());
    assert!(context.pointer("/document/url").is_none());
    assert!(context.pointer("/document/unrecognized_document_field").is_none());
    assert!(context.pointer("/transcript/0").is_none());

    // The whole of it.
    assert_eq!(
        context,
        expected(
            r#"{
                "schema_version": 1,
                "provenance": {
                    "document": "Granola meeting document API response",
                    "notes": "Editable note document stored with the meeting; it has no transcript-segment or speaker provenance.",
                    "transcript": "Granola raw transcript API response",
                    "speaker_attribution": "Only names supplied in raw transcript segments are summarized; calendar participants are never inferred as speakers."
                },
                "document": {
                    "id": "meeting-123",
                    "title": "Rae / Sam",
                    "type": null,
                    "created_at": null,
                    "updated_at": null,
                    "creation_source": null
                },
                "people": { "creator_name": "Sam Okafor", "attendee_names": ["Rae"] },
                "conferencing": { "type": null },
                "calendar": {
                    "start": { "date_time": "2026-07-22T17:00:00Z", "date": null, "time_zone": "America/Los_Angeles" },
                    "end": { "date_time": "2026-07-22T17:30:00Z", "date": null, "time_zone": "America/Los_Angeles" }
                },
                "notes": { "available": true, "my_notes": false, "ai_notes": true },
                "transcript": { "segment_count": 1 },
                "attribution": {
                    "channels": [{ "source": "system", "segment_count": 1, "detected_speaker_names": [] }],
                    "likely_notetaker_bots": [],
                    "speaker_attribution": "Only names present in raw transcript segments are listed; no calendar-based inference is applied. Names matching known notetaker vendors are additionally listed in likely_notetaker_bots."
                }
            }"#
        )
    );

    // What was said, and what the notes say, changes nothing.
    let other = doc(r#"[{ "source": "system", "text": "Something else." }]"#);
    assert_eq!(context, value(&meeting_context_value(&document, &other).unwrap()));
}

#[test]
fn meeting_summary_omits_bulk_and_sensitive_fields() {
    let m = doc(
        r#"{
            "id": "aaaaaaaa-1111-4111-8111-111111111111",
            "title": "Rae / Sam",
            "created_at": "2026-07-22T17:00:00Z",
            "updated_at": "2026-07-22T18:00:00Z",
            "_origin": "owned",
            "ydoc_state": "AAAAAAAAAAAAAAAA",
            "notes": { "type": "doc", "content": [] },
            "notes_markdown": "secret decisions",
            "people": {
                "conferencing": { "type": "zoom" },
                "attendees": [
                    { "email": "rae@example.com",
                      "details": { "person": { "name": { "fullName": "Rae" } } } }
                ]
            },
            "google_calendar_event": {
                "start": { "dateTime": "2026-07-22T17:00:00Z" },
                "end": { "dateTime": "2026-07-22T17:30:00Z" }
            }
        }"#,
    );
    let summary = value(&meeting_summary(&m));

    assert_eq!(summary["title"], Value::from("Rae / Sam"));
    assert_eq!(summary["platform"], Value::from("zoom"));
    assert_eq!(summary["start"], Value::from("2026-07-22T17:00:00Z"));
    assert_eq!(summary["end"], Value::from("2026-07-22T17:30:00Z"));
    assert_eq!(summary["attendee_names"], Value::from(vec!["Rae"]));
    assert_eq!(summary["origin"], Value::from("owned"));

    for absent in ["ydoc_state", "notes", "notes_markdown", "people"] {
        assert!(
            summary.get(absent).is_none(),
            "`{absent}` must not appear in a list summary"
        );
    }
    assert!(
        !serde_json::to_string(&summary).unwrap().contains("@example.com"),
        "attendee emails must not appear in a list summary"
    );
    assert_eq!(summary["has_own_notes"], Value::from(true));
    assert_eq!(summary.as_object().unwrap().len(), 10);
}

#[test]
fn meeting_summary_tolerates_a_sparse_document() {
    let summary = value(&meeting_summary(&doc(r#"{ "id": "x" }"#)));
    assert_eq!(summary["id"], Value::from("x"));
    assert_eq!(summary["attendee_names"], expected("[]"));
    assert!(summary["platform"].is_null());
    assert!(summary["start"].is_null());
    assert_eq!(summary["has_own_notes"], Value::from(false));
}

#[test]
fn names_of_people_fall_back_in_order() {
    assert_eq!(person_display_name(&doc(r#"{ "name": "A" }"#)), Some("A"));
    assert_eq!(person_display_name(&doc(r#"{ "name": { "fullName": "B" } }"#)), Some("B"));
    assert_eq!(
        person_display_name(&doc(
            r#"{ "name": 3, "details": { "person": { "name": { "fullName": "C" } } } }"#
        )),
        Some("C")
    );
    // A name that is empty hides what would follow.
    assert_eq!(
        person_display_name(&doc(
            r#"{ "name": "", "details": { "person": { "name": { "fullName": "C" } } } }"#
        )),
        None
    );
}

#[test]
fn the_first_document_of_a_batch_is_taken() {
    assert_eq!(
        full_document(&doc(r#"{ "documents": [{ "id": "a" }, { "id": "b" }] }"#)),
        doc(r#"{ "id": "a" }"#)
    );
    assert_eq!(
        full_document(&doc(r#"{ "docs": [{ "id": "c" }] }"#)),
        doc(r#"{ "id": "c" }"#)
    );
    // `documents` decides, even where it is no array.
    assert_eq!(
        full_document(&doc(r#"{ "documents": null, "docs": [{ "id": "c" }] }"#)),
        Json::Null
    );
    assert_eq!(full_document(&doc("{}")), Json::Null);
}

#[test]
fn notes_returns_both_kinds_when_both_exist() {
    let d = doc(
        r#"{
            "last_viewed_panel": { "content": {
                "type": "doc",
                "content": [{ "type": "paragraph",
                              "content": [{ "type": "text", "text": "AI summary" }] }]
            }},
            "notes": { "type": "doc",
                "content": [{ "type": "paragraph",
                              "content": [{ "type": "text", "text": "Note to self" }] }] }
        }"#,
    );
    let notes = meeting_notes(&d);
    assert_eq!(notes.ai.as_deref(), Some("AI summary"));
    assert_eq!(notes.mine.as_deref(), Some("Note to self"));

    let md = notes.render_markdown(Some("Title"));
    assert!(md.contains("# Title"));
    assert!(md.contains("## My notes"));
    assert!(md.contains("## AI-enhanced notes"));
    assert!(
        md.find("## My notes") < md.find("## AI-enhanced notes"),
        "your own notes should come first:\n{md}"
    );
    assert_eq!(
        md,
        "# Title\n\n## My notes\n\nNote to self\n\n## AI-enhanced notes\n\nAI summary\n"
    );
    assert_eq!(
        value(&notes.to_json()),
        expected(r#"{ "my_notes": "Note to self", "ai_notes": "AI summary" }"#)
    );
}

#[test]
fn notes_fall_back_through_the_flat_fields() {
    let only_flat = meeting_notes(&doc(r#"{ "notes_markdown": "- typed this" }"#));
    assert_eq!(only_flat.mine.as_deref(), Some("- typed this"));
    assert!(only_flat.ai.is_none());
    assert!(has_own_notes(&doc(r#"{ "notes_plain": "typed" }"#)));

    assert!(!has_own_notes(&doc(r#"{ "notes_markdown": "   " }"#)));
    assert!(meeting_notes(&doc("{}")).is_empty());

    assert_eq!(
        meeting_notes(&doc("{}")).render_markdown(None),
        "\nThis meeting has no notes.\n"
    );
    assert_eq!(
        value(&meeting_notes(&doc("{}")).to_json()),
        expected(r#"{ "my_notes": null, "ai_notes": null }"#)
    );
    // The first that is not blank counts.
    assert_eq!(
        meeting_notes(&doc(
            r#"{ "notes": {}, "notes_markdown": "  ", "notes_plain": " p " }"#
        ))
        .mine
        .as_deref(),
        Some("p")
    );
}

#[test]
fn embedded_headings_nest_under_their_section_label() {
    let d = doc(
        r##"{
            "notes_markdown": "# Note to Self\n- do the thing",
            "last_viewed_panel": { "content": { "type": "doc", "content": [] } }
        }"##,
    );
    let md = meeting_notes(&d).render_markdown(Some("Standup"));
    assert!(md.contains("# Standup"));
    assert!(md.contains("## My notes"));
    assert!(md.contains("### Note to Self"), "got:\n{md}");
    assert!(!md.contains("\n# Note to Self"));
}

#[test]
fn demoting_headings_skips_fenced_code_and_caps_at_h6() {
    let input = "# One\n```\n# not a heading\n```\n###### Six\nplain";
    let out = demote_headings(input, 2);
    assert!(out.contains("### One"));
    assert!(
        out.contains("\n# not a heading\n"),
        "fence content changed:\n{out}"
    );
    assert!(out.contains("###### Six"), "must cap at h6:\n{out}");
    assert!(out.contains("plain"));
    assert_eq!(
        out,
        "### One\n```\n# not a heading\n```\n###### Six\nplain"
    );
}

#[test]
fn demoting_touches_headings_only() {
    assert_eq!(demote_headings("##### Five\n#no space\n####### seven", 2), "###### Five\n#no space\n####### seven");
    assert_eq!(demote_headings("  # indented\r\nx\r\n", 1), "  ## indented\nx");
    assert_eq!(demote_headings("  # A", 2), "  ### A");
    assert_eq!(demote_headings("~~~\n# a\n~~~\n# b", 3), "~~~\n# a\n~~~\n#### b");
    assert_eq!(demote_headings("", 2), "");
    assert_eq!(demote_headings("# a", 0), "# a");
    assert_eq!(demote_headings("# a", usize::MAX), "###### a");
}

#[test]
fn demoting_adds_up() {
    let text = "# One\n\n \t## Two\n```\n# code\n```\n##### Five\nplain";
    for (a, b) in [(0, 0), (1, 0), (0, 2), (1, 2), (3, 4)] {
        assert_eq!(
            demote_headings(&demote_headings(text, a), b),
            demote_headings(text, a + b)
        );
    }
    assert_eq!(demote_headings(text, 0), text);
}

#[test]
fn flags_notetaker_bots_without_touching_real_names() {
    for bot in [
        "Fireflies.ai Notetaker VK",
        "Otter.ai",
        "Read.ai meeting recorder",
        "Some Note Taker",
    ] {
        assert!(looks_like_notetaker_bot(bot), "should flag: {bot}");
    }
    for human in [
        "Rae Nakamura",
        "Sam Okafor",
        "Panzerino",
        "benton",
        "Irad \"E-rod\" Eyal",
        "Rob Zhang",
    ] {
        assert!(!looks_like_notetaker_bot(human), "should not flag: {human}");
    }
}

#[test]
fn markers_are_looked_for_in_small_letters() {
    for marker in [
        "notetaker",
        "note taker",
        "notetaking",
        "fireflies",
        "otter.ai",
        "read.ai",
        "avoma",
        "fathom notetaker",
        "grain.co",
        "chorus.ai",
        "gong.io",
        "meeting recorder",
        "transcription bot",
    ] {
        assert!(has_notetaker_marker(&format!("x {marker} y")), "{marker}");
        assert!(!has_notetaker_marker(&marker.to_uppercase()), "{marker}");
        assert!(looks_like_notetaker_bot(&marker.to_uppercase()), "{marker}");
    }
    assert!(!has_notetaker_marker(""));
}

#[test]
fn attribution_flags_bots_but_keeps_them_in_the_speaker_list() {
    let transcript = doc(
        r#"[
            { "source": "system", "text": "Hi.",
              "detectedSpeaker": { "participantName": "Rae Nakamura" } },
            { "source": "system", "text": "Recording.",
              "detectedSpeaker": { "participantName": "Fireflies.ai Notetaker VK" } }
        ]"#,
    );
    let summary = value(&attribution_summary(&transcript));
    assert_eq!(
        summary["likely_notetaker_bots"],
        Value::from(vec!["Fireflies.ai Notetaker VK"])
    );
    let names = summary["channels"][0]["detected_speaker_names"].clone();
    assert_eq!(names, Value::from(vec!["Fireflies.ai Notetaker VK", "Rae Nakamura"]));
}

#[test]
fn context_rejects_non_array_transcript_payloads() {
    let err = meeting_context_value(&doc(r#"{ "id": "meeting-123" }"#), &doc(r#"{ "segments": [] }"#))
        .expect_err("context needs a raw segment array");
    assert!(err.message().contains("not a segment array"));
}
