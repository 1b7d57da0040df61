//! Meetings: how they are named, and what is said of one.

use crate::attribution;
use crate::attribution::{attribution_summary, non_empty_text};
use crate::json;
use crate::json::{
    add_field, no_fields, number, object, optional, optional_text, text_list, text_value, Json,
    JsonView, NumberView,
};
use crate::merge;
use crate::merge::batch_of;
use crate::notes;
use crate::notes::{has_own_notes, meeting_notes};
use crate::text;
use crate::text::{chars_of, starts_with, trim};
use vstd::prelude::*;

verus! {

// ---- Ids --------------------------------------------------------------------

/// The bytes of a character in UTF-8.
pub open spec fn utf8_width(c: char) -> nat {
    if c <= '\u{7f}' {
        1
    } else if c <= '\u{7ff}' {
        2
    } else if c <= '\u{ffff}' {
        3
    } else {
        4
    }
}

/// The bytes of a text in UTF-8.
pub open spec fn utf8_size(s: Seq<char>) -> nat
    decreases s.len(),
{
    if s.len() == 0 {
        0
    } else {
        utf8_size(s.drop_last()) + utf8_width(s.last())
    }
}

/// A text has at most four bytes for each character.
pub proof fn lemma_utf8_size(s: Seq<char>)
    ensures
        utf8_size(s) <= 4 * s.len(),
    decreases s.len(),
{
    if s.len() > 0 {
        lemma_utf8_size(s.drop_last());
    }
}

/// How often a character stands in a text.
pub open spec fn occurrences(s: Seq<char>, c: char) -> nat
    decreases s.len(),
{
    if s.len() == 0 {
        0
    } else {
        occurrences(s.drop_last(), c) + (if s.last() == c {
            1nat
        } else {
            0nat
        })
    }
}

/// Whether a text has the shape of a full id: 36 bytes, four of them dashes.
pub open spec fn is_full_id(s: Seq<char>) -> bool {
    utf8_size(s) == 36 && occurrences(s, '-') == 4
}

/// The ids of meetings that begin with a text.
pub open spec fn ids_beginning(meetings: Seq<JsonView>, prefix: Seq<char>) -> Seq<Seq<char>>
    decreases meetings.len(),
{
    if meetings.len() == 0 {
        Seq::empty()
    } else {
        let before = ids_beginning(meetings.drop_last(), prefix);
        match meetings.last().text("id"@) {
            Some(id) => if text::begins_with(id, prefix) {
                before.push(id)
            } else {
                before
            },
            None => before,
        }
    }
}

/// Why an id names no meeting.
#[derive(Debug, PartialEq, Eq)]
pub enum IdError {
    /// The id is blank.
    Empty,
    /// No meeting's id begins with it.
    Unknown(String),
    /// The ids of several meetings begin with it.
    Ambiguous(String),
}

/// What an [`IdError`] says.
pub enum IdErrorView {
    Empty,
    Unknown(Seq<char>),
    Ambiguous(Seq<char>),
}

impl View for IdError {
    type V = IdErrorView;

    open spec fn view(&self) -> IdErrorView {
        match self {
            IdError::Empty => IdErrorView::Empty,
            IdError::Unknown(s) => IdErrorView::Unknown(s@),
            IdError::Ambiguous(s) => IdErrorView::Ambiguous(s@),
        }
    }
}

/// The id that is meant: a full id is itself, and any other is the only id
/// that begins with it.
pub open spec fn resolved_id(raw: Seq<char>, meetings: Seq<JsonView>) -> Result<
    Seq<char>,
    IdErrorView,
> {
    let id = text::trimmed(raw);
    let found = ids_beginning(meetings, id);
    if id.len() == 0 {
        Err(IdErrorView::Empty)
    } else if is_full_id(id) {
        Ok(id)
    } else if found.len() == 1 {
        Ok(found[0])
    } else if found.len() == 0 {
        Err(IdErrorView::Unknown(id))
    } else {
        Err(IdErrorView::Ambiguous(id))
    }
}

/// Whether a text has the shape of a full id.
pub fn looks_like_full_meeting_id(id: &str) -> (r: bool)
    ensures
        r == is_full_id(id@),
{
    let cs = chars_of(id);
    let mut size: usize = 0;
    let mut dashes: usize = 0;
    let mut i: usize = 0;
    assert(id@.take(0) =~= Seq::empty());
    while i < cs.len()
        invariant
            i <= cs.len(),
            cs@ == id@,
            size == utf8_size(id@.take(i as int)),
            dashes == occurrences(id@.take(i as int), '-'),
            size <= 36,
            dashes <= i,
        decreases cs.len() - i,
    {
        let c = cs[i];
        assert(id@.take(i + 1).drop_last() =~= id@.take(i as int));
        assert(id@.take(i + 1).last() == c);
        size += if c <= '\u{7f}' {
            1
        } else if c <= '\u{7ff}' {
            2
        } else if c <= '\u{ffff}' {
            3
        } else {
            4
        };
        if c == '-' {
            dashes += 1;
        }
        i += 1;
        if size > 36 {
            proof {
                lemma_size_grows(id@, i as int);
            }
            return false;
        }
    }
    assert(id@.take(cs.len() as int) =~= id@);
    size == 36 && dashes == 4
}

/// The start of a text has no more bytes than the text.
proof fn lemma_size_grows(s: Seq<char>, n: int)
    requires
        0 <= n <= s.len(),
    ensures
        utf8_size(s.take(n)) <= utf8_size(s),
    decreases s.len(),
{
    if n == s.len() {
        assert(s.take(n) =~= s);
    } else {
        lemma_size_grows(s.drop_last(), n);
        assert(s.drop_last().take(n) =~= s.take(n));
    }
}

/// The id that is meant: a full id is itself, and any other is the only id
/// among the meetings that begins with it.
pub fn resolve_meeting_id_from_documents(raw_id: &str, meetings: &Vec<Json>) -> (r: Result<
    String,
    IdError,
>)
    ensures
        match r {
            Ok(id) => resolved_id(raw_id@, json::views(meetings@)) == Ok::<
                Seq<char>,
                IdErrorView,
            >(id@),
            Err(e) => resolved_id(raw_id@, json::views(meetings@)) == Err::<
                Seq<char>,
                IdErrorView,
            >(e@),
        },
{
    let id = trim(raw_id);
    if id.as_str().is_empty() {
        return Err(IdError::Empty);
    }
    if looks_like_full_meeting_id(id.as_str()) {
        return Ok(id);
    }
    let ghost all = json::views(meetings@);
    let mut found: Vec<String> = Vec::new();
    assert(text::text_views(found@) =~= ids_beginning(all.take(0), id@));
    let mut i: usize = 0;
    while i < meetings.len()
        invariant
            i <= meetings.len(),
            all == json::views(meetings@),
            text::text_views(found@) == ids_beginning(all.take(i as int), id@),
        decreases meetings.len() - i,
    {
        let ghost before = text::text_views(found@);
        assert(all.take(i + 1).drop_last() =~= all.take(i as int));
        assert(all.take(i + 1).last() == meetings@[i as int]@);
        if let Some(other) = meetings[i].text("id") {
            if starts_with(other, id.as_str()) {
                found.push(other.to_owned());
                assert(text::text_views(found@) =~= before.push(other@));
            }
        }
        i += 1;
    }
    assert(all.take(meetings.len() as int) =~= all);
    assert(text::text_views(found@).len() == found@.len());
    if found.len() == 0 {
        Err(IdError::Unknown(id))
    } else if found.len() == 1 {
        assert(text::text_views(found@)[0] == found@[0]@);
        Ok(found[0].clone())
    } else {
        Err(IdError::Ambiguous(id))
    }
}

/// What is said of an id that names no meeting.
pub open spec fn id_message(e: IdErrorView) -> Seq<char> {
    match e {
        IdErrorView::Empty => "meeting ID cannot be empty"@,
        IdErrorView::Unknown(id) => "meeting ID `"@ + id
            + "` did not match any recent meeting. Use the full UUID from `granola meeting list --output json` or a unique prefix from `granola meeting list`."@,
        IdErrorView::Ambiguous(id) => "meeting ID `"@ + id
            + "` matched multiple recent meetings. Use the full UUID from `granola meeting list --output json`."@,
    }
}

impl IdError {
    /// What went wrong, for a reader.
    pub fn message(&self) -> (r: String)
        ensures
            r@ == id_message(self@),
    {
        match self {
            IdError::Empty => "meeting ID cannot be empty".to_owned(),
            IdError::Unknown(id) => {
                let mut out: String = "meeting ID `".to_owned();
                out.append(id.as_str());
                out.append(
                    "` did not match any recent meeting. Use the full UUID from `granola meeting list --output json` or a unique prefix from `granola meeting list`.",
                );
                out
            },
            IdError::Ambiguous(id) => {
                let mut out: String = "meeting ID `".to_owned();
                out.append(id.as_str());
                out.append(
                    "` matched multiple recent meetings. Use the full UUID from `granola meeting list --output json`.",
                );
                out
            },
        }
    }
}

// ---- One document -----------------------------------------------------------

/// The first document of a batch; null, where there is none.
pub open spec fn first_document(reply: JsonView) -> JsonView {
    let items = merge::batch_items(reply);
    if items.len() == 0 {
        JsonView::Null
    } else {
        items[0]
    }
}

/// The first document of a batch; null, where there is none.
pub fn full_document(reply: &Json) -> (r: Json)
    ensures
        r@ == first_document(reply@),
{
    let items = batch_of(reply);
    assert(json::views(items@).len() == items@.len());
    if items.len() == 0 {
        Json::Null
    } else {
        items[0].clone()
    }
}

// ---- People -----------------------------------------------------------------

/// The value under a path of four keys.
pub open spec fn get4(
    v: JsonView,
    a: Seq<char>,
    b: Seq<char>,
    c: Seq<char>,
    d: Seq<char>,
) -> Option<JsonView> {
    match v.get3(a, b, c) {
        Some(w) => w.get(d),
        None => None,
    }
}

/// The name of a person: as a text, else as a record, else of the person's
/// details. An empty name is none.
pub open spec fn display_name(person: JsonView) -> Option<Seq<char>> {
    attribution::unless_empty(
        json::first_of(
            person.text("name"@),
            json::first_of(
                json::text_in(person.get2("name"@, "fullName"@)),
                json::text_in(get4(person, "details"@, "person"@, "name"@, "fullName"@)),
            ),
        ),
    )
}

/// The names of people, without those that have none.
pub open spec fn display_names(people: Seq<JsonView>) -> Seq<Seq<char>>
    decreases people.len(),
{
    if people.len() == 0 {
        Seq::empty()
    } else {
        match display_name(people.last()) {
            Some(name) => display_names(people.drop_last()).push(name),
            None => display_names(people.drop_last()),
        }
    }
}

/// The names of those invited to a meeting.
pub open spec fn attendee_names(document: JsonView) -> Seq<Seq<char>> {
    display_names(merge::items_or_none(json::items_in(document.get2("people"@, "attendees"@))))
}

/// The value under a path of four keys.
pub fn get_four<'a>(v: &'a Json, a: &str, b: &str, c: &str, d: &str) -> (r: Option<&'a Json>)
    ensures
        json::seen(r) == get4(v@, a@, b@, c@, d@),
{
    match v.get3(a, b, c) {
        Some(w) => w.get(d),
        None => None,
    }
}

/// The name of a person.
pub fn person_display_name(person: &Json) -> (r: Option<&str>)
    ensures
        json::seen(r) == display_name(person@),
{
    let name = match person.text("name") {
        Some(s) => Some(s),
        None => match json::opt_str(person.get2("name", "fullName")) {
            Some(s) => Some(s),
            None => json::opt_str(get_four(person, "details", "person", "name", "fullName")),
        },
    };
    non_empty_text(name)
}

/// The names of those invited to a meeting.
fn collect_attendees(document: &Json) -> (r: Vec<String>)
    ensures
        text::text_views(r@) == attendee_names(document@),
{
    let mut out: Vec<String> = Vec::new();
    match json::opt_array(document.get2("people", "attendees")) {
        Some(people) => {
            let ghost all = json::views(people@);
            assert(text::text_views(out@) =~= display_names(all.take(0)));
            let mut i: usize = 0;
            while i < people.len()
                invariant
                    i <= people.len(),
                    all == json::views(people@),
                    text::text_views(out@) == display_names(all.take(i as int)),
                decreases people.len() - i,
            {
                let ghost before = text::text_views(out@);
                assert(all.take(i + 1).drop_last() =~= all.take(i as int));
                assert(all.take(i + 1).last() == people@[i as int]@);
                if let Some(name) = person_display_name(&people[i]) {
                    out.push(name.to_owned());
                    assert(text::text_views(out@) =~= before.push(name@));
                }
                i += 1;
            }
            assert(all.take(people.len() as int) =~= all);
        },
        None => {
            assert(text::text_views(out@) =~= display_names(Seq::empty()));
        },
    }
    out
}

// ---- Summary ----------------------------------------------------------------

/// What a list says of a meeting: enough to choose one, and nothing of its
/// notes, nor of anyone's address.
pub open spec fn summary(m: JsonView) -> JsonView {
    JsonView::Object(
        seq![
            ("id"@, json::or_null(m.get("id"@))),
            ("title"@, json::or_null(m.get("title"@))),
            ("created_at"@, json::or_null(m.get("created_at"@))),
            ("updated_at"@, json::or_null(m.get("updated_at"@))),
            (
                "start"@,
                json::or_null(m.get3("google_calendar_event"@, "start"@, "dateTime"@)),
            ),
            ("end"@, json::or_null(m.get3("google_calendar_event"@, "end"@, "dateTime"@))),
            ("platform"@, json::or_null(m.get3("people"@, "conferencing"@, "type"@))),
            ("attendee_names"@, json::text_array(attendee_names(m))),
            ("origin"@, json::or_null(m.get("_origin"@))),
            ("has_own_notes"@, JsonView::Bool(notes::own_notes(m) is Some)),
        ],
    )
}

/// What a list says of a meeting.
pub fn meeting_summary(m: &Json) -> (r: Json)
    ensures
        r@ == summary(m@),
{
    let mut fields = no_fields();
    add_field(&mut fields, "id", optional(m.get("id")));
    add_field(&mut fields, "title", optional(m.get("title")));
    add_field(&mut fields, "created_at", optional(m.get("created_at")));
    add_field(&mut fields, "updated_at", optional(m.get("updated_at")));
    add_field(
        &mut fields,
        "start",
        optional(m.get3("google_calendar_event", "start", "dateTime")),
    );
    add_field(&mut fields, "end", optional(m.get3("google_calendar_event", "end", "dateTime")));
    add_field(&mut fields, "platform", optional(m.get3("people", "conferencing", "type")));
    add_field(&mut fields, "attendee_names", text_list(&collect_attendees(m)));
    add_field(&mut fields, "origin", optional(m.get("_origin")));
    add_field(&mut fields, "has_own_notes", Json::Bool(has_own_notes(m)));
    assert(json::field_views(fields@) =~= summary(m@)->Object_0);
    object(fields)
}

// ---- Context ----------------------------------------------------------------

/// One end of the calendar event of a meeting.
pub open spec fn calendar_end(document: JsonView, side: Seq<char>) -> JsonView {
    let of = |key: Seq<char>| json::or_null(document.get3("google_calendar_event"@, side, key));
    JsonView::Object(
        seq![
            ("date_time"@, of("dateTime"@)),
            ("date"@, of("date"@)),
            ("time_zone"@, of("timeZone"@)),
        ],
    )
}

/// Where each part of a context comes from.
pub open spec fn provenance() -> JsonView {
    JsonView::Object(
        seq![
            ("document"@, JsonView::Text("Granola meeting document API response"@)),
            (
                "notes"@,
                JsonView::Text(
                    "Editable note document stored with the meeting; it has no transcript-segment or speaker provenance."@,
                ),
            ),
            ("transcript"@, JsonView::Text("Granola raw transcript API response"@)),
            (
                "speaker_attribution"@,
                JsonView::Text(
                    "Only names supplied in raw transcript segments are summarized; calendar participants are never inferred as speakers."@,
                ),
            ),
        ],
    )
}

/// What identifies a document.
pub open spec fn document_head(document: JsonView) -> JsonView {
    let of = |key: Seq<char>| json::or_null(document.get(key));
    JsonView::Object(
        seq![
            ("id"@, of("id"@)),
            ("title"@, of("title"@)),
            ("type"@, of("type"@)),
            ("created_at"@, of("created_at"@)),
            ("updated_at"@, of("updated_at"@)),
            ("creation_source"@, of("creation_source"@)),
        ],
    )
}

/// The name of the person who made a meeting.
pub open spec fn creator_name(document: JsonView) -> Option<Seq<char>> {
    match document.get2("people"@, "creator"@) {
        Some(person) => display_name(person),
        None => None,
    }
}

/// Who is known of a meeting, by name only.
pub open spec fn people(document: JsonView) -> JsonView {
    JsonView::Object(
        seq![
            ("creator_name"@, json::text_or_null(creator_name(document))),
            ("attendee_names"@, json::text_array(attendee_names(document))),
        ],
    )
}

/// Which notes there are.
pub open spec fn notes_available(document: JsonView) -> JsonView {
    let found = notes::notes_of(document);
    JsonView::Object(
        seq![
            ("available"@, JsonView::Bool(found.mine is Some || found.ai is Some)),
            ("my_notes"@, JsonView::Bool(found.mine is Some)),
            ("ai_notes"@, JsonView::Bool(found.ai is Some)),
        ],
    )
}

/// An object with one field.
pub open spec fn single(key: Seq<char>, value: JsonView) -> JsonView {
    JsonView::Object(seq![(key, value)])
}

/// The context of a meeting whose transcript has `n` segments.
pub open spec fn context(document: JsonView, transcript: JsonView, n: u64) -> JsonView {
    JsonView::Object(
        seq![
            ("schema_version"@, JsonView::Number(NumberView::Unsigned(1))),
            ("provenance"@, provenance()),
            ("document"@, document_head(document)),
            ("people"@, people(document)),
            (
                "conferencing"@,
                single(
                    "type"@,
                    json::or_null(document.get3("people"@, "conferencing"@, "type"@)),
                ),
            ),
            (
                "calendar"@,
                JsonView::Object(
                    seq![
                        ("start"@, calendar_end(document, "start"@)),
                        ("end"@, calendar_end(document, "end"@)),
                    ],
                ),
            ),
            ("notes"@, notes_available(document)),
            (
                "transcript"@,
                single("segment_count"@, JsonView::Number(NumberView::Unsigned(n))),
            ),
            ("attribution"@, attribution::attribution(transcript)),
        ],
    )
}

/// Where each part of a context comes from.
fn provenance_value() -> (r: Json)
    ensures
        r@ == provenance(),
{
    let mut fields = no_fields();
    add_field(&mut fields, "document", text_value("Granola meeting document API response"));
    add_field(
        &mut fields,
        "notes",
        text_value(
            "Editable note document stored with the meeting; it has no transcript-segment or speaker provenance.",
        ),
    );
    add_field(&mut fields, "transcript", text_value("Granola raw transcript API response"));
    add_field(
        &mut fields,
        "speaker_attribution",
        text_value(
            "Only names supplied in raw transcript segments are summarized; calendar participants are never inferred as speakers.",
        ),
    );
    assert(json::field_views(fields@) =~= provenance()->Object_0);
    object(fields)
}

/// What identifies a document.
fn document_head_value(document: &Json) -> (r: Json)
    ensures
        r@ == document_head(document@),
{
    let mut fields = no_fields();
    add_field(&mut fields, "id", optional(document.get("id")));
    add_field(&mut fields, "title", optional(document.get("title")));
    add_field(&mut fields, "type", optional(document.get("type")));
    add_field(&mut fields, "created_at", optional(document.get("created_at")));
    add_field(&mut fields, "updated_at", optional(document.get("updated_at")));
    add_field(&mut fields, "creation_source", optional(document.get("creation_source")));
    assert(json::field_views(fields@) =~= document_head(document@)->Object_0);
    object(fields)
}

/// Who is known of a meeting, by name only.
fn people_value(document: &Json) -> (r: Json)
    ensures
        r@ == people(document@),
{
    let creator = match document.get2("people", "creator") {
        Some(person) => person_display_name(person),
        None => None,
    };
    let mut fields = no_fields();
    add_field(&mut fields, "creator_name", optional_text(creator));
    add_field(&mut fields, "attendee_names", text_list(&collect_attendees(document)));
    assert(json::field_views(fields@) =~= people(document@)->Object_0);
    object(fields)
}

/// One end of the calendar event of a meeting.
fn calendar_end_value(document: &Json, side: &str) -> (r: Json)
    ensures
        r@ == calendar_end(document@, side@),
{
    let mut fields = no_fields();
    add_field(
        &mut fields,
        "date_time",
        optional(document.get3("google_calendar_event", side, "dateTime")),
    );
    add_field(&mut fields, "date", optional(document.get3("google_calendar_event", side, "date")));
    add_field(
        &mut fields,
        "time_zone",
        optional(document.get3("google_calendar_event", side, "timeZone")),
    );
    assert(json::field_views(fields@) =~= calendar_end(document@, side@)->Object_0);
    object(fields)
}

/// Which notes there are.
fn notes_available_value(document: &Json) -> (r: Json)
    ensures
        r@ == notes_available(document@),
{
    let found = meeting_notes(document);
    let mut fields = no_fields();
    add_field(&mut fields, "available", Json::Bool(!found.is_empty()));
    add_field(&mut fields, "my_notes", Json::Bool(found.mine.is_some()));
    add_field(&mut fields, "ai_notes", Json::Bool(found.ai.is_some()));
    assert(json::field_views(fields@) =~= notes_available(document@)->Object_0);
    object(fields)
}

/// An object with one field.
fn single_value(key: &str, value: Json) -> (r: Json)
    ensures
        r@ == single(key@, value@),
{
    let mut fields = no_fields();
    add_field(&mut fields, key, value);
    assert(json::field_views(fields@) =~= single(key@, value@)->Object_0);
    object(fields)
}

/// A transcript that is no array of segments.
#[derive(Debug, PartialEq, Eq)]
pub struct NotSegments;

impl NotSegments {
    /// What went wrong, for a reader.
    pub fn message(&self) -> (r: String)
        ensures
            r@ == "Granola returned a transcript payload that is not a segment array"@,
    {
        "Granola returned a transcript payload that is not a segment array".to_owned()
    }
}

/// A compact and conservative context of a meeting: who and when, which notes
/// there are, and who spoke by the transcript's own word. It holds no note's
/// text, no address and no link.
pub fn meeting_context_value(document: &Json, transcript: &Json) -> (r: Result<Json, NotSegments>)
    ensures
        match r {
            Ok(v) => transcript@.as_items() matches Some(segs) && v@ == context(
                document@,
                transcript@,
                segs.len() as u64,
            ) && segs.len() <= u64::MAX,
            Err(_) => transcript@.as_items() is None,
        },
{
    let n = match transcript.as_array() {
        Some(segs) => {
            assert(json::views(segs@).len() == segs@.len());
            segs.len() as u64
        },
        None => {
            return Err(NotSegments);
        },
    };
    let mut calendar = no_fields();
    add_field(&mut calendar, "start", calendar_end_value(document, "start"));
    add_field(&mut calendar, "end", calendar_end_value(document, "end"));
    assert(json::field_views(calendar@) =~= seq![
        ("start"@, calendar_end(document@, "start"@)),
        ("end"@, calendar_end(document@, "end"@)),
    ]);
    let mut fields = no_fields();
    add_field(&mut fields, "schema_version", number(1));
    add_field(&mut fields, "provenance", provenance_value());
    add_field(&mut fields, "document", document_head_value(document));
    add_field(&mut fields, "people", people_value(document));
    add_field(
        &mut fields,
        "conferencing",
        single_value("type", optional(document.get3("people", "conferencing", "type"))),
    );
    add_field(&mut fields, "calendar", object(calendar));
    add_field(&mut fields, "notes", notes_available_value(document));
    add_field(&mut fields, "transcript", single_value("segment_count", number(n)));
    add_field(&mut fields, "attribution", attribution_summary(transcript));
    assert(json::field_views(fields@) =~= context(document@, transcript@, n)->Object_0);
    Ok(object(fields))
}

// ---- What holds of meetings -------------------------------------------------

/// A full id needs no meetings to be known: it is itself.
pub proof fn law_full_id_is_kept(raw: Seq<char>, meetings: Seq<JsonView>)
    requires
        is_full_id(text::trimmed(raw)),
    ensures
        resolved_id(raw, meetings) == Ok::<Seq<char>, IdErrorView>(text::trimmed(raw)),
{
}

/// A short id that is resolved is the start of the id of a meeting, and of no
/// other id among the meetings.
pub proof fn law_short_id_is_unique(raw: Seq<char>, meetings: Seq<JsonView>, i: int)
    requires
        !is_full_id(text::trimmed(raw)),
        0 <= i < meetings.len(),
    ensures
        resolved_id(raw, meetings) matches Ok(id) ==> {
            &&& text::begins_with(id, text::trimmed(raw))
            &&& exists|k: int| 0 <= k < meetings.len() && #[trigger] meetings[k].text("id"@) == Some(id)
            &&& (meetings[i].text("id"@) matches Some(other) ==> text::begins_with(
                other,
                text::trimmed(raw),
            ) ==> other == id)
        },
{
    let prefix = text::trimmed(raw);
    let found = ids_beginning(meetings, prefix);
    lemma_ids_beginning(meetings, prefix);
    if resolved_id(raw, meetings) is Ok {
        assert(found.contains(found[0]));
        if let Some(other) = meetings[i].text("id"@) {
            if text::begins_with(other, prefix) {
                assert(found.contains(other));
            }
        }
    }
}

/// Any start of a meeting's id that no other meeting's id shares is resolved to
/// that id.
pub proof fn law_unique_start_is_resolved(raw: Seq<char>, meetings: Seq<JsonView>, k: int)
    requires
        text::trimmed(raw).len() > 0,
        !is_full_id(text::trimmed(raw)),
        0 <= k < meetings.len(),
        meetings[k].text("id"@) matches Some(id) && text::begins_with(id, text::trimmed(raw)),
        forall|j: int|
            0 <= j < meetings.len() && j != k ==> (#[trigger] meetings[j].text("id"@) matches Some(
                other,
            ) ==> !text::begins_with(other, text::trimmed(raw))),
    ensures
        resolved_id(raw, meetings) == Ok::<Seq<char>, IdErrorView>(meetings[k].text("id"@)->0),
{
    lemma_only_id(meetings, text::trimmed(raw), k);
}

/// The only meeting whose id begins with a text gives the only such id.
proof fn lemma_only_id(meetings: Seq<JsonView>, prefix: Seq<char>, k: int)
    requires
        0 <= k < meetings.len(),
        meetings[k].text("id"@) matches Some(id) && text::begins_with(id, prefix),
        forall|j: int|
            0 <= j < meetings.len() && j != k ==> (#[trigger] meetings[j].text("id"@) matches Some(
                other,
            ) ==> !text::begins_with(other, prefix)),
    ensures
        ids_beginning(meetings, prefix) == seq![meetings[k].text("id"@)->0],
    decreases meetings.len(),
{
    let rest = meetings.drop_last();
    assert(meetings[meetings.len() - 1] == meetings.last());
    assert forall|j: int| 0 <= j < rest.len() && j != k implies (#[trigger] rest[j].text(
        "id"@,
    ) matches Some(other) ==> !text::begins_with(other, prefix)) by {
        assert(rest[j] == meetings[j]);
        assert(meetings[j].text("id"@) == rest[j].text("id"@));
    }
    if k == rest.len() {
        let before = ids_beginning(rest, prefix);
        lemma_ids_beginning(rest, prefix);
        if before.len() > 0 {
            assert(before.contains(before[0]));
        }
        assert(ids_beginning(meetings, prefix) =~= seq![meetings[k].text("id"@)->0]);
    } else {
        assert(rest[k] == meetings[k]);
        lemma_only_id(rest, prefix, k);
        assert(meetings[rest.len() as int].text("id"@) == meetings.last().text("id"@));
    }
}

/// The ids that begin with a text are those of meetings that do.
proof fn lemma_ids_beginning(meetings: Seq<JsonView>, prefix: Seq<char>)
    ensures
        forall|id: Seq<char>| #[trigger]
            ids_beginning(meetings, prefix).contains(id) ==> text::begins_with(id, prefix)
                && exists|k: int|
                0 <= k < meetings.len() && #[trigger] meetings[k].text("id"@) == Some(id),
        forall|k: int|
            0 <= k < meetings.len() ==> (#[trigger] meetings[k].text("id"@) matches Some(id)
                ==> text::begins_with(id, prefix) ==> ids_beginning(meetings, prefix).contains(id)),
    decreases meetings.len(),
{
    if meetings.len() > 0 {
        let rest = meetings.drop_last();
        let before = ids_beginning(rest, prefix);
        let after = ids_beginning(meetings, prefix);
        lemma_ids_beginning(rest, prefix);
        assert forall|id: Seq<char>| #[trigger] after.contains(id) implies text::begins_with(
            id,
            prefix,
        ) && exists|k: int|
            0 <= k < meetings.len() && #[trigger] meetings[k].text("id"@) == Some(id) by {
            let m = choose|m: int| 0 <= m < after.len() && after[m] == id;
            if m < before.len() {
                assert(before[m] == id);
                assert(before.contains(id));
                let k = choose|k: int|
                    0 <= k < rest.len() && #[trigger] rest[k].text("id"@) == Some(id);
                assert(meetings[k].text("id"@) == Some(id));
            } else {
                assert(meetings[meetings.len() - 1].text("id"@) == Some(id));
            }
        }
        assert forall|k: int| 0 <= k < meetings.len() implies (#[trigger] meetings[k].text(
            "id"@,
        ) matches Some(id) ==> text::begins_with(id, prefix) ==> after.contains(id)) by {
            if let Some(id) = meetings[k].text("id"@) {
                if text::begins_with(id, prefix) {
                    if k < rest.len() {
                        assert(rest[k].text("id"@) == Some(id));
                        assert(before.contains(id));
                        let m = choose|m: int| 0 <= m < before.len() && before[m] == id;
                        assert(after[m] == id);
                    } else {
                        assert(after[after.len() - 1] == id);
                    }
                }
            }
        }
    }
}

/// A summary says nothing but what it shows: meetings that agree on its fields,
/// on the names of those invited and on whether there are own notes have the
/// same summary, whatever else they hold.
pub proof fn law_summary_says_no_more(a: JsonView, b: JsonView)
    requires
        a.get("id"@) == b.get("id"@),
        a.get("title"@) == b.get("title"@),
        a.get("created_at"@) == b.get("created_at"@),
        a.get("updated_at"@) == b.get("updated_at"@),
        a.get("_origin"@) == b.get("_origin"@),
        a.get3("google_calendar_event"@, "start"@, "dateTime"@) == b.get3(
            "google_calendar_event"@,
            "start"@,
            "dateTime"@,
        ),
        a.get3("google_calendar_event"@, "end"@, "dateTime"@) == b.get3(
            "google_calendar_event"@,
            "end"@,
            "dateTime"@,
        ),
        a.get3("people"@, "conferencing"@, "type"@) == b.get3(
            "people"@,
            "conferencing"@,
            "type"@,
        ),
        attendee_names(a) == attendee_names(b),
        notes::own_notes(a) is Some <==> notes::own_notes(b) is Some,
    ensures
        summary(a) == summary(b),
{
}

/// A context says nothing of a document but what it shows: of its notes only
/// whether they are there, and of its people only their names.
pub proof fn law_context_says_no_more_of_the_document(
    a: JsonView,
    b: JsonView,
    transcript: JsonView,
    n: u64,
)
    requires
        document_head(a) == document_head(b),
        creator_name(a) == creator_name(b),
        attendee_names(a) == attendee_names(b),
        a.get3("people"@, "conferencing"@, "type"@) == b.get3(
            "people"@,
            "conferencing"@,
            "type"@,
        ),
        calendar_end(a, "start"@) == calendar_end(b, "start"@),
        calendar_end(a, "end"@) == calendar_end(b, "end"@),
        notes::notes_of(a).mine is Some <==> notes::notes_of(b).mine is Some,
        notes::notes_of(a).ai is Some <==> notes::notes_of(b).ai is Some,
    ensures
        context(a, transcript, n) == context(b, transcript, n),
{
}

/// A context says nothing of a transcript but its channels and the names in
/// them: what was said is not in it.
pub proof fn law_context_says_no_more_of_the_transcript(
    document: JsonView,
    a: Seq<JsonView>,
    b: Seq<JsonView>,
)
    requires
        a.len() == b.len(),
        forall|i: int|
            0 <= i < a.len() ==> attribution::source_of(#[trigger] a[i]) == attribution::source_of(
                b[i],
            ),
        forall|i: int|
            0 <= i < a.len() ==> attribution::speaker_name(#[trigger] a[i])
                == attribution::speaker_name(b[i]),
    ensures
        context(document, JsonView::Array(a), a.len() as u64) == context(
            document,
            JsonView::Array(b),
            b.len() as u64,
        ),
{
    assert(attribution::sources(a) =~= attribution::sources(b));
    let all = text::distinct(attribution::sources(a));
    assert forall|i: int| 0 <= i < all.len() implies attribution::channels(a)[i]
        == attribution::channels(b)[i] by {
        lemma_same_channel(a, b, all[i]);
    }
    assert(attribution::channels(a) =~= attribution::channels(b));
}

/// Segments with the same channels and speakers give the same counts and names.
proof fn lemma_same_channel(a: Seq<JsonView>, b: Seq<JsonView>, source: Seq<char>)
    requires
        a.len() == b.len(),
        forall|i: int|
            0 <= i < a.len() ==> attribution::source_of(#[trigger] a[i]) == attribution::source_of(
                b[i],
            ),
        forall|i: int|
            0 <= i < a.len() ==> attribution::speaker_name(#[trigger] a[i])
                == attribution::speaker_name(b[i]),
    ensures
        attribution::count_of(a, source) == attribution::count_of(b, source),
        attribution::names_of(a, source) == attribution::names_of(b, source),
    decreases a.len(),
{
    if a.len() > 0 {
        let x = a.drop_last();
        let y = b.drop_last();
        assert forall|i: int| 0 <= i < x.len() implies attribution::source_of(#[trigger] x[i])
            == attribution::source_of(y[i]) by {
            assert(x[i] == a[i] && y[i] == b[i]);
        }
        assert forall|i: int| 0 <= i < x.len() implies attribution::speaker_name(#[trigger] x[i])
            == attribution::speaker_name(y[i]) by {
            assert(x[i] == a[i] && y[i] == b[i]);
        }
        lemma_same_channel(x, y, source);
        assert(a.last() == a[a.len() - 1]);
        assert(b.last() == b[a.len() - 1]);
    }
}

// ---- What holds of ids ------------------------------------------------------

/// The bytes and the dashes of an id add up part by part; an ASCII character is
/// one byte.
pub proof fn law_bytes_and_dashes_add_up(a: Seq<char>, b: Seq<char>, c: char)
    ensures
        utf8_size(a + b) == utf8_size(a) + utf8_size(b),
        occurrences(a + b, '-') == occurrences(a, '-') + occurrences(b, '-'),
        utf8_size(a.push(c)) > utf8_size(a),
        c as u32 <= 0x7f ==> utf8_size(a.push(c)) == utf8_size(a) + 1,
        occurrences(a.push(c), '-') == occurrences(a, '-') + (if c == '-' {
            1nat
        } else {
            0
        }),
        utf8_size(Seq::empty()) == 0,
        occurrences(Seq::empty(), '-') == 0,
    decreases b.len(),
{
    assert(a.push(c).drop_last() =~= a);
    if b.len() == 0 {
        assert(a + b =~= a);
    } else {
        assert((a + b).drop_last() =~= a + b.drop_last());
        law_bytes_and_dashes_add_up(a, b.drop_last(), c);
    }
}

/// A full id has thirty-six bytes, four of them dashes; nothing else is one.
pub proof fn law_full_ids_have_a_shape(s: Seq<char>)
    ensures
        is_full_id(s) <==> utf8_size(s) == 36 && occurrences(s, '-') == 4,
{
}

/// A blank id is refused; so is one that begins no meeting's id, and one that
/// begins those of two meetings. An error quotes the id without the blanks
/// around it.
pub proof fn law_unclear_ids_are_refused(raw: Seq<char>, meetings: Seq<JsonView>, i: int, j: int)
    ensures
        text::trimmed(raw).len() == 0 ==> resolved_id(raw, meetings) == Err::<
            Seq<char>,
            IdErrorView,
        >(IdErrorView::Empty),
        text::trimmed(raw).len() > 0 && !is_full_id(text::trimmed(raw)) && (forall|k: int|
            0 <= k < meetings.len() ==> !(#[trigger] meetings[k].text("id"@) matches Some(id)
                && text::begins_with(id, text::trimmed(raw)))) ==> resolved_id(raw, meetings)
            == Err::<Seq<char>, IdErrorView>(IdErrorView::Unknown(text::trimmed(raw))),
        text::trimmed(raw).len() > 0 && !is_full_id(text::trimmed(raw)) && 0 <= i < j
            < meetings.len() && (meetings[i].text("id"@) matches Some(id) && text::begins_with(
            id,
            text::trimmed(raw),
        )) && (meetings[j].text("id"@) matches Some(id) && text::begins_with(
            id,
            text::trimmed(raw),
        )) ==> resolved_id(raw, meetings) == Err::<Seq<char>, IdErrorView>(
            IdErrorView::Ambiguous(text::trimmed(raw)),
        ),
{
    let prefix = text::trimmed(raw);
    let found = ids_beginning(meetings, prefix);
    lemma_ids_beginning(meetings, prefix);
    if found.len() > 0 {
        assert(found.contains(found[0]));
    }
    if 0 <= i < j < meetings.len() && (meetings[i].text("id"@) matches Some(id)
        && text::begins_with(id, prefix)) && (meetings[j].text("id"@) matches Some(id)
        && text::begins_with(id, prefix)) {
        lemma_two_ids(meetings, prefix, i, j);
    }
}

/// Two meetings whose ids begin alike are two ids.
proof fn lemma_two_ids(meetings: Seq<JsonView>, prefix: Seq<char>, i: int, j: int)
    requires
        0 <= i < j < meetings.len(),
        meetings[i].text("id"@) matches Some(id) && text::begins_with(id, prefix),
        meetings[j].text("id"@) matches Some(id) && text::begins_with(id, prefix),
    ensures
        ids_beginning(meetings, prefix).len() >= 2,
    decreases meetings.len(),
{
    let rest = meetings.drop_last();
    if j < rest.len() {
        assert(rest[i] == meetings[i] && rest[j] == meetings[j]);
        lemma_two_ids(rest, prefix, i, j);
    } else {
        assert(meetings.last() == meetings[j]);
        lemma_ids_beginning(rest, prefix);
        assert(rest[i] == meetings[i]);
        let id = meetings[i].text("id"@)->0;
        assert(rest[i].text("id"@) == Some(id));
        assert(ids_beginning(rest, prefix).contains(id));
    }
}

/// What is said of an id quotes it.
pub proof fn law_id_messages_quote_the_id(id: Seq<char>)
    ensures
        text::begins_with(
            id_message(IdErrorView::Unknown(id)),
            "meeting ID `"@ + id + "` did not match any recent meeting"@,
        ),
        text::begins_with(
            id_message(IdErrorView::Ambiguous(id)),
            "meeting ID `"@ + id + "` matched multiple recent meetings"@,
        ),
{
    let a = id_message(IdErrorView::Unknown(id));
    let p = "meeting ID `"@ + id + "` did not match any recent meeting"@;
    reveal_strlit(
        "` did not match any recent meeting. Use the full UUID from `granola meeting list --output json` or a unique prefix from `granola meeting list`.",
    );
    reveal_strlit("` did not match any recent meeting");
    assert(a.subrange(0, p.len() as int) =~= p);
    let b = id_message(IdErrorView::Ambiguous(id));
    let q = "meeting ID `"@ + id + "` matched multiple recent meetings"@;
    reveal_strlit(
        "` matched multiple recent meetings. Use the full UUID from `granola meeting list --output json`.",
    );
    reveal_strlit("` matched multiple recent meetings");
    assert(b.subrange(0, q.len() as int) =~= q);
}

// ---- What holds of meetings -------------------------------------------------

/// The document of a meeting is the first that a batch brings; without one it is
/// null.
pub proof fn law_first_document_counts(reply: JsonView, docs: Seq<JsonView>)
    requires
        reply.get("documents"@) == Some(JsonView::Array(docs)) || (reply.get("documents"@) is None
            && reply.get("docs"@) == Some(JsonView::Array(docs))),
    ensures
        docs.len() > 0 ==> first_document(reply) == docs[0],
        docs.len() == 0 ==> first_document(reply) == JsonView::Null,
{
}

/// A person goes by the name that is a text, else by the full name, else by the
/// full name in the details. An empty name is none.
pub proof fn law_people_go_by_their_names(person: JsonView)
    ensures
        ({
            let full = json::text_in(person.get2("name"@, "fullName"@));
            let detail = match person.get3("details"@, "person"@, "name"@) {
                Some(w) => w.text("fullName"@),
                None => None,
            };
            let name = if person.text("name"@) is Some {
                person.text("name"@)
            } else if full is Some {
                full
            } else {
                detail
            };
            &&& name matches Some(s) ==> (s.len() > 0 ==> display_name(person) == Some(s))
            &&& (name matches Some(s) ==> s.len() == 0) ==> display_name(person) is None
        }),
{
}

/// Attendees are listed one by one in their order, and those without a name are
/// left out.
pub proof fn law_attendees_are_listed(a: Seq<JsonView>, person: JsonView)
    ensures
        display_names(a.push(person)) == (match display_name(person) {
            Some(name) => display_names(a).push(name),
            None => display_names(a),
        }),
        display_names(Seq::empty()).len() == 0,
        forall|d: JsonView|
            (#[trigger] d.get2("people"@, "attendees"@)) == Some(JsonView::Array(a))
                ==> attendee_names(d) == display_names(a),
{
    assert(a.push(person).drop_last() =~= a);
}

/// A summary has each fact of the meeting under its key, and null where the
/// meeting does not say it.
pub proof fn law_summary_says_what_the_meeting_says(m: JsonView)
    ensures
        summary(m).get("id"@) == Some(json::or_null(m.get("id"@))),
        summary(m).get("title"@) == Some(json::or_null(m.get("title"@))),
        summary(m).get("created_at"@) == Some(json::or_null(m.get("created_at"@))),
        summary(m).get("updated_at"@) == Some(json::or_null(m.get("updated_at"@))),
        summary(m).get("start"@) == Some(
            json::or_null(m.get3("google_calendar_event"@, "start"@, "dateTime"@)),
        ),
        summary(m).get("end"@) == Some(
            json::or_null(m.get3("google_calendar_event"@, "end"@, "dateTime"@)),
        ),
        summary(m).get("platform"@) == Some(
            json::or_null(m.get3("people"@, "conferencing"@, "type"@)),
        ),
        summary(m).get("attendee_names"@) == Some(json::text_array(attendee_names(m))),
        summary(m).get("origin"@) == Some(json::or_null(m.get("_origin"@))),
        summary(m).get("has_own_notes"@) == Some(JsonView::Bool(notes::own_notes(m) is Some)),
        summary(m)->Object_0.len() == 10,
{
    let fields = summary(m)->Object_0;
    reveal_strlit("id");
    reveal_strlit("title");
    reveal_strlit("created_at");
    reveal_strlit("updated_at");
    reveal_strlit("start");
    reveal_strlit("end");
    reveal_strlit("platform");
    reveal_strlit("attendee_names");
    reveal_strlit("origin");
    reveal_strlit("has_own_notes");
    assert("id"@.len() != "title"@.len());
    assert("id"@.len() != "created_at"@.len());
    assert("id"@.len() != "updated_at"@.len());
    assert("id"@.len() != "start"@.len());
    assert("id"@.len() != "end"@.len());
    assert("id"@.len() != "platform"@.len());
    assert("id"@.len() != "attendee_names"@.len());
    assert("id"@.len() != "origin"@.len());
    assert("id"@.len() != "has_own_notes"@.len());
    assert("title"@.len() != "created_at"@.len());
    assert("title"@.len() != "updated_at"@.len());
    assert("title"@[0] != "start"@[0]);
    assert("title"@.len() != "end"@.len());
    assert("title"@.len() != "platform"@.len());
    assert("title"@.len() != "attendee_names"@.len());
    assert("title"@.len() != "origin"@.len());
    assert("title"@.len() != "has_own_notes"@.len());
    assert("created_at"@[0] != "updated_at"@[0]);
    assert("created_at"@.len() != "start"@.len());
    assert("created_at"@.len() != "end"@.len());
    assert("created_at"@.len() != "platform"@.len());
    assert("created_at"@.len() != "attendee_names"@.len());
    assert("created_at"@.len() != "origin"@.len());
    assert("created_at"@.len() != "has_own_notes"@.len());
    assert("updated_at"@.len() != "start"@.len());
    assert("updated_at"@.len() != "end"@.len());
    assert("updated_at"@.len() != "platform"@.len());
    assert("updated_at"@.len() != "attendee_names"@.len());
    assert("updated_at"@.len() != "origin"@.len());
    assert("updated_at"@.len() != "has_own_notes"@.len());
    assert("start"@.len() != "end"@.len());
    assert("start"@.len() != "platform"@.len());
    assert("start"@.len() != "attendee_names"@.len());
    assert("start"@.len() != "origin"@.len());
    assert("start"@.len() != "has_own_notes"@.len());
    assert("end"@.len() != "platform"@.len());
    assert("end"@.len() != "attendee_names"@.len());
    assert("end"@.len() != "origin"@.len());
    assert("end"@.len() != "has_own_notes"@.len());
    assert("platform"@.len() != "attendee_names"@.len());
    assert("platform"@.len() != "origin"@.len());
    assert("platform"@.len() != "has_own_notes"@.len());
    assert("attendee_names"@.len() != "origin"@.len());
    assert("attendee_names"@.len() != "has_own_notes"@.len());
    assert("origin"@.len() != "has_own_notes"@.len());
    json::law_first_field_counts(fields, "id"@, 0);
    json::law_first_field_counts(fields, "title"@, 1);
    json::law_first_field_counts(fields, "created_at"@, 2);
    json::law_first_field_counts(fields, "updated_at"@, 3);
    json::law_first_field_counts(fields, "start"@, 4);
    json::law_first_field_counts(fields, "end"@, 5);
    json::law_first_field_counts(fields, "platform"@, 6);
    json::law_first_field_counts(fields, "attendee_names"@, 7);
    json::law_first_field_counts(fields, "origin"@, 8);
    json::law_first_field_counts(fields, "has_own_notes"@, 9);
}

/// A context has the head of the document, its people, its calendar, which notes
/// there are, how many segments the transcript has, and who spoke.
pub proof fn law_context_says_what_the_meeting_says(
    document: JsonView,
    transcript: JsonView,
    n: u64,
)
    ensures
        ({
            let c = context(document, transcript, n);
            &&& c.get("schema_version"@) == Some(JsonView::Number(NumberView::Unsigned(1)))
            &&& c.get2("transcript"@, "segment_count"@) == Some(
                JsonView::Number(NumberView::Unsigned(n)),
            )
            &&& c.get("attribution"@) == Some(attribution::attribution(transcript))
            &&& c.get2("conferencing"@, "type"@) == Some(
                json::or_null(document.get3("people"@, "conferencing"@, "type"@)),
            )
            &&& c.get2("document"@, "id"@) == Some(json::or_null(document.get("id"@)))
            &&& c.get2("document"@, "title"@) == Some(json::or_null(document.get("title"@)))
            &&& c.get2("document"@, "type"@) == Some(json::or_null(document.get("type"@)))
            &&& c.get2("document"@, "created_at"@) == Some(
                json::or_null(document.get("created_at"@)),
            )
            &&& c.get2("document"@, "updated_at"@) == Some(
                json::or_null(document.get("updated_at"@)),
            )
            &&& c.get2("document"@, "creation_source"@) == Some(
                json::or_null(document.get("creation_source"@)),
            )
            &&& c.get2("people"@, "attendee_names"@) == Some(
                json::text_array(attendee_names(document)),
            )
            &&& c.get2("people"@, "creator_name"@) == Some(
                match document.get2("people"@, "creator"@) {
                    Some(person) => match display_name(person) {
                        Some(name) => JsonView::Text(name),
                        None => JsonView::Null,
                    },
                    None => JsonView::Null,
                },
            )
            &&& c.get2("notes"@, "my_notes"@) == Some(
                JsonView::Bool(notes::notes_of(document).mine is Some),
            )
            &&& c.get2("notes"@, "ai_notes"@) == Some(
                JsonView::Bool(notes::notes_of(document).ai is Some),
            )
            &&& c.get2("notes"@, "available"@) == Some(
                JsonView::Bool(
                    notes::notes_of(document).mine is Some || notes::notes_of(document).ai is Some,
                ),
            )
        }),
{
    let c = context(document, transcript, n);
    let fields = c->Object_0;
    reveal_strlit("schema_version");
    reveal_strlit("provenance");
    reveal_strlit("document");
    reveal_strlit("people");
    reveal_strlit("conferencing");
    reveal_strlit("calendar");
    reveal_strlit("notes");
    reveal_strlit("transcript");
    reveal_strlit("attribution");
    assert("schema_version"@.len() != "provenance"@.len());
    assert("schema_version"@.len() != "document"@.len());
    assert("schema_version"@.len() != "people"@.len());
    assert("schema_version"@.len() != "conferencing"@.len());
    assert("schema_version"@.len() != "calendar"@.len());
    assert("schema_version"@.len() != "notes"@.len());
    assert("schema_version"@.len() != "transcript"@.len());
    assert("schema_version"@.len() != "attribution"@.len());
    assert("provenance"@.len() != "document"@.len());
    assert("provenance"@.len() != "people"@.len());
    assert("provenance"@.len() != "conferencing"@.len());
    assert("provenance"@.len() != "calendar"@.len());
    assert("provenance"@.len() != "notes"@.len());
    assert("provenance"@[0] != "transcript"@[0]);
    assert("provenance"@.len() != "attribution"@.len());
    assert("document"@.len() != "people"@.len());
    assert("document"@.len() != "conferencing"@.len());
    assert("document"@[0] != "calendar"@[0]);
    assert("document"@.len() != "notes"@.len());
    assert("document"@.len() != "transcript"@.len());
    assert("document"@.len() != "attribution"@.len());
    assert("people"@.len() != "conferencing"@.len());
    assert("people"@.len() != "calendar"@.len());
    assert("people"@.len() != "notes"@.len());
    assert("people"@.len() != "transcript"@.len());
    assert("people"@.len() != "attribution"@.len());
    assert("conferencing"@.len() != "calendar"@.len());
    assert("conferencing"@.len() != "notes"@.len());
    assert("conferencing"@.len() != "transcript"@.len());
    assert("conferencing"@.len() != "attribution"@.len());
    assert("calendar"@.len() != "notes"@.len());
    assert("calendar"@.len() != "transcript"@.len());
    assert("calendar"@.len() != "attribution"@.len());
    assert("notes"@.len() != "transcript"@.len());
    assert("notes"@.len() != "attribution"@.len());
    assert("transcript"@.len() != "attribution"@.len());
    json::law_first_field_counts(fields, "schema_version"@, 0);
    json::law_first_field_counts(fields, "provenance"@, 1);
    json::law_first_field_counts(fields, "document"@, 2);
    json::law_first_field_counts(fields, "people"@, 3);
    json::law_first_field_counts(fields, "conferencing"@, 4);
    json::law_first_field_counts(fields, "calendar"@, 5);
    json::law_first_field_counts(fields, "notes"@, 6);
    json::law_first_field_counts(fields, "transcript"@, 7);
    json::law_first_field_counts(fields, "attribution"@, 8);
    let head = document_head(document)->Object_0;
    reveal_strlit("id");
    reveal_strlit("title");
    reveal_strlit("type");
    reveal_strlit("created_at");
    reveal_strlit("updated_at");
    reveal_strlit("creation_source");
    assert("id"@.len() != "title"@.len());
    assert("id"@.len() != "type"@.len());
    assert("id"@.len() != "created_at"@.len());
    assert("id"@.len() != "updated_at"@.len());
    assert("id"@.len() != "creation_source"@.len());
    assert("title"@.len() != "type"@.len());
    assert("title"@.len() != "created_at"@.len());
    assert("title"@.len() != "updated_at"@.len());
    assert("title"@.len() != "creation_source"@.len());
    assert("type"@.len() != "created_at"@.len());
    assert("type"@.len() != "updated_at"@.len());
    assert("type"@.len() != "creation_source"@.len());
    assert("created_at"@[0] != "updated_at"@[0]);
    assert("created_at"@.len() != "creation_source"@.len());
    assert("updated_at"@.len() != "creation_source"@.len());
    json::law_first_field_counts(head, "id"@, 0);
    json::law_first_field_counts(head, "title"@, 1);
    json::law_first_field_counts(head, "type"@, 2);
    json::law_first_field_counts(head, "created_at"@, 3);
    json::law_first_field_counts(head, "updated_at"@, 4);
    json::law_first_field_counts(head, "creation_source"@, 5);
    let who = people(document)->Object_0;
    reveal_strlit("creator_name");
    reveal_strlit("attendee_names");
    assert("creator_name"@.len() != "attendee_names"@.len());
    json::law_first_field_counts(who, "creator_name"@, 0);
    json::law_first_field_counts(who, "attendee_names"@, 1);
    let found = notes_available(document)->Object_0;
    reveal_strlit("available");
    reveal_strlit("my_notes");
    reveal_strlit("ai_notes");
    assert("available"@.len() != "my_notes"@.len());
    assert("available"@.len() != "ai_notes"@.len());
    assert("my_notes"@[0] != "ai_notes"@[0]);
    json::law_first_field_counts(found, "available"@, 0);
    json::law_first_field_counts(found, "my_notes"@, 1);
    json::law_first_field_counts(found, "ai_notes"@, 2);
}

/// The two ends of a meeting in the calendar have their moment, their day and
/// their time zone each.
pub proof fn law_context_has_both_ends(
    document: JsonView,
    transcript: JsonView,
    n: u64,
    side: Seq<char>,
)
    requires
        side == "start"@ || side == "end"@,
    ensures
        ({
            let c = context(document, transcript, n);
            &&& c.get3("calendar"@, side, "date_time"@) == Some(
                json::or_null(document.get3("google_calendar_event"@, side, "dateTime"@)),
            )
            &&& c.get3("calendar"@, side, "date"@) == Some(
                json::or_null(document.get3("google_calendar_event"@, side, "date"@)),
            )
            &&& c.get3("calendar"@, side, "time_zone"@) == Some(
                json::or_null(document.get3("google_calendar_event"@, side, "timeZone"@)),
            )
        }),
{
    let fields = context(document, transcript, n)->Object_0;
    reveal_strlit("schema_version");
    reveal_strlit("provenance");
    reveal_strlit("document");
    reveal_strlit("people");
    reveal_strlit("conferencing");
    reveal_strlit("calendar");
    reveal_strlit("notes");
    reveal_strlit("transcript");
    reveal_strlit("attribution");
    assert("schema_version"@.len() != "provenance"@.len());
    assert("schema_version"@.len() != "document"@.len());
    assert("schema_version"@.len() != "people"@.len());
    assert("schema_version"@.len() != "conferencing"@.len());
    assert("schema_version"@.len() != "calendar"@.len());
    assert("schema_version"@.len() != "notes"@.len());
    assert("schema_version"@.len() != "transcript"@.len());
    assert("schema_version"@.len() != "attribution"@.len());
    assert("provenance"@.len() != "document"@.len());
    assert("provenance"@.len() != "people"@.len());
    assert("provenance"@.len() != "conferencing"@.len());
    assert("provenance"@.len() != "calendar"@.len());
    assert("provenance"@.len() != "notes"@.len());
    assert("provenance"@[0] != "transcript"@[0]);
    assert("provenance"@.len() != "attribution"@.len());
    assert("document"@.len() != "people"@.len());
    assert("document"@.len() != "conferencing"@.len());
    assert("document"@[0] != "calendar"@[0]);
    assert("document"@.len() != "notes"@.len());
    assert("document"@.len() != "transcript"@.len());
    assert("document"@.len() != "attribution"@.len());
    assert("people"@.len() != "conferencing"@.len());
    assert("people"@.len() != "calendar"@.len());
    assert("people"@.len() != "notes"@.len());
    assert("people"@.len() != "transcript"@.len());
    assert("people"@.len() != "attribution"@.len());
    assert("conferencing"@.len() != "calendar"@.len());
    assert("conferencing"@.len() != "notes"@.len());
    assert("conferencing"@.len() != "transcript"@.len());
    assert("conferencing"@.len() != "attribution"@.len());
    assert("calendar"@.len() != "notes"@.len());
    assert("calendar"@.len() != "transcript"@.len());
    assert("calendar"@.len() != "attribution"@.len());
    assert("notes"@.len() != "transcript"@.len());
    assert("notes"@.len() != "attribution"@.len());
    assert("transcript"@.len() != "attribution"@.len());
    json::law_first_field_counts(fields, "calendar"@, 5);
    let ends = fields[5].1->Object_0;
    reveal_strlit("start");
    reveal_strlit("end");
    assert("start"@.len() != "end"@.len());
    json::law_first_field_counts(ends, "start"@, 0);
    json::law_first_field_counts(ends, "end"@, 1);
    let one = calendar_end(document, side)->Object_0;
    reveal_strlit("date_time");
    reveal_strlit("date");
    reveal_strlit("time_zone");
    assert("date_time"@.len() != "date"@.len());
    assert("date_time"@[0] != "time_zone"@[0]);
    assert("date"@.len() != "time_zone"@.len());
    json::law_first_field_counts(one, "date_time"@, 0);
    json::law_first_field_counts(one, "date"@, 1);
    json::law_first_field_counts(one, "time_zone"@, 2);
}

/// A context says where its parts come from, and that no speaker is inferred.
pub proof fn law_context_says_where_it_comes_from()
    ensures
        provenance().text("document"@) == Some("Granola meeting document API response"@),
        provenance().text("notes"@) == Some(
            "Editable note document stored with the meeting; it has no transcript-segment or speaker provenance."@,
        ),
        provenance().text("transcript"@) == Some("Granola raw transcript API response"@),
        provenance().text("speaker_attribution"@) == Some(
            "Only names supplied in raw transcript segments are summarized; calendar participants are never inferred as speakers."@,
        ),
{
    let fields = provenance()->Object_0;
    reveal_strlit("document");
    reveal_strlit("notes");
    reveal_strlit("transcript");
    reveal_strlit("speaker_attribution");
    assert("document"@.len() != "notes"@.len());
    assert("document"@.len() != "transcript"@.len());
    assert("document"@.len() != "speaker_attribution"@.len());
    assert("notes"@.len() != "transcript"@.len());
    assert("notes"@.len() != "speaker_attribution"@.len());
    assert("transcript"@.len() != "speaker_attribution"@.len());
    json::law_first_field_counts(fields, "document"@, 0);
    json::law_first_field_counts(fields, "notes"@, 1);
    json::law_first_field_counts(fields, "transcript"@, 2);
    json::law_first_field_counts(fields, "speaker_attribution"@, 3);
}

} // verus!
