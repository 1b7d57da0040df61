//! The server's tools: what each answers, as a document or as markdown.

use crate::api;
use crate::args::ResponseFormat;
use crate::attribution;
use crate::attribution::{looks_like_notetaker_bot, non_empty_text, segment_speaker_name};
use crate::json;
use crate::json::{
    add_field, array, no_fields, number, object, optional_text, set_field, text_value, Json,
    JsonView, NumberView,
};
use crate::meetings;
use crate::meetings::{get_four, meeting_context_value, meeting_summary, NotSegments};
use crate::merge;
use crate::notes;
use crate::notes::meeting_notes;
use crate::query::MeetingPage;
use crate::report;
use crate::report::{AuthReport, RecoveryHint, ReportView};
use crate::text;
use crate::text::{join, to_decimal, trim};
use vstd::prelude::*;

verus! {

/// The server.
#[derive(Debug, Clone, Copy)]
pub struct GranolaServer;

/// An answer: a document, to be written out, or a text.
#[derive(Debug, PartialEq, Eq)]
pub enum Response {
    Json(Json),
    Text(String),
}

/// What a [`Response`] says.
pub enum ResponseView {
    Json(JsonView),
    Text(Seq<char>),
}

impl View for Response {
    type V = ResponseView;

    open spec fn view(&self) -> ResponseView {
        match self {
            Response::Json(v) => ResponseView::Json(v@),
            Response::Text(s) => ResponseView::Text(s@),
        }
    }
}

// ---- Failures ---------------------------------------------------------------

/// What an agent is told where credentials are the trouble.
pub open spec fn recovery_advice() -> Seq<char> {
    "Call `granola_auth_login` to re-import credentials from the Granola desktop app. That is a local import, not a browser or device-code flow, so it works in this session without a terminal. Call `granola_auth_status` first for the specific cause."@
}

/// What an agent is told of an error of the service: the message with its
/// causes, and advice where credentials are the trouble.
pub open spec fn failure_told(e: api::ErrorView) -> Seq<char> {
    if api::about_credentials(e) {
        api::error_chain(e) + "\n\n"@ + recovery_advice()
    } else {
        api::error_chain(e)
    }
}

/// What an agent is told of an error of the service.
pub fn failure_text(e: &api::Error) -> (r: String)
    ensures
        r@ == failure_told(e@),
{
    let mut out = e.chain();
    if e.is_auth_failure() {
        out.append("\n\n");
        out.append(
            "Call `granola_auth_login` to re-import credentials from the Granola desktop app. That is a local import, not a browser or device-code flow, so it works in this session without a terminal. Call `granola_auth_status` first for the specific cause.",
        );
    }
    out
}

// ---- Meetings as markdown ---------------------------------------------------

/// What an attendee is called: by the person's record, else by name, else by
/// address. An empty label is none.
pub open spec fn label_of(attendee: JsonView) -> Option<Seq<char>> {
    attribution::unless_empty(
        json::first_of(
            json::text_in(
                meetings::get4(attendee, "details"@, "person"@, "name"@, "fullName"@),
            ),
            json::first_of(attendee.text("name"@), attendee.text("email"@)),
        ),
    )
}

/// What attendees are called, without those who are called nothing.
pub open spec fn labels_of(attendees: Seq<JsonView>) -> Seq<Seq<char>>
    decreases attendees.len(),
{
    if attendees.len() == 0 {
        Seq::empty()
    } else {
        match label_of(attendees.last()) {
            Some(label) => labels_of(attendees.drop_last()).push(label),
            None => labels_of(attendees.drop_last()),
        }
    }
}

/// An optional text, or a default.
pub open spec fn text_else(o: Option<Seq<char>>, default: Seq<char>) -> Seq<char> {
    match o {
        Some(s) => s,
        None => default,
    }
}

/// The lines that say what a meeting is.
pub open spec fn meeting_lines(m: JsonView) -> Seq<Seq<char>> {
    let title = text_else(attribution::unless_empty(m.text("title"@)), "(Untitled)"@);
    let created = m.text_or("created_at"@, ""@);
    let start = text_else(
        json::text_in(m.get3("google_calendar_event"@, "start"@, "dateTime"@)),
        created,
    );
    let head = seq![
        "### "@ + title,
        "- **ID**: `"@ + m.text_or("id"@, ""@) + "`"@,
        "- **Start**: "@ + start,
    ];
    let end = match json::text_in(m.get3("google_calendar_event"@, "end"@, "dateTime"@)) {
        Some(s) => seq!["- **End**: "@ + s],
        None => Seq::empty(),
    };
    let platform = seq![
        "- **Platform**: "@ + text_else(
            json::text_in(m.get3("people"@, "conferencing"@, "type"@)),
            "unknown"@,
        ),
    ];
    let labels = labels_of(
        merge::items_or_none(json::items_in(m.get2("people"@, "attendees"@))),
    );
    let attendees = if labels.len() > 0 {
        seq!["- **Attendees**: "@ + text::joined(labels, ", "@)]
    } else {
        Seq::empty()
    };
    head + end + platform + attendees
}

/// A meeting as markdown.
pub open spec fn meeting_md(m: JsonView) -> Seq<char> {
    text::joined(meeting_lines(m), "\n"@)
}

/// What an attendee is called.
pub fn attendee_label(attendee: &Json) -> (r: Option<&str>)
    ensures
        json::seen(r) == label_of(attendee@),
{
    let label = match json::opt_str(get_four(attendee, "details", "person", "name", "fullName")) {
        Some(s) => Some(s),
        None => match attendee.text("name") {
            Some(s) => Some(s),
            None => attendee.text("email"),
        },
    };
    non_empty_text(label)
}

/// What the attendees of a meeting are called.
fn collect_labels(m: &Json) -> (r: Vec<String>)
    ensures
        text::text_views(r@) == labels_of(
            merge::items_or_none(json::items_in(m@.get2("people"@, "attendees"@))),
        ),
{
    let mut out: Vec<String> = Vec::new();
    match json::opt_array(m.get2("people", "attendees")) {
        Some(people) => {
            let ghost all = json::views(people@);
            assert(text::text_views(out@) =~= labels_of(all.take(0)));
            let mut i: usize = 0;
            while i < people.len()
                invariant
                    i <= people.len(),
                    all == json::views(people@),
                    text::text_views(out@) == labels_of(all.take(i as int)),
                decreases people.len() - i,
            {
                let ghost before = text::text_views(out@);
                assert(all.take(i + 1).drop_last() =~= all.take(i as int));
                assert(all.take(i + 1).last() == people@[i as int]@);
                if let Some(label) = attendee_label(&people[i]) {
                    out.push(label.to_owned());
                    assert(text::text_views(out@) =~= before.push(label@));
                }
                i += 1;
            }
            assert(all.take(people.len() as int) =~= all);
        },
        None => {
            assert(text::text_views(out@) =~= labels_of(Seq::empty()));
        },
    }
    out
}

/// A text after a prefix and before a suffix.
fn around(a: &str, s: &str, b: &str) -> (r: String)
    ensures
        r@ == a@ + s@ + b@,
{
    let mut out: String = a.to_owned();
    out.append(s);
    out.append(b);
    out
}

/// Adds a line made of a prefix, a text and a suffix.
fn push_line(lines: &mut Vec<String>, a: &str, s: &str, b: &str)
    ensures
        text::text_views(final(lines)@) == text::text_views(old(lines)@).push(a@ + s@ + b@),
{
    lines.push(around(a, s, b));
    assert(text::text_views(lines@) =~= text::text_views(old(lines)@).push(a@ + s@ + b@));
}

/// An optional text, or a default.
fn or_default<'a>(o: Option<&'a str>, default: &'a str) -> (r: &'a str)
    ensures
        r@ == text_else(json::seen(o), default@),
{
    match o {
        Some(s) => s,
        None => default,
    }
}

/// A meeting as markdown.
pub fn meeting_markdown(m: &Json) -> (r: String)
    ensures
        r@ == meeting_md(m@),
{
    let title = or_default(non_empty_text(m.text("title")), "(Untitled)");
    let start = or_default(
        json::opt_str(m.get3("google_calendar_event", "start", "dateTime")),
        m.text_or("created_at", ""),
    );
    let mut lines: Vec<String> = Vec::new();
    assert(text::text_views(lines@) =~= Seq::empty());
    push_line(&mut lines, "### ", title, "");
    push_line(&mut lines, "- **ID**: `", m.text_or("id", ""), "`");
    push_line(&mut lines, "- **Start**: ", start, "");
    match json::opt_str(m.get3("google_calendar_event", "end", "dateTime")) {
        Some(end) => {
            push_line(&mut lines, "- **End**: ", end, "");
        },
        None => {},
    }
    let platform = or_default(
        json::opt_str(m.get3("people", "conferencing", "type")),
        "unknown",
    );
    push_line(&mut lines, "- **Platform**: ", platform, "");
    let labels = collect_labels(m);
    assert(text::text_views(labels@).len() == labels@.len());
    if labels.len() > 0 {
        push_line(&mut lines, "- **Attendees**: ", join(&labels, ", ").as_str(), "");
    }
    proof {
        reveal_strlit("");
        let all = text::text_views(lines@);
        let want = meeting_lines(m@);
        assert(all.len() == want.len());
        assert forall|i: int| 0 <= i < all.len() implies all[i] == want[i] by {
            assert(all[i] =~= want[i]);
        }
        assert(all =~= want);
    }
    join(&lines, "\n")
}

// ---- The list ---------------------------------------------------------------

/// The summaries of meetings.
pub open spec fn summaries(s: Seq<JsonView>) -> Seq<JsonView> {
    Seq::new(s.len(), |i: int| meetings::summary(s[i]))
}

/// An unsigned integer as a document.
pub open spec fn count_json(n: nat) -> JsonView {
    JsonView::Number(NumberView::Unsigned(n as u64))
}

/// A page as a document.
pub open spec fn page_json(total: nat, offset: nat, shown: Seq<JsonView>) -> JsonView {
    JsonView::Object(
        seq![
            ("total_matched"@, count_json(total)),
            ("offset"@, count_json(offset)),
            ("count"@, count_json(shown.len())),
            ("meetings"@, JsonView::Array(summaries(shown))),
        ],
    )
}

/// The heading of a page: which meetings of how many, where some are not shown.
pub open spec fn page_heading(total: nat, offset: nat, shown: nat) -> Seq<char> {
    if total > shown {
        "# Meetings ("@ + text::decimal(offset + 1) + "-"@ + text::decimal(offset + shown)
            + " of "@ + text::decimal(total) + ")\n"@
    } else {
        "# Meetings ("@ + text::decimal(shown) + " found)\n"@
    }
}

/// Meetings as markdown, one after the other.
pub open spec fn meetings_md(shown: Seq<JsonView>) -> Seq<char>
    decreases shown.len(),
{
    if shown.len() == 0 {
        Seq::empty()
    } else {
        meetings_md(shown.drop_last()) + "\n"@ + meeting_md(shown.last()) + "\n"@
    }
}

/// The answer to a list of meetings.
pub open spec fn page_told(
    total: nat,
    offset: nat,
    shown: Seq<JsonView>,
    format: ResponseFormat,
) -> ResponseView {
    match format {
        ResponseFormat::Json => ResponseView::Json(page_json(total, offset, shown)),
        ResponseFormat::Markdown => ResponseView::Text(
            page_heading(total, offset, shown.len()) + meetings_md(shown),
        ),
    }
}

/// The summaries of meetings.
fn summarize(shown: &Vec<Json>) -> (r: Vec<Json>)
    ensures
        json::views(r@) == summaries(json::views(shown@)),
{
    let mut out: Vec<Json> = Vec::new();
    let mut i: usize = 0;
    while i < shown.len()
        invariant
            i <= shown.len(),
            out.len() == i,
            forall|k: int|
                0 <= k < i ==> (#[trigger] out@[k])@ == meetings::summary(shown@[k]@),
        decreases shown.len() - i,
    {
        out.push(meeting_summary(&shown[i]));
        i += 1;
    }
    assert(json::views(out@) =~= summaries(json::views(shown@)));
    out
}

/// A page as a document.
fn page_value(page: &MeetingPage) -> (r: Json)
    ensures
        r@ == page_json(
            page.total_matched as nat,
            page.offset as nat,
            json::views(page.meetings@),
        ),
{
    let shown = summarize(&page.meetings);
    assert(json::views(page.meetings@).len() == page.meetings@.len());
    let mut fields = no_fields();
    add_field(&mut fields, "total_matched", number(page.total_matched as u64));
    add_field(&mut fields, "offset", number(page.offset as u64));
    add_field(&mut fields, "count", number(page.meetings.len() as u64));
    add_field(&mut fields, "meetings", array(shown));
    assert(json::field_views(fields@) =~= page_json(
        page.total_matched as nat,
        page.offset as nat,
        json::views(page.meetings@),
    )->Object_0);
    object(fields)
}

/// A page as markdown.
fn page_markdown(page: &MeetingPage) -> (r: String)
    requires
        page.offset + page.meetings@.len() <= u64::MAX,
    ensures
        r@ == page_heading(
            page.total_matched as nat,
            page.offset as nat,
            page.meetings@.len(),
        ) + meetings_md(json::views(page.meetings@)),
{
    let shown = page.meetings.len();
    let mut out: String = "# Meetings (".to_owned();
    if page.total_matched > shown {
        out.append(to_decimal(page.offset as u64 + 1).as_str());
        out.append("-");
        out.append(to_decimal(page.offset as u64 + shown as u64).as_str());
        out.append(" of ");
        out.append(to_decimal(page.total_matched as u64).as_str());
        out.append(")\n");
    } else {
        out.append(to_decimal(shown as u64).as_str());
        out.append(" found)\n");
    }
    let ghost head = page_heading(page.total_matched as nat, page.offset as nat, shown as nat);
    let ghost all = json::views(page.meetings@);
    assert(out@ =~= head);
    assert(out@ =~= head + meetings_md(all.take(0)));
    let mut i: usize = 0;
    while i < shown
        invariant
            i <= shown,
            shown == page.meetings.len(),
            all == json::views(page.meetings@),
            out@ == head + meetings_md(all.take(i as int)),
        decreases shown - i,
    {
        let ghost before = out@;
        assert(all.take(i + 1).drop_last() =~= all.take(i as int));
        assert(all.take(i + 1).last() == page.meetings@[i as int]@);
        out.append("\n");
        out.append(meeting_markdown(&page.meetings[i]).as_str());
        out.append("\n");
        assert(out@ =~= head + meetings_md(all.take(i + 1)));
        i += 1;
    }
    assert(all.take(shown as int) =~= all);
    out
}

// ---- Transcripts ------------------------------------------------------------

/// A segment with the name of its speaker, and whether it looks like that of an
/// automated notetaker.
pub open spec fn annotated(seg: JsonView) -> JsonView {
    let speaker = attribution::speaker_name(seg);
    json::with_field(
        json::with_field(seg, "speaker"@, json::text_or_null(speaker)),
        "speaker_is_likely_bot"@,
        JsonView::Bool(speaker matches Some(name) && attribution::is_notetaker(name)),
    )
}

/// The segments of a transcript, annotated.
pub open spec fn annotated_segments(transcript: JsonView) -> JsonView {
    let segs = attribution::segments(transcript);
    JsonView::Array(Seq::new(segs.len(), |i: int| annotated(segs[i])))
}

/// Who speaks in a segment: by name, or else by channel.
pub open spec fn speaker_told(seg: JsonView) -> Seq<char> {
    match attribution::speaker_name(seg) {
        Some(name) => if attribution::is_notetaker(name) {
            "**"@ + name + "** _(notetaker bot)_"@
        } else {
            "**"@ + name + "**"@
        },
        None => "**"@ + attribution::source_of(seg) + " audio**"@,
    }
}

/// The lines of a segment: none, where nothing is said in it.
pub open spec fn segment_lines(seg: JsonView) -> Seq<Seq<char>> {
    let said = text::trimmed(seg.text_or("text"@, ""@));
    if said.len() == 0 {
        Seq::empty()
    } else {
        seq![
            speaker_told(seg) + " _(source: "@ + attribution::source_of(seg) + "; "@ + seg.text_or(
                "start_timestamp"@,
                ""@,
            ) + ")_: "@ + said,
            ""@,
        ]
    }
}

/// The lines of segments.
pub open spec fn transcript_lines(segs: Seq<JsonView>) -> Seq<Seq<char>>
    decreases segs.len(),
{
    if segs.len() == 0 {
        seq!["# Transcript"@, ""@]
    } else {
        transcript_lines(segs.drop_last()) + segment_lines(segs.last())
    }
}

/// A transcript as markdown.
pub open spec fn transcript_md(transcript: JsonView) -> Seq<char> {
    text::joined(transcript_lines(attribution::segments(transcript)), "\n"@)
}

/// A segment with the name of its speaker, and whether it looks like that of an
/// automated notetaker. Nothing of the segment is lost.
pub fn annotate_segment(segment: &Json) -> (r: Json)
    ensures
        r@ == annotated(segment@),
{
    let speaker = segment_speaker_name(segment);
    let bot = match speaker {
        Some(name) => looks_like_notetaker_bot(name),
        None => false,
    };
    set_field(
        set_field(segment.clone(), "speaker", optional_text(speaker)),
        "speaker_is_likely_bot",
        Json::Bool(bot),
    )
}

/// The segments of a transcript, annotated.
fn annotate_all(transcript: &Json) -> (r: Json)
    ensures
        r@ == annotated_segments(transcript@),
{
    let mut out: Vec<Json> = Vec::new();
    match transcript.as_array() {
        Some(segs) => {
            let mut i: usize = 0;
            while i < segs.len()
                invariant
                    i <= segs.len(),
                    out.len() == i,
                    forall|k: int|
                        0 <= k < i ==> (#[trigger] out@[k])@ == annotated(segs@[k]@),
                decreases segs.len() - i,
            {
                out.push(annotate_segment(&segs[i]));
                i += 1;
            }
        },
        None => {},
    }
    assert(json::views(out@) =~= annotated_segments(transcript@)->Array_0);
    array(out)
}

/// Who speaks in a segment.
fn tell_speaker(segment: &Json) -> (r: String)
    ensures
        r@ == speaker_told(segment@),
{
    match segment_speaker_name(segment) {
        Some(name) => if looks_like_notetaker_bot(name) {
            around("**", name, "** _(notetaker bot)_")
        } else {
            around("**", name, "**")
        },
        None => around("**", segment.text_or("source", "unknown"), " audio**"),
    }
}

/// A transcript as markdown: a line for each segment in which something is
/// said.
pub fn transcript_markdown(transcript: &Json) -> (r: String)
    ensures
        r@ == transcript_md(transcript@),
{
    let mut lines: Vec<String> = Vec::new();
    lines.push("# Transcript".to_owned());
    lines.push("".to_owned());
    match transcript.as_array() {
        Some(segs) => {
            let ghost all = json::views(segs@);
            assert(text::text_views(lines@) =~= transcript_lines(all.take(0)));
            let mut i: usize = 0;
            while i < segs.len()
                invariant
                    i <= segs.len(),
                    all == json::views(segs@),
                    text::text_views(lines@) == transcript_lines(all.take(i as int)),
                decreases segs.len() - i,
            {
                let seg = &segs[i];
                let ghost before = text::text_views(lines@);
                assert(all.take(i + 1).drop_last() =~= all.take(i as int));
                assert(all.take(i + 1).last() == seg@);
                let said = trim(seg.text_or("text", ""));
                if !said.as_str().is_empty() {
                    let mut line = tell_speaker(seg);
                    line.append(" _(source: ");
                    line.append(seg.text_or("source", "unknown"));
                    line.append("; ");
                    line.append(seg.text_or("start_timestamp", ""));
                    line.append(")_: ");
                    line.append(said.as_str());
                    lines.push(line);
                    lines.push("".to_owned());
                    assert(text::text_views(lines@) =~= before + segment_lines(seg@));
                } else {
                    assert(before =~= before + segment_lines(seg@));
                }
                i += 1;
            }
            assert(all.take(segs.len() as int) =~= all);
        },
        None => {
            assert(text::text_views(lines@) =~= transcript_lines(Seq::empty()));
        },
    }
    join(&lines, "\n")
}

// ---- Context ----------------------------------------------------------------

/// The texts of some documents, without those that are none.
pub open spec fn texts_of(s: Seq<JsonView>) -> Seq<Seq<char>>
    decreases s.len(),
{
    if s.len() == 0 {
        Seq::empty()
    } else {
        match s.last().as_text() {
            Some(t) => texts_of(s.drop_last()).push(t),
            None => texts_of(s.drop_last()),
        }
    }
}

/// The texts of an optional array.
pub open spec fn texts_in(o: Option<JsonView>) -> Seq<Seq<char>> {
    texts_of(merge::items_or_none(json::items_in(o)))
}

/// The start of a channel as it is told: its name, and how many segments it
/// has.
pub open spec fn channel_start(c: JsonView) -> Seq<char> {
    let count = match c.get("segment_count"@) {
        Some(v) => match v.as_unsigned() {
            Some(n) => n,
            None => 0,
        },
        None => 0,
    };
    "- "@ + c.text_or("source"@, "unknown"@) + ": "@ + text::decimal(count as nat) + " segments"@
}

/// A channel as it is told: its name, how many segments it has, and who was
/// heard in it.
pub open spec fn channel_told(c: JsonView) -> Seq<char> {
    let names = texts_in(c.get("detected_speaker_names"@));
    channel_start(c) + (if names.len() > 0 {
        "; detected speakers: "@ + text::joined(names, ", "@)
    } else {
        Seq::empty()
    })
}

/// Channels as they are told, one to a line.
pub open spec fn channels_told(s: Seq<JsonView>) -> Seq<char>
    decreases s.len(),
{
    if s.len() == 0 {
        Seq::empty()
    } else {
        channels_told(s.drop_last()) + channel_told(s.last()) + "\n"@
    }
}

/// An optional line: a prefix, a text and a suffix.
pub open spec fn line_if(a: Seq<char>, o: Option<Seq<char>>, b: Seq<char>) -> Seq<char> {
    match o {
        Some(s) => a + s + b,
        None => Seq::empty(),
    }
}

/// The number of an optional document, in decimal.
pub open spec fn number_told(o: Option<JsonView>) -> Option<Seq<char>> {
    match o {
        Some(v) => match v.as_unsigned() {
            Some(n) => Some(text::decimal(n as nat)),
            None => None,
        },
        None => None,
    }
}

/// A context as markdown.
pub open spec fn context_md(c: JsonView) -> Seq<char> {
    let title = text_else(json::text_in(c.get2("document"@, "title"@)), "(untitled)"@);
    let names = texts_in(c.get2("people"@, "attendee_names"@));
    "# "@ + title + "\n"@ + line_if(
        "\n- **ID**: `"@,
        json::text_in(c.get2("document"@, "id"@)),
        "`\n"@,
    ) + line_if(
        "- **Start**: "@,
        json::text_in(c.get3("calendar"@, "start"@, "date_time"@)),
        "\n"@,
    ) + line_if(
        "- **Attendees**: "@,
        if names.len() > 0 {
            Some(text::joined(names, ", "@))
        } else {
            None
        },
        "\n"@,
    ) + line_if(
        "- **Transcript segments**: "@,
        number_told(c.get2("transcript"@, "segment_count"@)),
        "\n"@,
    ) + "\n## Transcript channels\n\n"@ + channels_told(
        merge::items_or_none(json::items_in(c.get2("attribution"@, "channels"@))),
    )
}

/// The texts of an optional array.
pub fn collect_texts(o: Option<&Json>) -> (r: Vec<String>)
    ensures
        text::text_views(r@) == texts_in(json::seen(o)),
{
    let mut out: Vec<String> = Vec::new();
    match json::opt_array(o) {
        Some(items) => {
            let ghost all = json::views(items@);
            assert(text::text_views(out@) =~= texts_of(all.take(0)));
            let mut i: usize = 0;
            while i < items.len()
                invariant
                    i <= items.len(),
                    all == json::views(items@),
                    text::text_views(out@) == texts_of(all.take(i as int)),
                decreases items.len() - i,
            {
                let ghost before = text::text_views(out@);
                assert(all.take(i + 1).drop_last() =~= all.take(i as int));
                assert(all.take(i + 1).last() == items@[i as int]@);
                if let Some(s) = items[i].as_str() {
                    out.push(s.to_owned());
                    assert(text::text_views(out@) =~= before.push(s@));
                }
                i += 1;
            }
            assert(all.take(items.len() as int) =~= all);
        },
        None => {
            assert(text::text_views(out@) =~= texts_of(Seq::empty()));
        },
    }
    out
}

/// The start of a channel as it is told.
pub fn start_channel(channel: &Json) -> (r: String)
    ensures
        r@ == channel_start(channel@),
{
    let count = match channel.get("segment_count") {
        Some(v) => match v.as_u64() {
            Some(n) => n,
            None => 0,
        },
        None => 0,
    };
    let mut out: String = "- ".to_owned();
    out.append(channel.text_or("source", "unknown"));
    out.append(": ");
    out.append(to_decimal(count).as_str());
    out.append(" segments");
    out
}

/// A channel as it is told.
pub fn tell_channel(channel: &Json) -> (r: String)
    ensures
        r@ == channel_told(channel@),
{
    let names = collect_texts(channel.get("detected_speaker_names"));
    assert(text::text_views(names@).len() == names@.len());
    let mut out = start_channel(channel);
    if names.len() > 0 {
        out.append("; detected speakers: ");
        out.append(join(&names, ", ").as_str());
    }
    assert(out@ =~= channel_told(channel@));
    out
}

/// Adds an optional line to a text.
fn add_line_if(out: &mut String, a: &str, o: Option<&str>, b: &str)
    ensures
        final(out)@ == old(out)@ + line_if(a@, json::seen(o), b@),
{
    match o {
        Some(s) => {
            out.append(a);
            out.append(s);
            out.append(b);
            assert(out@ =~= old(out)@ + line_if(a@, json::seen(o), b@));
        },
        None => {
            assert(out@ =~= old(out)@ + line_if(a@, json::seen(o), b@));
        },
    }
}

/// A context as markdown.
pub fn context_markdown(context: &Json) -> (r: String)
    ensures
        r@ == context_md(context@),
{
    let title = or_default(json::opt_str(context.get2("document", "title")), "(untitled)");
    let names = collect_texts(context.get2("people", "attendee_names"));
    assert(text::text_views(names@).len() == names@.len());
    let listed = if names.len() > 0 {
        Some(join(&names, ", "))
    } else {
        None
    };
    let count = match context.get2("transcript", "segment_count") {
        Some(v) => match v.as_u64() {
            Some(n) => Some(to_decimal(n)),
            None => None,
        },
        None => None,
    };
    let mut out = around("# ", title, "\n");
    add_line_if(
        &mut out,
        "\n- **ID**: `",
        json::opt_str(context.get2("document", "id")),
        "`\n",
    );
    add_line_if(
        &mut out,
        "- **Start**: ",
        json::opt_str(context.get3("calendar", "start", "date_time")),
        "\n",
    );
    add_line_if(&mut out, "- **Attendees**: ", json::str_of(&listed), "\n");
    add_line_if(&mut out, "- **Transcript segments**: ", json::str_of(&count), "\n");
    out.append("\n## Transcript channels\n\n");
    let ghost head = out@;
    match json::opt_array(context.get2("attribution", "channels")) {
        Some(channels) => {
            let ghost all = json::views(channels@);
            assert(head =~= head + channels_told(all.take(0)));
            let mut i: usize = 0;
            while i < channels.len()
                invariant
                    i <= channels.len(),
                    all == json::views(channels@),
                    out@ == head + channels_told(all.take(i as int)),
                decreases channels.len() - i,
            {
                assert(all.take(i + 1).drop_last() =~= all.take(i as int));
                assert(all.take(i + 1).last() == channels@[i as int]@);
                out.append(tell_channel(&channels[i]).as_str());
                out.append("\n");
                assert(out@ =~= head + channels_told(all.take(i + 1)));
                i += 1;
            }
            assert(all.take(channels.len() as int) =~= all);
        },
        None => {
            assert(head =~= head + channels_told(Seq::empty()));
        },
    }
    out
}

// ---- Credentials ------------------------------------------------------------

/// A hint in the words of the server: it names tools, and a terminal only where
/// a person at the machine is needed.
pub open spec fn advice(h: RecoveryHint) -> Option<Seq<char>> {
    match h {
        RecoveryHint::Nothing => None,
        RecoveryHint::Reimport => Some(
            "Call `granola_auth_login`. It re-imports from the Granola desktop app in this session: a local file import, not a browser or device-code flow."@,
        ),
        RecoveryHint::SignInToDesktop => Some(
            "The Granola desktop app has no credentials to import. Ask the user to open Granola and sign in, then call `granola_auth_login`."@,
        ),
        RecoveryHint::ApproveKeychain => Some(
            "macOS needs one-time approval to release Granola's encryption key, which only the user can give. Ask them to run `granola auth login` once in a terminal and approve the Keychain prompt; after that this server can re-import on its own."@,
        ),
        RecoveryHint::FixKeychainAccess => Some(
            "This server cannot read the OS keychain, so it cannot recover on its own. Ask the user to run `granola auth status` in a terminal to see the underlying error."@,
        ),
        RecoveryHint::Retry => Some(
            "Granola's API could not be reached. Retry the original tool call shortly."@,
        ),
        RecoveryHint::DeadEnd => Some(
            "No local credential source remains to import from, so neither this server nor the CLI can recover. The Granola desktop app has to write fresh credentials first — ask the user to sign out and back in to Granola desktop."@,
        ),
    }
}

/// A report as a document, with what is to be done next.
pub open spec fn report_told_json(r: ReportView) -> JsonView {
    let fields = report::report_json(r)->Object_0;
    JsonView::Object(
        match advice(r.recovery) {
            Some(s) => fields.push(("next_step"@, JsonView::Text(s))),
            None => fields,
        },
    )
}

/// A report as markdown, with what is to be done next.
pub open spec fn report_told_md(r: ReportView) -> Seq<char> {
    "# Granola authentication\n\n- **Status**: "@ + (if r.ok {
        "ok"@
    } else {
        "not working"@
    }) + "\n- **Code**: `"@ + r.code + "`\n\n"@ + r.message + "\n"@ + line_if(
        "\n**Next step**: "@,
        advice(r.recovery),
        "\n"@,
    )
}

/// The answer of the tools for credentials.
pub open spec fn report_told(r: ReportView, format: ResponseFormat) -> ResponseView {
    match format {
        ResponseFormat::Json => ResponseView::Json(report_told_json(r)),
        ResponseFormat::Markdown => ResponseView::Text(report_told_md(r)),
    }
}

/// A hint in the words of the server.
pub fn mcp_recovery_text(hint: RecoveryHint) -> (r: Option<&'static str>)
    ensures
        json::seen(r) == advice(hint),
{
    match hint {
        RecoveryHint::Nothing => None,
        RecoveryHint::Reimport => Some(
            "Call `granola_auth_login`. It re-imports from the Granola desktop app in this session: a local file import, not a browser or device-code flow.",
        ),
        RecoveryHint::SignInToDesktop => Some(
            "The Granola desktop app has no credentials to import. Ask the user to open Granola and sign in, then call `granola_auth_login`.",
        ),
        RecoveryHint::ApproveKeychain => Some(
            "macOS needs one-time approval to release Granola's encryption key, which only the user can give. Ask them to run `granola auth login` once in a terminal and approve the Keychain prompt; after that this server can re-import on its own.",
        ),
        RecoveryHint::FixKeychainAccess => Some(
            "This server cannot read the OS keychain, so it cannot recover on its own. Ask the user to run `granola auth status` in a terminal to see the underlying error.",
        ),
        RecoveryHint::Retry => Some(
            "Granola's API could not be reached. Retry the original tool call shortly.",
        ),
        RecoveryHint::DeadEnd => Some(
            "No local credential source remains to import from, so neither this server nor the CLI can recover. The Granola desktop app has to write fresh credentials first — ask the user to sign out and back in to Granola desktop.",
        ),
    }
}

/// The answer of the tools for credentials: the report, and what is to be done
/// next.
pub fn render_auth_report(report: &AuthReport, format: ResponseFormat) -> (r: Response)
    ensures
        r@ == report_told(report@, format),
{
    let next = mcp_recovery_text(report.recovery);
    match format {
        ResponseFormat::Json => {
            let mut fields = report.to_fields();
            match next {
                Some(s) => {
                    add_field(&mut fields, "next_step", text_value(s));
                },
                None => {},
            }
            Response::Json(object(fields))
        },
        ResponseFormat::Markdown => {
            let mut out: String = "# Granola authentication\n\n- **Status**: ".to_owned();
            if report.ok {
                out.append("ok");
            } else {
                out.append("not working");
            }
            out.append("\n- **Code**: `");
            out.append(report.code);
            out.append("`\n\n");
            out.append(report.message.as_str());
            out.append("\n");
            add_line_if(&mut out, "\n**Next step**: ", next, "\n");
            Response::Text(out)
        },
    }
}

// ---- Tools ------------------------------------------------------------------

/// The answer of the tool for notes.
pub open spec fn notes_told(document: JsonView, format: ResponseFormat) -> ResponseView {
    let found = notes::notes_of(document);
    match format {
        ResponseFormat::Json => ResponseView::Json(notes::notes_json(found)),
        ResponseFormat::Markdown => ResponseView::Text(
            notes::rendered(found, document.text("title"@)),
        ),
    }
}

/// The answer of the tool for transcripts.
pub open spec fn transcript_told(transcript: JsonView, format: ResponseFormat) -> ResponseView {
    match format {
        ResponseFormat::Json => ResponseView::Json(annotated_segments(transcript)),
        ResponseFormat::Markdown => ResponseView::Text(transcript_md(transcript)),
    }
}

impl GranolaServer {
    /// The answer to a list of meetings. A page is never so long that its last
    /// number does not fit.
    pub fn list_meetings(&self, page: &MeetingPage, format: ResponseFormat) -> (r: Response)
        requires
            page.offset + page.meetings@.len() <= u64::MAX,
        ensures
            r@ == page_told(
                page.total_matched as nat,
                page.offset as nat,
                json::views(page.meetings@),
                format,
            ),
    {
        assert(json::views(page.meetings@).len() == page.meetings@.len());
        match format {
            ResponseFormat::Json => Response::Json(page_value(page)),
            ResponseFormat::Markdown => Response::Text(page_markdown(page)),
        }
    }

    /// The answer of the tool for notes: both kinds of them.
    pub fn get_notes(&self, document: &Json, format: ResponseFormat) -> (r: Response)
        ensures
            r@ == notes_told(document@, format),
    {
        let found = meeting_notes(document);
        match format {
            ResponseFormat::Json => Response::Json(found.to_json()),
            ResponseFormat::Markdown => Response::Text(
                found.render_markdown(document.text("title")),
            ),
        }
    }

    /// The answer of the tool for transcripts.
    pub fn get_transcript(&self, transcript: &Json, format: ResponseFormat) -> (r: Response)
        ensures
            r@ == transcript_told(transcript@, format),
    {
        match format {
            ResponseFormat::Json => Response::Json(annotate_all(transcript)),
            ResponseFormat::Markdown => Response::Text(transcript_markdown(transcript)),
        }
    }

    /// The answer of the tool for the context of a meeting.
    pub fn get_meeting_context(
        &self,
        document: &Json,
        transcript: &Json,
        format: ResponseFormat,
    ) -> (r: Result<Response, NotSegments>)
        ensures
            match transcript@.as_items() {
                Some(segs) => r matches Ok(v) && ({
                    let c = meetings::context(document@, transcript@, segs.len() as u64);
                    v@ == (match format {
                        ResponseFormat::Json => ResponseView::Json(c),
                        ResponseFormat::Markdown => ResponseView::Text(context_md(c)),
                    })
                }),
                None => r is Err,
            },
    {
        match meeting_context_value(document, transcript) {
            Ok(c) => match format {
                ResponseFormat::Json => Ok(Response::Json(c)),
                ResponseFormat::Markdown => Ok(Response::Text(context_markdown(&c))),
            },
            Err(e) => Err(e),
        }
    }
}

// ---- What holds of answers --------------------------------------------------

/// A report that all is well suggests nothing, and any other says what is to
/// be done next.
pub proof fn law_next_step_is_told(r: ReportView)
    ensures
        advice(r.recovery) is None <==> r.recovery == RecoveryHint::Nothing,
{
}

/// An agent is given advice exactly where credentials are the trouble.
pub proof fn law_advice_is_for_credentials(e: api::ErrorView)
    ensures
        failure_told(e) == api::error_chain(e) <==> !api::about_credentials(e),
{
    reveal_strlit("\n\n");
    if api::about_credentials(e) {
        assert(failure_told(e).len() > api::error_chain(e).len());
    }
}

/// Annotating a segment loses nothing: every other field is as it was.
pub proof fn law_annotating_loses_nothing(fields: Seq<(Seq<char>, JsonView)>, key: Seq<char>)
    requires
        key != "speaker"@,
        key != "speaker_is_likely_bot"@,
    ensures
        annotated(JsonView::Object(fields)).get(key) == JsonView::Object(fields).get(key),
{
    let seg = JsonView::Object(fields);
    let speaker = attribution::speaker_name(seg);
    let first = json::put(fields, "speaker"@, json::text_or_null(speaker));
    json::law_put_keeps_other_keys(fields, "speaker"@, json::text_or_null(speaker), key);
    json::law_put_keeps_other_keys(
        first,
        "speaker_is_likely_bot"@,
        JsonView::Bool(speaker matches Some(name) && attribution::is_notetaker(name)),
        key,
    );
}

/// A failure is told in full, with each cause behind it; where credentials are
/// the trouble, the advice follows a blank line.
pub proof fn law_failures_are_told_in_full(e: api::ErrorView)
    ensures
        text::begins_with(failure_told(e), api::error_chain(e)),
        !api::about_credentials(e) ==> failure_told(e) == api::error_chain(e),
        api::about_credentials(e) ==> text::begins_with(
            failure_told(e),
            api::error_chain(e) + "\n\nCall `granola_auth_login` to re-import credentials"@,
        ),
{
    let s = failure_told(e);
    let chain = api::error_chain(e);
    assert(s.subrange(0, chain.len() as int) =~= chain);
    reveal_strlit("\n\n");
    reveal_strlit("\n\nCall `granola_auth_login` to re-import credentials");
    reveal_strlit(
        "Call `granola_auth_login` to re-import credentials from the Granola desktop app. That is a local import, not a browser or device-code flow, so it works in this session without a terminal. Call `granola_auth_status` first for the specific cause.",
    );
    if api::about_credentials(e) {
        let p = chain + "\n\nCall `granola_auth_login` to re-import credentials"@;
        assert(s.subrange(0, p.len() as int) =~= p);
    }
}

/// An attendee goes by the full name in the details, else by the name, else by
/// the address; an empty one is none.
pub proof fn law_attendees_have_labels(a: JsonView)
    ensures
        ({
            let full = match a.get3("details"@, "person"@, "name"@) {
                Some(w) => w.text("fullName"@),
                None => None,
            };
            let label = if full is Some {
                full
            } else if a.text("name"@) is Some {
                a.text("name"@)
            } else {
                a.text("email"@)
            };
            &&& label matches Some(s) ==> (s.len() > 0 ==> label_of(a) == Some(s))
            &&& (label matches Some(s) ==> s.len() == 0) ==> label_of(a) is None
        }),
{
}

/// Labels are listed one by one in their order; who has none is left out.
pub proof fn law_labels_are_listed(a: Seq<JsonView>, x: JsonView)
    ensures
        labels_of(a.push(x)) == (match label_of(x) {
            Some(s) => labels_of(a).push(s),
            None => labels_of(a),
        }),
        labels_of(Seq::empty()).len() == 0,
{
    assert(a.push(x).drop_last() =~= a);
}

/// A meeting is told by its title, its id and its start, which is that of the
/// calendar or else its creation; then its end, if the calendar has one; its
/// platform; and its attendees, if it has any.
pub proof fn law_meeting_is_told_by_lines(
    m: JsonView,
    title: Seq<char>,
    id: Seq<char>,
    created: Seq<char>,
    attendees: Seq<JsonView>,
)
    requires
        m.text("title"@) == Some(title),
        title.len() > 0,
        m.text("id"@) == Some(id),
        m.text("created_at"@) == Some(created),
        m.get2("people"@, "attendees"@) == Some(JsonView::Array(attendees)),
    ensures
        ({
            let start = json::text_in(m.get3("google_calendar_event"@, "start"@, "dateTime"@));
            let end = json::text_in(m.get3("google_calendar_event"@, "end"@, "dateTime"@));
            let platform = json::text_in(m.get3("people"@, "conferencing"@, "type"@));
            meeting_md(m) == text::joined(
                seq![
                    "### "@ + title,
                    "- **ID**: `"@ + id + "`"@,
                    "- **Start**: "@ + (match start {
                        Some(s) => s,
                        None => created,
                    }),
                ] + (match end {
                    Some(s) => seq!["- **End**: "@ + s],
                    None => Seq::empty(),
                }) + seq![
                    "- **Platform**: "@ + (match platform {
                        Some(s) => s,
                        None => "unknown"@,
                    }),
                ] + (if labels_of(attendees).len() > 0 {
                    seq!["- **Attendees**: "@ + text::joined(labels_of(attendees), ", "@)]
                } else {
                    Seq::empty()
                }),
                "\n"@,
            )
        }),
{
    let start = json::text_in(m.get3("google_calendar_event"@, "start"@, "dateTime"@));
    let end = json::text_in(m.get3("google_calendar_event"@, "end"@, "dateTime"@));
    let platform = json::text_in(m.get3("people"@, "conferencing"@, "type"@));
    let lines = seq![
                    "### "@ + title,
                    "- **ID**: `"@ + id + "`"@,
                    "- **Start**: "@ + (match start {
                        Some(s) => s,
                        None => created,
                    }),
                ] + (match end {
                    Some(s) => seq!["- **End**: "@ + s],
                    None => Seq::empty(),
                }) + seq![
                    "- **Platform**: "@ + (match platform {
                        Some(s) => s,
                        None => "unknown"@,
                    }),
                ] + (if labels_of(attendees).len() > 0 {
                    seq!["- **Attendees**: "@ + text::joined(labels_of(attendees), ", "@)]
                } else {
                    Seq::empty()
                });
    assert(meeting_lines(m) =~= lines);
}

/// A meeting without a title, or with an empty one, is told as untitled.
pub proof fn law_untitled_meetings_are_told(m: JsonView)
    requires
        m.text("title"@) matches Some(s) ==> s.len() == 0,
    ensures
        text::begins_with(meeting_md(m), "### (Untitled)\n"@),
{
    reveal_strlit("\n");
    reveal_strlit("### ");
    reveal_strlit("(Untitled)");
    reveal_strlit("### (Untitled)\n");
    let lines = meeting_lines(m);
    assert(lines.len() > 1);
    assert(lines[0] == "### "@ + "(Untitled)"@);
    text::lemma_joined_front(lines, "\n"@);
    let p = "### (Untitled)\n"@;
    assert(meeting_md(m).subrange(0, p.len() as int) =~= p);
}

/// A page as a document says how many meetings there are, where it begins, how
/// many it has, and the summary of each.
pub proof fn law_page_has_its_keys(total: nat, offset: nat, shown: Seq<JsonView>, i: int)
    ensures
        ({
            let v = page_json(total, offset, shown);
            &&& v.get("total_matched"@) == Some(
                JsonView::Number(NumberView::Unsigned(total as u64)),
            )
            &&& v.get("offset"@) == Some(JsonView::Number(NumberView::Unsigned(offset as u64)))
            &&& v.get("count"@) == Some(JsonView::Number(NumberView::Unsigned(shown.len() as u64)))
            &&& v.items("meetings"@) matches Some(items) && items.len() == shown.len() && (0 <= i
                < shown.len() ==> items[i] == meetings::summary(shown[i]))
        }),
        page_told(total, offset, shown, ResponseFormat::Json) == ResponseView::Json(
            page_json(total, offset, shown),
        ),
        page_told(total, offset, shown, ResponseFormat::Markdown) == ResponseView::Text(
            page_heading(total, offset, shown.len()) + meetings_md(shown),
        ),
{
    let fields = page_json(total, offset, shown)->Object_0;
    reveal_strlit("total_matched");
    reveal_strlit("offset");
    reveal_strlit("count");
    reveal_strlit("meetings");
    assert("total_matched"@.len() != "offset"@.len());
    assert("total_matched"@.len() != "count"@.len());
    assert("total_matched"@.len() != "meetings"@.len());
    assert("offset"@.len() != "count"@.len());
    assert("offset"@.len() != "meetings"@.len());
    assert("count"@.len() != "meetings"@.len());
    json::law_first_field_counts(fields, "total_matched"@, 0);
    json::law_first_field_counts(fields, "offset"@, 1);
    json::law_first_field_counts(fields, "count"@, 2);
    json::law_first_field_counts(fields, "meetings"@, 3);
}

/// The heading of a page that does not show all says which of how many it shows,
/// counted from one.
pub proof fn law_page_heading_counts(total: nat, offset: nat, shown: nat)
    ensures
        total > shown ==> page_heading(total, offset, shown) == "# Meetings ("@ + text::decimal(
            offset + 1,
        ) + "-"@ + text::decimal(offset + shown) + " of "@ + text::decimal(total) + ")\n"@,
        total <= shown ==> page_heading(total, offset, shown) == "# Meetings ("@ + text::decimal(
            shown,
        ) + " found)\n"@,
{
}

/// Meetings are told one after the other, each between line breaks.
pub proof fn law_meetings_are_told_one_by_one(s: Seq<JsonView>, m: JsonView)
    ensures
        meetings_md(s.push(m)) == meetings_md(s) + "\n"@ + meeting_md(m) + "\n"@,
        meetings_md(Seq::empty()).len() == 0,
{
    assert(s.push(m).drop_last() =~= s);
}

/// An annotated segment says who speaks, or null, and whether that is likely a
/// notetaker. What is no object stays.
pub proof fn law_annotation_names_the_speaker(fields: Seq<(Seq<char>, JsonView)>)
    ensures
        ({
            let seg = JsonView::Object(fields);
            let name = attribution::speaker_name(seg);
            &&& name matches Some(s) ==> annotated(seg).get("speaker"@) == Some(JsonView::Text(s))
                && annotated(seg).get("speaker_is_likely_bot"@) == Some(
                JsonView::Bool(attribution::is_notetaker(s)),
            )
            &&& name is None ==> annotated(seg).get("speaker"@) == Some(JsonView::Null)
                && annotated(seg).get("speaker_is_likely_bot"@) == Some(JsonView::Bool(false))
        }),
        forall|v: JsonView| !(v is Object) ==> #[trigger] annotated(v) == v,
{
    let seg = JsonView::Object(fields);
    let name = attribution::speaker_name(seg);
    let who = json::text_or_null(name);
    let bot = JsonView::Bool(name matches Some(s) && attribution::is_notetaker(s));
    let one = json::put(fields, "speaker"@, who);
    reveal_strlit("speaker");
    reveal_strlit("speaker_is_likely_bot");
    assert("speaker"@.len() != "speaker_is_likely_bot"@.len());
    json::law_put_then_lookup(fields, "speaker"@, who);
    json::law_put_then_lookup(one, "speaker_is_likely_bot"@, bot);
    json::law_put_keeps_other_keys(one, "speaker_is_likely_bot"@, bot, "speaker"@);
}

/// A transcript is annotated segment by segment; what is no array has none.
pub proof fn law_every_segment_is_annotated(segs: Seq<JsonView>, i: int)
    ensures
        annotated_segments(JsonView::Array(segs)) matches JsonView::Array(a) && a.len()
            == segs.len() && (0 <= i < segs.len() ==> a[i] == annotated(segs[i])),
        transcript_told(JsonView::Array(segs), ResponseFormat::Json) == ResponseView::Json(
            annotated_segments(JsonView::Array(segs)),
        ),
        transcript_told(JsonView::Array(segs), ResponseFormat::Markdown) == ResponseView::Text(
            transcript_md(JsonView::Array(segs)),
        ),
{
}

/// Who speaks is told by name, a notetaker as such, and without a name by the
/// source.
pub proof fn law_speakers_are_told(seg: JsonView, name: Seq<char>)
    ensures
        attribution::speaker_name(seg) == Some(name) && !attribution::is_notetaker(name)
            ==> speaker_told(seg) == "**"@ + name + "**"@,
        attribution::speaker_name(seg) == Some(name) && attribution::is_notetaker(name)
            ==> speaker_told(seg) == "**"@ + name + "** _(notetaker bot)_"@,
        attribution::speaker_name(seg) is None ==> speaker_told(seg) == "**"@ + seg.text_or(
            "source"@,
            "unknown"@,
        ) + " audio**"@,
{
}

/// A transcript goes on segment by segment: a blank one adds nothing, and any
/// other a line with its speaker, source, time and words, and an empty line.
pub proof fn law_transcript_goes_on(segs: Seq<JsonView>, seg: JsonView)
    ensures
        ({
            let said = text::trimmed(seg.text_or("text"@, ""@));
            let before = transcript_md(JsonView::Array(segs));
            let after = transcript_md(JsonView::Array(segs.push(seg)));
            if said.len() == 0 {
                after == before
            } else {
                after == before + "\n"@ + (speaker_told(seg) + " _(source: "@ + seg.text_or(
                    "source"@,
                    "unknown"@,
                ) + "; "@ + seg.text_or("start_timestamp"@, ""@) + ")_: "@ + said) + "\n"@
            }
        }),
        transcript_md(JsonView::Array(Seq::empty())) == "# Transcript\n"@,
{
    let said = text::trimmed(seg.text_or("text"@, ""@));
    assert(segs.push(seg).drop_last() =~= segs);
    let before = transcript_lines(segs);
    let more = segment_lines(seg);
    text::law_joined_adds_up(before, more, "\n"@);
    lemma_transcript_begins(segs);
    reveal_strlit("");
    if said.len() == 0 {
        assert(before + more =~= before);
    } else {
        let line = more[0];
        assert(more.drop_last() =~= seq![line]);
        assert(text::joined(seq![line], "\n"@) == line);
        assert(text::joined(more, "\n"@) == line + "\n"@ + ""@);
        assert(text::joined(before + more, "\n"@) =~= text::joined(before, "\n"@) + "\n"@ + line
            + "\n"@);
    }
    reveal_strlit("\n");
    reveal_strlit("# Transcript");
    reveal_strlit("# Transcript\n");
    let none = transcript_lines(Seq::empty());
    assert(none == seq!["# Transcript"@, ""@]);
    assert(none.drop_last() =~= seq!["# Transcript"@]);
    assert(text::joined(seq!["# Transcript"@], "\n"@) == "# Transcript"@);
    assert(text::joined(none, "\n"@) =~= "# Transcript\n"@);
}

/// A transcript has at least its heading.
proof fn lemma_transcript_begins(segs: Seq<JsonView>)
    ensures
        transcript_lines(segs).len() >= 2,
    decreases segs.len(),
{
    if segs.len() > 0 {
        lemma_transcript_begins(segs.drop_last());
    }
}

/// Of a list the texts are taken in their order.
pub proof fn law_texts_are_taken(a: Seq<JsonView>, v: JsonView)
    ensures
        texts_of(a.push(v)) == (match v {
            JsonView::Text(s) => texts_of(a).push(s),
            _ => texts_of(a),
        }),
        texts_of(Seq::empty()).len() == 0,
        texts_in(Some(JsonView::Array(a))) == texts_of(a),
        texts_in(None).len() == 0,
{
    assert(a.push(v).drop_last() =~= a);
}

/// A channel is told by its source, its number of segments, and who was detected
/// in it.
pub proof fn law_channels_are_told(c: JsonView, source: Seq<char>, n: u64, names: Seq<JsonView>)
    requires
        c.text("source"@) == Some(source),
        c.get("segment_count"@) == Some(JsonView::Number(NumberView::Unsigned(n))),
        c.get("detected_speaker_names"@) == Some(JsonView::Array(names)),
    ensures
        texts_of(names).len() == 0 ==> channel_told(c) == "- "@ + source + ": "@ + text::decimal(
            n as nat,
        ) + " segments"@,
        texts_of(names).len() > 0 ==> channel_told(c) == "- "@ + source + ": "@ + text::decimal(
            n as nat,
        ) + " segments; detected speakers: "@ + text::joined(texts_of(names), ", "@),
        channel_start(c) == "- "@ + source + ": "@ + text::decimal(n as nat) + " segments"@,
{
    reveal_strlit(" segments");
    reveal_strlit("; detected speakers: ");
    reveal_strlit(" segments; detected speakers: ");
    let head = "- "@ + source + ": "@ + text::decimal(n as nat);
    if texts_of(names).len() == 0 {
        assert(channel_told(c) =~= head + " segments"@);
    } else {
        assert(channel_told(c) =~= head + " segments; detected speakers: "@ + text::joined(
            texts_of(names),
            ", "@,
        ));
    }
}

/// A context is told by its title, and by its id, its start, its attendees and
/// the number of its segments where it has them; then channel by channel.
pub proof fn law_context_is_told(
    c: JsonView,
    title: Seq<char>,
    id: Seq<char>,
    n: u64,
    names: Seq<JsonView>,
    channels: Seq<JsonView>,
)
    requires
        c.get2("document"@, "title"@) == Some(JsonView::Text(title)),
        c.get2("document"@, "id"@) == Some(JsonView::Text(id)),
        c.get2("people"@, "attendee_names"@) == Some(JsonView::Array(names)),
        c.get2("transcript"@, "segment_count"@) == Some(
            JsonView::Number(NumberView::Unsigned(n)),
        ),
        c.get2("attribution"@, "channels"@) == Some(JsonView::Array(channels)),
    ensures
        context_md(c) == "# "@ + title + "\n"@ + ("\n- **ID**: `"@ + id + "`\n"@) + (match c.get3(
            "calendar"@,
            "start"@,
            "date_time"@,
        ) {
            Some(JsonView::Text(s)) => "- **Start**: "@ + s + "\n"@,
            _ => Seq::empty(),
        }) + (if texts_of(names).len() > 0 {
            "- **Attendees**: "@ + text::joined(texts_of(names), ", "@) + "\n"@
        } else {
            Seq::empty()
        }) + ("- **Transcript segments**: "@ + text::decimal(n as nat) + "\n"@)
            + "\n## Transcript channels\n\n"@ + channels_told(channels),
        forall|x: JsonView|
            #[trigger] channels_told(channels.push(x)) == channels_told(channels) + channel_told(x)
                + "\n"@,
        channels_told(Seq::empty()).len() == 0,
{
    assert forall|x: JsonView|
        #[trigger] channels_told(channels.push(x)) == channels_told(channels) + channel_told(x)
            + "\n"@ by {
        assert(channels.push(x).drop_last() =~= channels);
    }
}

/// What helps is told by a sentence of its own for each case.
pub proof fn law_advice_fits_the_case()
    ensures
        advice(RecoveryHint::Reimport) matches Some(s) && text::begins_with(
            s,
            "Call `granola_auth_login`."@,
        ),
        advice(RecoveryHint::SignInToDesktop) matches Some(s) && text::begins_with(
            s,
            "The Granola desktop app has no credentials to import."@,
        ),
        advice(RecoveryHint::ApproveKeychain) matches Some(s) && text::begins_with(
            s,
            "macOS needs one-time approval"@,
        ),
        advice(RecoveryHint::FixKeychainAccess) matches Some(s) && text::begins_with(
            s,
            "This server cannot read the OS keychain"@,
        ),
        advice(RecoveryHint::Retry) matches Some(s) && text::begins_with(
            s,
            "Granola's API could not be reached."@,
        ),
        advice(RecoveryHint::DeadEnd) matches Some(s) && text::begins_with(
            s,
            "No local credential source remains"@,
        ),
        advice(RecoveryHint::Nothing) is None,
{
    reveal_strlit(
        "Call `granola_auth_login`. It re-imports from the Granola desktop app in this session: a local file import, not a browser or device-code flow.",
    );
    reveal_strlit("Call `granola_auth_login`.");
    reveal_strlit(
        "The Granola desktop app has no credentials to import. Ask the user to open Granola and sign in, then call `granola_auth_login`.",
    );
    reveal_strlit("The Granola desktop app has no credentials to import.");
    reveal_strlit(
        "macOS needs one-time approval to release Granola's encryption key, which only the user can give. Ask them to run `granola auth login` once in a terminal and approve the Keychain prompt; after that this server can re-import on its own.",
    );
    reveal_strlit("macOS needs one-time approval");
    reveal_strlit(
        "This server cannot read the OS keychain, so it cannot recover on its own. Ask the user to run `granola auth status` in a terminal to see the underlying error.",
    );
    reveal_strlit("This server cannot read the OS keychain");
    reveal_strlit("Granola's API could not be reached. Retry the original tool call shortly.");
    reveal_strlit("Granola's API could not be reached.");
    reveal_strlit(
        "No local credential source remains to import from, so neither this server nor the CLI can recover. The Granola desktop app has to write fresh credentials first — ask the user to sign out and back in to Granola desktop.",
    );
    reveal_strlit("No local credential source remains");
    let p = "Call `granola_auth_login`."@;
    assert((advice(RecoveryHint::Reimport)->0).subrange(0, p.len() as int) =~= p);
    let p = "The Granola desktop app has no credentials to import."@;
    assert((advice(RecoveryHint::SignInToDesktop)->0).subrange(0, p.len() as int) =~= p);
    let p = "macOS needs one-time approval"@;
    assert((advice(RecoveryHint::ApproveKeychain)->0).subrange(0, p.len() as int) =~= p);
    let p = "This server cannot read the OS keychain"@;
    assert((advice(RecoveryHint::FixKeychainAccess)->0).subrange(0, p.len() as int) =~= p);
    let p = "Granola's API could not be reached."@;
    assert((advice(RecoveryHint::Retry)->0).subrange(0, p.len() as int) =~= p);
    let p = "No local credential source remains"@;
    assert((advice(RecoveryHint::DeadEnd)->0).subrange(0, p.len() as int) =~= p);
}

/// A report is told with its facts, and with what helps where something does.
pub proof fn law_reports_are_told(r: ReportView)
    ensures
        report_told_json(r).get("ok"@) == Some(JsonView::Bool(r.ok)),
        report_told_json(r).get("code"@) == Some(JsonView::Text(r.code)),
        report_told_json(r).get("message"@) == Some(JsonView::Text(r.message)),
        advice(r.recovery) matches Some(s) ==> report_told_json(r).get("next_step"@) == Some(
            JsonView::Text(s),
        ) && report_told_md(r) == "# Granola authentication\n\n- **Status**: "@ + (if r.ok {
            "ok"@
        } else {
            "not working"@
        }) + "\n- **Code**: `"@ + r.code + "`\n\n"@ + r.message + "\n"@ + ("\n**Next step**: "@ + s
            + "\n"@),
        advice(r.recovery) is None ==> report_told_json(r).get("next_step"@) is None
            && report_told_md(r) == "# Granola authentication\n\n- **Status**: "@ + (if r.ok {
            "ok"@
        } else {
            "not working"@
        }) + "\n- **Code**: `"@ + r.code + "`\n\n"@ + r.message + "\n"@,
        report_told(r, ResponseFormat::Json) == ResponseView::Json(report_told_json(r)),
        report_told(r, ResponseFormat::Markdown) == ResponseView::Text(report_told_md(r)),
{
    let fields = report_told_json(r)->Object_0;
    reveal_strlit("ok");
    reveal_strlit("code");
    reveal_strlit("message");
    reveal_strlit("credentials_present");
    reveal_strlit("validated");
    reveal_strlit("source");
    reveal_strlit("desktop");
    reveal_strlit("recovery");
    reveal_strlit("next_step");
    assert("ok"@.len() != "code"@.len());
    assert("ok"@.len() != "message"@.len());
    assert("ok"@.len() != "credentials_present"@.len());
    assert("ok"@.len() != "validated"@.len());
    assert("ok"@.len() != "source"@.len());
    assert("ok"@.len() != "desktop"@.len());
    assert("ok"@.len() != "recovery"@.len());
    assert("ok"@.len() != "next_step"@.len());
    assert("code"@.len() != "message"@.len());
    assert("code"@.len() != "credentials_present"@.len());
    assert("code"@.len() != "validated"@.len());
    assert("code"@.len() != "source"@.len());
    assert("code"@.len() != "desktop"@.len());
    assert("code"@.len() != "recovery"@.len());
    assert("code"@.len() != "next_step"@.len());
    assert("message"@.len() != "credentials_present"@.len());
    assert("message"@.len() != "validated"@.len());
    assert("message"@.len() != "source"@.len());
    assert("message"@[0] != "desktop"@[0]);
    assert("message"@.len() != "recovery"@.len());
    assert("message"@.len() != "next_step"@.len());
    assert("credentials_present"@.len() != "validated"@.len());
    assert("credentials_present"@.len() != "source"@.len());
    assert("credentials_present"@.len() != "desktop"@.len());
    assert("credentials_present"@.len() != "recovery"@.len());
    assert("credentials_present"@.len() != "next_step"@.len());
    assert("validated"@.len() != "source"@.len());
    assert("validated"@.len() != "desktop"@.len());
    assert("validated"@.len() != "recovery"@.len());
    assert("validated"@[0] != "next_step"@[0]);
    assert("source"@.len() != "desktop"@.len());
    assert("source"@.len() != "recovery"@.len());
    assert("source"@.len() != "next_step"@.len());
    assert("desktop"@.len() != "recovery"@.len());
    assert("desktop"@.len() != "next_step"@.len());
    assert("recovery"@.len() != "next_step"@.len());
    json::law_first_field_counts(fields, "ok"@, 0);
    json::law_first_field_counts(fields, "code"@, 1);
    json::law_first_field_counts(fields, "message"@, 2);
    json::law_first_field_counts(fields, "next_step"@, 8);
    if advice(r.recovery) is None {
        let told = "# Granola authentication\n\n- **Status**: "@ + (if r.ok {
            "ok"@
        } else {
            "not working"@
        }) + "\n- **Code**: `"@ + r.code + "`\n\n"@ + r.message + "\n"@;
        assert(report_told_md(r) =~= told);
    }
}

/// The notes of a meeting are told as a document or under its title.
pub proof fn law_notes_are_told(document: JsonView)
    ensures
        notes_told(document, ResponseFormat::Json) == ResponseView::Json(
            notes::notes_json(notes::notes_of(document)),
        ),
        notes_told(document, ResponseFormat::Markdown) == ResponseView::Text(
            notes::rendered(notes::notes_of(document), document.text("title"@)),
        ),
{
}

/// A context that says nothing is told as untitled, with no more than the
/// heading of its channels.
pub proof fn law_empty_contexts_are_told(c: JsonView)
    requires
        c.get("document"@) is None,
        c.get("people"@) is None,
        c.get("calendar"@) is None,
        c.get("transcript"@) is None,
        c.get("attribution"@) is None,
    ensures
        context_md(c) == "# (untitled)\n\n## Transcript channels\n\n"@,
{
    reveal_strlit("# ");
    reveal_strlit("(untitled)");
    reveal_strlit("\n");
    reveal_strlit("\n## Transcript channels\n\n");
    reveal_strlit("# (untitled)\n\n## Transcript channels\n\n");
    assert(texts_in(None) =~= Seq::empty());
    assert(context_md(c) =~= "# (untitled)\n\n## Transcript channels\n\n"@);
}

/// A channel that does not say its source or its number is told as one of
/// unknown source with none.
pub proof fn law_unknown_channels_are_told(c: JsonView)
    requires
        c.get("source"@) is None,
        c.get("segment_count"@) is None,
        c.get("detected_speaker_names"@) is None,
    ensures
        channel_told(c) == "- unknown: 0 segments"@,
        channel_start(c) == "- unknown: 0 segments"@,
{
    reveal_strlit("- ");
    reveal_strlit("unknown");
    reveal_strlit(": ");
    reveal_strlit(" segments");
    reveal_strlit("- unknown: 0 segments");
    assert(text::decimal(0) =~= seq!['0']);
    assert(texts_in(None) =~= Seq::empty());
    assert(channel_start(c) =~= "- unknown: 0 segments"@);
    assert(channel_told(c) =~= "- unknown: 0 segments"@);
}

/// What a context tells: the title or that there is none; its id, start,
/// attendees and number of segments where it has them; and each channel.
pub proof fn law_context_tells_what_is_there(c: JsonView)
    ensures
        ({
            let title = json::text_in(c.get2("document"@, "title"@));
            let id = json::text_in(c.get2("document"@, "id"@));
            let start = json::text_in(c.get3("calendar"@, "start"@, "date_time"@));
            let names = json::items_in(c.get2("people"@, "attendee_names"@));
            let count = c.get2("transcript"@, "segment_count"@);
            let channels = json::items_in(c.get2("attribution"@, "channels"@));
            context_md(c) == "# "@ + (match title {
                Some(s) => s,
                None => "(untitled)"@,
            }) + "\n"@ + (match id {
                Some(s) => "\n- **ID**: `"@ + s + "`\n"@,
                None => Seq::empty(),
            }) + (match start {
                Some(s) => "- **Start**: "@ + s + "\n"@,
                None => Seq::empty(),
            }) + (if names matches Some(a) && texts_of(a).len() > 0 {
                "- **Attendees**: "@ + text::joined(texts_of(names->0), ", "@) + "\n"@
            } else {
                Seq::empty()
            }) + (match count {
                Some(JsonView::Number(NumberView::Unsigned(n))) => "- **Transcript segments**: "@
                    + text::decimal(n as nat) + "\n"@,
                _ => Seq::empty(),
            }) + "\n## Transcript channels\n\n"@ + channels_told(
                match channels {
                    Some(a) => a,
                    None => Seq::empty(),
                },
            )
        }),
{
}

/// The lines of a meeting, whatever it says of itself: what is missing is empty,
/// its start is then its creation, and its platform unknown.
pub proof fn law_meeting_tells_what_is_there(m: JsonView)
    ensures
        ({
            let title = m.text("title"@);
            let start = json::text_in(m.get3("google_calendar_event"@, "start"@, "dateTime"@));
            let end = json::text_in(m.get3("google_calendar_event"@, "end"@, "dateTime"@));
            let platform = json::text_in(m.get3("people"@, "conferencing"@, "type"@));
            let attendees = match json::items_in(m.get2("people"@, "attendees"@)) {
                Some(a) => a,
                None => Seq::empty(),
            };
            meeting_lines(m) == seq![
                "### "@ + (if title matches Some(s) && s.len() > 0 {
                    title->0
                } else {
                    "(Untitled)"@
                }),
                "- **ID**: `"@ + m.text_or("id"@, ""@) + "`"@,
                "- **Start**: "@ + (match start {
                    Some(s) => s,
                    None => m.text_or("created_at"@, ""@),
                }),
            ] + (match end {
                Some(s) => seq!["- **End**: "@ + s],
                None => Seq::empty(),
            }) + seq![
                "- **Platform**: "@ + (match platform {
                    Some(s) => s,
                    None => "unknown"@,
                }),
            ] + (if labels_of(attendees).len() > 0 {
                seq!["- **Attendees**: "@ + text::joined(labels_of(attendees), ", "@)]
            } else {
                Seq::empty()
            })
        }),
        meeting_md(m) == text::joined(meeting_lines(m), "\n"@),
{
}

} // verus!
