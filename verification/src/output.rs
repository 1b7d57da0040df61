//! Output: its formats, the rows of a table, and the documents that carry a
//! message or an error.

use crate::json;
use crate::json::{add_field, no_fields, object, text_value, Json, JsonView};
use crate::meetings;
use crate::text;
use crate::text::{chars_of, prefixed, string_of, text_eq, to_ascii_lower};
use vstd::prelude::*;

verus! {

// ---- Formats ----------------------------------------------------------------

/// A format of output.
#[derive(Debug, Clone, Copy, PartialEq, Eq, Structural)]
pub enum Format {
    Json,
    Yaml,
    Table,
    Markdown,
    Text,
}

/// The name of a format.
pub open spec fn format_name(f: Format) -> Seq<char> {
    match f {
        Format::Json => "json"@,
        Format::Yaml => "yaml"@,
        Format::Table => "table"@,
        Format::Markdown => "markdown"@,
        Format::Text => "text"@,
    }
}

/// The format that a name in small letters stands for.
pub open spec fn format_named(s: Seq<char>) -> Option<Format> {
    if s == "json"@ {
        Some(Format::Json)
    } else if s == "yaml"@ {
        Some(Format::Yaml)
    } else if s == "table"@ {
        Some(Format::Table)
    } else if s == "markdown"@ || s == "md"@ {
        Some(Format::Markdown)
    } else if s == "text"@ || s == "txt"@ {
        Some(Format::Text)
    } else {
        None
    }
}

impl Format {
    /// The format that a name stands for, in letters of any case.
    pub fn parse(s: &str) -> (r: Result<Format, String>)
        ensures
            match r {
                Ok(f) => format_named(text::ascii_lower(s@)) == Some(f),
                Err(e) => format_named(text::ascii_lower(s@)) is None && e@ == "unknown format: "@
                    + text::ascii_lower(s@),
            },
    {
        let low = to_ascii_lower(s);
        let name = low.as_str();
        if text_eq(name, "json") {
            Ok(Format::Json)
        } else if text_eq(name, "yaml") {
            Ok(Format::Yaml)
        } else if text_eq(name, "table") {
            Ok(Format::Table)
        } else if text_eq(name, "markdown") || text_eq(name, "md") {
            Ok(Format::Markdown)
        } else if text_eq(name, "text") || text_eq(name, "txt") {
            Ok(Format::Text)
        } else {
            Err(prefixed("unknown format: ", name))
        }
    }

    /// The name of the format.
    pub fn name(&self) -> (r: &'static str)
        ensures
            r@ == format_name(*self),
    {
        match self {
            Format::Json => "json",
            Format::Yaml => "yaml",
            Format::Table => "table",
            Format::Markdown => "markdown",
            Format::Text => "text",
        }
    }
}

impl std::str::FromStr for Format {
    type Err = String;

    fn from_str(s: &str) -> (r: Result<Self, Self::Err>)
        ensures
            match r {
                Ok(f) => format_named(text::ascii_lower(s@)) == Some(f),
                Err(e) => format_named(text::ascii_lower(s@)) is None && e@ == "unknown format: "@
                    + text::ascii_lower(s@),
            },
    {
        Format::parse(s)
    }
}

/// The name of a format stands for that format.
pub proof fn law_names_are_read_back(f: Format)
    ensures
        format_named(text::ascii_lower(format_name(f))) == Some(f),
{
    reveal_strlit("json");
    reveal_strlit("yaml");
    reveal_strlit("table");
    reveal_strlit("markdown");
    reveal_strlit("md");
    reveal_strlit("text");
    reveal_strlit("txt");
    assert("json"@[0] != "yaml"@[0]);
    assert("json"@[0] != "table"@[0]);
    assert("json"@[0] != "markdown"@[0]);
    assert("json"@[0] != "text"@[0]);
    assert("yaml"@[0] != "table"@[0]);
    assert("yaml"@[0] != "markdown"@[0]);
    assert("yaml"@[0] != "text"@[0]);
    assert("table"@[0] != "markdown"@[0]);
    assert("table"@.len() != "text"@.len());
    assert("markdown"@[0] != "text"@[0]);
    assert("text"@.len() != "txt"@.len());
    assert("text"@[0] != "md"@[0]);
    assert(text::ascii_lower(format_name(f)) =~= format_name(f));
}

// ---- Rows -------------------------------------------------------------------

/// A row of the table of meetings.
#[derive(Debug, PartialEq, Eq)]
pub struct Row {
    pub id: String,
    pub date: String,
    pub title: String,
    pub origin: String,
}

/// What a [`Row`] says.
pub struct RowView {
    pub id: Seq<char>,
    pub date: Seq<char>,
    pub title: Seq<char>,
    pub origin: Seq<char>,
}

impl View for Row {
    type V = RowView;

    open spec fn view(&self) -> RowView {
        RowView { id: self.id@, date: self.date@, title: self.title@, origin: self.origin@ }
    }
}

/// What the rows of a list say.
pub open spec fn row_views(s: Seq<Row>) -> Seq<RowView> {
    Seq::new(s.len(), |i: int| s[i]@)
}

/// The first characters of a text.
pub open spec fn shortened(s: Seq<char>, n: int) -> Seq<char> {
    if s.len() <= n {
        s
    } else {
        s.take(n)
    }
}

/// The row of a meeting: the start of its id, the day of its creation, its
/// title and its origin.
pub open spec fn row_of(m: JsonView) -> RowView {
    let created = m.text_or("created_at"@, ""@);
    RowView {
        id: shortened(m.text_or("id"@, ""@), 8),
        date: created.take(text::first_index(created, 'T') as int),
        title: m.text_or("title"@, "(untitled)"@),
        origin: m.text_or("_origin"@, "owned"@),
    }
}

/// The first characters of a text.
fn shorten(s: &str, n: usize) -> (r: String)
    ensures
        r@ == shortened(s@, n as int),
{
    let cs = chars_of(s);
    let to: usize = if cs.len() <= n {
        cs.len()
    } else {
        n
    };
    let out = string_of(&cs, 0, to);
    assert(out@ =~= shortened(s@, n as int));
    out
}

/// A text up to a character.
fn before(s: &str, c: char) -> (r: String)
    ensures
        r@ == s@.take(text::first_index(s@, c) as int),
{
    let cs = chars_of(s);
    let mut i: usize = 0;
    while i < cs.len() && cs[i] != c
        invariant
            i <= cs.len(),
            forall|k: int| 0 <= k < i ==> cs@[k] != c,
        decreases cs.len() - i,
    {
        i += 1;
    }
    proof {
        text::lemma_first_index(s@, c, i as nat);
    }
    let out = string_of(&cs, 0, i);
    assert(out@ =~= s@.take(i as int));
    out
}

/// The row of a meeting.
pub fn meeting_row(m: &Json) -> (r: Row)
    ensures
        r@ == row_of(m@),
{
    Row {
        id: shorten(m.text_or("id", ""), 8),
        date: before(m.text_or("created_at", ""), 'T'),
        title: m.text_or("title", "(untitled)").to_owned(),
        origin: m.text_or("_origin", "owned").to_owned(),
    }
}

/// The rows of the table of meetings.
pub fn meeting_rows(meetings: &Vec<Json>) -> (r: Vec<Row>)
    ensures
        row_views(r@) == Seq::new(meetings@.len(), |i: int| row_of(meetings@[i]@)),
{
    let mut out: Vec<Row> = Vec::new();
    let mut i: usize = 0;
    while i < meetings.len()
        invariant
            i <= meetings.len(),
            out.len() == i,
            forall|k: int| 0 <= k < i ==> (#[trigger] out@[k])@ == row_of(meetings@[k]@),
        decreases meetings.len() - i,
    {
        out.push(meeting_row(&meetings[i]));
        i += 1;
    }
    assert(row_views(out@) =~= Seq::new(meetings@.len(), |i: int| row_of(meetings@[i]@)));
    out
}

// ---- Messages ---------------------------------------------------------------

/// An error as a JSON document.
pub open spec fn error_json(code: Seq<char>, message: Seq<char>) -> JsonView {
    JsonView::Object(
        seq![
            (
                "error"@,
                JsonView::Object(
                    seq![
                        ("code"@, JsonView::Text(code)),
                        ("message"@, JsonView::Text(message)),
                    ],
                ),
            ),
        ],
    )
}

/// A message as a JSON document.
pub open spec fn message_json(code: Seq<char>, message: Seq<char>) -> JsonView {
    JsonView::Object(
        seq![
            ("ok"@, JsonView::Bool(true)),
            ("code"@, JsonView::Text(code)),
            ("message"@, JsonView::Text(message)),
        ],
    )
}

/// An error as a JSON document.
pub fn error_value(code: &str, message: &str) -> (r: Json)
    ensures
        r@ == error_json(code@, message@),
{
    let mut inner = no_fields();
    add_field(&mut inner, "code", text_value(code));
    add_field(&mut inner, "message", text_value(message));
    assert(json::field_views(inner@) =~= seq![
        ("code"@, JsonView::Text(code@)),
        ("message"@, JsonView::Text(message@)),
    ]);
    let mut fields = no_fields();
    add_field(&mut fields, "error", object(inner));
    assert(json::field_views(fields@) =~= error_json(code@, message@)->Object_0);
    object(fields)
}

/// A message as a JSON document.
pub fn message_value(code: &str, message: &str) -> (r: Json)
    ensures
        r@ == message_json(code@, message@),
{
    let mut fields = no_fields();
    add_field(&mut fields, "ok", Json::Bool(true));
    add_field(&mut fields, "code", text_value(code));
    add_field(&mut fields, "message", text_value(message));
    assert(json::field_views(fields@) =~= message_json(code@, message@)->Object_0);
    object(fields)
}

// ---- What holds of rows -----------------------------------------------------

/// The short id that a row shows is resolved to the id of its meeting, where no
/// other meeting's id begins with it. Only white space at its ends would be
/// lost.
pub proof fn law_shown_id_is_resolved(all: Seq<JsonView>, k: int)
    requires
        0 <= k < all.len(),
        all[k].text("id"@) matches Some(id) && id.len() > 0,
        text::trimmed(row_of(all[k]).id) == row_of(all[k]).id,
        forall|j: int|
            0 <= j < all.len() && j != k ==> (#[trigger] all[j].text("id"@) matches Some(
                other,
            ) ==> !text::begins_with(other, row_of(all[k]).id)),
    ensures
        meetings::resolved_id(row_of(all[k]).id, all) == Ok::<
            Seq<char>,
            meetings::IdErrorView,
        >(all[k].text("id"@)->0),
{
    let id = all[k].text("id"@)->0;
    let shown = row_of(all[k]).id;
    meetings::lemma_utf8_size(shown);
    assert(id.take(shown.len() as int) =~= shown);
    meetings::law_unique_start_is_resolved(shown, all, k);
}

/// A row shows the beginning of the id, at most eight characters of it, the day
/// of the creation up to the `T`, the title, and the origin.
pub proof fn law_row_shows_the_meeting(m: JsonView)
    ensures
        m.text("id"@) matches Some(id) ==> row_of(m).id == (if id.len() <= 8 {
            id
        } else {
            id.take(8)
        }),
        m.text("id"@) is None ==> row_of(m).id.len() == 0,
        m.text("title"@) matches Some(t) ==> row_of(m).title == t,
        m.text("title"@) is None ==> row_of(m).title == "(untitled)"@,
        m.text("_origin"@) matches Some(o) ==> row_of(m).origin == o,
        m.text("_origin"@) is None ==> row_of(m).origin == "owned"@,
        m.text("created_at"@) is None ==> row_of(m).date.len() == 0,
{
    reveal_strlit("");
    assert(text::first_index(""@, 'T') == 0);
}

/// The day of a row is what the creation says before its first `T`.
pub proof fn law_row_shows_the_day(m: JsonView, day: Seq<char>, time: Seq<char>)
    requires
        forall|k: int| 0 <= k < day.len() ==> #[trigger] day[k] != 'T',
        m.text("created_at"@) == Some(day) || m.text("created_at"@) == Some(
            day + seq!['T'] + time,
        ),
    ensures
        row_of(m).date == day,
{
    let s = m.text("created_at"@)->0;
    assert forall|k: int| 0 <= k < day.len() implies s[k] != 'T' by {
        assert(s[k] == day[k]);
    }
    text::lemma_first_index(s, 'T', day.len());
    assert(s.take(day.len() as int) =~= day);
}

/// A format has its name, markdown and text have a short one too, and no other
/// text names a format.
pub proof fn law_formats_have_names(s: Seq<char>)
    ensures
        format_named("json"@) == Some(Format::Json),
        format_named("yaml"@) == Some(Format::Yaml),
        format_named("table"@) == Some(Format::Table),
        format_named("markdown"@) == Some(Format::Markdown),
        format_named("md"@) == Some(Format::Markdown),
        format_named("text"@) == Some(Format::Text),
        format_named("txt"@) == Some(Format::Text),
        format_named(s) is Some ==> s == "json"@ || s == "yaml"@ || s == "table"@ || s
            == "markdown"@ || s == "md"@ || s == "text"@ || s == "txt"@,
{
    reveal_strlit("json");
    reveal_strlit("yaml");
    reveal_strlit("table");
    reveal_strlit("markdown");
    reveal_strlit("md");
    reveal_strlit("text");
    reveal_strlit("txt");
    assert("json"@[0] != "yaml"@[0]);
    assert("json"@.len() != "table"@.len());
    assert("json"@.len() != "markdown"@.len());
    assert("json"@.len() != "md"@.len());
    assert("json"@[0] != "text"@[0]);
    assert("json"@.len() != "txt"@.len());
    assert("yaml"@.len() != "table"@.len());
    assert("yaml"@.len() != "markdown"@.len());
    assert("yaml"@.len() != "md"@.len());
    assert("yaml"@[0] != "text"@[0]);
    assert("yaml"@.len() != "txt"@.len());
    assert("table"@.len() != "markdown"@.len());
    assert("table"@.len() != "md"@.len());
    assert("table"@.len() != "text"@.len());
    assert("table"@.len() != "txt"@.len());
    assert("markdown"@.len() != "md"@.len());
    assert("markdown"@.len() != "text"@.len());
    assert("markdown"@.len() != "txt"@.len());
    assert("md"@.len() != "text"@.len());
    assert("md"@.len() != "txt"@.len());
    assert("text"@.len() != "txt"@.len());
}

/// An error and a message are told with their code and their words; only a
/// message says that all is well.
pub proof fn law_outcomes_are_told(code: Seq<char>, message: Seq<char>)
    ensures
        error_json(code, message).get2("error"@, "code"@) == Some(JsonView::Text(code)),
        error_json(code, message).get2("error"@, "message"@) == Some(JsonView::Text(message)),
        error_json(code, message).get("ok"@) is None,
        message_json(code, message).get("ok"@) == Some(JsonView::Bool(true)),
        message_json(code, message).get("code"@) == Some(JsonView::Text(code)),
        message_json(code, message).get("message"@) == Some(JsonView::Text(message)),
        message_json(code, message).get("error"@) is None,
{
    reveal_strlit("ok");
    reveal_strlit("code");
    reveal_strlit("message");
    reveal_strlit("error");
    assert("ok"@.len() != "code"@.len());
    assert("ok"@.len() != "message"@.len());
    assert("ok"@.len() != "error"@.len());
    assert("code"@.len() != "message"@.len());
    assert("code"@.len() != "error"@.len());
    assert("message"@.len() != "error"@.len());
    let outer = error_json(code, message)->Object_0;
    let inner = outer[0].1->Object_0;
    json::law_first_field_counts(outer, "error"@, 0);
    json::law_first_field_counts(outer, "ok"@, 1);
    json::law_first_field_counts(inner, "code"@, 0);
    json::law_first_field_counts(inner, "message"@, 1);
    let fields = message_json(code, message)->Object_0;
    json::law_first_field_counts(fields, "ok"@, 0);
    json::law_first_field_counts(fields, "code"@, 1);
    json::law_first_field_counts(fields, "message"@, 2);
    json::law_first_field_counts(fields, "error"@, 3);
}

} // verus!
