//! The terminal's commands: what each prints, and how it ends.

use crate::api;
use crate::attribution::format_transcript_segment;
use crate::attribution;
use crate::auth;
use crate::codes;
use crate::json;
use crate::json::{array, Json, JsonView};
use crate::mcp;
use crate::mcp::{collect_texts, start_channel};
use crate::meetings;
use crate::meetings::{meeting_context_value, NotSegments};
use crate::merge;
use crate::notes;
use crate::output;
use crate::output::{error_value, meeting_rows, message_value, Format, Row, RowView};
use crate::query;
use crate::query::{QueryError, QueryErrorView};
use crate::text;
use crate::text::{join, prefixed, trim_start};
use vstd::prelude::*;

verus! {

/// How many meetings a list shows where no limit is given.
pub const DEFAULT_LIST_LIMIT: u32 = 20;

// ---- Outcomes ---------------------------------------------------------------

/// How a command for credentials ends.
#[derive(Debug, PartialEq, Eq)]
pub enum Outcome {
    /// All is well.
    Message { code: &'static str, message: String },
    /// Something is wrong that has a name.
    Problem { code: &'static str, message: String },
    /// Something is wrong that has no name of its own.
    Fault(String),
}

/// What an [`Outcome`] says.
pub enum OutcomeView {
    Message { code: Seq<char>, message: Seq<char> },
    Problem { code: Seq<char>, message: Seq<char> },
    Fault(Seq<char>),
}

impl View for Outcome {
    type V = OutcomeView;

    open spec fn view(&self) -> OutcomeView {
        match self {
            Outcome::Message { code, message } => OutcomeView::Message {
                code: code@,
                message: message@,
            },
            Outcome::Problem { code, message } => OutcomeView::Problem {
                code: code@,
                message: message@,
            },
            Outcome::Fault(s) => OutcomeView::Fault(s@),
        }
    }
}

/// What a command prints: a document or a line on its output, and an error with
/// which it ends.
#[derive(Debug, PartialEq, Eq)]
pub struct Shown {
    pub document: Option<Json>,
    pub line: Option<String>,
    pub error: Option<String>,
}

/// What a [`Shown`] says.
pub struct ShownView {
    pub document: Option<JsonView>,
    pub line: Option<Seq<char>>,
    pub error: Option<Seq<char>>,
}

impl View for Shown {
    type V = ShownView;

    open spec fn view(&self) -> ShownView {
        ShownView {
            document: json::seen(self.document),
            line: json::seen(self.line),
            error: json::seen(self.error),
        }
    }
}

/// What is printed of an outcome. Programs that ask for JSON find a document on
/// the output, whether the command succeeds or not.
pub open spec fn shown(o: OutcomeView, format: Format) -> ShownView {
    match o {
        OutcomeView::Message { code, message } => if format == Format::Json {
            ShownView {
                document: Some(output::message_json(code, message)),
                line: None,
                error: None,
            }
        } else {
            ShownView { document: None, line: Some(message), error: None }
        },
        OutcomeView::Problem { code, message } => ShownView {
            document: if format == Format::Json {
                Some(output::error_json(code, message))
            } else {
                None
            },
            line: None,
            error: Some(message),
        },
        OutcomeView::Fault(s) => ShownView {
            document: if format == Format::Json {
                Some(output::error_json(codes::FAILED@, s))
            } else {
                None
            },
            line: None,
            error: Some(s),
        },
    }
}

/// What is printed of an outcome.
pub fn show(outcome: Outcome, format: Format) -> (r: Shown)
    ensures
        r@ == shown(outcome@, format),
{
    match outcome {
        Outcome::Message { code, message } => if format == Format::Json {
            Shown {
                document: Some(message_value(code, message.as_str())),
                line: None,
                error: None,
            }
        } else {
            Shown { document: None, line: Some(message), error: None }
        },
        Outcome::Problem { code, message } => {
            let document = if format == Format::Json {
                Some(error_value(code, message.as_str()))
            } else {
                None
            };
            Shown { document, line: None, error: Some(message) }
        },
        Outcome::Fault(s) => {
            let document = if format == Format::Json {
                Some(error_value(codes::FAILED, s.as_str()))
            } else {
                None
            };
            Shown { document, line: None, error: Some(s) }
        },
    }
}

// ---- Login and status -------------------------------------------------------

/// Whether an error means that the service took the session for stale.
pub open spec fn is_stale(e: api::ErrorView) -> bool {
    api::is_unauthorized(e) || (e matches api::ErrorView::Auth(f) && f is RefreshRejected)
}

/// Whether an error means that the service took the session for stale.
pub fn is_stale_credentials_error(err: &api::Error) -> (r: bool)
    ensures
        r == is_stale(err@),
{
    match err {
        api::Error::Http { status, .. } => *status == 401,
        api::Error::Auth(auth::Error::RefreshRejected { .. }) => true,
        _ => false,
    }
}

/// How a login ends whose import failed. `moved` tells that the desktop app's
/// key has moved away, so that a refresh token was to be exchanged instead.
pub open spec fn import_outcome(e: auth::ErrorView, moved: bool) -> OutcomeView {
    if moved {
        match e {
            auth::ErrorView::RefreshRejected { .. } => OutcomeView::Problem {
                code: codes::BOOTSTRAP_REFRESH_REJECTED@,
                message:
                    "Granola rejected the leftover desktop refresh token. This install can no longer bootstrap CLI credentials from local desktop state."@,
            },
            auth::ErrorView::NoDesktopCredentials { .. } => OutcomeView::Problem {
                code: codes::NO_BOOTSTRAP_CREDENTIALS@,
                message:
                    "Granola moved its encryption key into app-only storage and no leftover plaintext refresh token is available for one-time CLI bootstrap."@,
            },
            other => OutcomeView::Fault(auth::error_chain(other)),
        }
    } else {
        match e {
            auth::ErrorView::NoDesktopCredentials { tried } => OutcomeView::Problem {
                code: codes::NO_DESKTOP_CREDENTIALS@,
                message: "could not find Granola credentials on disk. Looked in: "@ + text::joined(
                    tried,
                    ", "@,
                ) + ". Is the Granola desktop app installed and signed in?"@,
            },
            other => OutcomeView::Fault(auth::error_chain(other)),
        }
    }
}

/// How a command ends that tried credentials.
pub open spec fn trial_outcome(
    trial: Option<api::ErrorView>,
    well: Seq<char>,
    stale: Seq<char>,
) -> OutcomeView {
    match trial {
        None => OutcomeView::Message { code: codes::OK@, message: well },
        Some(e) => if is_stale(e) {
            OutcomeView::Problem { code: codes::STALE_CREDENTIALS@, message: stale }
        } else {
            OutcomeView::Fault(api::error_chain(e))
        },
    }
}

/// How a login ends: by the import, if it failed, else by the trial of the
/// credentials.
pub open spec fn login_outcome(
    failure: Option<auth::ErrorView>,
    moved: bool,
    trial: Option<api::ErrorView>,
) -> OutcomeView {
    match failure {
        Some(e) => import_outcome(e, moved),
        None => trial_outcome(
            trial,
            "Credentials imported and validated"@,
            "Imported credentials were rejected by Granola. This usually means Granola desktop's session is stale. Try re-importing with `granola auth login` after confirming Granola desktop is signed in."@,
        ),
    }
}

/// How the status of credentials ends, given whether the keychain holds any,
/// and what came of trying them.
pub open spec fn status_outcome(
    stored: Result<bool, auth::ErrorView>,
    trial: Option<api::ErrorView>,
) -> OutcomeView {
    match stored {
        Err(e) => OutcomeView::Fault(auth::error_chain(e)),
        Ok(false) => OutcomeView::Problem {
            code: codes::UNAUTHENTICATED@,
            message: "Not logged in. Run `granola auth login`."@,
        },
        Ok(true) => trial_outcome(
            trial,
            "Authenticated and validated"@,
            "Credentials in keychain were rejected. Run `granola auth login` to re-import."@,
        ),
    }
}

/// How a login ends whose import failed.
fn end_import(e: auth::Error, moved: bool) -> (r: Outcome)
    ensures
        r@ == import_outcome(e@, moved),
{
    if moved {
        match e {
            auth::Error::RefreshRejected { .. } => Outcome::Problem {
                code: codes::BOOTSTRAP_REFRESH_REJECTED,
                message:
                    "Granola rejected the leftover desktop refresh token. This install can no longer bootstrap CLI credentials from local desktop state.".to_owned(),
            },
            auth::Error::NoDesktopCredentials { .. } => Outcome::Problem {
                code: codes::NO_BOOTSTRAP_CREDENTIALS,
                message:
                    "Granola moved its encryption key into app-only storage and no leftover plaintext refresh token is available for one-time CLI bootstrap.".to_owned(),
            },
            other => Outcome::Fault(other.chain()),
        }
    } else {
        match e {
            auth::Error::NoDesktopCredentials { tried } => {
                let mut message = prefixed(
                    "could not find Granola credentials on disk. Looked in: ",
                    join(&tried, ", ").as_str(),
                );
                message.append(". Is the Granola desktop app installed and signed in?");
                Outcome::Problem { code: codes::NO_DESKTOP_CREDENTIALS, message }
            },
            other => Outcome::Fault(other.chain()),
        }
    }
}

/// How a command ends that tried credentials.
fn end_trial(trial: Option<api::Error>, well: &str, stale: &str) -> (r: Outcome)
    ensures
        r@ == trial_outcome(json::seen(trial), well@, stale@),
{
    match trial {
        None => Outcome::Message { code: codes::OK, message: well.to_owned() },
        Some(e) => if is_stale_credentials_error(&e) {
            Outcome::Problem { code: codes::STALE_CREDENTIALS, message: stale.to_owned() }
        } else {
            Outcome::Fault(e.chain())
        },
    }
}

/// How a login ends.
pub fn auth_login(failure: Option<auth::Error>, moved: bool, trial: Option<api::Error>) -> (r:
    Outcome)
    ensures
        r@ == login_outcome(json::seen(failure), moved, json::seen(trial)),
{
    match failure {
        Some(e) => end_import(e, moved),
        None => end_trial(
            trial,
            "Credentials imported and validated",
            "Imported credentials were rejected by Granola. This usually means Granola desktop's session is stale. Try re-importing with `granola auth login` after confirming Granola desktop is signed in.",
        ),
    }
}

/// How the status of credentials ends.
pub fn auth_status(stored: Result<bool, auth::Error>, trial: Option<api::Error>) -> (r: Outcome)
    ensures
        r@ == status_outcome(
            match stored {
                Ok(b) => Ok(b),
                Err(e) => Err(e@),
            },
            json::seen(trial),
        ),
{
    match stored {
        Err(e) => Outcome::Fault(e.chain()),
        Ok(false) => Outcome::Problem {
            code: codes::UNAUTHENTICATED,
            message: "Not logged in. Run `granola auth login`.".to_owned(),
        },
        Ok(true) => end_trial(
            trial,
            "Authenticated and validated",
            "Credentials in keychain were rejected. Run `granola auth login` to re-import.",
        ),
    }
}

/// How a logout ends.
pub fn auth_logout(failure: Option<auth::Error>) -> (r: Outcome)
    ensures
        r@ == (match json::seen(failure) {
            None => OutcomeView::Message { code: codes::OK@, message: "Logged out"@ },
            Some(e) => OutcomeView::Fault(auth::error_chain(e)),
        }),
{
    match failure {
        None => Outcome::Message { code: codes::OK, message: "Logged out".to_owned() },
        Some(e) => Outcome::Fault(e.chain()),
    }
}

// ---- Meetings ---------------------------------------------------------------

/// A meeting as a line of a list.
pub open spec fn list_line(m: JsonView) -> Seq<char> {
    "- "@ + m.text_or("created_at"@, ""@) + " · "@ + m.text_or("title"@, "(untitled)"@) + " ("@
        + m.text_or("id"@, ""@) + ")"@
}

/// Meetings as the lines of a list.
pub open spec fn list_lines(s: Seq<JsonView>) -> Seq<char>
    decreases s.len(),
{
    if s.len() == 0 {
        Seq::empty()
    } else {
        list_lines(s.drop_last()) + list_line(s.last()) + "\n"@
    }
}

/// Meetings as the lines of a list.
pub fn list_text(meetings: &Vec<Json>) -> (r: String)
    ensures
        r@ == list_lines(json::views(meetings@)),
{
    let mut out = String::new();
    let ghost all = json::views(meetings@);
    assert(out@ =~= list_lines(all.take(0)));
    let mut i: usize = 0;
    while i < meetings.len()
        invariant
            i <= meetings.len(),
            all == json::views(meetings@),
            out@ == list_lines(all.take(i as int)),
        decreases meetings.len() - i,
    {
        let m = &meetings[i];
        assert(all.take(i + 1).drop_last() =~= all.take(i as int));
        assert(all.take(i + 1).last() == m@);
        out.append("- ");
        out.append(m.text_or("created_at", ""));
        out.append(" · ");
        out.append(m.text_or("title", "(untitled)"));
        out.append(" (");
        out.append(m.text_or("id", ""));
        out.append(")");
        out.append("\n");
        assert(out@ =~= list_lines(all.take(i + 1)));
        i += 1;
    }
    assert(all.take(meetings.len() as int) =~= all);
    out
}

/// The notes of a meeting as markdown, without a title.
pub open spec fn notes_text(document: JsonView) -> Seq<char> {
    text::trim_front(notes::rendered(notes::notes_of(document), None))
}

/// The notes of a meeting as markdown, without a title.
pub fn notes_markdown(document: &Json) -> (r: String)
    ensures
        r@ == notes_text(document@),
{
    trim_start(notes::meeting_notes(document).render_markdown(None).as_str())
}

/// A segment as a line, with the channel's name alone.
pub open spec fn plain_line(seg: JsonView) -> Seq<char> {
    "["@ + seg.text_or("start_timestamp"@, ""@) + "] ("@ + seg.text_or("source"@, ""@) + ") "@
        + seg.text_or("text"@, ""@)
}

/// Segments as lines, each after a prefix.
pub open spec fn segment_lines(s: Seq<JsonView>, prefix: Seq<char>, attributed: bool) -> Seq<char>
    decreases s.len(),
{
    if s.len() == 0 {
        Seq::empty()
    } else {
        segment_lines(s.drop_last(), prefix, attributed) + prefix + (if attributed {
            attribution::segment_line(s.last())
        } else {
            plain_line(s.last())
        }) + "\n"@
    }
}

/// A segment as a line, with the channel's name alone.
fn plain_segment(seg: &Json) -> (r: String)
    ensures
        r@ == plain_line(seg@),
{
    let mut out: String = "[".to_owned();
    out.append(seg.text_or("start_timestamp", ""));
    out.append("] (");
    out.append(seg.text_or("source", ""));
    out.append(") ");
    out.append(seg.text_or("text", ""));
    out
}

/// A transcript as lines, each after a prefix, with the names of speakers if
/// they are asked for.
pub fn transcript_text(transcript: &Json, prefix: &str, attributed: bool) -> (r: String)
    ensures
        r@ == segment_lines(attribution::segments(transcript@), prefix@, attributed),
{
    let mut out = String::new();
    match transcript.as_array() {
        Some(segs) => {
            let ghost all = json::views(segs@);
            assert(out@ =~= segment_lines(all.take(0), prefix@, attributed));
            let mut i: usize = 0;
            while i < segs.len()
                invariant
                    i <= segs.len(),
                    all == json::views(segs@),
                    out@ == segment_lines(all.take(i as int), prefix@, attributed),
                decreases segs.len() - i,
            {
                assert(all.take(i + 1).drop_last() =~= all.take(i as int));
                assert(all.take(i + 1).last() == segs@[i as int]@);
                let line = if attributed {
                    format_transcript_segment(&segs[i])
                } else {
                    plain_segment(&segs[i])
                };
                out.append(prefix);
                out.append(line.as_str());
                out.append("\n");
                i += 1;
            }
            assert(all.take(segs.len() as int) =~= all);
        },
        None => {
            assert(out@ =~= segment_lines(Seq::empty(), prefix@, attributed));
        },
    }
    out
}

/// A meeting for export: its notes under its title, and its transcript if it is
/// asked for.
pub open spec fn exported(document: JsonView, transcript: Option<JsonView>) -> Seq<char> {
    let head = notes::rendered(
        notes::notes_of(document),
        Some(document.text_or("title"@, "(untitled)"@)),
    );
    match transcript {
        Some(t) => head + "\n## Transcript\n\n"@ + segment_lines(
            attribution::segments(t),
            "- "@,
            false,
        ),
        None => head,
    }
}

/// A meeting for export.
pub fn meeting_export(document: &Json, transcript: Option<&Json>) -> (r: String)
    ensures
        r@ == exported(document@, json::seen(transcript)),
{
    let mut out = notes::meeting_notes(document).render_markdown(
        Some(document.text_or("title", "(untitled)")),
    );
    match transcript {
        Some(t) => {
            out.append("\n## Transcript\n\n");
            out.append(transcript_text(t, "- ", false).as_str());
        },
        None => {},
    }
    out
}

/// A channel as a line: its name, how many segments it has, and who was heard in
/// it. Names that make no text are not told.
pub open spec fn channel_line(c: JsonView) -> Seq<char> {
    let names = text::joined(mcp::texts_in(c.get("detected_speaker_names"@)), ", "@);
    mcp::channel_start(c) + (if names.len() > 0 {
        "; detected speakers: "@ + names
    } else {
        Seq::empty()
    })
}

/// Channels as lines.
pub open spec fn channel_lines(s: Seq<JsonView>) -> Seq<char>
    decreases s.len(),
{
    if s.len() == 0 {
        Seq::empty()
    } else {
        channel_lines(s.drop_last()) + channel_line(s.last()) + "\n"@
    }
}

/// A channel as a line.
fn print_channel(channel: &Json) -> (r: String)
    ensures
        r@ == channel_line(channel@),
{
    let names = join(&collect_texts(channel.get("detected_speaker_names")), ", ");
    let mut out = start_channel(channel);
    if !names.as_str().is_empty() {
        out.append("; detected speakers: ");
        out.append(names.as_str());
    }
    assert(out@ =~= channel_line(channel@));
    out
}

/// A context for the terminal.
pub open spec fn context_summary(c: JsonView) -> Seq<char> {
    let id = mcp::text_else(json::text_in(c.get2("document"@, "id"@)), ""@);
    "Meeting: "@ + mcp::text_else(
        json::text_in(c.get2("document"@, "title"@)),
        "(untitled)"@,
    ) + "\n"@ + (if id.len() > 0 {
        "Document ID: "@ + id + "\n"@
    } else {
        Seq::empty()
    }) + "Transcript channels:\n"@ + channel_lines(
        merge::items_or_none(json::items_in(c.get2("attribution"@, "channels"@))),
    )
        + "Raw data: `granola meeting view <id> --output json` and `granola meeting transcript <id> --output json`.\n"@
}

/// A context for the terminal.
pub fn print_context_summary(context: &Json) -> (r: String)
    ensures
        r@ == context_summary(context@),
{
    let mut out: String = "Meeting: ".to_owned();
    match json::opt_str(context.get2("document", "title")) {
        Some(title) => {
            out.append(title);
        },
        None => {
            out.append("(untitled)");
        },
    }
    out.append("\n");
    match json::opt_str(context.get2("document", "id")) {
        Some(id) => {
            if !id.is_empty() {
                out.append("Document ID: ");
                out.append(id);
                out.append("\n");
            }
        },
        None => {
            proof {
                reveal_strlit("");
            }
        },
    }
    out.append("Transcript channels:\n");
    let ghost head = out@;
    match json::opt_array(context.get2("attribution", "channels")) {
        Some(channels) => {
            let ghost all = json::views(channels@);
            assert(head =~= head + channel_lines(all.take(0)));
            let mut i: usize = 0;
            while i < channels.len()
                invariant
                    i <= channels.len(),
                    all == json::views(channels@),
                    out@ == head + channel_lines(all.take(i as int)),
                decreases channels.len() - i,
            {
                assert(all.take(i + 1).drop_last() =~= all.take(i as int));
                assert(all.take(i + 1).last() == channels@[i as int]@);
                out.append(print_channel(&channels[i]).as_str());
                out.append("\n");
                assert(out@ =~= head + channel_lines(all.take(i + 1)));
                i += 1;
            }
            assert(all.take(channels.len() as int) =~= all);
        },
        None => {
            assert(head =~= head + channel_lines(Seq::empty()));
        },
    }
    out.append(
        "Raw data: `granola meeting view <id> --output json` and `granola meeting transcript <id> --output json`.\n",
    );
    assert(out@ =~= context_summary(context@));
    out
}

// ---- Commands for meetings --------------------------------------------------

/// Why a command for meetings brought nothing.
#[derive(Debug, PartialEq, Eq)]
pub enum Failure {
    /// A bound of the query gives no moment.
    Query(QueryError),
    /// The service brought nothing.
    Service(api::Error),
    /// The transcript is no array of segments.
    Segments(NotSegments),
}

/// What a [`Failure`] says.
pub enum FailureView {
    Query(QueryErrorView),
    Service(api::ErrorView),
    Segments,
}

impl View for Failure {
    type V = FailureView;

    open spec fn view(&self) -> FailureView {
        match self {
            Failure::Query(e) => FailureView::Query(e@),
            Failure::Service(e) => FailureView::Service(e@),
            Failure::Segments(_) => FailureView::Segments,
        }
    }
}

/// What is said of a failure.
pub open spec fn failure_words(f: FailureView) -> Seq<char> {
    match f {
        FailureView::Query(e) => query::query_message(e),
        FailureView::Service(e) => api::error_chain(e),
        FailureView::Segments =>
            "Granola returned a transcript payload that is not a segment array"@,
    }
}

impl Failure {
    /// How a command ends that failed.
    pub fn outcome(&self) -> (r: Outcome)
        ensures
            r@ == OutcomeView::Fault(failure_words(self@)),
    {
        Outcome::Fault(
            match self {
                Failure::Query(e) => e.message(),
                Failure::Service(e) => e.chain(),
                Failure::Segments(e) => e.message(),
            },
        )
    }
}

/// What a command for meetings prints: a document, the rows of a table, or a
/// text; and an error with which it ends.
#[derive(Debug, PartialEq, Eq)]
pub struct Printed {
    pub document: Option<Json>,
    pub rows: Option<Vec<Row>>,
    pub text: Option<String>,
    pub error: Option<String>,
}

/// What a [`Printed`] says.
pub struct PrintedView {
    pub document: Option<JsonView>,
    pub rows: Option<Seq<RowView>>,
    pub text: Option<Seq<char>>,
    pub error: Option<Seq<char>>,
}

impl View for Printed {
    type V = PrintedView;

    open spec fn view(&self) -> PrintedView {
        PrintedView {
            document: json::seen(self.document),
            rows: match self.rows {
                Some(v) => Some(output::row_views(v@)),
                None => None,
            },
            text: json::seen(self.text),
            error: json::seen(self.error),
        }
    }
}

/// What is printed of a document alone.
pub open spec fn document_printed(document: JsonView) -> PrintedView {
    PrintedView { document: Some(document), rows: None, text: None, error: None }
}

/// What is printed of a text alone.
pub open spec fn text_printed(s: Seq<char>) -> PrintedView {
    PrintedView { document: None, rows: None, text: Some(s), error: None }
}

/// What is printed of a failure: of all formats, JSON alone has a document for
/// it.
pub open spec fn failure_printed(f: FailureView, format: Format) -> PrintedView {
    let s = shown(OutcomeView::Fault(failure_words(f)), format);
    PrintedView { document: s.document, rows: None, text: s.line, error: s.error }
}

/// Whether a format is one of documents.
pub open spec fn of_documents(format: Format) -> bool {
    format == Format::Json || format == Format::Yaml
}

/// What a list prints.
pub open spec fn list_printed(
    found: Result<Seq<JsonView>, FailureView>,
    format: Format,
) -> PrintedView {
    match found {
        Err(f) => failure_printed(f, format),
        Ok(s) => if of_documents(format) {
            document_printed(JsonView::Array(s))
        } else if format == Format::Table {
            PrintedView {
                document: None,
                rows: Some(Seq::new(s.len(), |i: int| output::row_of(s[i]))),
                text: None,
                error: None,
            }
        } else {
            text_printed(list_lines(s))
        },
    }
}

/// What a view prints: the whole document, in every format.
pub open spec fn view_printed(
    found: Result<JsonView, FailureView>,
    format: Format,
) -> PrintedView {
    match found {
        Err(f) => failure_printed(f, format),
        Ok(d) => document_printed(d),
    }
}

/// What the notes of a meeting print.
pub open spec fn notes_printed(
    found: Result<JsonView, FailureView>,
    format: Format,
) -> PrintedView {
    match found {
        Err(f) => failure_printed(f, format),
        Ok(d) => if of_documents(format) {
            document_printed(notes::notes_json(notes::notes_of(d)))
        } else {
            text_printed(notes_text(d) + "\n"@)
        },
    }
}

/// What a transcript prints.
pub open spec fn transcript_printed(
    found: Result<JsonView, FailureView>,
    attributed: bool,
    format: Format,
) -> PrintedView {
    match found {
        Err(f) => failure_printed(f, format),
        Ok(t) => if of_documents(format) {
            document_printed(t)
        } else {
            text_printed(segment_lines(attribution::segments(t), ""@, attributed))
        },
    }
}

/// What the context of a meeting prints, given its document and transcript.
pub open spec fn context_printed(
    found: Result<(JsonView, JsonView), FailureView>,
    format: Format,
) -> PrintedView {
    match found {
        Err(f) => failure_printed(f, format),
        Ok((d, t)) => match t.as_items() {
            None => failure_printed(FailureView::Segments, format),
            Some(segs) => {
                let c = meetings::context(d, t, segs.len() as u64);
                if of_documents(format) {
                    document_printed(c)
                } else {
                    text_printed(context_summary(c))
                }
            },
        },
    }
}

/// What a result with a document says.
pub open spec fn found_view(r: Result<Json, Failure>) -> Result<JsonView, FailureView> {
    match r {
        Ok(j) => Ok(j@),
        Err(f) => Err(f@),
    }
}

/// What is printed of a failure.
fn print_failure(f: Failure, format: Format) -> (r: Printed)
    ensures
        r@ == failure_printed(f@, format),
{
    let s = show(f.outcome(), format);
    Printed { document: s.document, rows: None, text: s.line, error: s.error }
}

/// What is printed of a document alone.
fn print_document(document: Json) -> (r: Printed)
    ensures
        r@ == document_printed(document@),
{
    Printed { document: Some(document), rows: None, text: None, error: None }
}

/// What is printed of a text alone.
fn print_text(s: String) -> (r: Printed)
    ensures
        r@ == text_printed(s@),
{
    Printed { document: None, rows: None, text: Some(s), error: None }
}

/// What a list prints: a document, a table or lines; and where the meetings
/// could not be listed, an error.
pub fn meeting_list(found: Result<Vec<Json>, Failure>, format: Format) -> (r: Printed)
    ensures
        r@ == list_printed(
            match found {
                Ok(v) => Ok(json::views(v@)),
                Err(f) => Err(f@),
            },
            format,
        ),
{
    match found {
        Err(f) => print_failure(f, format),
        Ok(meetings) => match format {
            Format::Json | Format::Yaml => print_document(array(meetings)),
            Format::Table => {
                let rows = meeting_rows(&meetings);
                let r = Printed { document: None, rows: Some(rows), text: None, error: None };
                assert(output::row_views(rows@) =~= Seq::new(
                    json::views(meetings@).len(),
                    |i: int| output::row_of(json::views(meetings@)[i]),
                ));
                r
            },
            Format::Markdown | Format::Text => print_text(list_text(&meetings)),
        },
    }
}

/// What a view prints.
pub fn meeting_view(found: Result<Json, Failure>, format: Format) -> (r: Printed)
    ensures
        r@ == view_printed(found_view(found), format),
{
    match found {
        Err(f) => print_failure(f, format),
        Ok(document) => print_document(document),
    }
}

/// What the notes of a meeting print.
pub fn meeting_notes(found: Result<Json, Failure>, format: Format) -> (r: Printed)
    ensures
        r@ == notes_printed(found_view(found), format),
{
    match found {
        Err(f) => print_failure(f, format),
        Ok(document) => match format {
            Format::Json | Format::Yaml => print_document(notes::meeting_notes(&document).to_json()),
            _ => {
                let mut out = notes_markdown(&document);
                out.append("\n");
                print_text(out)
            },
        },
    }
}

/// What a transcript prints, with the names of speakers if they are asked for.
pub fn meeting_transcript(found: Result<Json, Failure>, attributed: bool, format: Format) -> (r:
    Printed)
    ensures
        r@ == transcript_printed(found_view(found), attributed, format),
{
    match found {
        Err(f) => print_failure(f, format),
        Ok(transcript) => match format {
            Format::Json | Format::Yaml => print_document(transcript),
            _ => print_text(transcript_text(&transcript, "", attributed)),
        },
    }
}

/// What the context of a meeting prints.
pub fn meeting_context(found: Result<(Json, Json), Failure>, format: Format) -> (r: Printed)
    ensures
        r@ == context_printed(
            match found {
                Ok(p) => Ok((p.0@, p.1@)),
                Err(f) => Err(f@),
            },
            format,
        ),
{
    match found {
        Err(f) => print_failure(f, format),
        Ok((document, transcript)) => match meeting_context_value(&document, &transcript) {
            Err(e) => print_failure(Failure::Segments(e), format),
            Ok(c) => match format {
                Format::Json | Format::Yaml => print_document(c),
                _ => print_text(print_context_summary(&c)),
            },
        },
    }
}

// ---- What holds of commands -------------------------------------------------

/// Programs that ask for JSON find a document on the output and nothing else,
/// however a command ends, and a command ends with an error exactly if it did
/// not succeed.
pub proof fn law_json_is_always_a_document(o: OutcomeView, format: Format)
    ensures
        format == Format::Json ==> shown(o, format).document is Some && shown(o, format).line is None,
        shown(o, format).error is None <==> o is Message,
{
}

/// A command for meetings that fails prints one error document where JSON was
/// asked for, and nothing else; and it ends with an error.
pub proof fn law_failure_is_a_document(f: FailureView)
    ensures
        failure_printed(f, Format::Json) == (PrintedView {
            document: Some(output::error_json(codes::FAILED@, failure_words(f))),
            rows: None,
            text: None,
            error: Some(failure_words(f)),
        }),
        list_printed(Err(f), Format::Json) == failure_printed(f, Format::Json),
        view_printed(Err(f), Format::Json) == failure_printed(f, Format::Json),
        notes_printed(Err(f), Format::Json) == failure_printed(f, Format::Json),
        forall|attributed: bool|
            #[trigger] transcript_printed(Err(f), attributed, Format::Json) == failure_printed(
                f,
                Format::Json,
            ),
        context_printed(Err(f), Format::Json) == failure_printed(f, Format::Json),
{
}

/// Where JSON is asked for, a command for meetings prints one document and
/// nothing else, whether it succeeds or not.
pub proof fn law_meetings_as_json_are_one_document(
    list: Result<Seq<JsonView>, FailureView>,
    one: Result<JsonView, FailureView>,
    two: Result<(JsonView, JsonView), FailureView>,
    attributed: bool,
)
    ensures
        is_one_document(list_printed(list, Format::Json)),
        is_one_document(view_printed(one, Format::Json)),
        is_one_document(notes_printed(one, Format::Json)),
        is_one_document(transcript_printed(one, attributed, Format::Json)),
        is_one_document(context_printed(two, Format::Json)),
        list_printed(list, Format::Json).error is Some <==> list is Err,
{
}

/// Whether a document is printed, and nothing else.
pub open spec fn is_one_document(p: PrintedView) -> bool {
    p.document is Some && p.rows is None && p.text is None
}

/// A login succeeds exactly if the import did and the service took the
/// credentials: it never succeeds on credentials that were not tried.
pub proof fn law_login_success_is_validated(
    failure: Option<auth::ErrorView>,
    moved: bool,
    trial: Option<api::ErrorView>,
)
    ensures
        login_outcome(failure, moved, trial) is Message <==> failure is None && trial is None,
        forall|stored: Result<bool, auth::ErrorView>|
            #[trigger] status_outcome(stored, trial) is Message <==> stored == Ok::<
                bool,
                auth::ErrorView,
            >(true) && trial is None,
{
}

/// An outcome is shown as a document where one is asked for, and else as a line;
/// what is wrong goes to the errors besides, whatever the format.
pub proof fn law_outcomes_are_shown(code: Seq<char>, s: Seq<char>, format: Format)
    ensures
        shown(OutcomeView::Message { code, message: s }, Format::Json).document == Some(
            output::message_json(code, s),
        ),
        format != Format::Json ==> shown(OutcomeView::Message { code, message: s }, format).line
            == Some(s) && shown(OutcomeView::Message { code, message: s }, format).document is None,
        shown(OutcomeView::Problem { code, message: s }, format).error == Some(s),
        shown(OutcomeView::Problem { code, message: s }, Format::Json).document == Some(
            output::error_json(code, s),
        ),
        shown(OutcomeView::Fault(s), format).error == Some(s),
        shown(OutcomeView::Fault(s), Format::Json).document == Some(
            output::error_json("failed"@, s),
        ),
        format != Format::Json ==> shown(OutcomeView::Fault(s), format).document is None && shown(
            OutcomeView::Problem { code, message: s },
            format,
        ).document is None,
{
}

/// A login that finds no files, or that is left with nothing once the key has
/// moved away, says so by a code; any other failed import says all that it
/// knows.
pub proof fn law_failed_logins_tell_apart(
    tried: Seq<Seq<char>>,
    status: u16,
    e: auth::ErrorView,
    trial: Option<api::ErrorView>,
)
    ensures
        login_outcome(
            Some(auth::ErrorView::NoDesktopCredentials { tried }),
            false,
            trial,
        ) matches OutcomeView::Problem { code, message } && code == "no_desktop_credentials"@
            && text::holds(message, text::joined(tried, ", "@)),
        login_outcome(
            Some(auth::ErrorView::NoDesktopCredentials { tried }),
            true,
            trial,
        ) matches OutcomeView::Problem { code, .. } && code == "no_bootstrap_credentials"@,
        login_outcome(
            Some(auth::ErrorView::RefreshRejected { status }),
            true,
            trial,
        ) matches OutcomeView::Problem { code, .. } && code == "bootstrap_refresh_rejected"@,
        login_outcome(Some(auth::ErrorView::RefreshRejected { status }), false, trial)
            == OutcomeView::Fault(auth::error_chain(auth::ErrorView::RefreshRejected { status })),
        forall|moved: bool|
            !(e is NoDesktopCredentials) && !(e is RefreshRejected) ==> #[trigger] login_outcome(
                Some(e),
                moved,
                trial,
            ) == OutcomeView::Fault(auth::error_chain(e)),
{
    let list = text::joined(tried, ", "@);
    let message = "could not find Granola credentials on disk. Looked in: "@ + list
        + ". Is the Granola desktop app installed and signed in?"@;
    text::law_parts_are_held(message, list);
}

/// Credentials are well where a trial of them succeeds. Where the service, or the
/// one that renews them, rejects them, they are stale; any other failure of the
/// trial is told in full.
pub proof fn law_trials_decide(e: api::ErrorView, f: auth::ErrorView)
    ensures
        login_outcome(None, false, None) matches OutcomeView::Message { code, .. } && code
            == "ok"@,
        status_outcome(Ok(true), None) matches OutcomeView::Message { code, .. } && code == "ok"@,
        status_outcome(Ok(false), None) matches OutcomeView::Problem { code, .. } && code
            == "unauthenticated"@,
        status_outcome(Err(f), None) == OutcomeView::Fault(auth::error_chain(f)),
        ({
            let stale = (e matches api::ErrorView::Http { status, .. } && status == 401) || (
            e matches api::ErrorView::Auth(g) && g is RefreshRejected);
            &&& stale ==> (login_outcome(None, false, Some(e)) matches OutcomeView::Problem {
                code,
                ..
            } && code == "stale_credentials"@) && (status_outcome(
                Ok(true),
                Some(e),
            ) matches OutcomeView::Problem { code, .. } && code == "stale_credentials"@)
            &&& !stale ==> login_outcome(None, false, Some(e)) == OutcomeView::Fault(
                api::error_chain(e),
            ) && status_outcome(Ok(true), Some(e)) == OutcomeView::Fault(api::error_chain(e))
            &&& is_stale(e) == stale
        }),
{
}

/// A list of meetings has a line for each, in their order, with its creation, its
/// title and its id.
pub proof fn law_list_goes_line_by_line(
    s: Seq<JsonView>,
    m: JsonView,
    created: Seq<char>,
    title: Seq<char>,
    id: Seq<char>,
)
    requires
        m.text_or("created_at"@, ""@) == created,
        m.text_or("title"@, "(untitled)"@) == title,
        m.text_or("id"@, ""@) == id,
    ensures
        list_lines(s.push(m)) == list_lines(s) + ("- "@ + created + " · "@ + title + " ("@ + id
            + ")"@) + "\n"@,
        list_lines(Seq::empty()).len() == 0,
        forall|v: JsonView|
            (#[trigger] v.text("title"@)) is None ==> list_line(v) == "- "@ + v.text_or(
                "created_at"@,
                ""@,
            ) + " · (untitled) ("@ + v.text_or("id"@, ""@) + ")"@,
{
    assert(s.push(m).drop_last() =~= s);
    reveal_strlit(" · ");
    reveal_strlit("(untitled)");
    reveal_strlit(" (");
    reveal_strlit(" · (untitled) (");
    assert forall|v: JsonView| (#[trigger] v.text("title"@)) is None implies list_line(v) == "- "@
        + v.text_or("created_at"@, ""@) + " · (untitled) ("@ + v.text_or("id"@, ""@) + ")"@ by {
        assert(list_line(v) =~= "- "@ + v.text_or("created_at"@, ""@) + " · (untitled) ("@
            + v.text_or("id"@, ""@) + ")"@);
    }
}

/// A transcript has a line for each segment, in their order, with its time, its
/// source and its words, and with its speaker where that is asked for.
pub proof fn law_transcript_goes_line_by_line(
    s: Seq<JsonView>,
    seg: JsonView,
    prefix: Seq<char>,
    time: Seq<char>,
    source: Seq<char>,
    words: Seq<char>,
)
    requires
        seg.text_or("start_timestamp"@, ""@) == time,
        seg.text_or("source"@, ""@) == source,
        seg.text_or("text"@, ""@) == words,
    ensures
        segment_lines(s.push(seg), prefix, false) == segment_lines(s, prefix, false) + prefix + (
        "["@ + time + "] ("@ + source + ") "@ + words) + "\n"@,
        segment_lines(s.push(seg), prefix, true) == segment_lines(s, prefix, true) + prefix
            + attribution::segment_line(seg) + "\n"@,
        segment_lines(Seq::empty(), prefix, false).len() == 0,
        segment_lines(Seq::empty(), prefix, true).len() == 0,
{
    assert(s.push(seg).drop_last() =~= s);
}

/// An export is the notes under the title, and then the transcript, if it was
/// asked for, as a list.
pub proof fn law_export_is_notes_and_transcript(
    document: JsonView,
    title: Seq<char>,
    segs: Seq<JsonView>,
)
    requires
        document.text("title"@) == Some(title),
    ensures
        exported(document, None) == notes::rendered(notes::notes_of(document), Some(title)),
        exported(document, Some(JsonView::Array(segs))) == exported(document, None)
            + "\n## Transcript\n\n"@ + segment_lines(segs, "- "@, false),
{
}

/// The notes of a meeting are printed without a title and without blanks before
/// them.
pub proof fn law_printed_notes_have_no_title(document: JsonView)
    ensures
        notes_text(document) == text::trim_front(
            notes::rendered(notes::notes_of(document), None),
        ),
{
}

/// A channel is printed with its source, its number of segments and its speakers,
/// and a context with the title, the id and the channels.
pub proof fn law_context_is_printed(
    c: JsonView,
    title: Seq<char>,
    id: Seq<char>,
    channels: Seq<JsonView>,
)
    requires
        c.get2("document"@, "title"@) == Some(JsonView::Text(title)),
        c.get2("document"@, "id"@) == Some(JsonView::Text(id)),
        id.len() > 0,
        c.get2("attribution"@, "channels"@) == Some(JsonView::Array(channels)),
    ensures
        text::begins_with(
            context_summary(c),
            "Meeting: "@ + title + "\n"@ + ("Document ID: "@ + id + "\n"@)
                + "Transcript channels:\n"@ + channel_lines(channels),
        ),
        forall|x: JsonView|
            #[trigger] channel_lines(channels.push(x)) == channel_lines(channels) + channel_line(x)
                + "\n"@,
        channel_lines(Seq::empty()).len() == 0,
{
    let p = "Meeting: "@ + title + "\n"@ + ("Document ID: "@ + id + "\n"@)
        + "Transcript channels:\n"@ + channel_lines(channels);
    assert(context_summary(c).subrange(0, p.len() as int) =~= p);
    assert forall|x: JsonView|
        #[trigger] channel_lines(channels.push(x)) == channel_lines(channels) + channel_line(x)
            + "\n"@ by {
        assert(channels.push(x).drop_last() =~= channels);
    }
}

/// A channel's line tells who was detected in it, where someone was.
pub proof fn law_channel_line_names_the_speakers(
    c: JsonView,
    source: Seq<char>,
    n: u64,
    name: Seq<char>,
)
    requires
        c.text("source"@) == Some(source),
        c.get("segment_count"@) == Some(JsonView::Number(json::NumberView::Unsigned(n))),
    ensures
        c.get("detected_speaker_names"@) is None ==> channel_line(c) == "- "@ + source + ": "@
            + text::decimal(n as nat) + " segments"@,
        c.get("detected_speaker_names"@) == Some(
            JsonView::Array(seq![JsonView::Text(name)]),
        ) && name.len() > 0 ==> channel_line(c) == "- "@ + source + ": "@ + text::decimal(n as nat)
            + " segments"@ + ("; detected speakers: "@ + name),
{
    mcp::law_texts_are_taken(Seq::empty(), JsonView::Text(name));
    assert(Seq::<JsonView>::empty().push(JsonView::Text(name)) =~= seq![JsonView::Text(name)]);
    assert(mcp::texts_of(seq![JsonView::Text(name)]) =~= seq![name]);
    assert(text::joined(seq![name], ", "@) == name);
    if c.get("detected_speaker_names"@) is None {
        assert(mcp::texts_in(None) =~= Seq::empty());
        assert(channel_line(c) =~= "- "@ + source + ": "@ + text::decimal(n as nat)
            + " segments"@);
    }
}

/// What a command found is printed by its format: JSON and YAML are the document
/// itself; a list is a table or lines, and all else is text.
pub proof fn law_formats_decide(
    s: Seq<JsonView>,
    d: JsonView,
    segs: Seq<JsonView>,
    attributed: bool,
    format: Format,
    i: int,
)
    ensures
        format == Format::Json || format == Format::Yaml ==> {
            &&& list_printed(Ok(s), format).document == Some(JsonView::Array(s))
            &&& notes_printed(Ok(d), format).document == Some(
                notes::notes_json(notes::notes_of(d)),
            )
            &&& transcript_printed(Ok(d), attributed, format).document == Some(d)
            &&& context_printed(Ok((d, JsonView::Array(segs))), format).document == Some(
                meetings::context(d, JsonView::Array(segs), segs.len() as u64),
            )
        },
        view_printed(Ok(d), format).document == Some(d),
        list_printed(Ok(s), Format::Table).rows matches Some(rows) && rows.len() == s.len() && (0
            <= i < s.len() ==> rows[i] == output::row_of(s[i])),
        format == Format::Markdown || format == Format::Text ==> list_printed(Ok(s), format).text
            == Some(list_lines(s)),
        !(format == Format::Json || format == Format::Yaml) ==> {
            &&& notes_printed(Ok(d), format).text == Some(notes_text(d) + "\n"@)
            &&& transcript_printed(Ok(JsonView::Array(segs)), attributed, format).text == Some(
                segment_lines(segs, ""@, attributed),
            )
            &&& context_printed(Ok((d, JsonView::Array(segs))), format).text == Some(
                context_summary(
                    meetings::context(d, JsonView::Array(segs), segs.len() as u64),
                ),
            )
        },
{
}

/// A failure is told in its own words, on every command and in every format.
pub proof fn law_failures_are_printed(f: FailureView, format: Format, attributed: bool)
    ensures
        list_printed(Err(f), format).error == Some(failure_words(f)),
        view_printed(Err(f), format).error == Some(failure_words(f)),
        notes_printed(Err(f), format).error == Some(failure_words(f)),
        transcript_printed(Err(f), attributed, format).error == Some(failure_words(f)),
        context_printed(Err(f), format).error == Some(failure_words(f)),
        f matches FailureView::Query(e) ==> failure_words(f) == query::query_message(e),
        f matches FailureView::Service(e) ==> failure_words(f) == api::error_chain(e),
{
}

/// A list shows twenty meetings where no limit is given.
pub proof fn law_lists_show_twenty()
    ensures
        DEFAULT_LIST_LIMIT == 20,
{
}

/// A context without a title is printed as untitled, and one without an id
/// without it.
pub proof fn law_untitled_contexts_are_printed(c: JsonView, channels: Seq<JsonView>)
    requires
        c.get2("document"@, "title"@) is None,
        c.get2("document"@, "id"@) is None,
        c.get2("attribution"@, "channels"@) == Some(JsonView::Array(channels)),
    ensures
        text::begins_with(
            context_summary(c),
            "Meeting: (untitled)\nTranscript channels:\n"@ + channel_lines(channels),
        ),
{
    reveal_strlit("");
    reveal_strlit("\n");
    reveal_strlit("Meeting: ");
    reveal_strlit("(untitled)");
    reveal_strlit("Transcript channels:\n");
    reveal_strlit("Meeting: (untitled)\nTranscript channels:\n");
    let p = "Meeting: (untitled)\nTranscript channels:\n"@ + channel_lines(channels);
    assert(context_summary(c).subrange(0, p.len() as int) =~= p);
}

/// An export of a meeting without a title is headed as untitled.
pub proof fn law_untitled_exports_are_headed(document: JsonView)
    requires
        document.text("title"@) is None,
    ensures
        exported(document, None) == notes::rendered(
            notes::notes_of(document),
            Some("(untitled)"@),
        ),
{
}

/// A login without a failed import, and a status with credentials, are what the
/// trial says; otherwise the trial does not count.
pub proof fn law_trials_count_only_with_credentials(
    f: auth::ErrorView,
    moved: bool,
    a: Option<api::ErrorView>,
    b: Option<api::ErrorView>,
)
    ensures
        login_outcome(Some(f), moved, a) == login_outcome(Some(f), moved, b),
        login_outcome(None, moved, a) == login_outcome(None, !moved, a),
        status_outcome(Ok(false), a) == status_outcome(Ok(false), b),
        status_outcome(Err(f), a) == OutcomeView::Fault(auth::error_chain(f)),
{
}

/// What a context summary says: the title or that there is none, the id if there
/// is one, and each channel.
pub proof fn law_context_summary_says_what_is_there(c: JsonView)
    ensures
        ({
            let title = json::text_in(c.get2("document"@, "title"@));
            let id = json::text_in(c.get2("document"@, "id"@));
            let channels = json::items_in(c.get2("attribution"@, "channels"@));
            context_summary(c) == "Meeting: "@ + (match title {
                Some(s) => s,
                None => "(untitled)"@,
            }) + "\n"@ + (if id matches Some(s) && s.len() > 0 {
                "Document ID: "@ + id->0 + "\n"@
            } else {
                Seq::empty()
            }) + "Transcript channels:\n"@ + channel_lines(
                match channels {
                    Some(a) => a,
                    None => Seq::empty(),
                },
            )
                + "Raw data: `granola meeting view <id> --output json` and `granola meeting transcript <id> --output json`.\n"@
        }),
{
    reveal_strlit("");
}

} // verus!
