//! The notes of a meeting: those the user typed and those of the assistant.

use crate::json;
use crate::json::{add_field, no_fields, object, optional_text, str_of, Json, JsonView};
use crate::prosemirror;
use crate::prosemirror::{repeat_hash, to_markdown};
use crate::text;
use crate::text::{chars_of, join, split_lines, starts_with, string_of, trim, trim_start};
use vstd::prelude::*;

verus! {

/// The two independent kinds of notes of a meeting. `mine` is what the user
/// typed, `ai` is the generated summary; neither stands in for the other.
#[derive(Debug, PartialEq, Eq)]
pub struct MeetingNotes {
    pub ai: Option<String>,
    pub mine: Option<String>,
}

/// What [`MeetingNotes`] say.
#[verifier::ext_equal]
pub struct NotesView {
    pub ai: Option<Seq<char>>,
    pub mine: Option<Seq<char>>,
}

impl View for MeetingNotes {
    type V = NotesView;

    open spec fn view(&self) -> NotesView {
        NotesView { ai: json::seen(self.ai), mine: json::seen(self.mine) }
    }
}

// ---- Headings ---------------------------------------------------------------

/// How many number signs a text begins with.
pub open spec fn leading_hashes(s: Seq<char>) -> nat
    decreases s.len(),
{
    if s.len() > 0 && s[0] == '#' {
        1 + leading_hashes(s.drop_first())
    } else {
        0
    }
}

/// Whether a line opens or closes a fenced block of code.
pub open spec fn is_fence(line: Seq<char>) -> bool {
    let s = text::trim_front(line);
    text::begins_with(s, "```"@) || text::begins_with(s, "~~~"@)
}

/// Whether a line is a heading: one to six number signs, then a space.
pub open spec fn is_heading(line: Seq<char>) -> bool {
    let s = text::trim_front(line);
    let n = leading_hashes(s);
    1 <= n <= 6 && n < s.len() && s[n as int] == ' '
}

/// The level of a heading.
pub open spec fn level(line: Seq<char>) -> nat {
    leading_hashes(text::trim_front(line))
}

/// The white space that a line starts with.
pub open spec fn indent(line: Seq<char>) -> Seq<char> {
    line.take(line.len() - text::trim_front(line).len())
}

/// How many levels a heading goes down that is to go down some: not below the
/// sixth level.
pub open spec fn levels_down(line: Seq<char>, by: nat) -> nat {
    let room = (6 - level(line)) as nat;
    if by < room {
        by
    } else {
        room
    }
}

/// A line outside a fence, where a heading goes down some levels, but not
/// below the sixth. The number signs stand behind the indent.
pub open spec fn demoted_line(line: Seq<char>, by: nat) -> Seq<char> {
    if is_heading(line) {
        indent(line) + prosemirror::hashes(levels_down(line, by)) + text::trim_front(line)
    } else {
        line
    }
}

/// Lines with their headings demoted; the lines of a fence stay as they are.
pub open spec fn demoted_lines(lines: Seq<Seq<char>>, by: nat, in_fence: bool) -> Seq<Seq<char>>
    decreases lines.len(),
{
    if lines.len() == 0 {
        Seq::empty()
    } else if is_fence(lines[0]) {
        seq![lines[0]] + demoted_lines(lines.drop_first(), by, !in_fence)
    } else if in_fence {
        seq![lines[0]] + demoted_lines(lines.drop_first(), by, in_fence)
    } else {
        seq![demoted_line(lines[0], by)] + demoted_lines(lines.drop_first(), by, in_fence)
    }
}

/// Markdown with its headings demoted.
pub open spec fn demoted(s: Seq<char>, by: nat) -> Seq<char> {
    text::joined(demoted_lines(text::lines(s), by, false), "\n"@)
}

/// How many number signs a text begins with.
fn count_hashes(cs: &Vec<char>) -> (n: usize)
    ensures
        n == leading_hashes(cs@),
        n <= cs.len(),
{
    let mut i: usize = 0;
    assert(cs@.skip(0) =~= cs@);
    while i < cs.len() && cs[i] == '#'
        invariant
            i <= cs.len(),
            leading_hashes(cs@) == i + leading_hashes(cs@.skip(i as int)),
        decreases cs.len() - i,
    {
        assert(cs@.skip(i as int).drop_first() =~= cs@.skip(i + 1));
        i += 1;
    }
    i
}

/// A line outside a fence, with a heading demoted.
fn demote_line(line: &str, by: usize) -> (r: String)
    ensures
        r@ == demoted_line(line@, by as nat),
{
    let body = trim_start(line);
    let cs = chars_of(body.as_str());
    let n = count_hashes(&cs);
    if 1 <= n && n <= 6 && n < cs.len() && cs[n] == ' ' {
        let all = chars_of(line);
        proof {
            text::lemma_trim_front(line@);
        }
        let mut out = string_of(&all, 0, all.len() - cs.len());
        assert(out@ =~= indent(line@));
        let room: usize = 6 - n;
        out.append(repeat_hash(if by < room { by } else { room }).as_str());
        out.append(body.as_str());
        out
    } else {
        line.to_owned()
    }
}

/// Pushes the headings of a markdown text down some levels, so that it nests
/// under the heading that introduces it. The sixth level is the deepest, and
/// fenced code is left as it is.
pub fn demote_headings(markdown: &str, by: usize) -> (r: String)
    ensures
        r@ == demoted(markdown@, by as nat),
{
    let all = split_lines(markdown);
    let ghost lines = text::lines(markdown@);
    let ghost want = demoted_lines(lines, by as nat, false);
    let mut out: Vec<String> = Vec::new();
    let mut in_fence: bool = false;
    let mut i: usize = 0;
    assert(lines.skip(0) =~= lines);
    assert(text::text_views(out@) + want =~= want);
    while i < all.len()
        invariant
            i <= all.len(),
            lines == text::text_views(all@),
            want == text::text_views(out@) + demoted_lines(
                lines.skip(i as int),
                by as nat,
                in_fence,
            ),
        decreases all.len() - i,
    {
        let line = all[i].as_str();
        let ghost before = text::text_views(out@);
        let start = trim_start(line);
        proof {
            assert(lines.skip(i as int)[0] == line@);
            assert(lines.skip(i as int).drop_first() =~= lines.skip(i + 1));
        }
        let done = if starts_with(start.as_str(), "```") || starts_with(start.as_str(), "~~~") {
            in_fence = !in_fence;
            line.to_owned()
        } else if in_fence {
            line.to_owned()
        } else {
            demote_line(line, by)
        };
        out.push(done);
        proof {
            let rest = demoted_lines(lines.skip(i + 1), by as nat, in_fence);
            assert(text::text_views(out@) =~= before.push(done@));
            assert(before.push(done@) + rest =~= before + (seq![done@] + rest));
        }
        i += 1;
    }
    assert(text::text_views(out@) =~= want);
    join(&out, "\n")
}

// ---- Extraction -------------------------------------------------------------

/// A text without the white space at its ends, if anything is left of it.
pub open spec fn kept(s: Seq<char>) -> Option<Seq<char>> {
    let t = text::trimmed(s);
    if t.len() == 0 {
        None
    } else {
        Some(t)
    }
}

/// An optional text, kept if it is not blank.
pub open spec fn kept_in(o: Option<Seq<char>>) -> Option<Seq<char>> {
    match o {
        Some(s) => kept(s),
        None => None,
    }
}

/// An optional ProseMirror document as markdown, kept if it is not blank.
pub open spec fn document_notes(o: Option<JsonView>) -> Option<Seq<char>> {
    match o {
        Some(v) => kept(prosemirror::markdown(v)),
        None => None,
    }
}

/// The notes that the user typed: the document, else the flat markdown, else
/// the flat text.
pub open spec fn own_notes(document: JsonView) -> Option<Seq<char>> {
    json::first_of(
        document_notes(document.get("notes"@)),
        json::first_of(
            kept_in(document.text("notes_markdown"@)),
            kept_in(document.text("notes_plain"@)),
        ),
    )
}

/// Both kinds of notes of a meeting.
pub open spec fn notes_of(document: JsonView) -> NotesView {
    NotesView {
        ai: document_notes(document.get2("last_viewed_panel"@, "content"@)),
        mine: own_notes(document),
    }
}

/// A text without the white space at its ends, if anything is left of it.
fn non_empty(s: &str) -> (r: Option<String>)
    ensures
        json::seen(r) == kept(s@),
{
    let t = trim(s);
    if t.as_str().is_empty() {
        None
    } else {
        Some(t)
    }
}

/// An optional text, kept if it is not blank.
fn non_empty_in(o: Option<&str>) -> (r: Option<String>)
    ensures
        json::seen(r) == kept_in(json::seen(o)),
{
    match o {
        Some(s) => non_empty(s),
        None => None,
    }
}

/// An optional ProseMirror document as markdown, kept if it is not blank.
fn document_markdown(o: Option<&Json>) -> (r: Option<String>)
    ensures
        json::seen(r) == document_notes(json::seen(o)),
{
    match o {
        Some(v) => non_empty(to_markdown(v).as_str()),
        None => None,
    }
}

/// Both kinds of notes of a meeting, each as markdown.
pub fn meeting_notes(document: &Json) -> (r: MeetingNotes)
    ensures
        r@ == notes_of(document@),
{
    let ai = document_markdown(document.get2("last_viewed_panel", "content"));
    let mine = match document_markdown(document.get("notes")) {
        Some(s) => Some(s),
        None => match non_empty_in(document.text("notes_markdown")) {
            Some(s) => Some(s),
            None => non_empty_in(document.text("notes_plain")),
        },
    };
    MeetingNotes { ai, mine }
}

/// Whether the user typed notes of their own in a meeting.
pub fn has_own_notes(document: &Json) -> (r: bool)
    ensures
        r == (own_notes(document@) is Some),
{
    meeting_notes(document).mine.is_some()
}

// ---- Rendering --------------------------------------------------------------

/// A section of notes: its heading, and the notes nested under it.
pub open spec fn section(heading: Seq<char>, notes: Option<Seq<char>>) -> Seq<char> {
    match notes {
        Some(s) => heading + demoted(s, 2) + "\n"@,
        None => Seq::empty(),
    }
}

/// Notes as markdown: the title, then the user's own notes, then those of the
/// assistant; where there are none, a sentence that says so.
pub open spec fn rendered(notes: NotesView, title: Option<Seq<char>>) -> Seq<char> {
    let head = match title {
        Some(t) => "# "@ + t + "\n"@,
        None => Seq::empty(),
    };
    let body = section("\n## My notes\n\n"@, notes.mine) + section(
        "\n## AI-enhanced notes\n\n"@,
        notes.ai,
    );
    let none = if notes.ai is None && notes.mine is None {
        "\nThis meeting has no notes.\n"@
    } else {
        Seq::empty()
    };
    head + body + none
}

/// Notes as a JSON document. A kind that is absent is null.
pub open spec fn notes_json(notes: NotesView) -> JsonView {
    JsonView::Object(
        seq![
            ("my_notes"@, json::text_or_null(notes.mine)),
            ("ai_notes"@, json::text_or_null(notes.ai)),
        ],
    )
}

/// Adds a section of notes to a text.
fn push_section(out: &mut String, heading: &str, notes: &Option<String>)
    ensures
        final(out)@ == old(out)@ + section(heading@, json::seen(*notes)),
{
    match notes {
        Some(s) => {
            out.append(heading);
            out.append(demote_headings(s.as_str(), 2).as_str());
            out.append("\n");
            assert(out@ =~= old(out)@ + section(heading@, json::seen(*notes)));
        },
        None => {
            assert(out@ =~= old(out)@ + section(heading@, json::seen(*notes)));
        },
    }
}

impl MeetingNotes {
    /// Whether there are no notes of either kind.
    pub fn is_empty(&self) -> (r: bool)
        ensures
            r == (self@.ai is None && self@.mine is None),
    {
        self.ai.is_none() && self.mine.is_none()
    }

    /// Both kinds of notes as a JSON document.
    pub fn to_json(&self) -> (r: Json)
        ensures
            r@ == notes_json(self@),
    {
        let mut fields = no_fields();
        add_field(&mut fields, "my_notes", optional_text(str_of(&self.mine)));
        add_field(&mut fields, "ai_notes", optional_text(str_of(&self.ai)));
        assert(json::field_views(fields@) =~= notes_json(self@)->Object_0);
        object(fields)
    }

    /// Both kinds of notes as markdown, each under its own heading.
    pub fn render_markdown(&self, title: Option<&str>) -> (r: String)
        ensures
            r@ == rendered(self@, json::seen(title)),
    {
        let mut out = String::new();
        let ghost head = match json::seen(title) {
            Some(t) => "# "@ + t + "\n"@,
            None => Seq::empty(),
        };
        if let Some(t) = title {
            out.append("# ");
            out.append(t);
            out.append("\n");
        }
        assert(out@ =~= head);
        push_section(&mut out, "\n## My notes\n\n", &self.mine);
        push_section(&mut out, "\n## AI-enhanced notes\n\n", &self.ai);
        if self.is_empty() {
            out.append("\nThis meeting has no notes.\n");
        }
        assert(out@ =~= rendered(self@, json::seen(title)));
        out
    }
}

// ---- What holds of notes ----------------------------------------------------

/// The assistant's notes never hide the user's own: whatever the panel holds,
/// the user's notes are the same.
pub proof fn law_panel_does_not_hide_own_notes(
    fields: Seq<(Seq<char>, JsonView)>,
    panel: JsonView,
)
    ensures
        notes_of(JsonView::Object(json::put(fields, "last_viewed_panel"@, panel))).mine
            == notes_of(JsonView::Object(fields)).mine,
{
    reveal_strlit("last_viewed_panel");
    reveal_strlit("notes");
    reveal_strlit("notes_markdown");
    reveal_strlit("notes_plain");
    assert("last_viewed_panel"@[0] != "notes"@[0]);
    json::law_put_keeps_other_keys(fields, "last_viewed_panel"@, panel, "notes"@);
    assert("last_viewed_panel"@[0] != "notes_markdown"@[0]);
    json::law_put_keeps_other_keys(fields, "last_viewed_panel"@, panel, "notes_markdown"@);
    assert("last_viewed_panel"@[0] != "notes_plain"@[0]);
    json::law_put_keeps_other_keys(fields, "last_viewed_panel"@, panel, "notes_plain"@);
}

/// Blank notes count as no notes, and kept notes are never empty.
pub proof fn law_kept_notes_are_not_empty(document: JsonView)
    ensures
        notes_of(document).mine matches Some(s) ==> s.len() > 0,
        notes_of(document).ai matches Some(s) ==> s.len() > 0,
{
}

/// A heading outside a fence, however it is indented, goes down by the given
/// number of levels, but not below the sixth; its indent stays, and so does
/// what it says.
pub proof fn law_demoted_level(line: Seq<char>, by: nat)
    requires
        is_heading(line),
    ensures
        is_heading(demoted_line(line, by)),
        level(demoted_line(line, by)) == (if level(line) + by < 6 {
            level(line) + by
        } else {
            6
        }),
        indent(demoted_line(line, by)) == indent(line),
        text::trim_front(demoted_line(line, by)).skip(level(demoted_line(line, by)) as int)
            == text::trim_front(line).skip(level(line) as int),
{
    let body = text::trim_front(line);
    let extra = levels_down(line, by);
    let new = prosemirror::hashes(extra) + body;
    let out = demoted_line(line, by);
    text::lemma_trim_front(line);
    assert(!text::is_white('#'));
    assert(body[0] == '#');
    assert(new[0] == '#');
    assert(out =~= indent(line) + new);
    assert forall|k: int| 0 <= k < indent(line).len() implies text::is_white(
        #[trigger] indent(line)[k],
    ) by {
        assert(indent(line)[k] == line[k]);
    }
    text::lemma_trim_front_indented(indent(line), new);
    lemma_leading_hashes(extra, body);
    assert(new[(extra + level(line)) as int] == body[level(line) as int]);
    assert(indent(out) =~= indent(line));
    assert(new.skip((extra + level(line)) as int) =~= body.skip(level(line) as int));
}

/// A line that is demoted twice is demoted by the sum, and no line becomes a
/// fence.
proof fn lemma_line_demoted_twice(line: Seq<char>, a: nat, b: nat)
    requires
        !is_fence(line),
    ensures
        demoted_line(demoted_line(line, a), b) == demoted_line(line, a + b),
        !is_fence(demoted_line(line, a)),
{
    if is_heading(line) {
        let body = text::trim_front(line);
        let first = prosemirror::hashes(levels_down(line, a)) + body;
        let out = demoted_line(line, a);
        law_demoted_level(line, a);
        text::lemma_trim_front(line);
        text::lemma_trim_front(out);
        assert(text::trim_front(out) =~= first) by {
            assert(out =~= indent(line) + first);
            assert(out =~= indent(out) + text::trim_front(out));
        }
        assert(first[0] == '#');
        reveal_strlit("```");
        reveal_strlit("~~~");
        assert(!is_fence(out)) by {
            if text::begins_with(first, "```"@) {
                assert(first.subrange(0, 3)[0] == '`');
            }
            if text::begins_with(first, "~~~"@) {
                assert(first.subrange(0, 3)[0] == '~');
            }
        }
        assert(levels_down(line, a) + levels_down(out, b) == levels_down(line, a + b));
        assert(demoted_line(out, b) =~= demoted_line(line, a + b));
    }
}

/// Lines that are demoted twice are demoted by the sum.
proof fn lemma_lines_demoted_twice(lines: Seq<Seq<char>>, a: nat, b: nat, in_fence: bool)
    ensures
        demoted_lines(demoted_lines(lines, a, in_fence), b, in_fence) == demoted_lines(
            lines,
            a + b,
            in_fence,
        ),
    decreases lines.len(),
{
    let once = demoted_lines(lines, a, in_fence);
    if lines.len() == 0 {
        assert(demoted_lines(once, b, in_fence) =~= demoted_lines(lines, a + b, in_fence));
    } else {
        let next = if is_fence(lines[0]) {
            !in_fence
        } else {
            in_fence
        };
        lemma_lines_demoted_twice(lines.drop_first(), a, b, next);
        assert(once.drop_first() =~= demoted_lines(lines.drop_first(), a, next));
        if !is_fence(lines[0]) {
            lemma_line_demoted_twice(lines[0], a, b);
        }
    }
}

/// Demoting leaves unbroken lines unbroken, as many as they are, and none of
/// them empty that was not; by no level it leaves them as they are.
proof fn lemma_demoted_lines(lines: Seq<Seq<char>>, by: nat, in_fence: bool)
    requires
        forall|i: int| 0 <= i < lines.len() ==> text::unbroken(#[trigger] lines[i]),
    ensures
        demoted_lines(lines, by, in_fence).len() == lines.len(),
        forall|i: int|
            0 <= i < lines.len() ==> text::unbroken(
                #[trigger] demoted_lines(lines, by, in_fence)[i],
            ) && demoted_lines(lines, by, in_fence)[i].len() >= lines[i].len(),
        demoted_lines(lines, 0, in_fence) == lines,
    decreases lines.len(),
{
    let all = demoted_lines(lines, by, in_fence);
    if lines.len() > 0 {
        let rest = lines.drop_first();
        let next = if is_fence(lines[0]) {
            !in_fence
        } else {
            in_fence
        };
        assert forall|i: int| 0 <= i < rest.len() implies text::unbroken(#[trigger] rest[i]) by {
            assert(rest[i] == lines[i + 1]);
        }
        lemma_demoted_lines(rest, by, next);
        let line = lines[0];
        let body = text::trim_front(line);
        text::lemma_trim_front(line);
        assert(line =~= indent(line) + body);
        assert(demoted_line(line, 0) =~= line);
        let extra = prosemirror::hashes(levels_down(line, by));
        let out = demoted_line(line, by);
        assert forall|k: int| 0 <= k < out.len() implies #[trigger] out[k] != '\n' && out[k]
            != '\r' by {
            if is_heading(line) {
                let n = indent(line).len() as int;
                let m = extra.len() as int;
                if k < n {
                    assert(out[k] == line[k]);
                } else if k < n + m {
                    assert(out[k] == extra[k - n]);
                } else {
                    assert(out[k] == line[k - m]);
                }
            }
        }
        assert forall|i: int| 0 <= i < lines.len() implies text::unbroken(#[trigger] all[i])
            && all[i].len() >= lines[i].len() by {
            if i > 0 {
                assert(all[i] == demoted_lines(rest, by, next)[i - 1]);
                assert(lines[i] == rest[i - 1]);
            }
        }
        assert(demoted_lines(lines, 0, in_fence) =~= seq![line] + rest);
        assert(seq![line] + rest =~= lines);
    } else {
        assert(demoted_lines(lines, 0, in_fence) =~= lines);
    }
}

/// Demoting twice is demoting by the sum of the levels, and demoting by no
/// level changes nothing. The text has no carriage return and does not end with
/// a line feed: lines are told from each other by line feeds alone.
pub proof fn law_demoting_adds_up(s: Seq<char>, a: nat, b: nat)
    requires
        !s.contains('\r'),
        s.len() > 0 ==> s.last() != '\n',
    ensures
        demoted(demoted(s, a), b) == demoted(s, a + b),
        demoted(s, 0) == s,
{
    let lines = text::lines(s);
    let once = demoted_lines(lines, a, false);
    text::lemma_joined_lines(s);
    lemma_demoted_lines(lines, a, false);
    if lines.len() > 0 {
        assert(once.last() == once[lines.len() - 1]);
        assert(lines.last() == lines[lines.len() - 1]);
    }
    text::lemma_lines_of_joined(once);
    lemma_lines_demoted_twice(lines, a, b, false);
}

/// Number signs before a text add to those that it begins with.
proof fn lemma_leading_hashes(n: nat, s: Seq<char>)
    ensures
        leading_hashes(prosemirror::hashes(n) + s) == n + leading_hashes(s),
    decreases n,
{
    let all = prosemirror::hashes(n) + s;
    if n > 0 {
        lemma_leading_hashes((n - 1) as nat, s);
        assert(all.drop_first() =~= prosemirror::hashes((n - 1) as nat) + s);
    } else {
        assert(all =~= s);
    }
}

/// Demoting keeps the number of lines, and a line inside a fence or one that
/// is no heading stays as it is.
pub proof fn law_demoting_changes_headings_only(
    lines: Seq<Seq<char>>,
    by: nat,
    in_fence: bool,
    i: int,
)
    requires
        0 <= i < lines.len(),
    ensures
        demoted_lines(lines, by, in_fence).len() == lines.len(),
        !is_heading(lines[i]) || fenced(lines, in_fence, i) ==> demoted_lines(lines, by, in_fence)[i]
            == lines[i],
        is_heading(lines[i]) && !fenced(lines, in_fence, i) && !is_fence(lines[i])
            ==> demoted_lines(lines, by, in_fence)[i] == demoted_line(lines[i], by),
    decreases lines.len(),
{
    let next = if is_fence(lines[0]) {
        !in_fence
    } else {
        in_fence
    };
    if lines.len() > 1 {
        let j = if i > 0 {
            i - 1
        } else {
            0
        };
        law_demoting_changes_headings_only(lines.drop_first(), by, next, j);
    } else {
        assert(demoted_lines(lines.drop_first(), by, next) =~= Seq::empty());
    }
}

/// Whether a line stands inside a fence: an odd number of fences is open
/// before it.
pub open spec fn fenced(lines: Seq<Seq<char>>, in_fence: bool, i: int) -> bool
    decreases i,
{
    if i <= 0 {
        in_fence
    } else {
        fenced(
            lines.drop_first(),
            if is_fence(lines[0]) {
                !in_fence
            } else {
                in_fence
            },
            i - 1,
        )
    }
}

/// Number signs are counted up to the first other character.
pub proof fn law_hashes_are_counted(s: Seq<char>, n: nat)
    requires
        n <= s.len(),
        forall|i: int| 0 <= i < n ==> #[trigger] s[i] == '#',
        n < s.len() ==> s[n as int] != '#',
    ensures
        leading_hashes(s) == n,
    decreases n,
{
    if n > 0 {
        let rest = s.drop_first();
        assert(s[0] == '#');
        assert forall|i: int| 0 <= i < n - 1 implies #[trigger] rest[i] == '#' by {
            assert(rest[i] == s[i + 1]);
        }
        law_hashes_are_counted(rest, (n - 1) as nat);
    }
}

/// A heading of level `n` goes down to level `n + by`, or to the sixth; what
/// stands before its number signs and behind them stays.
pub proof fn law_heading_goes_down(
    before: Seq<char>,
    n: nat,
    words: Seq<char>,
    by: nat,
)
    requires
        1 <= n <= 6,
        forall|k: int| 0 <= k < before.len() ==> text::is_white(#[trigger] before[k]),
    ensures
        ({
            let signs = Seq::new(n, |i: int| '#');
            let more = Seq::new(
                if n + by < 6 {
                    n + by
                } else {
                    6
                },
                |i: int| '#',
            );
            demoted_line(before + (signs + " "@ + words), by) == before + (more + " "@ + words)
        }),
{
    reveal_strlit(" ");
    let signs = Seq::new(n, |i: int| '#');
    let body = signs + " "@ + words;
    let line = before + body;
    assert(body[0] == '#');
    text::lemma_trim_front_indented(before, body);
    assert(body[n as int] == ' ');
    law_hashes_are_counted(body, n);
    assert(line.take(line.len() - body.len()) =~= before);
    let k = if n + by < 6 {
        n + by
    } else {
        6
    };
    let more = Seq::new(k, |i: int| '#');
    assert(demoted_line(line, by) =~= before + (more + " "@ + words));
}

/// A line without number signs, with more than six, or with none but those and
/// no space is no heading, and stays.
pub proof fn law_other_lines_stay(before: Seq<char>, n: nat, words: Seq<char>, by: nat)
    requires
        forall|k: int| 0 <= k < before.len() ==> text::is_white(#[trigger] before[k]),
        words.len() > 0,
        words[0] != '#',
        !text::is_white(words[0]),
    ensures
        demoted_line(before + (Seq::new(n, |i: int| '#') + words), by) == before + (Seq::new(
            n,
            |i: int| '#',
        ) + words),
        n > 6 ==> demoted_line(before + (Seq::new(n, |i: int| '#') + " "@ + words), by) == before
            + (Seq::new(n, |i: int| '#') + " "@ + words),
{
    reveal_strlit(" ");
    let signs = Seq::new(n, |i: int| '#');
    let body = signs + words;
    assert(!text::is_white(body[0]));
    text::lemma_trim_front_indented(before, body);
    law_hashes_are_counted(body, n);
    assert(body[n as int] == words[0]);
    let spaced = signs + " "@ + words;
    if n > 6 {
        assert(!text::is_white(spaced[0]));
        text::lemma_trim_front_indented(before, spaced);
        law_hashes_are_counted(spaced, n);
    }
}

/// A fence opens with three backquotes or three tildes, and until the next one
/// every line stays.
pub proof fn law_fenced_lines_stay(
    open: Seq<char>,
    body: Seq<Seq<char>>,
    close: Seq<char>,
    rest: Seq<Seq<char>>,
    by: nat,
)
    requires
        text::begins_with(text::trim_front(open), "```"@) || text::begins_with(
            text::trim_front(open),
            "~~~"@,
        ),
        text::begins_with(text::trim_front(close), "```"@) || text::begins_with(
            text::trim_front(close),
            "~~~"@,
        ),
        forall|i: int|
            0 <= i < body.len() ==> !text::begins_with(
                text::trim_front(#[trigger] body[i]),
                "```"@,
            ) && !text::begins_with(text::trim_front(body[i]), "~~~"@),
    ensures
        demoted_lines(seq![open] + body + seq![close] + rest, by, false) == seq![open] + body
            + seq![close] + demoted_lines(rest, by, false),
{
    let all = seq![open] + body + seq![close] + rest;
    assert(all.drop_first() =~= body + seq![close] + rest);
    lemma_body_stays(body, close, rest, by);
    assert(demoted_lines(all, by, false) =~= seq![open] + (body + seq![close] + demoted_lines(
        rest,
        by,
        false,
    )));
    assert(demoted_lines(all, by, false) =~= seq![open] + body + seq![close] + demoted_lines(
        rest,
        by,
        false,
    ));
}

/// The lines of a fence stay up to its end.
proof fn lemma_body_stays(
    body: Seq<Seq<char>>,
    close: Seq<char>,
    rest: Seq<Seq<char>>,
    by: nat,
)
    requires
        is_fence(close),
        forall|i: int| 0 <= i < body.len() ==> !is_fence(#[trigger] body[i]),
    ensures
        demoted_lines(body + seq![close] + rest, by, true) == body + seq![close] + demoted_lines(
            rest,
            by,
            false,
        ),
    decreases body.len(),
{
    let all = body + seq![close] + rest;
    if body.len() == 0 {
        assert(all.drop_first() =~= rest);
        assert(all[0] == close);
        assert(body + seq![close] + demoted_lines(rest, by, false) =~= seq![close]
            + demoted_lines(rest, by, false));
    } else {
        let more = body.drop_first();
        assert(all[0] == body[0]);
        assert(all.drop_first() =~= more + seq![close] + rest);
        assert forall|i: int| 0 <= i < more.len() implies !is_fence(#[trigger] more[i]) by {
            assert(more[i] == body[i + 1]);
        }
        lemma_body_stays(more, close, rest, by);
        assert(demoted_lines(all, by, true) =~= body + seq![close] + demoted_lines(
            rest,
            by,
            false,
        ));
    }
}

/// Lines outside a fence are demoted one by one.
pub proof fn law_lines_go_down_one_by_one(line: Seq<char>, rest: Seq<Seq<char>>, by: nat)
    requires
        !text::begins_with(text::trim_front(line), "```"@),
        !text::begins_with(text::trim_front(line), "~~~"@),
    ensures
        demoted_lines(seq![line] + rest, by, false) == seq![demoted_line(line, by)]
            + demoted_lines(rest, by, false),
        demoted_lines(Seq::empty(), by, false).len() == 0,
        forall|s: Seq<char>|
            #[trigger] demoted(s, by) == text::joined(
                demoted_lines(text::lines(s), by, false),
                "\n"@,
            ),
{
    assert((seq![line] + rest).drop_first() =~= rest);
}

/// The user's own notes are what the note document says; where that is blank or
/// missing, the flat markdown; where that is, the flat text; each without blanks
/// at its ends. The panel never counts among them.
pub proof fn law_own_notes_are_found(document: JsonView)
    ensures
        ({
            let mine = notes_of(document).mine;
            let doc = document.get("notes"@) matches Some(v) && text::trimmed(
                prosemirror::markdown(v),
            ).len() > 0;
            let flat = document.text("notes_markdown"@) matches Some(s) && text::trimmed(s).len()
                > 0;
            let plain = document.text("notes_plain"@) matches Some(s) && text::trimmed(s).len()
                > 0;
            &&& doc ==> mine == Some(text::trimmed(prosemirror::markdown(document.get("notes"@)->0)))
            &&& !doc && flat ==> mine == Some(text::trimmed(document.text("notes_markdown"@)->0))
            &&& !doc && !flat && plain ==> mine == Some(
                text::trimmed(document.text("notes_plain"@)->0),
            )
            &&& !doc && !flat && !plain ==> mine is None
        }),
        own_notes(document) == notes_of(document).mine,
{
}

/// The assistant's notes are what its panel says, without blanks at the ends;
/// a panel that is blank or missing is none.
pub proof fn law_panel_holds_the_ai_notes(document: JsonView)
    ensures
        document.get2("last_viewed_panel"@, "content"@) is None ==> notes_of(document).ai is None,
        document.get2("last_viewed_panel"@, "content"@) matches Some(v) ==> notes_of(document).ai
            == (if text::trimmed(prosemirror::markdown(v)).len() > 0 {
            Some(text::trimmed(prosemirror::markdown(v)))
        } else {
            None
        }),
{
}

/// Notes are shown under their headings, the user's own first, two levels down;
/// a kind that is absent is left out, and where both are, that is said.
pub proof fn law_notes_stand_under_their_headings(
    mine: Seq<char>,
    ai: Seq<char>,
    title: Seq<char>,
)
    ensures
        rendered(NotesView { ai: Some(ai), mine: Some(mine) }, None) == "\n## My notes\n\n"@
            + demoted(mine, 2) + "\n"@ + "\n## AI-enhanced notes\n\n"@ + demoted(ai, 2) + "\n"@,
        rendered(NotesView { ai: None, mine: Some(mine) }, None) == "\n## My notes\n\n"@ + demoted(
            mine,
            2,
        ) + "\n"@,
        rendered(NotesView { ai: Some(ai), mine: None }, None) == "\n## AI-enhanced notes\n\n"@
            + demoted(ai, 2) + "\n"@,
        rendered(NotesView { ai: None, mine: None }, None) == "\nThis meeting has no notes.\n"@,
        forall|n: NotesView|
            #[trigger] rendered(n, Some(title)) == "# "@ + title + "\n"@ + rendered(n, None),
{
    assert(rendered(NotesView { ai: Some(ai), mine: Some(mine) }, None) =~= "\n## My notes\n\n"@
        + demoted(mine, 2) + "\n"@ + "\n## AI-enhanced notes\n\n"@ + demoted(ai, 2) + "\n"@);
    assert(rendered(NotesView { ai: None, mine: Some(mine) }, None) =~= "\n## My notes\n\n"@
        + demoted(mine, 2) + "\n"@);
    assert(rendered(NotesView { ai: Some(ai), mine: None }, None)
        =~= "\n## AI-enhanced notes\n\n"@ + demoted(ai, 2) + "\n"@);
    assert(rendered(NotesView { ai: None, mine: None }, None)
        =~= "\nThis meeting has no notes.\n"@);
    assert forall|n: NotesView|
        #[trigger] rendered(n, Some(title)) == "# "@ + title + "\n"@ + rendered(n, None) by {
        assert(rendered(n, Some(title)) =~= "# "@ + title + "\n"@ + rendered(n, None));
    }
}

/// As a document each kind of notes stands under its own key, and an absent one
/// is null.
pub proof fn law_notes_have_their_keys(n: NotesView)
    ensures
        n.mine matches Some(s) ==> notes_json(n).get("my_notes"@) == Some(JsonView::Text(s)),
        n.mine is None ==> notes_json(n).get("my_notes"@) == Some(JsonView::Null),
        n.ai matches Some(s) ==> notes_json(n).get("ai_notes"@) == Some(JsonView::Text(s)),
        n.ai is None ==> notes_json(n).get("ai_notes"@) == Some(JsonView::Null),
{
    let fields = notes_json(n)->Object_0;
    reveal_strlit("my_notes");
    reveal_strlit("ai_notes");
    assert("my_notes"@[0] != "ai_notes"@[0]);
    json::law_first_field_counts(fields, "my_notes"@, 0);
    json::law_first_field_counts(fields, "ai_notes"@, 1);
}

} // verus!
