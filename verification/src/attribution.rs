//! Who spoke in a transcript, as far as its segments say so.

use crate::json;
use crate::json::{
    add_field, array, no_fields, number, object, text_list, text_value, Json, JsonView, NumberView,
};
use crate::text;
use crate::text::{contains, put_text, text_eq, to_lowercase};
use vstd::prelude::*;

verus! {

// ---- Segments ---------------------------------------------------------------

/// An optional text, unless it is empty.
pub open spec fn unless_empty(o: Option<Seq<char>>) -> Option<Seq<char>> {
    match o {
        Some(s) => if s.len() == 0 {
            None
        } else {
            Some(s)
        },
        None => None,
    }
}

/// The name that a segment gives its speaker: the nested field, else the flat
/// one. An empty name is none.
pub open spec fn speaker_name(seg: JsonView) -> Option<Seq<char>> {
    json::first_of(
        unless_empty(json::text_in(seg.get2("detectedSpeaker"@, "participantName"@))),
        unless_empty(seg.text("detected_speaker_name"@)),
    )
}

/// The audio channel of a segment.
pub open spec fn source_of(seg: JsonView) -> Seq<char> {
    seg.text_or("source"@, "unknown"@)
}

/// A segment as a line: its time, its channel with the speaker's name if there
/// is one, and its text.
pub open spec fn segment_line(seg: JsonView) -> Seq<char> {
    let speaker = match speaker_name(seg) {
        Some(name) => "; speaker: "@ + name,
        None => Seq::empty(),
    };
    "["@ + seg.text_or("start_timestamp"@, ""@) + "] ("@ + seg.text_or("source"@, ""@) + speaker
        + ") "@ + seg.text_or("text"@, ""@)
}

/// An optional text, unless it is empty.
pub fn non_empty_text<'a>(o: Option<&'a str>) -> (r: Option<&'a str>)
    ensures
        json::seen(r) == unless_empty(json::seen(o)),
{
    match o {
        Some(s) => if s.is_empty() {
            None
        } else {
            Some(s)
        },
        None => None,
    }
}

/// The name that a segment gives its speaker. Nothing is inferred: a channel
/// can carry several people, and only the segment's own fields are read.
pub fn segment_speaker_name(seg: &Json) -> (r: Option<&str>)
    ensures
        json::seen(r) == speaker_name(seg@),
{
    match non_empty_text(json::opt_str(seg.get2("detectedSpeaker", "participantName"))) {
        Some(name) => Some(name),
        None => non_empty_text(seg.text("detected_speaker_name")),
    }
}

/// A segment as a line, with the speaker's name beside the channel's.
pub fn format_transcript_segment(seg: &Json) -> (r: String)
    ensures
        r@ == segment_line(seg@),
{
    let mut out: String = "[".to_owned();
    out.append(seg.text_or("start_timestamp", ""));
    out.append("] (");
    out.append(seg.text_or("source", ""));
    match segment_speaker_name(seg) {
        Some(name) => {
            out.append("; speaker: ");
            out.append(name);
        },
        None => {},
    }
    out.append(") ");
    out.append(seg.text_or("text", ""));
    assert(out@ =~= segment_line(seg@));
    out
}

// ---- Notetaker bots ---------------------------------------------------------

/// Whether a name in lowercase holds a marker of an automated notetaker.
pub open spec fn marked_as_notetaker(lower: Seq<char>) -> bool {
    ||| text::holds(lower, "notetaker"@)
    ||| text::holds(lower, "note taker"@)
    ||| text::holds(lower, "notetaking"@)
    ||| text::holds(lower, "fireflies"@)
    ||| text::holds(lower, "otter.ai"@)
    ||| text::holds(lower, "read.ai"@)
    ||| text::holds(lower, "avoma"@)
    ||| text::holds(lower, "fathom notetaker"@)
    ||| text::holds(lower, "grain.co"@)
    ||| text::holds(lower, "chorus.ai"@)
    ||| text::holds(lower, "gong.io"@)
    ||| text::holds(lower, "meeting recorder"@)
    ||| text::holds(lower, "transcription bot"@)
}

/// Whether a name looks like that of an automated notetaker.
pub open spec fn is_notetaker(name: Seq<char>) -> bool {
    marked_as_notetaker(text::lowercase(name))
}

/// Whether a name in lowercase holds a marker of an automated notetaker.
pub fn has_notetaker_marker(lower: &str) -> (r: bool)
    ensures
        r == marked_as_notetaker(lower@),
{
    contains(lower, "notetaker") || contains(lower, "note taker") || contains(lower, "notetaking")
        || contains(lower, "fireflies") || contains(lower, "otter.ai") || contains(
        lower,
        "read.ai",
    ) || contains(lower, "avoma") || contains(lower, "fathom notetaker") || contains(
        lower,
        "grain.co",
    ) || contains(lower, "chorus.ai") || contains(lower, "gong.io") || contains(
        lower,
        "meeting recorder",
    ) || contains(lower, "transcription bot")
}

/// Whether a name looks like that of an automated notetaker. This flags a
/// name; it never removes one.
pub fn looks_like_notetaker_bot(name: &str) -> (r: bool)
    ensures
        r == is_notetaker(name@),
{
    has_notetaker_marker(to_lowercase(name).as_str())
}

// ---- Summary ----------------------------------------------------------------

/// One audio channel: how many segments it has, and who speaks in them.
pub struct Channel {
    pub source: String,
    pub segment_count: u64,
    pub names: Vec<String>,
}

/// What a [`Channel`] says.
pub struct ChannelView {
    pub source: Seq<char>,
    pub segment_count: u64,
    pub names: Seq<Seq<char>>,
}

impl View for Channel {
    type V = ChannelView;

    open spec fn view(&self) -> ChannelView {
        ChannelView {
            source: self.source@,
            segment_count: self.segment_count,
            names: text::text_views(self.names@),
        }
    }
}

/// What the channels of a list say.
pub open spec fn channel_views(s: Seq<Channel>) -> Seq<ChannelView> {
    Seq::new(s.len(), |i: int| s[i]@)
}

/// The segments of a transcript.
pub open spec fn segments(transcript: JsonView) -> Seq<JsonView> {
    match transcript.as_items() {
        Some(items) => items,
        None => Seq::empty(),
    }
}

/// The channels of some segments, one for each segment.
pub open spec fn sources(segs: Seq<JsonView>) -> Seq<Seq<char>> {
    Seq::new(segs.len(), |i: int| source_of(segs[i]))
}

/// How many segments a channel has.
pub open spec fn count_of(segs: Seq<JsonView>, source: Seq<char>) -> nat
    decreases segs.len(),
{
    if segs.len() == 0 {
        0
    } else {
        count_of(segs.drop_last(), source) + (if source_of(segs.last()) == source {
            1nat
        } else {
            0nat
        })
    }
}

/// The names that the segments of a channel give, one after the other.
pub open spec fn names_of(segs: Seq<JsonView>, source: Seq<char>) -> Seq<Seq<char>>
    decreases segs.len(),
{
    if segs.len() == 0 {
        Seq::empty()
    } else {
        let before = names_of(segs.drop_last(), source);
        match speaker_name(segs.last()) {
            Some(name) => if source_of(segs.last()) == source {
                before.push(name)
            } else {
                before
            },
            None => before,
        }
    }
}

/// The channels of a transcript in the order of their names, each with the
/// number of its segments and with the names given in them, ordered and each
/// once.
pub open spec fn channels(segs: Seq<JsonView>) -> Seq<ChannelView> {
    let all = text::distinct(sources(segs));
    Seq::new(
        all.len(),
        |i: int|
            ChannelView {
                source: all[i],
                segment_count: count_of(segs, all[i]) as u64,
                names: text::distinct(names_of(segs, all[i])),
            },
    )
}

/// The names of a list that look like automated notetakers.
pub open spec fn notetakers_in(names: Seq<Seq<char>>) -> Seq<Seq<char>>
    decreases names.len(),
{
    if names.len() == 0 {
        Seq::empty()
    } else if is_notetaker(names.last()) {
        notetakers_in(names.drop_last()).push(names.last())
    } else {
        notetakers_in(names.drop_last())
    }
}

/// The names of all channels that look like automated notetakers.
pub open spec fn notetakers(all: Seq<ChannelView>) -> Seq<Seq<char>>
    decreases all.len(),
{
    if all.len() == 0 {
        Seq::empty()
    } else {
        notetakers(all.drop_last()) + notetakers_in(all.last().names)
    }
}

/// A channel as a JSON document.
pub open spec fn channel_json(c: ChannelView) -> JsonView {
    JsonView::Object(
        seq![
            ("source"@, JsonView::Text(c.source)),
            ("segment_count"@, JsonView::Number(NumberView::Unsigned(c.segment_count))),
            ("detected_speaker_names"@, json::text_array(c.names)),
        ],
    )
}

/// The summary of who spoke, as a JSON document.
pub open spec fn attribution(transcript: JsonView) -> JsonView {
    let all = channels(segments(transcript));
    JsonView::Object(
        seq![
            (
                "channels"@,
                JsonView::Array(Seq::new(all.len(), |i: int| channel_json(all[i]))),
            ),
            ("likely_notetaker_bots"@, json::text_array(notetakers(all))),
            (
                "speaker_attribution"@,
                JsonView::Text(
                    "Only names present in raw transcript segments are listed; no calendar-based inference is applied. Names matching known notetaker vendors are additionally listed in likely_notetaker_bots."@,
                ),
            ),
        ],
    )
}

/// The count of a channel is at most the number of segments.
pub proof fn lemma_count_bound(segs: Seq<JsonView>, source: Seq<char>)
    ensures
        count_of(segs, source) <= segs.len(),
    decreases segs.len(),
{
    if segs.len() > 0 {
        lemma_count_bound(segs.drop_last(), source);
    }
}

/// The channels of some segments in the order of their names.
fn collect_sources(segs: &Vec<Json>) -> (r: Vec<String>)
    ensures
        text::text_views(r@) == text::distinct(sources(json::views(segs@))),
{
    let mut out: Vec<String> = Vec::new();
    let ghost all = sources(json::views(segs@));
    assert(text::text_views(out@) =~= text::distinct(all.take(0)));
    let mut i: usize = 0;
    while i < segs.len()
        invariant
            i <= segs.len(),
            all == sources(json::views(segs@)),
            text::text_views(out@) == text::distinct(all.take(i as int)),
        decreases segs.len() - i,
    {
        put_text(&mut out, segs[i].text_or("source", "unknown"));
        i += 1;
        assert(all.take(i as int).drop_last() =~= all.take(i - 1));
        assert(all.take(i as int).last() == source_of(segs@[i - 1]@));
    }
    assert(all.take(segs.len() as int) =~= all);
    out
}

/// One channel of some segments.
fn collect_channel(segs: &Vec<Json>, source: &str) -> (r: Channel)
    ensures
        r@.source == source@,
        r@.segment_count == count_of(json::views(segs@), source@),
        r@.names == text::distinct(names_of(json::views(segs@), source@)),
{
    let ghost all = json::views(segs@);
    let mut count: u64 = 0;
    let mut names: Vec<String> = Vec::new();
    assert(text::text_views(names@) =~= text::distinct(names_of(all.take(0), source@)));
    let mut i: usize = 0;
    while i < segs.len()
        invariant
            i <= segs.len(),
            all == json::views(segs@),
            count == count_of(all.take(i as int), source@),
            count <= i,
            text::text_views(names@) == text::distinct(names_of(all.take(i as int), source@)),
        decreases segs.len() - i,
    {
        let seg = &segs[i];
        assert(all.take(i + 1).drop_last() =~= all.take(i as int));
        assert(all.take(i + 1).last() == seg@);
        if text_eq(seg.text_or("source", "unknown"), source) {
            count += 1;
            if let Some(name) = segment_speaker_name(seg) {
                put_text(&mut names, name);
                assert(names_of(all.take(i + 1), source@).drop_last() =~= names_of(
                    all.take(i as int),
                    source@,
                ));
            }
        }
        i += 1;
    }
    assert(all.take(segs.len() as int) =~= all);
    Channel { source: source.to_owned(), segment_count: count, names }
}

/// The channels of some segments.
fn collect_channels(segs: &Vec<Json>) -> (r: Vec<Channel>)
    ensures
        channel_views(r@) == channels(json::views(segs@)),
{
    let all = collect_sources(segs);
    let ghost names = text::text_views(all@);
    let mut out: Vec<Channel> = Vec::new();
    let mut i: usize = 0;
    while i < all.len()
        invariant
            i <= all.len(),
            out.len() == i,
            names == text::text_views(all@),
            forall|k: int|
                0 <= k < i ==> (#[trigger] out@[k])@ == (ChannelView {
                    source: names[k],
                    segment_count: count_of(json::views(segs@), names[k]) as u64,
                    names: text::distinct(names_of(json::views(segs@), names[k])),
                }),
        decreases all.len() - i,
    {
        let channel = collect_channel(segs, all[i].as_str());
        assert(names[i as int] == all@[i as int]@);
        out.push(channel);
        i += 1;
    }
    assert(channel_views(out@) =~= channels(json::views(segs@)));
    out
}

/// The names of all channels that look like automated notetakers.
fn collect_notetakers(all: &Vec<Channel>) -> (r: Vec<String>)
    ensures
        text::text_views(r@) == notetakers(channel_views(all@)),
{
    let mut out: Vec<String> = Vec::new();
    let ghost views = channel_views(all@);
    assert(text::text_views(out@) =~= notetakers(views.take(0)));
    let mut i: usize = 0;
    while i < all.len()
        invariant
            i <= all.len(),
            views == channel_views(all@),
            text::text_views(out@) == notetakers(views.take(i as int)),
        decreases all.len() - i,
    {
        let names = &all[i].names;
        let ghost before = text::text_views(out@);
        let ghost listed = text::text_views(names@);
        assert(before + notetakers_in(listed.take(0)) =~= before);
        let mut k: usize = 0;
        while k < names.len()
            invariant
                k <= names.len(),
                listed == text::text_views(names@),
                text::text_views(out@) == before + notetakers_in(listed.take(k as int)),
            decreases names.len() - k,
        {
            let ghost so_far = text::text_views(out@);
            let name = names[k].as_str();
            assert(listed.take(k + 1).drop_last() =~= listed.take(k as int));
            assert(listed.take(k + 1).last() == name@);
            if looks_like_notetaker_bot(name) {
                out.push(name.to_owned());
                assert(text::text_views(out@) =~= so_far.push(name@));
                assert(so_far.push(name@) =~= before + notetakers_in(listed.take(k as int)).push(
                    name@,
                ));
            }
            k += 1;
        }
        assert(listed.take(names.len() as int) =~= listed);
        assert(views.take(i + 1).drop_last() =~= views.take(i as int));
        assert(views.take(i + 1).last() == all@[i as int]@);
        i += 1;
    }
    assert(views.take(all.len() as int) =~= views);
    out
}

impl Channel {
    /// The channel as a JSON document.
    pub fn to_json(&self) -> (r: Json)
        ensures
            r@ == channel_json(self@),
    {
        let mut fields = no_fields();
        add_field(&mut fields, "source", text_value(self.source.as_str()));
        add_field(&mut fields, "segment_count", number(self.segment_count));
        add_field(&mut fields, "detected_speaker_names", text_list(&self.names));
        assert(json::field_views(fields@) =~= channel_json(self@)->Object_0);
        object(fields)
    }
}

/// The summary of who spoke: the channels with their counts and the names that
/// the segments give, and those of the names that look like automated
/// notetakers.
pub fn attribution_summary(transcript: &Json) -> (r: Json)
    ensures
        r@ == attribution(transcript@),
{
    let all = match transcript.as_array() {
        Some(segs) => collect_channels(segs),
        None => {
            let none: Vec<Json> = Vec::new();
            assert(json::views(none@) =~= Seq::empty());
            collect_channels(&none)
        },
    };
    let ghost views = channels(segments(transcript@));
    let bots = collect_notetakers(&all);
    let mut items: Vec<Json> = Vec::new();
    let mut i: usize = 0;
    while i < all.len()
        invariant
            i <= all.len(),
            items.len() == i,
            views == channel_views(all@),
            forall|k: int| 0 <= k < i ==> (#[trigger] items@[k])@ == channel_json(views[k]),
        decreases all.len() - i,
    {
        assert(views[i as int] == all@[i as int]@);
        items.push(all[i].to_json());
        i += 1;
    }
    assert(json::views(items@) =~= Seq::new(views.len(), |i: int| channel_json(views[i])));
    let mut fields = no_fields();
    add_field(&mut fields, "channels", array(items));
    add_field(&mut fields, "likely_notetaker_bots", text_list(&bots));
    add_field(
        &mut fields,
        "speaker_attribution",
        text_value(
            "Only names present in raw transcript segments are listed; no calendar-based inference is applied. Names matching known notetaker vendors are additionally listed in likely_notetaker_bots.",
        ),
    );
    assert(json::field_views(fields@) =~= attribution(transcript@)->Object_0);
    object(fields)
}

// ---- What holds of the summary ----------------------------------------------

/// The channels are listed in order, each once, and each segment belongs to
/// one of them.
pub proof fn law_channels_are_ordered_and_complete(segs: Seq<JsonView>)
    ensures
        forall|i: int, j: int|
            0 <= i < j < channels(segs).len() ==> #[trigger] text::precedes(
                channels(segs)[i].source,
                channels(segs)[j].source,
            ),
        forall|k: int|
            0 <= k < segs.len() ==> exists|i: int|
                0 <= i < channels(segs).len() && channels(segs)[i].source == source_of(
                    #[trigger] segs[k],
                ),
{
    let all = text::distinct(sources(segs));
    text::law_distinct(sources(segs));
    assert forall|i: int, j: int| 0 <= i < j < channels(segs).len() implies #[trigger] text::precedes(
        channels(segs)[i].source,
        channels(segs)[j].source,
    ) by {
        assert(text::precedes(all[i], all[j]));
    }
    assert forall|k: int| 0 <= k < segs.len() implies exists|i: int|
        0 <= i < channels(segs).len() && channels(segs)[i].source == source_of(
            #[trigger] segs[k],
        ) by {
        assert(sources(segs)[k] == source_of(segs[k]));
        assert(sources(segs).contains(source_of(segs[k])));
        assert(all.contains(source_of(segs[k])));
        let i = choose|i: int| 0 <= i < all.len() && all[i] == source_of(segs[k]);
        assert(channels(segs)[i].source == source_of(segs[k]));
    }
}

/// Nothing is inferred: a name is listed for a channel exactly if a segment of
/// that channel gives it.
pub proof fn law_names_are_those_of_segments(segs: Seq<JsonView>, i: int, name: Seq<char>)
    requires
        0 <= i < channels(segs).len(),
    ensures
        channels(segs)[i].names.contains(name) <==> exists|k: int|
            0 <= k < segs.len() && source_of(#[trigger] segs[k]) == channels(segs)[i].source
                && speaker_name(segs[k]) == Some(name),
{
    let source = channels(segs)[i].source;
    text::law_distinct(names_of(segs, source));
    lemma_names_of(segs, source, name);
}

/// The names of a channel are those that its segments give.
proof fn lemma_names_of(segs: Seq<JsonView>, source: Seq<char>, name: Seq<char>)
    ensures
        names_of(segs, source).contains(name) <==> exists|k: int|
            0 <= k < segs.len() && source_of(#[trigger] segs[k]) == source && speaker_name(segs[k])
                == Some(name),
    decreases segs.len(),
{
    if segs.len() > 0 {
        let rest = segs.drop_last();
        let before = names_of(rest, source);
        let after = names_of(segs, source);
        lemma_names_of(rest, source, name);
        if before.contains(name) {
            let m = choose|m: int| 0 <= m < before.len() && before[m] == name;
            assert(after[m] == name);
            let k = choose|k: int|
                0 <= k < rest.len() && source_of(#[trigger] rest[k]) == source && speaker_name(
                    rest[k],
                ) == Some(name);
            assert(segs[k] == rest[k]);
        }
        if after.contains(name) && !before.contains(name) {
            let m = choose|m: int| 0 <= m < after.len() && after[m] == name;
            if m < before.len() {
                assert(before[m] == name);
            }
            assert(segs[segs.len() - 1] == segs.last());
        }
        if exists|k: int|
            0 <= k < segs.len() && source_of(#[trigger] segs[k]) == source && speaker_name(segs[k])
                == Some(name) {
            let k = choose|k: int|
                0 <= k < segs.len() && source_of(#[trigger] segs[k]) == source && speaker_name(
                    segs[k],
                ) == Some(name);
            if k < rest.len() {
                assert(rest[k] == segs[k]);
                assert(before.contains(name));
                let m = choose|m: int| 0 <= m < before.len() && before[m] == name;
                assert(after[m] == name);
            } else {
                assert(after[after.len() - 1] == name);
            }
        }
    }
}

/// Flagging removes no name: what is flagged is exactly what looks like a
/// notetaker among the names that the channels list.
pub proof fn law_notetakers_stay_listed(all: Seq<ChannelView>, name: Seq<char>)
    ensures
        notetakers(all).contains(name) <==> is_notetaker(name) && exists|i: int|
            0 <= i < all.len() && (#[trigger] all[i]).names.contains(name),
    decreases all.len(),
{
    if all.len() > 0 {
        let rest = all.drop_last();
        let before = notetakers(rest);
        let here = notetakers_in(all.last().names);
        law_notetakers_stay_listed(rest, name);
        lemma_notetakers_in(all.last().names, name);
        if before.contains(name) {
            let m = choose|m: int| 0 <= m < before.len() && before[m] == name;
            assert((before + here)[m] == name);
            let i = choose|i: int| 0 <= i < rest.len() && (#[trigger] rest[i]).names.contains(name);
            assert(all[i] == rest[i]);
        }
        if here.contains(name) {
            let m = choose|m: int| 0 <= m < here.len() && here[m] == name;
            assert((before + here)[before.len() + m] == name);
            assert(all[all.len() - 1].names.contains(name));
        }
        if (before + here).contains(name) {
            let m = choose|m: int| 0 <= m < (before + here).len() && (before + here)[m] == name;
            if m < before.len() {
                assert(before[m] == name);
            } else {
                assert(here[m - before.len()] == name);
            }
        }
        if exists|i: int| 0 <= i < all.len() && (#[trigger] all[i]).names.contains(name) {
            let i = choose|i: int| 0 <= i < all.len() && (#[trigger] all[i]).names.contains(name);
            if i < rest.len() {
                assert(rest[i] == all[i]);
            }
        }
    }
}

/// The names kept as notetakers are those of the list that look like one.
proof fn lemma_notetakers_in(names: Seq<Seq<char>>, name: Seq<char>)
    ensures
        notetakers_in(names).contains(name) <==> is_notetaker(name) && names.contains(name),
    decreases names.len(),
{
    if names.len() > 0 {
        let rest = names.drop_last();
        let before = notetakers_in(rest);
        let after = notetakers_in(names);
        lemma_notetakers_in(rest, name);
        if before.contains(name) {
            let m = choose|m: int| 0 <= m < before.len() && before[m] == name;
            assert(after[m] == name);
        }
        if rest.contains(name) {
            let k = choose|k: int| 0 <= k < rest.len() && rest[k] == name;
            assert(names[k] == name);
        }
        if names.contains(name) {
            let k = choose|k: int| 0 <= k < names.len() && names[k] == name;
            if k < rest.len() {
                assert(rest[k] == name);
            } else if is_notetaker(name) {
                assert(after[after.len() - 1] == name);
            }
        }
        if after.contains(name) {
            let m = choose|m: int| 0 <= m < after.len() && after[m] == name;
            if m < before.len() {
                assert(before[m] == name);
            } else {
                assert(names[names.len() - 1] == name);
            }
        }
    }
}

/// How many segments some channels have together.
pub open spec fn total(segs: Seq<JsonView>, all: Seq<Seq<char>>) -> nat
    decreases all.len(),
{
    if all.len() == 0 {
        0
    } else {
        total(segs, all.drop_last()) + count_of(segs, all.last())
    }
}

/// The sum of the counts of some channels.
pub open spec fn summed(all: Seq<ChannelView>) -> nat
    decreases all.len(),
{
    if all.len() == 0 {
        0
    } else {
        summed(all.drop_last()) + all.last().segment_count as nat
    }
}

/// The counts of the channels add up to the number of segments: each segment
/// is counted once.
pub proof fn law_counts_add_up(segs: Seq<JsonView>)
    requires
        segs.len() <= u64::MAX,
    ensures
        summed(channels(segs)) == segs.len(),
{
    let all = text::distinct(sources(segs));
    text::law_distinct(sources(segs));
    assert forall|k: int| 0 <= k < segs.len() implies all.contains(
        source_of(#[trigger] segs[k]),
    ) by {
        assert(sources(segs)[k] == source_of(segs[k]));
    }
    lemma_counts_add_up(segs, all);
    lemma_summed(segs, all.len());
    assert(channels(segs).take(all.len() as int) =~= channels(segs));
    assert(all.take(all.len() as int) =~= all);
}

/// The sum over the first channels is the sum of their counts.
proof fn lemma_summed(segs: Seq<JsonView>, n: nat)
    requires
        segs.len() <= u64::MAX,
        n <= channels(segs).len(),
    ensures
        summed(channels(segs).take(n as int)) == total(
            segs,
            text::distinct(sources(segs)).take(n as int),
        ),
    decreases n,
{
    let all = text::distinct(sources(segs));
    if n > 0 {
        lemma_summed(segs, (n - 1) as nat);
        lemma_count_bound(segs, all[n - 1]);
        assert(channels(segs).take(n as int).drop_last() =~= channels(segs).take(n - 1));
        assert(all.take(n as int).drop_last() =~= all.take(n - 1));
        assert(channels(segs).take(n as int).last() == channels(segs)[n - 1]);
        assert(all.take(n as int).last() == all[n - 1]);
    }
}

/// Counts over ordered channels that name every segment add up.
proof fn lemma_counts_add_up(segs: Seq<JsonView>, all: Seq<Seq<char>>)
    requires
        text::increasing(all),
        forall|k: int| 0 <= k < segs.len() ==> all.contains(source_of(#[trigger] segs[k])),
    ensures
        total(segs, all) == segs.len(),
    decreases segs.len(),
{
    if segs.len() == 0 {
        lemma_total_of_none(segs, all);
    } else {
        let rest = segs.drop_last();
        assert forall|k: int| 0 <= k < rest.len() implies all.contains(
            source_of(#[trigger] rest[k]),
        ) by {
            assert(segs[k] == rest[k]);
        }
        lemma_counts_add_up(rest, all);
        assert(segs[segs.len() - 1] == segs.last());
        lemma_total_step(segs, all);
    }
}

/// No segments give no counts.
proof fn lemma_total_of_none(segs: Seq<JsonView>, all: Seq<Seq<char>>)
    requires
        segs.len() == 0,
    ensures
        total(segs, all) == 0,
    decreases all.len(),
{
    if all.len() > 0 {
        lemma_total_of_none(segs, all.drop_last());
    }
}

/// One more segment adds one, where its channel is among those counted.
proof fn lemma_total_step(segs: Seq<JsonView>, all: Seq<Seq<char>>)
    requires
        segs.len() > 0,
        text::increasing(all),
    ensures
        total(segs, all) == total(segs.drop_last(), all) + (if all.contains(
            source_of(segs.last()),
        ) {
            1nat
        } else {
            0nat
        }),
    decreases all.len(),
{
    let source = source_of(segs.last());
    if all.len() > 0 {
        let rest = all.drop_last();
        assert forall|i: int, j: int| 0 <= i < j < rest.len() implies #[trigger] text::precedes(
            rest[i],
            rest[j],
        ) by {
            assert(text::precedes(all[i], all[j]));
        }
        lemma_total_step(segs, rest);
        if rest.contains(source) {
            let k = choose|k: int| 0 <= k < rest.len() && rest[k] == source;
            assert(all[k] == source);
            if all.last() == source {
                text::lemma_increasing_distinct(all, k, all.len() - 1);
            }
        }
        if all.contains(source) && !rest.contains(source) {
            let k = choose|k: int| 0 <= k < all.len() && all[k] == source;
            if k < rest.len() {
                assert(rest[k] == source);
            }
        }
        if all.last() == source {
            assert(all[all.len() - 1] == source);
        }
    }
}

/// A speaker is who was detected in the segment, else who is named there; an
/// empty name is none.
pub proof fn law_speaker_is_named_in_the_segment(seg: JsonView)
    ensures
        ({
            let detected = json::text_in(seg.get2("detectedSpeaker"@, "participantName"@));
            let named = seg.text("detected_speaker_name"@);
            &&& detected matches Some(s) ==> (s.len() > 0 ==> speaker_name(seg) == Some(s))
            &&& !(detected matches Some(s) && s.len() > 0) ==> (named matches Some(s) ==> (s.len()
                > 0 ==> speaker_name(seg) == Some(s)))
            &&& !(detected matches Some(s) && s.len() > 0) && !(named matches Some(s) && s.len()
                > 0) ==> speaker_name(seg) is None
        }),
{
}

/// A segment is shown with its time, its source, its speaker if it has one, and
/// its text.
pub proof fn law_segment_shows_its_parts(
    seg: JsonView,
    time: Seq<char>,
    source: Seq<char>,
    words: Seq<char>,
)
    requires
        seg.text_or("start_timestamp"@, ""@) == time,
        seg.text_or("source"@, ""@) == source,
        seg.text_or("text"@, ""@) == words,
    ensures
        speaker_name(seg) is None ==> segment_line(seg) == "["@ + time + "] ("@ + source + ") "@
            + words,
        speaker_name(seg) matches Some(name) ==> segment_line(seg) == "["@ + time + "] ("@ + source
            + "; speaker: "@ + name + ") "@ + words,
        seg.text("source"@) matches Some(s) ==> source_of(seg) == s,
        forall|s: JsonView| (#[trigger] s.text("source"@)) is None ==> source_of(s) == "unknown"@,
{
    if let Some(name) = speaker_name(seg) {
        assert(segment_line(seg) =~= "["@ + time + "] ("@ + source + "; speaker: "@ + name + ") "@
            + words);
    } else {
        assert(segment_line(seg) =~= "["@ + time + "] ("@ + source + ") "@ + words);
    }
}

/// A name is taken for a notetaker's exactly if its small letters hold one of
/// the known words.
pub proof fn law_notetakers_are_known_by_words(
    name: Seq<char>,
    before: Seq<char>,
    after: Seq<char>,
)
    ensures
        text::lowercase(name) == before + "notetaker"@ + after ==> is_notetaker(name),
        text::lowercase(name) == before + "note taker"@ + after ==> is_notetaker(name),
        text::lowercase(name) == before + "notetaking"@ + after ==> is_notetaker(name),
        text::lowercase(name) == before + "fireflies"@ + after ==> is_notetaker(name),
        text::lowercase(name) == before + "otter.ai"@ + after ==> is_notetaker(name),
        text::lowercase(name) == before + "read.ai"@ + after ==> is_notetaker(name),
        text::lowercase(name) == before + "avoma"@ + after ==> is_notetaker(name),
        text::lowercase(name) == before + "fathom notetaker"@ + after ==> is_notetaker(name),
        text::lowercase(name) == before + "grain.co"@ + after ==> is_notetaker(name),
        text::lowercase(name) == before + "chorus.ai"@ + after ==> is_notetaker(name),
        text::lowercase(name) == before + "gong.io"@ + after ==> is_notetaker(name),
        text::lowercase(name) == before + "meeting recorder"@ + after ==> is_notetaker(name),
        text::lowercase(name) == before + "transcription bot"@ + after ==> is_notetaker(name),
        is_notetaker(name) ==> exists|a: Seq<char>, w: Seq<char>, b: Seq<char>|
            text::lowercase(name) == #[trigger] (a + w + b) && {
                ||| w == "notetaker"@
                ||| w == "note taker"@
                ||| w == "notetaking"@
                ||| w == "fireflies"@
                ||| w == "otter.ai"@
                ||| w == "read.ai"@
                ||| w == "avoma"@
                ||| w == "fathom notetaker"@
                ||| w == "grain.co"@
                ||| w == "chorus.ai"@
                ||| w == "gong.io"@
                ||| w == "meeting recorder"@
                ||| w == "transcription bot"@
            },
{
    let lower = text::lowercase(name);
    text::law_parts_are_held(lower, "notetaker"@);
    text::law_parts_are_held(lower, "note taker"@);
    text::law_parts_are_held(lower, "notetaking"@);
    text::law_parts_are_held(lower, "fireflies"@);
    text::law_parts_are_held(lower, "otter.ai"@);
    text::law_parts_are_held(lower, "read.ai"@);
    text::law_parts_are_held(lower, "avoma"@);
    text::law_parts_are_held(lower, "fathom notetaker"@);
    text::law_parts_are_held(lower, "grain.co"@);
    text::law_parts_are_held(lower, "chorus.ai"@);
    text::law_parts_are_held(lower, "gong.io"@);
    text::law_parts_are_held(lower, "meeting recorder"@);
    text::law_parts_are_held(lower, "transcription bot"@);
}

/// Segments are counted source by source: two lists count as much as each, and
/// one segment counts for its own source only.
pub proof fn law_segments_are_counted(a: Seq<JsonView>, b: Seq<JsonView>, source: Seq<char>)
    ensures
        count_of(a + b, source) == count_of(a, source) + count_of(b, source),
        forall|s: JsonView|
            #[trigger] count_of(seq![s], source) == (if s.text_or("source"@, "unknown"@) == source {
                1nat
            } else {
                0
            }),
    decreases b.len(),
{
    if b.len() == 0 {
        assert(a + b =~= a);
    } else {
        assert((a + b).drop_last() =~= a + b.drop_last());
        law_segments_are_counted(a, b.drop_last(), source);
    }
    assert forall|s: JsonView|
        #[trigger] count_of(seq![s], source) == (if s.text_or("source"@, "unknown"@) == source {
            1nat
        } else {
            0
        }) by {
        assert(seq![s].drop_last() =~= Seq::empty());
        assert(count_of(Seq::empty(), source) == 0);
    }
}

/// Each source has one channel, which counts its segments.
pub proof fn law_channels_count_their_segments(segs: Seq<JsonView>, i: int)
    requires
        0 <= i < channels(segs).len(),
    ensures
        channels(segs)[i].segment_count == count_of(segs, channels(segs)[i].source) as u64,
        exists|k: int|
            0 <= k < segs.len() && #[trigger] segs[k].text_or("source"@, "unknown"@) == channels(
                segs,
            )[i].source,
{
    let all = sources(segs);
    text::law_distinct(all);
    let source = channels(segs)[i].source;
    assert(text::distinct(all)[i] == source);
    assert(text::distinct(all).contains(source));
    let k = choose|k: int| 0 <= k < all.len() && all[k] == source;
    assert(segs[k].text_or("source"@, "unknown"@) == source);
}

/// The summary of a transcript lists its channels, each with its source, its
/// number of segments and the names in it, and the names of notetakers.
pub proof fn law_summary_lists_the_channels(segs: Seq<JsonView>, i: int)
    requires
        0 <= i < channels(segs).len(),
    ensures
        ({
            let all = channels(segs);
            let v = attribution(JsonView::Array(segs));
            &&& v.items("channels"@) matches Some(items) && items.len() == all.len()
                && items[i].text("source"@) == Some(all[i].source) && items[i].get(
                "segment_count"@,
            ) == Some(JsonView::Number(NumberView::Unsigned(all[i].segment_count)))
                && items[i].get("detected_speaker_names"@) == Some(json::text_array(all[i].names))
            &&& v.get("likely_notetaker_bots"@) == Some(json::text_array(notetakers(all)))
        }),
{
    let all = channels(segs);
    let v = attribution(JsonView::Array(segs));
    let fields = v->Object_0;
    reveal_strlit("channels");
    reveal_strlit("likely_notetaker_bots");
    reveal_strlit("speaker_attribution");
    assert("channels"@.len() != "likely_notetaker_bots"@.len());
    assert("channels"@.len() != "speaker_attribution"@.len());
    assert("likely_notetaker_bots"@.len() != "speaker_attribution"@.len());
    json::law_first_field_counts(fields, "channels"@, 0);
    json::law_first_field_counts(fields, "likely_notetaker_bots"@, 1);
    let one = channel_json(all[i])->Object_0;
    reveal_strlit("source");
    reveal_strlit("segment_count");
    reveal_strlit("detected_speaker_names");
    assert("source"@.len() != "segment_count"@.len());
    assert("source"@.len() != "detected_speaker_names"@.len());
    assert("segment_count"@.len() != "detected_speaker_names"@.len());
    json::law_first_field_counts(one, "source"@, 0);
    json::law_first_field_counts(one, "segment_count"@, 1);
    json::law_first_field_counts(one, "detected_speaker_names"@, 2);
}

/// Notetakers are listed channel by channel, and in each in the order of its
/// names.
pub proof fn law_notetakers_are_listed_in_order(
    all: Seq<ChannelView>,
    c: ChannelView,
    names: Seq<Seq<char>>,
    name: Seq<char>,
)
    ensures
        notetakers(all.push(c)) == notetakers(all) + notetakers_in(c.names),
        notetakers(Seq::empty()).len() == 0,
        notetakers_in(names.push(name)) == (if is_notetaker(name) {
            notetakers_in(names).push(name)
        } else {
            notetakers_in(names)
        }),
        notetakers_in(Seq::empty()).len() == 0,
{
    assert(all.push(c).drop_last() =~= all);
    assert(names.push(name).drop_last() =~= names);
}

/// A transcript that is no array has no segments.
pub proof fn law_only_arrays_have_segments(v: JsonView)
    ensures
        v matches JsonView::Array(a) ==> segments(v) == a,
        !(v is Array) ==> segments(v).len() == 0,
{
}

} // verus!
