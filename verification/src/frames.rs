//! The text of a document taken apart: the members of an object, a key as often
//! as it stands there, and the items of an array. `serde_json` says where each
//! value ends.

use crate::json;
use crate::json::{array, object, Json, JsonView};
use crate::text;
use crate::text::{chars_of, is_one_of, string_of};
use crate::wire;
use crate::wire::parse_json;
use vstd::prelude::*;

verus! {

// ---- Values -----------------------------------------------------------------

/// How many characters of a text its first value takes up, with the blanks
/// before it, as `serde_json` passes over a value that is not wanted.
pub uninterp spec fn value_end(text: Seq<char>) -> Option<nat>;

/// The first value of a text, with the blanks before it, and what follows it.
pub open spec fn first_value(s: Seq<char>) -> Option<(Seq<char>, Seq<char>)> {
    match value_end(s) {
        Some(n) => if 0 < n <= s.len() {
            Some((s.take(n as int), s.skip(n as int)))
        } else {
            None
        },
        None => None,
    }
}

/// The first item of a `serde_json::StreamDeserializer` of `IgnoredAny`, and
/// `byte_offset` behind it: the text is cut where the first value ends, which is
/// at the character that [`value_end`] names; the value is not empty. Where the
/// text begins with no value, there is no such place.
#[verifier::external_body]
fn split_value(text: &str) -> (r: Option<(String, String)>)
    ensures
        match r {
            Some((value, rest)) => value_end(text@) == Some(value@.len()) && value@.len() > 0
                && value@ + rest@ == text@,
            None => value_end(text@) is None,
        },
{
    let mut values = serde_json::Deserializer::from_str(text).into_iter::<serde::de::IgnoredAny>();
    values.next()?.ok()?;
    let (value, rest) = text.split_at(values.byte_offset());
    Some((value.to_owned(), rest.to_owned()))
}

/// The first value of a text, and what follows it.
fn next_value(s: &str) -> (r: Option<(String, String)>)
    ensures
        json::seen(r) == first_value(s@),
{
    match split_value(s) {
        Some((value, rest)) => {
            let ghost n = value@.len() as int;
            assert(s@.take(n) =~= value@);
            assert(s@.skip(n) =~= rest@);
            Some((value, rest))
        },
        None => None,
    }
}

// ---- Signs ------------------------------------------------------------------

/// Whether a character is blank between the values of a document.
pub open spec fn is_blank(c: char) -> bool {
    c == ' ' || c == '\n' || c == '\t' || c == '\r'
}

/// A text without the blanks at its front.
pub open spec fn skip_blank(s: Seq<char>) -> Seq<char>
    decreases s.len(),
{
    if s.len() > 0 && is_blank(s[0]) {
        skip_blank(s.drop_first())
    } else {
        s
    }
}

/// What follows a sign, where a text begins with it after any blanks.
pub open spec fn after(s: Seq<char>, sign: char) -> Option<Seq<char>> {
    let t = skip_blank(s);
    if t.len() > 0 && t[0] == sign {
        Some(t.drop_first())
    } else {
        None
    }
}

/// Cutting blanks makes no text longer.
proof fn lemma_skip_blank(s: Seq<char>)
    ensures
        skip_blank(s).len() <= s.len(),
    decreases s.len(),
{
    if s.len() > 0 && is_blank(s[0]) {
        lemma_skip_blank(s.drop_first());
    }
}

/// How many characters at the front are blank.
fn count_blank(cs: &Vec<char>) -> (n: usize)
    ensures
        n <= cs.len(),
        skip_blank(cs@) == cs@.skip(n as int),
{
    let mut n: usize = 0;
    assert(cs@.skip(0) =~= cs@);
    while n < cs.len() && (cs[n] == ' ' || cs[n] == '\n' || cs[n] == '\t' || cs[n] == '\r')
        invariant
            n <= cs.len(),
            skip_blank(cs@) == skip_blank(cs@.skip(n as int)),
        decreases cs.len() - n,
    {
        assert(cs@.skip(n as int)[0] == cs@[n as int]);
        assert(cs@.skip(n as int).drop_first() =~= cs@.skip(n + 1));
        n += 1;
    }
    if n < cs.len() {
        assert(cs@.skip(n as int)[0] == cs@[n as int]);
    }
    n
}

/// What follows a sign, where a text begins with it after any blanks.
fn pass(s: &str, sign: char) -> (r: Option<String>)
    ensures
        json::seen(r) == after(s@, sign),
{
    let cs = chars_of(s);
    let n = count_blank(&cs);
    if n < cs.len() && cs[n] == sign {
        assert(cs@.skip(n as int)[0] == cs@[n as int]);
        assert(cs@.skip(n as int).drop_first() =~= cs@.subrange(n + 1, cs@.len() as int));
        Some(string_of(&cs, n + 1, cs.len()))
    } else {
        if n < cs.len() {
            assert(cs@.skip(n as int)[0] == cs@[n as int]);
        }
        None
    }
}

/// Whether a text is blank.
fn all_blank(s: &str) -> (r: bool)
    ensures
        r == (skip_blank(s@).len() == 0),
{
    let cs = chars_of(s);
    count_blank(&cs) == cs.len()
}

// ---- Members and items ------------------------------------------------------

/// The text behind a comma, or the text itself where there is none.
pub open spec fn onward(s: Seq<char>) -> Seq<char> {
    match after(s, ',') {
        Some(t) => t,
        None => s,
    }
}

/// The key, the value and the rest of a text that begins with a member of an
/// object.
pub open spec fn member(s: Seq<char>) -> Option<(Seq<char>, Seq<char>, Seq<char>)> {
    match first_value(s) {
        Some((key, rest)) => match after(rest, ':') {
            Some(t) => match first_value(t) {
                Some((value, next)) => Some((key, value, onward(next))),
                None => None,
            },
            None => None,
        },
        None => None,
    }
}

/// The members of an object, each its key and its value, in a text that goes on
/// behind its opening brace.
pub open spec fn members(s: Seq<char>) -> Option<Seq<(Seq<char>, Seq<char>)>>
    decreases s.len(),
{
    if after(s, '}') is Some {
        Some(Seq::empty())
    } else {
        proof {
            lemma_member_shorter(s);
        }
        match member(s) {
            Some((key, value, rest)) => match members(rest) {
                Some(more) => Some(seq![(key, value)] + more),
                None => None,
            },
            None => None,
        }
    }
}

/// The items of an array, in a text that goes on behind its opening bracket.
pub open spec fn items(s: Seq<char>) -> Option<Seq<Seq<char>>>
    decreases s.len(),
{
    if after(s, ']') is Some {
        Some(Seq::empty())
    } else {
        proof {
            lemma_item_shorter(s);
        }
        match first_value(s) {
            Some((value, rest)) => match items(onward(rest)) {
                Some(more) => Some(seq![value] + more),
                None => None,
            },
            None => None,
        }
    }
}

/// What follows a sign is shorter.
proof fn lemma_after_shorter(s: Seq<char>, sign: char)
    ensures
        after(s, sign) matches Some(t) ==> t.len() < s.len(),
{
    lemma_skip_blank(s);
}

/// The parts of a text that begins with a value are no longer than it.
pub proof fn lemma_item_shorter(s: Seq<char>)
    ensures
        first_value(s) matches Some((value, rest)) ==> value.len() <= s.len() && onward(rest).len()
            < s.len(),
{
    if let Some((_, rest)) = first_value(s) {
        lemma_after_shorter(rest, ',');
    }
}

/// The parts of a member are shorter than a text that begins with it.
pub proof fn lemma_member_shorter(s: Seq<char>)
    ensures
        member(s) matches Some((key, value, rest)) ==> value.len() < s.len() && rest.len()
            < s.len(),
{
    if let Some((_, rest)) = first_value(s) {
        lemma_after_shorter(rest, ':');
        if let Some(t) = after(rest, ':') {
            lemma_item_shorter(t);
        }
    }
}

/// The values of an object are shorter than it.
proof fn lemma_members_shorter(s: Seq<char>)
    ensures
        members(s) matches Some(ms) ==> forall|i: int|
            0 <= i < ms.len() ==> (#[trigger] ms[i]).1.len() < s.len(),
    decreases s.len(),
{
    if after(s, '}') is None {
        lemma_member_shorter(s);
        if let Some((_, _, rest)) = member(s) {
            lemma_members_shorter(rest);
        }
    }
}

/// The items of an array are no longer than it.
proof fn lemma_items_shorter(s: Seq<char>)
    ensures
        items(s) matches Some(vs) ==> forall|i: int|
            0 <= i < vs.len() ==> (#[trigger] vs[i]).len() <= s.len(),
    decreases s.len(),
{
    if after(s, ']') is None {
        lemma_item_shorter(s);
        if let Some((_, rest)) = first_value(s) {
            lemma_items_shorter(onward(rest));
        }
    }
}

/// What some members say.
pub open spec fn member_views(s: Seq<(String, String)>) -> Seq<(Seq<char>, Seq<char>)> {
    Seq::new(s.len(), |i: int| (s[i].0@, s[i].1@))
}

/// The text behind a comma, or the text itself where there is none.
fn go_on(s: String) -> (r: String)
    ensures
        r@ == onward(s@),
{
    match pass(s.as_str(), ',') {
        Some(t) => t,
        None => s,
    }
}

/// The members of an object, in a text that goes on behind its opening brace.
fn read_members(s: String) -> (r: Option<Vec<(String, String)>>)
    ensures
        match members(s@) {
            Some(ms) => r matches Some(v) && member_views(v@) == ms,
            None => r is None,
        },
{
    let ghost whole = s@;
    let mut rest = s;
    let mut out: Vec<(String, String)> = Vec::new();
    assert(members(whole) matches Some(ms) ==> ms =~= member_views(out@) + ms);
    while pass(rest.as_str(), '}').is_none()
        invariant
            whole == s@,
            match members(rest@) {
                Some(ms) => members(whole) == Some(member_views(out@) + ms),
                None => members(whole) is None,
            },
        decreases rest@.len(),
    {
        proof {
            lemma_member_shorter(rest@);
        }
        let (key, colon) = match next_value(rest.as_str()) {
            Some(p) => p,
            None => {
                return None;
            },
        };
        let text = match pass(colon.as_str(), ':') {
            Some(t) => t,
            None => {
                return None;
            },
        };
        let (value, next) = match next_value(text.as_str()) {
            Some(p) => p,
            None => {
                return None;
            },
        };
        let ghost before = member_views(out@);
        let ghost read = (key@, value@);
        out.push((key, value));
        assert(member_views(out@) =~= before.push(read));
        rest = go_on(next);
        assert(members(rest@) matches Some(ms) ==> before + (seq![read] + ms) =~= before.push(read)
            + ms);
    }
    assert(member_views(out@) + Seq::<(Seq<char>, Seq<char>)>::empty() =~= member_views(out@));
    Some(out)
}

/// The items of an array, in a text that goes on behind its opening bracket.
fn read_items(s: String) -> (r: Option<Vec<String>>)
    ensures
        match items(s@) {
            Some(vs) => r matches Some(v) && text::text_views(v@) == vs,
            None => r is None,
        },
{
    let ghost whole = s@;
    let mut rest = s;
    let mut out: Vec<String> = Vec::new();
    assert(items(whole) matches Some(vs) ==> vs =~= text::text_views(out@) + vs);
    while pass(rest.as_str(), ']').is_none()
        invariant
            whole == s@,
            match items(rest@) {
                Some(vs) => items(whole) == Some(text::text_views(out@) + vs),
                None => items(whole) is None,
            },
        decreases rest@.len(),
    {
        proof {
            lemma_item_shorter(rest@);
        }
        let (value, next) = match next_value(rest.as_str()) {
            Some(p) => p,
            None => {
                return None;
            },
        };
        let ghost before = text::text_views(out@);
        let ghost read = value@;
        out.push(value);
        assert(text::text_views(out@) =~= before.push(read));
        rest = go_on(next);
        assert(items(rest@) matches Some(vs) ==> before + (seq![read] + vs) =~= before.push(read)
            + vs);
    }
    assert(text::text_views(out@) + Seq::<Seq<char>>::empty() =~= text::text_views(out@));
    Some(out)
}

// ---- Contents ---------------------------------------------------------------

/// The key that a text writes, if it writes one.
pub open spec fn key_in(s: Seq<char>) -> Option<Seq<char>> {
    match wire::document(s) {
        Some(JsonView::Text(key)) => Some(key),
        _ => None,
    }
}

/// The document that a text holds, with a key as often as it stands there. What
/// cannot be read is null.
pub open spec fn content(s: Seq<char>) -> JsonView
    decreases s.len(),
{
    match (after(s, '{'), after(s, '[')) {
        (Some(t), _) => match members(t) {
            Some(ms) => JsonView::Object(
                Seq::new(
                    ms.len(),
                    |i: int|
                        (
                            text_or_nothing(key_in(ms[i].0)),
                            if ms[i].1.len() < s.len() {
                                content(ms[i].1)
                            } else {
                                JsonView::Null
                            },
                        ),
                ),
            ),
            None => JsonView::Null,
        },
        (None, Some(t)) => match items(t) {
            Some(vs) => JsonView::Array(
                Seq::new(
                    vs.len(),
                    |i: int|
                        if vs[i].len() < s.len() {
                            content(vs[i])
                        } else {
                            JsonView::Null
                        },
                ),
            ),
            None => JsonView::Null,
        },
        (None, None) => match wire::document(s) {
            Some(v) => v,
            None => JsonView::Null,
        },
    }
}

/// A text, or the empty one where there is none.
pub open spec fn text_or_nothing(o: Option<Seq<char>>) -> Seq<char> {
    match o {
        Some(s) => s,
        None => Seq::empty(),
    }
}

/// A text within some arrays.
pub open spec fn enclosed(s: Seq<char>, depth: nat) -> Seq<char>
    decreases depth,
{
    if depth == 0 {
        s
    } else {
        "["@ + enclosed(s, (depth - 1) as nat) + "]"@
    }
}

/// Whether a value can be read that stands within some arrays or objects:
/// `serde_json` goes only so deep.
pub open spec fn readable(s: Seq<char>, depth: nat) -> bool {
    wire::document(enclosed(s, depth)) is Some
}

/// The key that a text writes.
fn read_key(s: &str) -> (r: Option<String>)
    ensures
        json::seen(r) == key_in(s@),
{
    match parse_json(s) {
        Some(Json::Text(key)) => Some(key),
        _ => None,
    }
}

/// A text within some arrays.
fn enclose(s: &str, depth: usize) -> (r: String)
    ensures
        r@ == enclosed(s@, depth as nat),
    decreases depth,
{
    if depth == 0 {
        s.to_owned()
    } else {
        let inner = enclose(s, depth - 1);
        let mut out: String = "[".to_owned();
        out.append(inner.as_str());
        out.append("]");
        out
    }
}

/// Whether a value can be read that stands within some arrays or objects.
fn is_readable(s: &str, depth: usize) -> (r: bool)
    ensures
        r == readable(s@, depth as nat),
{
    parse_json(enclose(s, depth).as_str()).is_some()
}

/// The document that a text holds, with a key as often as it stands there.
fn read_content(s: &str) -> (r: Json)
    ensures
        r@ == content(s@),
    decreases s@.len(),
{
    if let Some(t) = pass(s, '{') {
        let ghost inner = t@;
        proof {
            lemma_after_shorter(s@, '{');
            lemma_members_shorter(inner);
        }
        match read_members(t) {
            Some(ms) => {
                let ghost all = member_views(ms@);
                let mut out: Vec<(String, Json)> = Vec::new();
                let mut i: usize = 0;
                while i < ms.len()
                    invariant
                        i <= ms.len(),
                        out.len() == i,
                        all == member_views(ms@),
                        inner.len() < s@.len(),
                        forall|k: int| 0 <= k < all.len() ==> (#[trigger] all[k]).1.len() < inner.len(),
                        forall|k: int|
                            0 <= k < i ==> ((#[trigger] out@[k]).0@, out@[k].1@) == (
                                text_or_nothing(key_in(all[k].0)),
                                content(all[k].1),
                            ),
                    decreases ms.len() - i,
                {
                    assert(all[i as int] == (ms@[i as int].0@, ms@[i as int].1@));
                    let key = match read_key(ms[i].0.as_str()) {
                        Some(key) => key,
                        None => String::new(),
                    };
                    assert(key@ =~= text_or_nothing(key_in(all[i as int].0)));
                    out.push((key, read_content(ms[i].1.as_str())));
                    i += 1;
                }
                assert(json::field_views(out@) =~= content(s@)->Object_0);
                object(out)
            },
            None => Json::Null,
        }
    } else if let Some(t) = pass(s, '[') {
        let ghost inner = t@;
        proof {
            lemma_after_shorter(s@, '[');
            lemma_items_shorter(inner);
        }
        match read_items(t) {
            Some(vs) => {
                let ghost all = text::text_views(vs@);
                let mut out: Vec<Json> = Vec::new();
                let mut i: usize = 0;
                while i < vs.len()
                    invariant
                        i <= vs.len(),
                        out.len() == i,
                        all == text::text_views(vs@),
                        inner.len() < s@.len(),
                        forall|k: int| 0 <= k < all.len() ==> (#[trigger] all[k]).len() <= inner.len(),
                        forall|k: int| 0 <= k < i ==> (#[trigger] out@[k])@ == content(all[k]),
                    decreases vs.len() - i,
                {
                    assert(all[i as int] == vs@[i as int]@);
                    out.push(read_content(vs[i].as_str()));
                    i += 1;
                }
                assert(json::views(out@) =~= content(s@)->Array_0);
                array(out)
            },
            None => Json::Null,
        }
    } else {
        match parse_json(s) {
            Some(v) => v,
            None => Json::Null,
        }
    }
}

// ---- Records ----------------------------------------------------------------

/// Whether a member of a record can be passed over or read: its key can be
/// read, and its value where the key is asked for.
pub open spec fn member_fits(
    m: (Seq<char>, Seq<char>),
    known: Seq<Seq<char>>,
    depth: nat,
) -> bool {
    match key_in(m.0) {
        Some(key) => known.contains(key) ==> readable(m.1, depth),
        None => false,
    }
}

/// The members that are asked for.
pub open spec fn kept(ms: Seq<(Seq<char>, Seq<char>)>, known: Seq<Seq<char>>) -> Seq<
    (Seq<char>, JsonView),
>
    decreases ms.len(),
{
    if ms.len() == 0 {
        Seq::empty()
    } else {
        let before = kept(ms.drop_last(), known);
        match key_in(ms.last().0) {
            Some(key) => if known.contains(key) {
                before.push((key, content(ms.last().1)))
            } else {
                before
            },
            None => before,
        }
    }
}

/// The record that a text holds, whose values stand within some arrays or
/// objects: of an object the members that are asked for, a key as often as it
/// stands there, while the others need not be readable; of an array all items.
pub open spec fn record_at(s: Seq<char>, known: Seq<Seq<char>>, depth: nat) -> Option<JsonView> {
    match (after(s, '{'), after(s, '[')) {
        (Some(t), _) => match members(t) {
            Some(ms) => if forall|i: int|
                0 <= i < ms.len() ==> member_fits(#[trigger] ms[i], known, depth) {
                Some(JsonView::Object(kept(ms, known)))
            } else {
                None
            },
            None => None,
        },
        (None, Some(t)) => match items(t) {
            Some(vs) => if forall|i: int|
                0 <= i < vs.len() ==> readable(#[trigger] vs[i], depth) {
                Some(JsonView::Array(Seq::new(vs.len(), |i: int| content(vs[i]))))
            } else {
                None
            },
            None => None,
        },
        (None, None) => None,
    }
}

/// Whether a text is one value and nothing more.
pub open spec fn is_whole(s: Seq<char>) -> bool {
    first_value(s) matches Some((_, rest)) && skip_blank(rest).len() == 0
}

/// The record that a whole text holds.
pub open spec fn record_in(s: Seq<char>, known: Seq<Seq<char>>) -> Option<JsonView> {
    if is_whole(s) {
        record_at(s, known, 1)
    } else {
        None
    }
}

/// The array of records that a whole text holds.
pub open spec fn records_in(s: Seq<char>, known: Seq<Seq<char>>) -> Option<JsonView> {
    match after(s, '[') {
        Some(t) => match items(t) {
            Some(vs) => if is_whole(s) && forall|i: int|
                0 <= i < vs.len() ==> record_at(#[trigger] vs[i], known, 2) is Some {
                Some(
                    JsonView::Array(
                        Seq::new(vs.len(), |i: int| record_at(vs[i], known, 2)->Some_0),
                    ),
                )
            } else {
                None
            },
            None => None,
        },
        None => None,
    }
}

/// The members that are asked for, where all can be passed over or read.
fn read_kept(ms: &Vec<(String, String)>, known: &Vec<&'static str>, depth: usize) -> (r: Option<
    Vec<(String, Json)>,
>)
    ensures
        match r {
            Some(v) => (forall|i: int|
                0 <= i < ms@.len() ==> member_fits(
                    #[trigger] member_views(ms@)[i],
                    text::literal_views(known@),
                    depth as nat,
                )) && json::field_views(v@) == kept(
                member_views(ms@),
                text::literal_views(known@),
            ),
            None => exists|i: int|
                0 <= i < ms@.len() && !member_fits(
                    #[trigger] member_views(ms@)[i],
                    text::literal_views(known@),
                    depth as nat,
                ),
        },
{
    let ghost all = member_views(ms@);
    let ghost names = text::literal_views(known@);
    let mut out: Vec<(String, Json)> = Vec::new();
    assert(json::field_views(out@) =~= kept(all.take(0), names));
    let mut i: usize = 0;
    while i < ms.len()
        invariant
            i <= ms.len(),
            all == member_views(ms@),
            names == text::literal_views(known@),
            forall|k: int| 0 <= k < i ==> member_fits(#[trigger] all[k], names, depth as nat),
            json::field_views(out@) == kept(all.take(i as int), names),
        decreases ms.len() - i,
    {
        let ghost before = json::field_views(out@);
        assert(all[i as int] == (ms@[i as int].0@, ms@[i as int].1@));
        assert(all.take(i + 1).drop_last() =~= all.take(i as int));
        assert(all.take(i + 1).last() == all[i as int]);
        let key = match read_key(ms[i].0.as_str()) {
            Some(key) => key,
            None => {
                assert(!member_fits(all[i as int], names, depth as nat));
                return None;
            },
        };
        if is_one_of(key.as_str(), known) {
            let value = ms[i].1.as_str();
            if !is_readable(value, depth) {
                assert(!member_fits(all[i as int], names, depth as nat));
                return None;
            }
            let read = read_content(value);
            let ghost field = (key@, read@);
            out.push((key, read));
            assert(json::field_views(out@) =~= before.push(field));
        }
        assert(member_fits(all[i as int], names, depth as nat));
        i += 1;
    }
    assert(all.take(ms.len() as int) =~= all);
    Some(out)
}

/// The items, where all can be read.
fn read_all(vs: &Vec<String>, depth: usize) -> (r: Option<Vec<Json>>)
    ensures
        match r {
            Some(v) => (forall|i: int|
                0 <= i < vs@.len() ==> readable(#[trigger] text::text_views(vs@)[i], depth as nat))
                && json::views(v@) == Seq::new(
                vs@.len(),
                |i: int| content(text::text_views(vs@)[i]),
            ),
            None => exists|i: int|
                0 <= i < vs@.len() && !readable(#[trigger] text::text_views(vs@)[i], depth as nat),
        },
{
    let ghost all = text::text_views(vs@);
    let mut out: Vec<Json> = Vec::new();
    let mut i: usize = 0;
    while i < vs.len()
        invariant
            i <= vs.len(),
            out.len() == i,
            all == text::text_views(vs@),
            forall|k: int| 0 <= k < i ==> readable(#[trigger] all[k], depth as nat),
            forall|k: int| 0 <= k < i ==> (#[trigger] out@[k])@ == content(all[k]),
        decreases vs.len() - i,
    {
        assert(all[i as int] == vs@[i as int]@);
        let value = vs[i].as_str();
        if !is_readable(value, depth) {
            assert(!readable(all[i as int], depth as nat));
            return None;
        }
        out.push(read_content(value));
        i += 1;
    }
    assert(json::views(out@) =~= Seq::new(vs@.len(), |i: int| content(all[i])));
    Some(out)
}

/// The record that a text holds, whose values stand within some arrays or
/// objects.
fn read_record_at(s: &str, known: &Vec<&'static str>, depth: usize) -> (r: Option<Json>)
    ensures
        json::seen(r) == record_at(s@, text::literal_views(known@), depth as nat),
{
    if let Some(t) = pass(s, '{') {
        match read_members(t) {
            Some(ms) => match read_kept(&ms, known, depth) {
                Some(fields) => Some(object(fields)),
                None => None,
            },
            None => None,
        }
    } else if let Some(t) = pass(s, '[') {
        match read_items(t) {
            Some(vs) => match read_all(&vs, depth) {
                Some(values) => {
                    proof {
                        assert(json::views(values@) =~= Seq::new(
                            vs@.len(),
                            |i: int| content(text::text_views(vs@)[i]),
                        ));
                    }
                    Some(array(values))
                },
                None => None,
            },
            None => None,
        }
    } else {
        None
    }
}

/// Whether a text is one value and nothing more.
fn fills(s: &str) -> (r: bool)
    ensures
        r == is_whole(s@),
{
    match next_value(s) {
        Some((_, rest)) => all_blank(rest.as_str()),
        None => false,
    }
}

/// The record that a whole text holds: an object, of which the members under
/// some keys are read and the others passed over, or an array.
pub fn read_record(s: &str, known: &Vec<&'static str>) -> (r: Option<Json>)
    ensures
        json::seen(r) == record_in(s@, text::literal_views(known@)),
{
    if fills(s) {
        read_record_at(s, known, 1)
    } else {
        None
    }
}

/// The array of records that a whole text holds.
pub fn read_records(s: &str, known: &Vec<&'static str>) -> (r: Option<Json>)
    ensures
        json::seen(r) == records_in(s@, text::literal_views(known@)),
{
    let vs = match pass(s, '[') {
        Some(t) => match read_items(t) {
            Some(vs) => vs,
            None => {
                return None;
            },
        },
        None => {
            return None;
        },
    };
    if !fills(s) {
        return None;
    }
    let ghost all = text::text_views(vs@);
    let ghost names = text::literal_views(known@);
    let mut out: Vec<Json> = Vec::new();
    let mut i: usize = 0;
    while i < vs.len()
        invariant
            i <= vs.len(),
            out.len() == i,
            all == text::text_views(vs@),
            names == text::literal_views(known@),
            after(s@, '[') is Some && items(after(s@, '[')->Some_0) == Some(all),
            forall|k: int| 0 <= k < i ==> record_at(#[trigger] all[k], names, 2) is Some,
            forall|k: int|
                0 <= k < i ==> Some((#[trigger] out@[k])@) == record_at(all[k], names, 2),
        decreases vs.len() - i,
    {
        assert(all[i as int] == vs@[i as int]@);
        match read_record_at(vs[i].as_str(), known, 2) {
            Some(v) => {
                out.push(v);
            },
            None => {
                assert(record_at(all[i as int], names, 2) is None);
                return None;
            },
        }
        i += 1;
    }
    assert(json::views(out@) =~= Seq::new(all.len(), |i: int| record_at(all[i], names, 2)->Some_0));
    Some(array(out))
}

// ---- What holds of records --------------------------------------------------

/// A member that is not asked for changes nothing, wherever it stands and
/// whatever it holds.
pub proof fn law_other_members_do_not_matter(
    a: Seq<(Seq<char>, Seq<char>)>,
    m: (Seq<char>, Seq<char>),
    b: Seq<(Seq<char>, Seq<char>)>,
    known: Seq<Seq<char>>,
    depth: nat,
)
    requires
        key_in(m.0) matches Some(key) && !known.contains(key),
    ensures
        kept(a.push(m) + b, known) == kept(a + b, known),
        member_fits(m, known, depth),
    decreases b.len(),
{
    if b.len() == 0 {
        assert(a.push(m) + b =~= a.push(m));
        assert(a + b =~= a);
        assert(a.push(m).drop_last() =~= a);
    } else {
        assert((a.push(m) + b).drop_last() =~= a.push(m) + b.drop_last());
        assert((a + b).drop_last() =~= a + b.drop_last());
        law_other_members_do_not_matter(a, m, b.drop_last(), known, depth);
    }
}

/// A sign is passed behind any blanks; nothing else is passed.
pub proof fn law_signs_are_passed(blanks: Seq<char>, sign: char, rest: Seq<char>)
    requires
        forall|i: int|
            0 <= i < blanks.len() ==> #[trigger] blanks[i] == ' ' || blanks[i] == '\n' || blanks[i]
                == '\t' || blanks[i] == '\r',
        sign != ' ' && sign != '\n' && sign != '\t' && sign != '\r',
    ensures
        after(blanks + (seq![sign] + rest), sign) == Some(rest),
        forall|other: char|
            other != sign ==> (#[trigger] after(blanks + (seq![sign] + rest), other)) is None,
    decreases blanks.len(),
{
    let s = blanks + (seq![sign] + rest);
    if blanks.len() > 0 {
        let more = blanks.drop_first();
        assert(s[0] == blanks[0]);
        assert(s.drop_first() =~= more + (seq![sign] + rest));
        assert forall|i: int| 0 <= i < more.len() implies #[trigger] more[i] == ' ' || more[i]
            == '\n' || more[i] == '\t' || more[i] == '\r' by {
            assert(more[i] == blanks[i + 1]);
        }
        law_signs_are_passed(more, sign, rest);
    } else {
        assert(s =~= seq![sign] + rest);
        assert(s[0] == sign);
        assert(s.drop_first() =~= rest);
    }
}

/// Members come one after the other: a key, a colon, a value, and a comma before
/// the next, up to the brace that closes the object.
pub proof fn law_members_come_one_by_one(
    s: Seq<char>,
    key: Seq<char>,
    behind: Seq<char>,
    t: Seq<char>,
    value: Seq<char>,
    rest: Seq<char>,
    next: Seq<char>,
    more: Seq<(Seq<char>, Seq<char>)>,
)
    requires
        after(s, '}') is None,
        first_value(s) == Some((key, behind)),
        after(behind, ':') == Some(t),
        first_value(t) == Some((value, rest)),
    ensures
        after(rest, ',') == Some(next) && members(next) == Some(more) ==> members(s) == Some(
            seq![(key, value)] + more,
        ),
        after(rest, ',') is None && after(rest, '}') is Some ==> members(s) == Some(
            seq![(key, value)],
        ),
        forall|e: Seq<char>|
            (#[trigger] after(e, '}')) is Some ==> members(e) == Some(
                Seq::<(Seq<char>, Seq<char>)>::empty(),
            ),
{
    if after(rest, ',') is None && after(rest, '}') is Some {
        assert(members(rest) == Some(Seq::<(Seq<char>, Seq<char>)>::empty()));
        assert(seq![(key, value)] + Seq::<(Seq<char>, Seq<char>)>::empty() =~= seq![(key, value)]);
    }
}

/// Items come one after the other, with a comma before the next, up to the
/// bracket that closes the array.
pub proof fn law_items_come_one_by_one(
    s: Seq<char>,
    value: Seq<char>,
    rest: Seq<char>,
    next: Seq<char>,
    more: Seq<Seq<char>>,
)
    requires
        after(s, ']') is None,
        first_value(s) == Some((value, rest)),
    ensures
        after(rest, ',') == Some(next) && items(next) == Some(more) ==> items(s) == Some(
            seq![value] + more,
        ),
        after(rest, ',') is None && after(rest, ']') is Some ==> items(s) == Some(seq![value]),
        forall|e: Seq<char>|
            (#[trigger] after(e, ']')) is Some ==> items(e) == Some(Seq::<Seq<char>>::empty()),
{
    if after(rest, ',') is None && after(rest, ']') is Some {
        assert(items(rest) == Some(Seq::<Seq<char>>::empty()));
        assert(seq![value] + Seq::<Seq<char>>::empty() =~= seq![value]);
    }
}

/// A record is a whole text; of an object each member that is asked for is read,
/// in its order and as often as it stands there, and one of them that cannot be
/// read spoils it.
pub proof fn law_members_asked_for_are_read(
    s: Seq<char>,
    t: Seq<char>,
    ms: Seq<(Seq<char>, Seq<char>)>,
    known: Seq<Seq<char>>,
    i: int,
)
    requires
        after(s, '{') == Some(t),
        members(t) == Some(ms),
    ensures
        !is_whole(s) ==> record_in(s, known) is None,
        0 <= i < ms.len() && key_in(ms[i].0) is None ==> record_in(s, known) is None,
        0 <= i < ms.len() && (key_in(ms[i].0) matches Some(key) && known.contains(key))
            && wire::document("["@ + ms[i].1 + "]"@) is None ==> record_in(s, known) is None,
        is_whole(s) && (forall|k: int|
            0 <= k < ms.len() ==> (key_in((#[trigger] ms[k]).0) matches Some(key) && (
            known.contains(key) ==> wire::document("["@ + ms[k].1 + "]"@) is Some)))
            ==> record_in(s, known) == Some(JsonView::Object(kept(ms, known))),
        forall|m: (Seq<char>, Seq<char>)|
            (key_in(m.0) matches Some(key) && known.contains(key)) ==> #[trigger] kept(
                ms.push(m),
                known,
            ) == kept(ms, known).push((key_in(m.0)->0, content(m.1))),
        kept(Seq::empty(), known).len() == 0,
{
    assert forall|m: (Seq<char>, Seq<char>)|
        (key_in(m.0) matches Some(key) && known.contains(key)) implies #[trigger] kept(
        ms.push(m),
        known,
    ) == kept(ms, known).push((key_in(m.0)->0, content(m.1))) by {
        assert(ms.push(m).drop_last() =~= ms);
    }
    assert forall|x: Seq<char>| #[trigger] enclosed(x, 1) == "["@ + x + "]"@ by {
        assert(enclosed(x, 0) == x);
    }
    if 0 <= i < ms.len() {
        if key_in(ms[i].0) is None {
            assert(!member_fits(ms[i], known, 1));
        } else if known.contains(key_in(ms[i].0)->0) && wire::document("["@ + ms[i].1 + "]"@)
            is None {
            assert(!member_fits(ms[i], known, 1));
        }
    }
}

/// The content of an object has each member under its key, and that of an array
/// each item, in their order; all else is what `serde_json` reads in it.
pub proof fn law_content_has_all_parts(s: Seq<char>, t: Seq<char>, i: int)
    ensures
        after(s, '{') == Some(t) ==> (members(t) matches Some(ms) ==> (content(
            s,
        ) matches JsonView::Object(fields) && fields.len() == ms.len() && (0 <= i < ms.len() ==> (
        key_in(ms[i].0) matches Some(key) ==> fields[i] == (key, content(ms[i].1)))))),
        after(s, '{') is None && after(s, '[') == Some(t) ==> (items(t) matches Some(vs) ==> (
        content(s) matches JsonView::Array(a) && a.len() == vs.len() && (0 <= i < vs.len() ==> a[i]
            == content(vs[i])))),
        after(s, '{') is None && after(s, '[') is None ==> (wire::document(s) matches Some(v)
            ==> content(s) == v),
{
    if after(s, '{') == Some(t) {
        lemma_after_shorter(s, '{');
        lemma_members_shorter(t);
    }
    if after(s, '[') == Some(t) {
        lemma_after_shorter(s, '[');
        lemma_items_shorter(t);
    }
}

/// A list of records is a whole text of an array, each item of which is one.
pub proof fn law_records_are_read_one_by_one(
    s: Seq<char>,
    t: Seq<char>,
    vs: Seq<Seq<char>>,
    known: Seq<Seq<char>>,
    i: int,
)
    requires
        after(s, '[') == Some(t),
        items(t) == Some(vs),
    ensures
        !is_whole(s) ==> records_in(s, known) is None,
        0 <= i < vs.len() && record_at(vs[i], known, 2) is None ==> records_in(s, known) is None,
        is_whole(s) && (forall|k: int|
            0 <= k < vs.len() ==> record_at(#[trigger] vs[k], known, 2) is Some) ==> (records_in(
            s,
            known,
        ) matches Some(JsonView::Array(a)) && a.len() == vs.len() && (0 <= i < vs.len() ==> Some(
            a[i],
        ) == record_at(vs[i], known, 2))),
        forall|x: Seq<char>|
            (#[trigger] after(x, '[')) is None ==> records_in(x, known) is None,
{
}

/// A text is cut where its first value ends, even where that is its end.
pub proof fn law_values_are_cut_at_their_end(s: Seq<char>, n: nat)
    requires
        value_end(s) == Some(n),
        0 < n <= s.len(),
    ensures
        first_value(s) matches Some((value, rest)) && value.len() == n && value + rest == s,
        is_whole(s) <==> forall|i: int|
            n <= i < s.len() ==> #[trigger] s[i] == ' ' || s[i] == '\n' || s[i] == '\t' || s[i]
                == '\r',
{
    let rest = s.skip(n as int);
    assert(s.take(n as int) + rest =~= s);
    lemma_blank_to_the_end(rest);
    if skip_blank(rest).len() == 0 {
        assert forall|i: int| n <= i < s.len() implies #[trigger] s[i] == ' ' || s[i] == '\n'
            || s[i] == '\t' || s[i] == '\r' by {
            assert(s[i] == rest[i - n]);
        }
    }
    if forall|i: int|
        n <= i < s.len() ==> #[trigger] s[i] == ' ' || s[i] == '\n' || s[i] == '\t' || s[i]
            == '\r' {
        assert forall|i: int| 0 <= i < rest.len() implies is_blank(#[trigger] rest[i]) by {
            assert(rest[i] == s[n + i]);
        }
    }
}

/// Nothing is left behind blanks exactly where all is blank.
proof fn lemma_blank_to_the_end(s: Seq<char>)
    ensures
        skip_blank(s).len() == 0 <==> forall|i: int|
            0 <= i < s.len() ==> is_blank(#[trigger] s[i]),
    decreases s.len(),
{
    if s.len() > 0 && is_blank(s[0]) {
        let rest = s.drop_first();
        lemma_blank_to_the_end(rest);
        if skip_blank(rest).len() == 0 {
            assert forall|i: int| 0 <= i < s.len() implies is_blank(#[trigger] s[i]) by {
                if i > 0 {
                    assert(s[i] == rest[i - 1]);
                }
            }
        }
        if forall|i: int| 0 <= i < s.len() ==> is_blank(#[trigger] s[i]) {
            assert forall|i: int| 0 <= i < rest.len() implies is_blank(#[trigger] rest[i]) by {
                assert(rest[i] == s[i + 1]);
            }
        }
    }
}

/// The members of a record that are not asked for need only a key that can be
/// read.
pub proof fn law_unneeded_members_pass(
    m: (Seq<char>, Seq<char>),
    known: Seq<Seq<char>>,
    depth: nat,
)
    ensures
        member_fits(m, known, depth) <==> (key_in(m.0) matches Some(key) && (known.contains(key)
            ==> wire::document(enclosed(m.1, depth)) is Some)),
        forall|s: Seq<char>| #[trigger] enclosed(s, 0) == s,
        forall|s: Seq<char>| #[trigger] enclosed(s, 1) == "["@ + s + "]"@,
        forall|s: Seq<char>|
            #[trigger] key_in(s) == json::text_in(wire::document(s)),
{
    assert forall|s: Seq<char>| #[trigger] enclosed(s, 1) == "["@ + s + "]"@ by {
        assert(enclosed(s, 0) == s);
    }
}

} // verus!
