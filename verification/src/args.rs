//! The arguments of the server's tools, read from a JSON object. What is not
//! known is refused: a mistyped argument that was ignored would look like a
//! tool that gives a wrong answer.

use crate::json;
use crate::json::{Json, JsonView, Number, NumberView};
use crate::query::MeetingQuerySpec;
use crate::query;
use crate::text;
use crate::text::{
    is_one_of, join, prefixed, put_ordered, quote, starts_with, text_eq, to_decimal, to_signed,
};
use vstd::prelude::*;

verus! {

/// The page that a list shows where no limit is given.
pub const DEFAULT_LIMIT: u32 = 50;

/// The form of an answer.
#[derive(Debug, Clone, Copy, PartialEq, Eq, Structural)]
pub enum ResponseFormat {
    /// A document for programs.
    Json,
    /// A text for people.
    Markdown,
}

impl Default for ResponseFormat {
    fn default() -> (r: Self)
        ensures
            r == ResponseFormat::Json,
    {
        ResponseFormat::Json
    }
}

/// The arguments that begin with an underscore. They are reserved by the
/// protocol, and ignored.
#[derive(Debug, Clone, Copy, PartialEq, Eq)]
pub struct ReservedArgs;

// ---- Errors -----------------------------------------------------------------

/// Why arguments were refused.
#[derive(Debug, PartialEq, Eq)]
pub enum ArgsError {
    /// They are no object, or an argument is repeated or has a value that it
    /// cannot hold: what is said of it.
    Invalid(String),
    /// An argument that is needed is missing.
    Missing(String),
    /// There are arguments that are not known, in their order.
    Unknown(Vec<String>),
}

/// What an [`ArgsError`] says.
pub enum ArgsErrorView {
    Invalid(Seq<char>),
    Missing(Seq<char>),
    Unknown(Seq<Seq<char>>),
}

impl View for ArgsError {
    type V = ArgsErrorView;

    open spec fn view(&self) -> ArgsErrorView {
        match self {
            ArgsError::Invalid(s) => ArgsErrorView::Invalid(s@),
            ArgsError::Missing(s) => ArgsErrorView::Missing(s@),
            ArgsError::Unknown(v) => ArgsErrorView::Unknown(text::text_views(v@)),
        }
    }
}

/// Texts between backquotes.
pub open spec fn backquoted(s: Seq<Seq<char>>) -> Seq<Seq<char>> {
    Seq::new(s.len(), |i: int| "`"@ + s[i] + "`"@)
}

/// What is said of arguments that are not known.
pub open spec fn unknown_message(keys: Seq<Seq<char>>) -> Seq<char> {
    "unknown field"@ + (if keys.len() == 1 {
        ""@
    } else {
        "s"@
    }) + ": "@ + text::joined(backquoted(keys), ", "@)
        + ". Arguments are passed flat, not wrapped in a `params` object; see the tool's inputSchema."@
}

/// What is said of arguments that were refused.
pub open spec fn args_message(e: ArgsErrorView) -> Seq<char> {
    match e {
        ArgsErrorView::Invalid(words) => words,
        ArgsErrorView::Missing(s) => "missing field `"@ + s + "`"@,
        ArgsErrorView::Unknown(keys) => unknown_message(keys),
    }
}

/// A text between two others.
fn between(a: &str, s: &str, b: &str) -> (r: String)
    ensures
        r@ == a@ + s@ + b@,
{
    let mut out: String = a.to_owned();
    out.append(s);
    out.append(b);
    out
}

impl ArgsError {
    /// What went wrong, for a reader.
    pub fn message(&self) -> (r: String)
        ensures
            r@ == args_message(self@),
    {
        match self {
            ArgsError::Invalid(words) => words.clone(),
            ArgsError::Missing(s) => between("missing field `", s.as_str(), "`"),
            ArgsError::Unknown(keys) => {
                let mut parts: Vec<String> = Vec::new();
                let mut i: usize = 0;
                while i < keys.len()
                    invariant
                        i <= keys.len(),
                        parts.len() == i,
                        forall|k: int|
                            0 <= k < i ==> (#[trigger] parts@[k])@ == "`"@ + keys@[k]@ + "`"@,
                    decreases keys.len() - i,
                {
                    parts.push(between("`", keys[i].as_str(), "`"));
                    i += 1;
                }
                assert(text::text_views(parts@) =~= backquoted(text::text_views(keys@)));
                assert(text::text_views(keys@).len() == keys@.len());
                let mut out: String = "unknown field".to_owned();
                if keys.len() == 1 {
                    out.append("");
                } else {
                    out.append("s");
                }
                out.append(": ");
                out.append(join(&parts, ", ").as_str());
                out.append(
                    ". Arguments are passed flat, not wrapped in a `params` object; see the tool's inputSchema.",
                );
                out
            },
        }
    }
}

// ---- Unknown arguments ------------------------------------------------------

/// Whether a key is reserved: it begins with an underscore.
pub open spec fn is_reserved(key: Seq<char>) -> bool {
    text::begins_with(key, "_"@)
}

/// The keys of an object that are neither known nor reserved.
pub open spec fn unknown_keys(
    fields: Seq<(Seq<char>, JsonView)>,
    known: Seq<Seq<char>>,
) -> Seq<Seq<char>>
    decreases fields.len(),
{
    if fields.len() == 0 {
        Seq::empty()
    } else {
        let before = unknown_keys(fields.drop_last(), known);
        let key = fields.last().0;
        if known.contains(key) || is_reserved(key) {
            before
        } else {
            before.push(key)
        }
    }
}

/// Whether all keys are known or reserved; those that are not, in their order.
pub open spec fn checked(fields: Seq<(Seq<char>, JsonView)>, known: Seq<Seq<char>>) -> Option<
    Seq<Seq<char>>,
> {
    let keys = unknown_keys(fields, known);
    if keys.len() == 0 {
        None
    } else {
        Some(text::ordered(keys))
    }
}

/// Refuses keys that are neither known nor reserved.
fn check_keys(fields: &Vec<(String, Json)>, known: &Vec<&'static str>) -> (r: Result<
    ReservedArgs,
    ArgsError,
>)
    ensures
        match checked(json::field_views(fields@), text::literal_views(known@)) {
            None => r is Ok,
            Some(keys) => r matches Err(e) && e@ == ArgsErrorView::Unknown(keys),
        },
{
    let ghost all = json::field_views(fields@);
    let ghost names = text::literal_views(known@);
    let mut unknown: Vec<String> = Vec::new();
    assert(text::text_views(unknown@) =~= text::ordered(unknown_keys(all.take(0), names)));
    let mut i: usize = 0;
    while i < fields.len()
        invariant
            i <= fields.len(),
            all == json::field_views(fields@),
            names == text::literal_views(known@),
            text::text_views(unknown@) == text::ordered(unknown_keys(all.take(i as int), names)),
            unknown@.len() == unknown_keys(all.take(i as int), names).len(),
        decreases fields.len() - i,
    {
        let key = fields[i].0.as_str();
        assert(all.take(i + 1).drop_last() =~= all.take(i as int));
        assert(all.take(i + 1).last().0 == key@);
        if !is_one_of(key, known) && !starts_with(key, "_") {
            let ghost keys = unknown_keys(all.take(i as int), names);
            put_ordered(&mut unknown, key);
            assert(keys.push(key@).drop_last() =~= keys);
            proof {
                lemma_with_ordered_len(text::ordered(keys), key@);
            }
            assert(text::text_views(unknown@).len() == unknown@.len());
        }
        i += 1;
    }
    assert(all.take(fields.len() as int) =~= all);
    if unknown.len() == 0 {
        Ok(ReservedArgs)
    } else {
        Err(ArgsError::Unknown(unknown))
    }
}

/// Putting a text into a list makes it one longer.
proof fn lemma_with_ordered_len(s: Seq<Seq<char>>, x: Seq<char>)
    ensures
        text::with_ordered(s, x).len() == s.len() + 1,
    decreases s.len(),
{
    if s.len() > 0 && !text::precedes(x, s[0]) {
        lemma_with_ordered_len(s.drop_first(), x);
    }
}

// ---- Values -----------------------------------------------------------------

/// What a value of a document is called, in the words of `serde`.
pub open spec fn described(v: JsonView) -> Seq<char> {
    match v {
        JsonView::Null => "null"@,
        JsonView::Bool(b) => "boolean `"@ + (if b {
            "true"@
        } else {
            "false"@
        }) + "`"@,
        JsonView::Number(NumberView::Unsigned(n)) => "integer `"@ + text::decimal(n as nat) + "`"@,
        JsonView::Number(NumberView::Negative(n)) => "integer `"@ + text::signed(n as int) + "`"@,
        JsonView::Number(NumberView::Decimal(s)) => "floating point `"@ + s + "`"@,
        JsonView::Text(s) => "string "@ + text::quoted(s),
        JsonView::Array(_) => "sequence"@,
        JsonView::Object(_) => "map"@,
    }
}

/// What is said of a value whose type is wrong.
pub open spec fn wrong_type(v: JsonView, wanted: Seq<char>) -> Seq<char> {
    "invalid type: "@ + described(v) + ", expected "@ + wanted
}

/// What is said of a value that has the right type and is wrong nevertheless.
pub open spec fn wrong_value(v: JsonView, wanted: Seq<char>) -> Seq<char> {
    "invalid value: "@ + described(v) + ", expected "@ + wanted
}

/// What an argument can hold.
#[derive(Debug, Clone, Copy, PartialEq, Eq, Structural)]
pub enum Slot {
    /// A text.
    Text,
    /// A text, or null.
    OptionalText,
    /// A number of 32 bits.
    Number,
    /// A truth value.
    Truth,
    /// A format: its name, or an object in which its name is the only key and
    /// has no value.
    Format,
}

/// The format that a name stands for.
pub open spec fn format_named(s: Seq<char>) -> Option<ResponseFormat> {
    if s == "json"@ {
        Some(ResponseFormat::Json)
    } else if s == "markdown"@ {
        Some(ResponseFormat::Markdown)
    } else {
        None
    }
}

/// What is said of a name that stands for no format.
pub open spec fn unknown_format(s: Seq<char>) -> Option<Seq<char>> {
    if format_named(s) is Some {
        None
    } else {
        Some("unknown variant `"@ + s + "`, expected `json` or `markdown`"@)
    }
}

/// What is said of a value that an argument cannot hold.
pub open spec fn misfit(slot: Slot, v: JsonView) -> Option<Seq<char>> {
    match (slot, v) {
        (Slot::Text, JsonView::Text(_)) => None,
        (Slot::Text, _) => Some(wrong_type(v, "a string"@)),
        (Slot::OptionalText, JsonView::Null) => None,
        (Slot::OptionalText, JsonView::Text(_)) => None,
        (Slot::OptionalText, _) => Some(wrong_type(v, "a string"@)),
        (Slot::Number, JsonView::Number(NumberView::Unsigned(n))) => if n <= u32::MAX {
            None
        } else {
            Some(wrong_value(v, "u32"@))
        },
        (Slot::Number, JsonView::Number(NumberView::Negative(_))) => Some(wrong_value(v, "u32"@)),
        (Slot::Number, _) => Some(wrong_type(v, "u32"@)),
        (Slot::Truth, JsonView::Bool(_)) => None,
        (Slot::Truth, _) => Some(wrong_type(v, "a boolean"@)),
        (Slot::Format, JsonView::Text(s)) => unknown_format(s),
        (Slot::Format, JsonView::Object(fields)) => if fields.len() != 1 {
            Some(wrong_value(v, "map with a single key"@))
        } else if unknown_format(fields[0].0) is Some {
            unknown_format(fields[0].0)
        } else if fields[0].1 is Null {
            None
        } else {
            Some(wrong_type(fields[0].1, "unit"@))
        },
        (Slot::Format, _) => Some(wrong_type(v, "string or map"@)),
    }
}

/// What the argument of a name can hold, if there is such an argument.
pub open spec fn slot_of(slots: Seq<(Seq<char>, Slot)>, key: Seq<char>) -> Option<Slot>
    decreases slots.len(),
{
    if slots.len() == 0 {
        None
    } else if slots[0].0 == key {
        Some(slots[0].1)
    } else {
        slot_of(slots.drop_first(), key)
    }
}

/// Whether some fields have a key.
pub open spec fn has_key(fields: Seq<(Seq<char>, JsonView)>, key: Seq<char>) -> bool {
    exists|i: int| 0 <= i < fields.len() && #[trigger] fields[i].0 == key
}

/// What is said of the first field that is wrong: an argument that is repeated,
/// or one with a value that it cannot hold. Fields that are no argument are not
/// looked at.
pub open spec fn refusal(
    fields: Seq<(Seq<char>, JsonView)>,
    slots: Seq<(Seq<char>, Slot)>,
) -> Option<Seq<char>>
    decreases fields.len(),
{
    if fields.len() == 0 {
        None
    } else {
        let before = refusal(fields.drop_last(), slots);
        let (key, value) = fields.last();
        match (before, slot_of(slots, key)) {
            (Some(s), _) => Some(s),
            (None, None) => None,
            (None, Some(slot)) => if has_key(fields.drop_last(), key) {
                Some("duplicate field `"@ + key + "`"@)
            } else {
                misfit(slot, value)
            },
        }
    }
}

/// What the arguments of a list can hold.
pub open spec fn slot_views(s: Seq<(&'static str, Slot)>) -> Seq<(Seq<char>, Slot)> {
    Seq::new(s.len(), |i: int| (s[i].0@, s[i].1))
}

/// What a value of a document is called.
fn describe(v: &Json) -> (r: String)
    ensures
        r@ == described(v@),
{
    match v {
        Json::Null => "null".to_owned(),
        Json::Bool(b) => between(
            "boolean `",
            if *b {
                "true"
            } else {
                "false"
            },
            "`",
        ),
        Json::Number(Number::Unsigned(n)) => between("integer `", to_decimal(*n).as_str(), "`"),
        Json::Number(Number::Negative(n)) => between("integer `", to_signed(*n).as_str(), "`"),
        Json::Number(Number::Decimal(s)) => between("floating point `", s.as_str(), "`"),
        Json::Text(s) => prefixed("string ", quote(s.as_str()).as_str()),
        Json::Array(_) => "sequence".to_owned(),
        Json::Object(_) => "map".to_owned(),
    }
}

/// What is said of a value whose type is wrong.
fn tell_wrong_type(v: &Json, wanted: &str) -> (r: String)
    ensures
        r@ == wrong_type(v@, wanted@),
{
    let mut out = between("invalid type: ", describe(v).as_str(), ", expected ");
    out.append(wanted);
    out
}

/// What is said of a value that has the right type and is wrong nevertheless.
fn tell_wrong_value(v: &Json, wanted: &str) -> (r: String)
    ensures
        r@ == wrong_value(v@, wanted@),
{
    let mut out = between("invalid value: ", describe(v).as_str(), ", expected ");
    out.append(wanted);
    out
}

/// The format that a name stands for.
fn named_format(s: &str) -> (r: Option<ResponseFormat>)
    ensures
        r == format_named(s@),
{
    if text_eq(s, "json") {
        Some(ResponseFormat::Json)
    } else if text_eq(s, "markdown") {
        Some(ResponseFormat::Markdown)
    } else {
        None
    }
}

/// What is said of a name that stands for no format.
fn tell_unknown_format(s: &str) -> (r: Option<String>)
    ensures
        json::seen(r) == unknown_format(s@),
{
    match named_format(s) {
        Some(_) => None,
        None => Some(between("unknown variant `", s, "`, expected `json` or `markdown`")),
    }
}

/// What is said of a value that a format cannot have.
fn tell_format_misfit(v: &Json) -> (r: Option<String>)
    ensures
        json::seen(r) == misfit(Slot::Format, v@),
{
    match v {
        Json::Text(s) => tell_unknown_format(s.as_str()),
        Json::Object(fields) => {
            proof {
                json::lemma_object_view(*fields);
                assert(json::field_views(fields@).len() == fields@.len());
            }
            if fields.len() != 1 {
                return Some(tell_wrong_value(v, "map with a single key"));
            }
            assert(json::field_views(fields@)[0] == (fields@[0].0@, fields@[0].1@));
            match tell_unknown_format(fields[0].0.as_str()) {
                Some(words) => Some(words),
                None => match &fields[0].1 {
                    Json::Null => None,
                    other => Some(tell_wrong_type(other, "unit")),
                },
            }
        },
        _ => Some(tell_wrong_type(v, "string or map")),
    }
}

/// What is said of a value that an argument cannot hold.
fn tell_misfit(slot: Slot, v: &Json) -> (r: Option<String>)
    ensures
        json::seen(r) == misfit(slot, v@),
{
    match slot {
        Slot::Text => match v {
            Json::Text(_) => None,
            _ => Some(tell_wrong_type(v, "a string")),
        },
        Slot::OptionalText => match v {
            Json::Null => None,
            Json::Text(_) => None,
            _ => Some(tell_wrong_type(v, "a string")),
        },
        Slot::Number => match v {
            Json::Number(Number::Unsigned(n)) => if *n <= u32::MAX as u64 {
                None
            } else {
                Some(tell_wrong_value(v, "u32"))
            },
            Json::Number(Number::Negative(_)) => Some(tell_wrong_value(v, "u32")),
            _ => Some(tell_wrong_type(v, "u32")),
        },
        Slot::Truth => match v {
            Json::Bool(_) => None,
            _ => Some(tell_wrong_type(v, "a boolean")),
        },
        Slot::Format => tell_format_misfit(v),
    }
}

/// What the argument of a name can hold.
fn find_slot(slots: &Vec<(&'static str, Slot)>, key: &str) -> (r: Option<Slot>)
    ensures
        r == slot_of(slot_views(slots@), key@),
{
    let ghost all = slot_views(slots@);
    let mut i: usize = 0;
    assert(all.skip(0) =~= all);
    while i < slots.len()
        invariant
            i <= slots.len(),
            all == slot_views(slots@),
            slot_of(all, key@) == slot_of(all.skip(i as int), key@),
        decreases slots.len() - i,
    {
        assert(all.skip(i as int)[0] == (slots@[i as int].0@, slots@[i as int].1));
        if text_eq(slots[i].0, key) {
            return Some(slots[i].1);
        }
        assert(all.skip(i as int).drop_first() =~= all.skip(i + 1));
        i += 1;
    }
    None
}

/// Whether one of the first fields has a key.
fn repeats(fields: &Vec<(String, Json)>, upto: usize, key: &str) -> (r: bool)
    requires
        upto <= fields@.len(),
    ensures
        r == has_key(json::field_views(fields@).take(upto as int), key@),
{
    let ghost first = json::field_views(fields@).take(upto as int);
    let mut i: usize = 0;
    while i < upto
        invariant
            i <= upto <= fields@.len(),
            first == json::field_views(fields@).take(upto as int),
            forall|k: int| 0 <= k < i ==> (#[trigger] first[k]).0 != key@,
        decreases upto - i,
    {
        assert(first[i as int].0 == fields@[i as int].0@);
        if text_eq(fields[i].0.as_str(), key) {
            return true;
        }
        i += 1;
    }
    false
}

/// Refuses the first field that is wrong.
fn check_values(fields: &Vec<(String, Json)>, slots: &Vec<(&'static str, Slot)>) -> (r: Option<
    ArgsError,
>)
    ensures
        match refusal(json::field_views(fields@), slot_views(slots@)) {
            Some(words) => r matches Some(e) && e@ == ArgsErrorView::Invalid(words),
            None => r is None,
        },
{
    let ghost all = json::field_views(fields@);
    let ghost names = slot_views(slots@);
    let mut i: usize = 0;
    while i < fields.len()
        invariant
            i <= fields.len(),
            all == json::field_views(fields@),
            names == slot_views(slots@),
            refusal(all.take(i as int), names) is None,
        decreases fields.len() - i,
    {
        let key = fields[i].0.as_str();
        assert(all.take(i + 1).drop_last() =~= all.take(i as int));
        assert(all.take(i + 1).last() == (key@, fields@[i as int].1@));
        if let Some(slot) = find_slot(slots, key) {
            let told = if repeats(fields, i, key) {
                Some(between("duplicate field `", key, "`"))
            } else {
                tell_misfit(slot, &fields[i].1)
            };
            if let Some(words) = told {
                proof {
                    lemma_refusal_stays(all, i + 1, names);
                }
                return Some(ArgsError::Invalid(words));
            }
        }
        i += 1;
    }
    assert(all.take(fields.len() as int) =~= all);
    None
}

/// Later fields do not change what is said of an earlier one.
proof fn lemma_refusal_stays(
    fields: Seq<(Seq<char>, JsonView)>,
    n: int,
    slots: Seq<(Seq<char>, Slot)>,
)
    requires
        0 <= n <= fields.len(),
        refusal(fields.take(n), slots) is Some,
    ensures
        refusal(fields, slots) == refusal(fields.take(n), slots),
    decreases fields.len(),
{
    if n < fields.len() {
        assert(fields.drop_last().take(n) =~= fields.take(n));
        lemma_refusal_stays(fields.drop_last(), n, slots);
    } else {
        assert(fields.take(n) =~= fields);
    }
}

/// An optional text of an object.
pub open spec fn text_at(v: JsonView, key: Seq<char>) -> Option<Seq<char>> {
    match v.get(key) {
        Some(JsonView::Text(s)) => Some(s),
        _ => None,
    }
}

/// A number of 32 bits of an object, or a default.
pub open spec fn number_at(v: JsonView, key: Seq<char>, default: u32) -> u32 {
    match v.get(key) {
        Some(JsonView::Number(NumberView::Unsigned(n))) => if n <= u32::MAX {
            n as u32
        } else {
            default
        },
        _ => default,
    }
}

/// A truth value of an object, or a default.
pub open spec fn truth_at(v: JsonView, key: Seq<char>, default: bool) -> bool {
    match v.get(key) {
        Some(JsonView::Bool(b)) => b,
        _ => default,
    }
}

/// The format that an object asks for, or a default.
pub open spec fn format_at(v: JsonView, default: ResponseFormat) -> ResponseFormat {
    let named = match v.get("response_format"@) {
        Some(JsonView::Text(s)) => format_named(s),
        Some(JsonView::Object(fields)) => if fields.len() == 1 {
            format_named(fields[0].0)
        } else {
            None
        },
        _ => None,
    };
    match named {
        Some(f) => f,
        None => default,
    }
}

/// An optional text of an object.
fn read_text(v: &Json, key: &str) -> (r: Option<String>)
    ensures
        json::seen(r) == text_at(v@, key@),
{
    match v.get(key) {
        Some(Json::Text(s)) => Some(s.clone()),
        _ => None,
    }
}

/// A number of 32 bits of an object, or a default.
fn read_number(v: &Json, key: &str, default: u32) -> (r: u32)
    ensures
        r == number_at(v@, key@, default),
{
    match v.get(key) {
        Some(Json::Number(Number::Unsigned(n))) => if *n <= u32::MAX as u64 {
            *n as u32
        } else {
            default
        },
        _ => default,
    }
}

/// A truth value of an object, or a default.
fn read_truth(v: &Json, key: &str, default: bool) -> (r: bool)
    ensures
        r == truth_at(v@, key@, default),
{
    match v.get(key) {
        Some(Json::Bool(b)) => *b,
        _ => default,
    }
}

/// The format that an object asks for, or a default.
fn read_format(v: &Json, default: ResponseFormat) -> (r: ResponseFormat)
    ensures
        r == format_at(v@, default),
{
    let named = match v.get("response_format") {
        Some(Json::Text(s)) => named_format(s.as_str()),
        Some(Json::Object(fields)) => {
            proof {
                json::lemma_object_view(*fields);
                assert(json::field_views(fields@).len() == fields@.len());
            }
            if fields.len() == 1 {
                assert(json::field_views(fields@)[0] == (fields@[0].0@, fields@[0].1@));
                named_format(fields[0].0.as_str())
            } else {
                None
            }
        },
        _ => None,
    };
    match named {
        Some(f) => f,
        None => default,
    }
}

// ---- Lists ------------------------------------------------------------------

/// The arguments of a list of meetings.
#[derive(Debug, PartialEq, Eq)]
pub struct ListMeetingsArgs {
    pub date: Option<String>,
    pub since: Option<String>,
    pub until: Option<String>,
    pub created_since: Option<String>,
    pub created_until: Option<String>,
    pub updated_since: Option<String>,
    pub updated_until: Option<String>,
    pub search: Option<String>,
    pub limit: u32,
    pub offset: u32,
    pub response_format: ResponseFormat,
    pub include_shared: bool,
    pub reserved: ReservedArgs,
}

/// What [`ListMeetingsArgs`] say.
pub struct ListArgsView {
    pub query: query::QuerySpecView,
    pub response_format: ResponseFormat,
}

impl View for ListMeetingsArgs {
    type V = ListArgsView;

    open spec fn view(&self) -> ListArgsView {
        ListArgsView {
            query: query::QuerySpecView {
                date: json::seen(self.date),
                since: json::seen(self.since),
                until: json::seen(self.until),
                created_since: json::seen(self.created_since),
                created_until: json::seen(self.created_until),
                updated_since: json::seen(self.updated_since),
                updated_until: json::seen(self.updated_until),
                search: json::seen(self.search),
                limit: self.limit,
                offset: self.offset,
                include_shared: self.include_shared,
            },
            response_format: self.response_format,
        }
    }
}

/// The parameters of a list of meetings, alike for every way to ask for one.
pub open spec fn list_parameters() -> Seq<Seq<char>> {
    seq![
        "created_since"@,
        "created_until"@,
        "date"@,
        "include_shared"@,
        "limit"@,
        "offset"@,
        "search"@,
        "since"@,
        "until"@,
        "updated_since"@,
        "updated_until"@,
    ]
}

/// The parameters of a list of meetings, alike for every way to ask for one.
pub fn meeting_list_parameters() -> (r: Vec<&'static str>)
    ensures
        text::literal_views(r@) == list_parameters(),
{
    let r: Vec<&'static str> = vec![
        "created_since",
        "created_until",
        "date",
        "include_shared",
        "limit",
        "offset",
        "search",
        "since",
        "until",
        "updated_since",
        "updated_until",
    ];
    assert(text::literal_views(r@) =~= list_parameters());
    r
}

/// What the arguments of a list of meetings can hold.
pub open spec fn list_slots() -> Seq<(Seq<char>, Slot)> {
    seq![
        ("date"@, Slot::OptionalText),
        ("since"@, Slot::OptionalText),
        ("until"@, Slot::OptionalText),
        ("created_since"@, Slot::OptionalText),
        ("created_until"@, Slot::OptionalText),
        ("updated_since"@, Slot::OptionalText),
        ("updated_until"@, Slot::OptionalText),
        ("search"@, Slot::OptionalText),
        ("limit"@, Slot::Number),
        ("offset"@, Slot::Number),
        ("response_format"@, Slot::Format),
        ("include_shared"@, Slot::Truth),
    ]
}

/// The arguments of a list of meetings in a document, or why they are refused:
/// the first field that is wrong is told; then the keys that are not known.
pub open spec fn list_args_in(v: JsonView) -> Result<ListArgsView, ArgsErrorView> {
    match v {
        JsonView::Object(fields) => match (
            refusal(fields, list_slots()),
            checked(fields, list_parameters().push("response_format"@)),
        ) {
            (Some(words), _) => Err(ArgsErrorView::Invalid(words)),
            (None, Some(keys)) => Err(ArgsErrorView::Unknown(keys)),
            (None, None) => Ok(
                ListArgsView {
                    query: query::QuerySpecView {
                        date: text_at(v, "date"@),
                        since: text_at(v, "since"@),
                        until: text_at(v, "until"@),
                        created_since: text_at(v, "created_since"@),
                        created_until: text_at(v, "created_until"@),
                        updated_since: text_at(v, "updated_since"@),
                        updated_until: text_at(v, "updated_until"@),
                        search: text_at(v, "search"@),
                        limit: number_at(v, "limit"@, DEFAULT_LIMIT),
                        offset: number_at(v, "offset"@, 0),
                        include_shared: truth_at(v, "include_shared"@, true),
                    },
                    response_format: format_at(v, ResponseFormat::Json),
                },
            ),
        },
        _ => Err(ArgsErrorView::Invalid(wrong_type(v, "struct ListMeetingsArgs"@))),
    }
}

/// Whether a result of reading arguments is as stated.
pub open spec fn same_list(
    r: Result<ListMeetingsArgs, ArgsError>,
    want: Result<ListArgsView, ArgsErrorView>,
) -> bool {
    match want {
        Ok(v) => r matches Ok(a) && a@ == v,
        Err(e) => r matches Err(f) && f@ == e,
    }
}

/// What the arguments of a list of meetings can hold.
fn list_slot_table() -> (r: Vec<(&'static str, Slot)>)
    ensures
        slot_views(r@) == list_slots(),
{
    let r: Vec<(&'static str, Slot)> = vec![
        ("date", Slot::OptionalText),
        ("since", Slot::OptionalText),
        ("until", Slot::OptionalText),
        ("created_since", Slot::OptionalText),
        ("created_until", Slot::OptionalText),
        ("updated_since", Slot::OptionalText),
        ("updated_until", Slot::OptionalText),
        ("search", Slot::OptionalText),
        ("limit", Slot::Number),
        ("offset", Slot::Number),
        ("response_format", Slot::Format),
        ("include_shared", Slot::Truth),
    ];
    assert(slot_views(r@) =~= list_slots());
    r
}

impl ListMeetingsArgs {
    /// The arguments of a list of meetings in a document, or why they are
    /// refused.
    pub fn from_json(v: &Json) -> (r: Result<ListMeetingsArgs, ArgsError>)
        ensures
            same_list(r, list_args_in(v@)),
    {
        let fields = match v {
            Json::Object(fields) => fields,
            _ => {
                return Err(ArgsError::Invalid(tell_wrong_type(v, "struct ListMeetingsArgs")));
            },
        };
        proof {
            json::lemma_object_view(*fields);
        }
        if let Some(e) = check_values(fields, &list_slot_table()) {
            return Err(e);
        }
        let mut known = meeting_list_parameters();
        known.push("response_format");
        assert(text::literal_views(known@) =~= list_parameters().push("response_format"@));
        match check_keys(fields, &known) {
            Ok(reserved) => Ok(
                ListMeetingsArgs {
                    date: read_text(v, "date"),
                    since: read_text(v, "since"),
                    until: read_text(v, "until"),
                    created_since: read_text(v, "created_since"),
                    created_until: read_text(v, "created_until"),
                    updated_since: read_text(v, "updated_since"),
                    updated_until: read_text(v, "updated_until"),
                    search: read_text(v, "search"),
                    limit: read_number(v, "limit", DEFAULT_LIMIT),
                    offset: read_number(v, "offset", 0),
                    response_format: read_format(v, ResponseFormat::Json),
                    include_shared: read_truth(v, "include_shared", true),
                    reserved,
                },
            ),
            Err(e) => Err(e),
        }
    }

    /// The query that the arguments ask for.
    pub fn query(&self) -> (r: MeetingQuerySpec<'_>)
        ensures
            r@ == self@.query,
    {
        MeetingQuerySpec {
            date: json::str_of(&self.date),
            since: json::str_of(&self.since),
            until: json::str_of(&self.until),
            created_since: json::str_of(&self.created_since),
            created_until: json::str_of(&self.created_until),
            updated_since: json::str_of(&self.updated_since),
            updated_until: json::str_of(&self.updated_until),
            search: json::str_of(&self.search),
            limit: self.limit,
            offset: self.offset,
            include_shared: self.include_shared,
        }
    }
}

// ---- One meeting ------------------------------------------------------------

/// The arguments of a tool for one meeting.
#[verifier::ext_equal]
pub struct IdArgsView {
    pub meeting_id: Seq<char>,
    pub response_format: ResponseFormat,
}

/// What the arguments of a tool for one meeting can hold.
pub open spec fn id_slots() -> Seq<(Seq<char>, Slot)> {
    seq![("meeting_id"@, Slot::Text), ("response_format"@, Slot::Format)]
}

/// The arguments of a tool for one meeting in a document, or why they are
/// refused: the first field that is wrong is told; then that the meeting is
/// missing; then the keys that are not known. `wanted` is what such arguments
/// are called.
pub open spec fn id_args_in(v: JsonView, default: ResponseFormat, wanted: Seq<char>) -> Result<
    IdArgsView,
    ArgsErrorView,
> {
    match v {
        JsonView::Object(fields) => match (
            refusal(fields, id_slots()),
            text_at(v, "meeting_id"@),
            checked(fields, seq!["meeting_id"@, "response_format"@]),
        ) {
            (Some(words), _, _) => Err(ArgsErrorView::Invalid(words)),
            (None, None, _) => Err(ArgsErrorView::Missing("meeting_id"@)),
            (None, Some(_), Some(keys)) => Err(ArgsErrorView::Unknown(keys)),
            (None, Some(meeting_id), None) => Ok(
                IdArgsView { meeting_id, response_format: format_at(v, default) },
            ),
        },
        _ => Err(ArgsErrorView::Invalid(wrong_type(v, wanted))),
    }
}

/// The arguments of a tool for one meeting in a document.
fn read_id_args(v: &Json, default: ResponseFormat, wanted: &str) -> (r: Result<
    (String, ResponseFormat, ReservedArgs),
    ArgsError,
>)
    ensures
        match id_args_in(v@, default, wanted@) {
            Ok(a) => r matches Ok(b) && b.0@ == a.meeting_id && b.1 == a.response_format,
            Err(e) => r matches Err(f) && f@ == e,
        },
{
    let fields = match v {
        Json::Object(fields) => fields,
        _ => {
            return Err(ArgsError::Invalid(tell_wrong_type(v, wanted)));
        },
    };
    proof {
        json::lemma_object_view(*fields);
    }
    let slots: Vec<(&'static str, Slot)> = vec![
        ("meeting_id", Slot::Text),
        ("response_format", Slot::Format),
    ];
    assert(slot_views(slots@) =~= id_slots());
    if let Some(e) = check_values(fields, &slots) {
        return Err(e);
    }
    let meeting_id = match read_text(v, "meeting_id") {
        Some(s) => s,
        None => {
            return Err(ArgsError::Missing("meeting_id".to_owned()));
        },
    };
    let known: Vec<&'static str> = vec!["meeting_id", "response_format"];
    assert(text::literal_views(known@) =~= seq!["meeting_id"@, "response_format"@]);
    match check_keys(fields, &known) {
        Ok(reserved) => Ok((meeting_id, read_format(v, default), reserved)),
        Err(e) => Err(e),
    }
}

/// The arguments of the notes of a meeting. Notes are prose, so they come as
/// markdown where no format is given.
#[derive(Debug, PartialEq, Eq)]
pub struct NotesArgs {
    pub meeting_id: String,
    pub response_format: ResponseFormat,
    pub reserved: ReservedArgs,
}

impl View for NotesArgs {
    type V = IdArgsView;

    open spec fn view(&self) -> IdArgsView {
        IdArgsView { meeting_id: self.meeting_id@, response_format: self.response_format }
    }
}

impl NotesArgs {
    /// The arguments in a document, or why they are refused.
    pub fn from_json(v: &Json) -> (r: Result<NotesArgs, ArgsError>)
        ensures
            match id_args_in(v@, ResponseFormat::Markdown, "struct NotesArgs"@) {
                Ok(a) => r matches Ok(b) && b@ == a,
                Err(e) => r matches Err(f) && f@ == e,
            },
    {
        match read_id_args(v, ResponseFormat::Markdown, "struct NotesArgs") {
            Ok((meeting_id, response_format, reserved)) => Ok(
                NotesArgs { meeting_id, response_format, reserved },
            ),
            Err(e) => Err(e),
        }
    }
}

/// The arguments of the transcript or the context of a meeting.
#[derive(Debug, PartialEq, Eq)]
pub struct MeetingIdFormatArgs {
    pub meeting_id: String,
    pub response_format: ResponseFormat,
    pub reserved: ReservedArgs,
}

impl View for MeetingIdFormatArgs {
    type V = IdArgsView;

    open spec fn view(&self) -> IdArgsView {
        IdArgsView { meeting_id: self.meeting_id@, response_format: self.response_format }
    }
}

impl MeetingIdFormatArgs {
    /// The arguments in a document, or why they are refused.
    pub fn from_json(v: &Json) -> (r: Result<MeetingIdFormatArgs, ArgsError>)
        ensures
            match id_args_in(v@, ResponseFormat::Json, "struct MeetingIdFormatArgs"@) {
                Ok(a) => r matches Ok(b) && b@ == a,
                Err(e) => r matches Err(f) && f@ == e,
            },
    {
        match read_id_args(v, ResponseFormat::Json, "struct MeetingIdFormatArgs") {
            Ok((meeting_id, response_format, reserved)) => Ok(
                MeetingIdFormatArgs { meeting_id, response_format, reserved },
            ),
            Err(e) => Err(e),
        }
    }
}

// ---- Credentials ------------------------------------------------------------

/// The arguments of the tools for credentials.
#[derive(Debug, PartialEq, Eq)]
pub struct AuthArgs {
    pub response_format: ResponseFormat,
    pub reserved: ReservedArgs,
}

/// The format that the arguments of the tools for credentials ask for, or why
/// they are refused.
pub open spec fn auth_args_in(v: JsonView) -> Result<ResponseFormat, ArgsErrorView> {
    match v {
        JsonView::Object(fields) => match (
            refusal(fields, seq![("response_format"@, Slot::Format)]),
            checked(fields, seq!["response_format"@]),
        ) {
            (Some(words), _) => Err(ArgsErrorView::Invalid(words)),
            (None, Some(keys)) => Err(ArgsErrorView::Unknown(keys)),
            (None, None) => Ok(format_at(v, ResponseFormat::Json)),
        },
        _ => Err(ArgsErrorView::Invalid(wrong_type(v, "struct AuthArgs"@))),
    }
}

impl AuthArgs {
    /// The arguments in a document, or why they are refused.
    pub fn from_json(v: &Json) -> (r: Result<AuthArgs, ArgsError>)
        ensures
            match auth_args_in(v@) {
                Ok(f) => r matches Ok(a) && a.response_format == f,
                Err(e) => r matches Err(f) && f@ == e,
            },
    {
        let fields = match v {
            Json::Object(fields) => fields,
            _ => {
                return Err(ArgsError::Invalid(tell_wrong_type(v, "struct AuthArgs")));
            },
        };
        proof {
            json::lemma_object_view(*fields);
        }
        let slots: Vec<(&'static str, Slot)> = vec![("response_format", Slot::Format)];
        assert(slot_views(slots@) =~= seq![("response_format"@, Slot::Format)]);
        if let Some(e) = check_values(fields, &slots) {
            return Err(e);
        }
        let known: Vec<&'static str> = vec!["response_format"];
        assert(text::literal_views(known@) =~= seq!["response_format"@]);
        match check_keys(fields, &known) {
            Ok(reserved) => Ok(
                AuthArgs { response_format: read_format(v, ResponseFormat::Json), reserved },
            ),
            Err(e) => Err(e),
        }
    }
}

// ---- What holds of arguments ------------------------------------------------

/// A key that is neither known nor reserved is never let pass, whatever else is
/// there; and where every key is known or reserved, none is complained of.
pub proof fn law_unknown_keys_are_refused(
    fields: Seq<(Seq<char>, JsonView)>,
    known: Seq<Seq<char>>,
)
    ensures
        checked(fields, known) is Some <==> exists|i: int|
            0 <= i < fields.len() && !known.contains(#[trigger] fields[i].0) && !is_reserved(
                fields[i].0,
            ),
    decreases fields.len(),
{
    if fields.len() > 0 {
        let rest = fields.drop_last();
        law_unknown_keys_are_refused(rest, known);
        assert(fields[fields.len() - 1] == fields.last());
        if checked(rest, known) is Some {
            let i = choose|i: int|
                0 <= i < rest.len() && !known.contains(#[trigger] rest[i].0) && !is_reserved(
                    rest[i].0,
                );
            assert(fields[i] == rest[i]);
        }
        if exists|i: int|
            0 <= i < fields.len() && !known.contains(#[trigger] fields[i].0) && !is_reserved(
                fields[i].0,
            ) {
            let i = choose|i: int|
                0 <= i < fields.len() && !known.contains(#[trigger] fields[i].0) && !is_reserved(
                    fields[i].0,
                );
            if i < rest.len() {
                assert(rest[i] == fields[i]);
            }
        }
    }
}

/// Whether a field is an argument that is repeated, or that has a value it
/// cannot hold.
pub open spec fn is_wrong(
    fields: Seq<(Seq<char>, JsonView)>,
    slots: Seq<(Seq<char>, Slot)>,
    i: int,
) -> bool {
    slot_of(slots, fields[i].0) matches Some(slot) && (has_key(fields.take(i), fields[i].0)
        || misfit(slot, fields[i].1) is Some)
}

/// An argument that is repeated, or that has a value it cannot hold, is never
/// let pass, whatever else is there; and where there is none, nothing is said of
/// the values.
pub proof fn law_wrong_values_are_refused(
    fields: Seq<(Seq<char>, JsonView)>,
    slots: Seq<(Seq<char>, Slot)>,
)
    ensures
        refusal(fields, slots) is Some <==> exists|i: int|
            0 <= i < fields.len() && #[trigger] is_wrong(fields, slots, i),
    decreases fields.len(),
{
    if fields.len() > 0 {
        let rest = fields.drop_last();
        let last = fields.len() - 1;
        law_wrong_values_are_refused(rest, slots);
        assert(fields.take(last) =~= rest);
        assert forall|i: int| 0 <= i < last implies is_wrong(rest, slots, i) == #[trigger] is_wrong(
            fields,
            slots,
            i,
        ) by {
            assert(rest.take(i) =~= fields.take(i));
        }
        if refusal(rest, slots) is Some {
            let i = choose|i: int| 0 <= i < rest.len() && #[trigger] is_wrong(rest, slots, i);
            assert(is_wrong(fields, slots, i));
        } else if refusal(fields, slots) is Some {
            assert(is_wrong(fields, slots, last));
        } else {
            assert(!is_wrong(fields, slots, last));
            assert forall|i: int| 0 <= i < fields.len() implies !#[trigger] is_wrong(
                fields,
                slots,
                i,
            ) by {
                if i < last {
                    assert(!is_wrong(rest, slots, i));
                }
            }
        }
    }
}

/// What each kind of argument can hold, and in which words anything else is
/// refused.
pub proof fn law_slots_hold_their_type(v: JsonView)
    ensures
        misfit(Slot::Text, v) is None <==> v is Text,
        misfit(Slot::OptionalText, v) is None <==> v is Text || v is Null,
        misfit(Slot::Truth, v) is None <==> v is Bool,
        misfit(Slot::Number, v) is None <==> (v matches JsonView::Number(NumberView::Unsigned(n))
            && n <= 0xffff_ffff),
        misfit(Slot::Format, v) is None <==> (v == JsonView::Text("json"@) || v == JsonView::Text(
            "markdown"@,
        ) || v == JsonView::Object(seq![("json"@, JsonView::Null)]) || v == JsonView::Object(
            seq![("markdown"@, JsonView::Null)],
        )),
        misfit(Slot::Text, v) matches Some(s) ==> s == "invalid type: "@ + described(v)
            + ", expected a string"@,
        misfit(Slot::Truth, v) matches Some(s) ==> s == "invalid type: "@ + described(v)
            + ", expected a boolean"@,
        misfit(Slot::Number, v) matches Some(s) ==> s == (if v matches JsonView::Number(
            NumberView::Unsigned(_),
        ) || v matches JsonView::Number(NumberView::Negative(_)) {
            "invalid value: "@
        } else {
            "invalid type: "@
        }) + described(v) + ", expected u32"@,
        v matches JsonView::Text(s) ==> (misfit(Slot::Format, v) matches Some(w) ==> w
            == "unknown variant `"@ + s + "`, expected `json` or `markdown`"@),
{
    reveal_strlit(", expected ");
    reveal_strlit("a string");
    reveal_strlit("a boolean");
    reveal_strlit("u32");
    reveal_strlit(", expected a string");
    reveal_strlit(", expected a boolean");
    reveal_strlit(", expected u32");
    assert(wrong_type(v, "a string"@) =~= "invalid type: "@ + described(v)
        + ", expected a string"@);
    assert(wrong_type(v, "a boolean"@) =~= "invalid type: "@ + described(v)
        + ", expected a boolean"@);
    assert(wrong_type(v, "u32"@) =~= "invalid type: "@ + described(v) + ", expected u32"@);
    assert(wrong_value(v, "u32"@) =~= "invalid value: "@ + described(v) + ", expected u32"@);
    if let JsonView::Object(fields) = v {
        if misfit(Slot::Format, v) is None {
            let want = seq![(fields[0].0, JsonView::Null)];
            assert(fields =~= want);
        }
    }
}

/// A value is called by its type, and a simple one by itself too.
pub proof fn law_values_are_described(b: bool, n: u64, i: i64, s: Seq<char>)
    ensures
        described(JsonView::Null) == "null"@,
        described(JsonView::Bool(b)) == "boolean `"@ + (if b {
            "true"@
        } else {
            "false"@
        }) + "`"@,
        described(JsonView::Number(NumberView::Unsigned(n))) == "integer `"@ + text::decimal(
            n as nat,
        ) + "`"@,
        i < 0 ==> described(JsonView::Number(NumberView::Negative(i))) == "integer `-"@
            + text::decimal((-i) as nat) + "`"@,
        described(JsonView::Text(s)) == "string "@ + text::quoted(s),
        forall|a: Seq<JsonView>| #[trigger] described(JsonView::Array(a)) == "sequence"@,
        forall|f: Seq<(Seq<char>, JsonView)>| #[trigger] described(JsonView::Object(f)) == "map"@,
{
    reveal_strlit("integer `");
    reveal_strlit("-");
    reveal_strlit("integer `-");
    if i < 0 {
        assert(described(JsonView::Number(NumberView::Negative(i))) =~= "integer `-"@
            + text::decimal((-i) as nat) + "`"@);
    }
}

/// Arguments that are taken are as they were given: a text under its key, or
/// none; a limit of fifty, an offset of none, shared meetings and a document
/// where nothing else was asked for.
pub proof fn law_arguments_are_taken_as_given(v: JsonView)
    ensures
        list_args_in(v) matches Ok(a) ==> {
            &&& a.query.date == v.text("date"@)
            &&& a.query.since == v.text("since"@)
            &&& a.query.until == v.text("until"@)
            &&& a.query.created_since == v.text("created_since"@)
            &&& a.query.created_until == v.text("created_until"@)
            &&& a.query.updated_since == v.text("updated_since"@)
            &&& a.query.updated_until == v.text("updated_until"@)
            &&& a.query.search == v.text("search"@)
            &&& v.get("limit"@) is None ==> a.query.limit == 50
            &&& v.get("limit"@) matches Some(JsonView::Number(NumberView::Unsigned(n))) ==> (n
                <= 0xffff_ffff ==> a.query.limit == n)
            &&& v.get("offset"@) is None ==> a.query.offset == 0
            &&& v.get("offset"@) matches Some(JsonView::Number(NumberView::Unsigned(n))) ==> (n
                <= 0xffff_ffff ==> a.query.offset == n)
            &&& v.get("include_shared"@) is None ==> a.query.include_shared
            &&& v.get("include_shared"@) matches Some(JsonView::Bool(b)) ==> a.query.include_shared
                == b
            &&& v.get("response_format"@) is None ==> a.response_format == ResponseFormat::Json
            &&& v.get("response_format"@) == Some(JsonView::Text("markdown"@)) ==> a.response_format
                == ResponseFormat::Markdown
            &&& v.get("response_format"@) == Some(JsonView::Text("json"@)) ==> a.response_format
                == ResponseFormat::Json
        },
{
    reveal_strlit("json");
    reveal_strlit("markdown");
    assert("json"@.len() != "markdown"@.len());
}

/// The arguments of a tool for one meeting name it; without a format they get the
/// tool's own.
pub proof fn law_one_meeting_is_named(v: JsonView, default: ResponseFormat, wanted: Seq<char>)
    ensures
        id_args_in(v, default, wanted) matches Ok(a) ==> {
            &&& v.text("meeting_id"@) == Some(a.meeting_id)
            &&& v.get("response_format"@) is None ==> a.response_format == default
            &&& v.get("response_format"@) == Some(JsonView::Text("markdown"@)) ==> a.response_format
                == ResponseFormat::Markdown
            &&& v.get("response_format"@) == Some(JsonView::Text("json"@)) ==> a.response_format
                == ResponseFormat::Json
        },
        v is Object && v.get("meeting_id"@) is None ==> id_args_in(v, default, wanted) is Err,
        auth_args_in(v) matches Ok(f) ==> {
            &&& v.get("response_format"@) is None ==> f == ResponseFormat::Json
            &&& v.get("response_format"@) == Some(JsonView::Text("markdown"@)) ==> f
                == ResponseFormat::Markdown
        },
{
    reveal_strlit("json");
    reveal_strlit("markdown");
    assert("json"@.len() != "markdown"@.len());
}

/// No arguments are taken that are no object, of which a field is wrong, or that
/// have a key that is neither known nor reserved; all others are.
pub proof fn law_good_arguments_are_taken(v: JsonView, default: ResponseFormat, wanted: Seq<char>)
    ensures
        list_args_in(v) is Ok <==> (v matches JsonView::Object(fields) && refusal(
            fields,
            list_slots(),
        ) is None && checked(fields, list_parameters().push("response_format"@)) is None),
        id_args_in(v, default, wanted) is Ok <==> (v matches JsonView::Object(fields) && refusal(
            fields,
            id_slots(),
        ) is None && v.text("meeting_id"@) is Some && checked(
            fields,
            seq!["meeting_id"@, "response_format"@],
        ) is None),
{
}

/// The keys that are complained of are those that are neither known nor begin
/// with an underscore, in alphabetical order.
pub proof fn law_unknown_keys_are_named(
    fields: Seq<(Seq<char>, JsonView)>,
    known: Seq<Seq<char>>,
    key: Seq<char>,
)
    ensures
        checked(fields, known) matches Some(keys) ==> text::in_order(keys) && (keys.contains(key)
            <==> !known.contains(key) && !(key.len() > 0 && key[0] == '_') && exists|i: int|
            0 <= i < fields.len() && #[trigger] fields[i].0 == key),
        is_reserved(key) <==> key.len() > 0 && key[0] == '_',
{
    broadcast use vstd::seq_lib::group_to_multiset_ensures;

    reveal_strlit("_");
    if key.len() > 0 {
        assert(key.subrange(0, 1) =~= seq![key[0]]);
        assert("_"@ =~= seq!['_']);
        assert(seq![key[0]][0] == key[0]);
        assert(seq!['_'][0] == '_');
    }
    let keys = unknown_keys(fields, known);
    text::law_ordered(keys);
    lemma_unknown_keys(fields, known, key);
    let sorted = text::ordered(keys);
    assert(sorted.contains(key) <==> sorted.to_multiset().count(key) > 0);
    assert(keys.contains(key) <==> keys.to_multiset().count(key) > 0);
}

/// The unknown keys are those of the fields.
proof fn lemma_unknown_keys(
    fields: Seq<(Seq<char>, JsonView)>,
    known: Seq<Seq<char>>,
    key: Seq<char>,
)
    ensures
        unknown_keys(fields, known).contains(key) <==> !known.contains(key) && !is_reserved(key)
            && exists|i: int| 0 <= i < fields.len() && #[trigger] fields[i].0 == key,
    decreases fields.len(),
{
    if fields.len() > 0 {
        let rest = fields.drop_last();
        lemma_unknown_keys(rest, known, key);
        let before = unknown_keys(rest, known);
        let all = unknown_keys(fields, known);
        assert(fields[fields.len() - 1] == fields.last());
        if before.contains(key) {
            let i = choose|i: int| 0 <= i < rest.len() && #[trigger] rest[i].0 == key;
            assert(fields[i].0 == key);
            let k = choose|k: int| 0 <= k < before.len() && before[k] == key;
            assert(all[k] == key);
        }
        if exists|i: int| 0 <= i < fields.len() && #[trigger] fields[i].0 == key {
            let i = choose|i: int| 0 <= i < fields.len() && #[trigger] fields[i].0 == key;
            if i < rest.len() {
                assert(rest[i].0 == key);
            } else if !known.contains(key) && !is_reserved(key) {
                assert(all.last() == key);
            }
        }
        if all.contains(key) {
            let k = choose|k: int| 0 <= k < all.len() && all[k] == key;
            if k < before.len() {
                assert(before[k] == key);
            }
        }
    }
}

/// What is said of unknown keys names each of them between backquotes.
pub proof fn law_messages_name_the_keys(key: Seq<char>, other: Seq<char>)
    ensures
        text::begins_with(
            args_message(ArgsErrorView::Unknown(seq![key])),
            "unknown field: `"@ + key + "`. Arguments are passed flat"@,
        ),
        text::begins_with(
            args_message(ArgsErrorView::Unknown(seq![key, other])),
            "unknown fields: `"@ + key + "`, `"@ + other + "`. Arguments are passed flat"@,
        ),
        args_message(ArgsErrorView::Missing(key)) == "missing field `"@ + key + "`"@,
        args_message(ArgsErrorView::Invalid(key)) == key,
{
    reveal_strlit("unknown field");
    reveal_strlit("unknown field: `");
    reveal_strlit("unknown fields: `");
    reveal_strlit("");
    reveal_strlit("s");
    reveal_strlit(": ");
    reveal_strlit("`");
    reveal_strlit(", ");
    reveal_strlit("`, `");
    reveal_strlit("`. Arguments are passed flat");
    reveal_strlit(
        ". Arguments are passed flat, not wrapped in a `params` object; see the tool's inputSchema.",
    );
    let a = backquoted(seq![key]);
    assert(a =~= seq!["`"@ + key + "`"@]);
    assert(text::joined(a, ", "@) == "`"@ + key + "`"@);
    let one = args_message(ArgsErrorView::Unknown(seq![key]));
    let p = "unknown field: `"@ + key + "`. Arguments are passed flat"@;
    assert(one.subrange(0, p.len() as int) =~= p);
    let b = backquoted(seq![key, other]);
    assert(b =~= seq!["`"@ + key + "`"@, "`"@ + other + "`"@]);
    assert(b.drop_last() =~= a);
    assert(text::joined(b, ", "@) == "`"@ + key + "`"@ + ", "@ + ("`"@ + other + "`"@));
    let two = args_message(ArgsErrorView::Unknown(seq![key, other]));
    let q = "unknown fields: `"@ + key + "`, `"@ + other + "`. Arguments are passed flat"@;
    assert(two.subrange(0, q.len() as int) =~= q);
}

/// What an argument can hold is what its first entry says.
pub proof fn law_first_slot_counts(slots: Seq<(Seq<char>, Slot)>, key: Seq<char>, n: int)
    requires
        0 <= n < slots.len(),
        forall|k: int| 0 <= k < n ==> (#[trigger] slots[k]).0 != key,
        slots[n].0 == key,
    ensures
        slot_of(slots, key) == Some(slots[n].1),
    decreases slots.len(),
{
    if n > 0 {
        let rest = slots.drop_first();
        assert(slots[0].0 != key);
        assert forall|k: int| 0 <= k < n - 1 implies (#[trigger] rest[k]).0 != key by {
            assert(rest[k] == slots[k + 1]);
        }
        law_first_slot_counts(rest, key, n - 1);
    }
}

/// The arguments of a list are texts that may be missing, two numbers, a format
/// and a truth value; those of a tool for one meeting are a text and a format.
pub proof fn law_arguments_have_their_slots()
    ensures
        slot_of(list_slots(), "date"@) == Some(Slot::OptionalText),
        slot_of(list_slots(), "since"@) == Some(Slot::OptionalText),
        slot_of(list_slots(), "until"@) == Some(Slot::OptionalText),
        slot_of(list_slots(), "created_since"@) == Some(Slot::OptionalText),
        slot_of(list_slots(), "created_until"@) == Some(Slot::OptionalText),
        slot_of(list_slots(), "updated_since"@) == Some(Slot::OptionalText),
        slot_of(list_slots(), "updated_until"@) == Some(Slot::OptionalText),
        slot_of(list_slots(), "search"@) == Some(Slot::OptionalText),
        slot_of(list_slots(), "limit"@) == Some(Slot::Number),
        slot_of(list_slots(), "offset"@) == Some(Slot::Number),
        slot_of(list_slots(), "response_format"@) == Some(Slot::Format),
        slot_of(list_slots(), "include_shared"@) == Some(Slot::Truth),
        slot_of(id_slots(), "meeting_id"@) == Some(Slot::Text),
        slot_of(id_slots(), "response_format"@) == Some(Slot::Format),
{
    reveal_strlit("date");
    reveal_strlit("since");
    reveal_strlit("until");
    reveal_strlit("created_since");
    reveal_strlit("created_until");
    reveal_strlit("updated_since");
    reveal_strlit("updated_until");
    reveal_strlit("search");
    reveal_strlit("limit");
    reveal_strlit("offset");
    reveal_strlit("response_format");
    reveal_strlit("include_shared");
    assert("date"@.len() != "since"@.len());
    assert("date"@.len() != "until"@.len());
    assert("date"@.len() != "created_since"@.len());
    assert("date"@.len() != "created_until"@.len());
    assert("date"@.len() != "updated_since"@.len());
    assert("date"@.len() != "updated_until"@.len());
    assert("date"@.len() != "search"@.len());
    assert("date"@.len() != "limit"@.len());
    assert("date"@.len() != "offset"@.len());
    assert("date"@.len() != "response_format"@.len());
    assert("date"@.len() != "include_shared"@.len());
    assert("since"@[0] != "until"@[0]);
    assert("since"@.len() != "created_since"@.len());
    assert("since"@.len() != "created_until"@.len());
    assert("since"@.len() != "updated_since"@.len());
    assert("since"@.len() != "updated_until"@.len());
    assert("since"@.len() != "search"@.len());
    assert("since"@[0] != "limit"@[0]);
    assert("since"@.len() != "offset"@.len());
    assert("since"@.len() != "response_format"@.len());
    assert("since"@.len() != "include_shared"@.len());
    assert("until"@.len() != "created_since"@.len());
    assert("until"@.len() != "created_until"@.len());
    assert("until"@.len() != "updated_since"@.len());
    assert("until"@.len() != "updated_until"@.len());
    assert("until"@.len() != "search"@.len());
    assert("until"@[0] != "limit"@[0]);
    assert("until"@.len() != "offset"@.len());
    assert("until"@.len() != "response_format"@.len());
    assert("until"@.len() != "include_shared"@.len());
    assert("created_since"@[8] != "created_until"@[8]);
    assert("created_since"@[0] != "updated_since"@[0]);
    assert("created_since"@[0] != "updated_until"@[0]);
    assert("created_since"@.len() != "search"@.len());
    assert("created_since"@.len() != "limit"@.len());
    assert("created_since"@.len() != "offset"@.len());
    assert("created_since"@.len() != "response_format"@.len());
    assert("created_since"@.len() != "include_shared"@.len());
    assert("created_until"@[0] != "updated_since"@[0]);
    assert("created_until"@[0] != "updated_until"@[0]);
    assert("created_until"@.len() != "search"@.len());
    assert("created_until"@.len() != "limit"@.len());
    assert("created_until"@.len() != "offset"@.len());
    assert("created_until"@.len() != "response_format"@.len());
    assert("created_until"@.len() != "include_shared"@.len());
    assert("updated_since"@[8] != "updated_until"@[8]);
    assert("updated_since"@.len() != "search"@.len());
    assert("updated_since"@.len() != "limit"@.len());
    assert("updated_since"@.len() != "offset"@.len());
    assert("updated_since"@.len() != "response_format"@.len());
    assert("updated_since"@.len() != "include_shared"@.len());
    assert("updated_until"@.len() != "search"@.len());
    assert("updated_until"@.len() != "limit"@.len());
    assert("updated_until"@.len() != "offset"@.len());
    assert("updated_until"@.len() != "response_format"@.len());
    assert("updated_until"@.len() != "include_shared"@.len());
    assert("search"@.len() != "limit"@.len());
    assert("search"@[0] != "offset"@[0]);
    assert("search"@.len() != "response_format"@.len());
    assert("search"@.len() != "include_shared"@.len());
    assert("limit"@.len() != "offset"@.len());
    assert("limit"@.len() != "response_format"@.len());
    assert("limit"@.len() != "include_shared"@.len());
    assert("offset"@.len() != "response_format"@.len());
    assert("offset"@.len() != "include_shared"@.len());
    assert("response_format"@.len() != "include_shared"@.len());
    reveal_strlit("meeting_id");
    assert("meeting_id"@.len() != "response_format"@.len());
    law_first_slot_counts(list_slots(), "date"@, 0);
    law_first_slot_counts(list_slots(), "since"@, 1);
    law_first_slot_counts(list_slots(), "until"@, 2);
    law_first_slot_counts(list_slots(), "created_since"@, 3);
    law_first_slot_counts(list_slots(), "created_until"@, 4);
    law_first_slot_counts(list_slots(), "updated_since"@, 5);
    law_first_slot_counts(list_slots(), "updated_until"@, 6);
    law_first_slot_counts(list_slots(), "search"@, 7);
    law_first_slot_counts(list_slots(), "limit"@, 8);
    law_first_slot_counts(list_slots(), "offset"@, 9);
    law_first_slot_counts(list_slots(), "response_format"@, 10);
    law_first_slot_counts(list_slots(), "include_shared"@, 11);
    law_first_slot_counts(id_slots(), "meeting_id"@, 0);
    law_first_slot_counts(id_slots(), "response_format"@, 1);
}

/// Each argument of a list is one of its parameters, and there are no others.
pub proof fn law_parameters_are_the_arguments(key: Seq<char>)
    ensures
        list_parameters().contains(key) <==> {
            ||| key == "created_since"@
            ||| key == "created_until"@
            ||| key == "date"@
            ||| key == "include_shared"@
            ||| key == "limit"@
            ||| key == "offset"@
            ||| key == "search"@
            ||| key == "since"@
            ||| key == "until"@
            ||| key == "updated_since"@
            ||| key == "updated_until"@
        },
        DEFAULT_LIMIT == 50,
{
    let all = list_parameters();
    assert(all[0] == "created_since"@);
    assert(all[1] == "created_until"@);
    assert(all[2] == "date"@);
    assert(all[3] == "include_shared"@);
    assert(all[4] == "limit"@);
    assert(all[5] == "offset"@);
    assert(all[6] == "search"@);
    assert(all[7] == "since"@);
    assert(all[8] == "until"@);
    assert(all[9] == "updated_since"@);
    assert(all[10] == "updated_until"@);
}

/// An argument that stands twice is refused, whatever it holds.
pub proof fn law_repeated_arguments_are_refused(
    fields: Seq<(Seq<char>, JsonView)>,
    slots: Seq<(Seq<char>, Slot)>,
    i: int,
    j: int,
)
    requires
        0 <= i < j < fields.len(),
        fields[i].0 == fields[j].0,
        slot_of(slots, fields[j].0) is Some,
    ensures
        refusal(fields, slots) is Some,
{
    law_wrong_values_are_refused(fields, slots);
    assert(fields.take(j)[i].0 == fields[j].0);
    assert(is_wrong(fields, slots, j));
}

/// Where the first field is an argument with a value that it cannot hold, that is
/// what is said, by every tool that has the argument.
pub proof fn law_first_wrong_value_is_told(
    fields: Seq<(Seq<char>, JsonView)>,
    slot: Slot,
    words: Seq<char>,
    default: ResponseFormat,
    wanted: Seq<char>,
)
    requires
        fields.len() > 0,
        misfit(slot, fields[0].1) == Some(words),
    ensures
        ({
            let key = fields[0].0;
            let v = JsonView::Object(fields);
            &&& slot == Slot::Number && (key == "limit"@ || key == "offset"@) || slot == Slot::Truth
                && key == "include_shared"@ || slot == Slot::Format && key == "response_format"@
                || slot == Slot::OptionalText && (key == "date"@ || key == "since"@ || key
                == "until"@ || key == "created_since"@ || key == "created_until"@ || key
                == "updated_since"@ || key == "updated_until"@ || key == "search"@)
                ==> list_args_in(v) == Err::<ListArgsView, ArgsErrorView>(
                ArgsErrorView::Invalid(words),
            )
            &&& slot == Slot::Text && key == "meeting_id"@ || slot == Slot::Format && key
                == "response_format"@ ==> id_args_in(v, default, wanted) == Err::<
                IdArgsView,
                ArgsErrorView,
            >(ArgsErrorView::Invalid(words))
            &&& slot == Slot::Format && key == "response_format"@ ==> auth_args_in(v) == Err::<
                ResponseFormat,
                ArgsErrorView,
            >(ArgsErrorView::Invalid(words))
        }),
{
    law_arguments_have_their_slots();
    let first = fields.take(1);
    assert(first.drop_last() =~= Seq::empty());
    assert(first.last() == fields[0]);
    assert forall|slots: Seq<(Seq<char>, Slot)>|
        slot_of(slots, fields[0].0) == Some(slot) implies #[trigger] refusal(fields, slots) == Some(
        words,
    ) by {
        assert(refusal(first.drop_last(), slots) is None);
        assert(!has_key(first.drop_last(), fields[0].0));
        assert(refusal(first, slots) == Some(words));
        lemma_refusal_stays(fields, 1, slots);
    }
    let one = seq![("response_format"@, Slot::Format)];
    assert(one[0].0 == "response_format"@);
    assert(slot_of(one, "response_format"@) == Some(Slot::Format));
}

/// Arguments that are no object are refused as such.
pub proof fn law_arguments_are_an_object(v: JsonView, default: ResponseFormat, wanted: Seq<char>)
    requires
        !(v is Object),
    ensures
        list_args_in(v) == Err::<ListArgsView, ArgsErrorView>(
            ArgsErrorView::Invalid(
                "invalid type: "@ + described(v) + ", expected "@ + "struct ListMeetingsArgs"@,
            ),
        ),
        id_args_in(v, default, wanted) == Err::<IdArgsView, ArgsErrorView>(
            ArgsErrorView::Invalid("invalid type: "@ + described(v) + ", expected "@ + wanted),
        ),
        auth_args_in(v) == Err::<ResponseFormat, ArgsErrorView>(
            ArgsErrorView::Invalid(
                "invalid type: "@ + described(v) + ", expected "@ + "struct AuthArgs"@,
            ),
        ),
{
}

/// Reserved arguments are let pass: an object of nothing else is taken as an
/// empty one.
pub proof fn law_reserved_arguments_pass(key: Seq<char>, w: JsonView)
    requires
        key.len() > 0,
        key[0] == '_',
    ensures
        checked(seq![(key, w)], Seq::empty()) is None,
        forall|known: Seq<Seq<char>>| (#[trigger] checked(seq![(key, w)], known)) is None,
        forall|known: Seq<Seq<char>>|
            (#[trigger] checked(Seq::<(Seq<char>, JsonView)>::empty(), known)) is None,
{
    reveal_strlit("_");
    assert(key.subrange(0, 1) =~= "_"@);
    assert(is_reserved(key));
    assert forall|known: Seq<Seq<char>>| (#[trigger] checked(seq![(key, w)], known)) is None by {
        law_unknown_keys_are_refused(seq![(key, w)], known);
        assert(seq![(key, w)][0].0 == key);
    }
}

} // verus!
