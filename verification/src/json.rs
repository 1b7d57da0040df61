//! JSON documents, and how their parts are looked up and put together.

use crate::text;
use crate::text::text_eq;
use vstd::prelude::*;

verus! {

/// A JSON number. One that is no 64-bit integer is kept as its decimal text.
#[derive(Debug, PartialEq, Eq)]
pub enum Number {
    Unsigned(u64),
    Negative(i64),
    Decimal(String),
}

/// A JSON document. An object is the list of its fields; where a key is
/// repeated, the first field of that key is the one that counts.
#[derive(Debug, PartialEq, Eq)]
pub enum Json {
    Null,
    Bool(bool),
    Number(Number),
    Text(String),
    Array(Vec<Json>),
    Object(Vec<(String, Json)>),
}

/// What a [`Number`] says.
pub enum NumberView {
    Unsigned(u64),
    Negative(i64),
    Decimal(Seq<char>),
}

/// What a [`Json`] document says.
pub enum JsonView {
    Null,
    Bool(bool),
    Number(NumberView),
    Text(Seq<char>),
    Array(Seq<JsonView>),
    Object(Seq<(Seq<char>, JsonView)>),
}

impl View for Number {
    type V = NumberView;

    open spec fn view(&self) -> NumberView {
        match self {
            Number::Unsigned(n) => NumberView::Unsigned(*n),
            Number::Negative(n) => NumberView::Negative(*n),
            Number::Decimal(s) => NumberView::Decimal(s@),
        }
    }
}

/// What a document says.
pub open spec fn json_view(j: Json) -> JsonView
    decreases j,
{
    match j {
        Json::Null => JsonView::Null,
        Json::Bool(b) => JsonView::Bool(b),
        Json::Number(n) => JsonView::Number(n@),
        Json::Text(s) => JsonView::Text(s@),
        Json::Array(v) => JsonView::Array(
            Seq::new(
                v@.len(),
                |i: int|
                    if 0 <= i < v@.len() {
                        json_view(v@[i])
                    } else {
                        JsonView::Null
                    },
            ),
        ),
        Json::Object(v) => JsonView::Object(
            Seq::new(
                v@.len(),
                |i: int|
                    if 0 <= i < v@.len() {
                        (v@[i].0@, json_view(v@[i].1))
                    } else {
                        (Seq::empty(), JsonView::Null)
                    },
            ),
        ),
    }
}

impl View for Json {
    type V = JsonView;

    open spec fn view(&self) -> JsonView {
        json_view(*self)
    }
}

/// What the documents of a list say.
pub open spec fn views(s: Seq<Json>) -> Seq<JsonView> {
    Seq::new(s.len(), |i: int| json_view(s[i]))
}

/// What the fields of a list say.
pub open spec fn field_views(s: Seq<(String, Json)>) -> Seq<(Seq<char>, JsonView)> {
    Seq::new(s.len(), |i: int| (s[i].0@, json_view(s[i].1)))
}

/// What is seen of an optional value.
pub open spec fn seen<T: View>(o: Option<T>) -> Option<T::V> {
    match o {
        Some(v) => Some(v@),
        None => None,
    }
}

/// An array says what its items say.
pub proof fn lemma_array_view(v: Vec<Json>)
    ensures
        json_view(Json::Array(v)) == JsonView::Array(views(v@)),
{
    assert(json_view(Json::Array(v))->Array_0 =~= views(v@));
}

/// An object says what its fields say.
pub proof fn lemma_object_view(v: Vec<(String, Json)>)
    ensures
        json_view(Json::Object(v)) == JsonView::Object(field_views(v@)),
{
    assert(json_view(Json::Object(v))->Object_0 =~= field_views(v@));
}

/// The value of the first field with a given key.
pub open spec fn lookup(fields: Seq<(Seq<char>, JsonView)>, key: Seq<char>) -> Option<JsonView>
    decreases fields.len(),
{
    if fields.len() == 0 {
        None
    } else if fields[0].0 == key {
        Some(fields[0].1)
    } else {
        lookup(fields.drop_first(), key)
    }
}

/// How many fields have a key.
pub open spec fn times(fields: Seq<(Seq<char>, JsonView)>, key: Seq<char>) -> nat
    decreases fields.len(),
{
    if fields.len() == 0 {
        0
    } else {
        times(fields.drop_last(), key) + (if fields.last().0 == key {
            1nat
        } else {
            0
        })
    }
}

/// The fields after a key was given a value: the first field of that key is
/// changed; where there is none, a field is added at the end.
pub open spec fn put(
    fields: Seq<(Seq<char>, JsonView)>,
    key: Seq<char>,
    value: JsonView,
) -> Seq<(Seq<char>, JsonView)>
    decreases fields.len(),
{
    if fields.len() == 0 {
        seq![(key, value)]
    } else if fields[0].0 == key {
        seq![(key, value)] + fields.drop_first()
    } else {
        seq![fields[0]] + put(fields.drop_first(), key, value)
    }
}

/// A document after a key was given a value, where it is an object.
pub open spec fn with_field(j: JsonView, key: Seq<char>, value: JsonView) -> JsonView {
    match j {
        JsonView::Object(fields) => JsonView::Object(put(fields, key, value)),
        other => other,
    }
}

/// The first of two optional values that is there.
pub open spec fn first_of<T>(a: Option<T>, b: Option<T>) -> Option<T> {
    match a {
        Some(v) => Some(v),
        None => b,
    }
}

/// An optional document, where a missing one is null.
pub open spec fn or_null(o: Option<JsonView>) -> JsonView {
    match o {
        Some(v) => v,
        None => JsonView::Null,
    }
}

/// An optional text as a document, where a missing one is null.
pub open spec fn text_or_null(o: Option<Seq<char>>) -> JsonView {
    match o {
        Some(s) => JsonView::Text(s),
        None => JsonView::Null,
    }
}

/// Texts as an array.
pub open spec fn text_array(s: Seq<Seq<char>>) -> JsonView {
    JsonView::Array(Seq::new(s.len(), |i: int| JsonView::Text(s[i])))
}

impl JsonView {
    /// The value under a key of an object.
    pub open spec fn get(self, key: Seq<char>) -> Option<JsonView> {
        match self {
            JsonView::Object(fields) => lookup(fields, key),
            _ => None,
        }
    }

    /// The value under a path of two keys.
    pub open spec fn get2(self, a: Seq<char>, b: Seq<char>) -> Option<JsonView> {
        match self.get(a) {
            Some(v) => v.get(b),
            None => None,
        }
    }

    /// The value under a path of three keys.
    pub open spec fn get3(self, a: Seq<char>, b: Seq<char>, c: Seq<char>) -> Option<JsonView> {
        match self.get2(a, b) {
            Some(v) => v.get(c),
            None => None,
        }
    }

    /// The text, where the document is one.
    pub open spec fn as_text(self) -> Option<Seq<char>> {
        match self {
            JsonView::Text(s) => Some(s),
            _ => None,
        }
    }

    /// The items, where the document is an array.
    pub open spec fn as_items(self) -> Option<Seq<JsonView>> {
        match self {
            JsonView::Array(s) => Some(s),
            _ => None,
        }
    }

    /// The unsigned integer, where the document is one.
    pub open spec fn as_unsigned(self) -> Option<u64> {
        match self {
            JsonView::Number(NumberView::Unsigned(n)) => Some(n),
            _ => None,
        }
    }

    /// The text under a key.
    pub open spec fn text(self, key: Seq<char>) -> Option<Seq<char>> {
        text_in(self.get(key))
    }

    /// The items under a key.
    pub open spec fn items(self, key: Seq<char>) -> Option<Seq<JsonView>> {
        items_in(self.get(key))
    }

    /// The text under a key, or a default.
    pub open spec fn text_or(self, key: Seq<char>, default: Seq<char>) -> Seq<char> {
        match self.text(key) {
            Some(s) => s,
            None => default,
        }
    }
}

/// The text of an optional document.
pub open spec fn text_in(o: Option<JsonView>) -> Option<Seq<char>> {
    match o {
        Some(v) => v.as_text(),
        None => None,
    }
}

/// The items of an optional document.
pub open spec fn items_in(o: Option<JsonView>) -> Option<Seq<JsonView>> {
    match o {
        Some(v) => v.as_items(),
        None => None,
    }
}

/// A value found under a key is smaller than the object.
pub proof fn lemma_lookup_smaller(fields: Seq<(Seq<char>, JsonView)>, key: Seq<char>)
    ensures
        lookup(fields, key) matches Some(v) ==> exists|i: int|
            0 <= i < fields.len() && #[trigger] fields[i] == (key, v),
    decreases fields.len(),
{
    if fields.len() > 0 && fields[0].0 != key {
        let rest = fields.drop_first();
        lemma_lookup_smaller(rest, key);
        if lookup(rest, key) is Some {
            let v = lookup(rest, key)->0;
            let i = choose|i: int| 0 <= i < rest.len() && #[trigger] rest[i] == (key, v);
            assert(fields[i + 1] == (key, v));
        }
    } else if fields.len() > 0 {
        assert(fields[0] == (key, fields[0].1));
    }
}

/// The items found under a key are smaller than the document.
pub proof fn lemma_items_smaller(v: JsonView, key: Seq<char>)
    ensures
        v.items(key) matches Some(items) ==> forall|i: int|
            0 <= i < items.len() ==> decreases_to!(v => #[trigger] items[i]),
{
    if let Some(items) = v.items(key) {
        let fields = v->Object_0;
        lemma_lookup_smaller(fields, key);
        let w = lookup(fields, key)->0;
        let k = choose|k: int| 0 <= k < fields.len() && #[trigger] fields[k] == (key, w);
        assert(decreases_to!(v => fields[k]));
        assert(decreases_to!(fields[k] => fields[k].1));
        assert forall|i: int| 0 <= i < items.len() implies decreases_to!(
            v => #[trigger] items[i]) by {
            assert(decreases_to!(w => items));
            assert(decreases_to!(items => items[i]));
        }
    }
}

/// The value of the first field with a given key.
pub fn find_field<'a>(fields: &'a Vec<(String, Json)>, key: &str) -> (r: Option<&'a Json>)
    ensures
        seen(r) == lookup(field_views(fields@), key@),
{
    let ghost all = field_views(fields@);
    assert(all.skip(0) =~= all);
    let mut i: usize = 0;
    while i < fields.len()
        invariant
            i <= fields.len(),
            all == field_views(fields@),
            lookup(all.skip(i as int), key@) == lookup(all, key@),
        decreases fields.len() - i,
    {
        let field = &fields[i];
        assert(all.skip(i as int)[0] == (field.0@, field.1@));
        if text_eq(field.0.as_str(), key) {
            return Some(&field.1);
        }
        assert(all.skip(i as int).drop_first() =~= all.skip(i + 1));
        i += 1;
    }
    None
}

/// How many fields have a key.
pub fn count_fields(fields: &Vec<(String, Json)>, key: &str) -> (r: usize)
    ensures
        r == times(field_views(fields@), key@),
{
    let ghost all = field_views(fields@);
    let mut n: usize = 0;
    let mut i: usize = 0;
    while i < fields.len()
        invariant
            n <= i <= fields.len(),
            all == field_views(fields@),
            n == times(all.take(i as int), key@),
        decreases fields.len() - i,
    {
        assert(all.take(i + 1).drop_last() =~= all.take(i as int));
        assert(all.take(i + 1).last().0 == fields@[i as int].0@);
        if text_eq(fields[i].0.as_str(), key) {
            n += 1;
        }
        i += 1;
    }
    assert(all.take(fields.len() as int) =~= all);
    n
}

impl Json {
    /// The value under a key of an object.
    pub fn get(&self, key: &str) -> (r: Option<&Json>)
        ensures
            seen(r) == self@.get(key@),
    {
        match self {
            Json::Object(fields) => {
                proof {
                    lemma_object_view(*fields);
                }
                find_field(fields, key)
            },
            _ => None,
        }
    }

    /// The value under a path of two keys.
    pub fn get2(&self, a: &str, b: &str) -> (r: Option<&Json>)
        ensures
            seen(r) == self@.get2(a@, b@),
    {
        match self.get(a) {
            Some(v) => v.get(b),
            None => None,
        }
    }

    /// The value under a path of three keys.
    pub fn get3(&self, a: &str, b: &str, c: &str) -> (r: Option<&Json>)
        ensures
            seen(r) == self@.get3(a@, b@, c@),
    {
        match self.get2(a, b) {
            Some(v) => v.get(c),
            None => None,
        }
    }

    /// The text, where the document is one.
    pub fn as_str(&self) -> (r: Option<&str>)
        ensures
            seen(r) == self@.as_text(),
    {
        match self {
            Json::Text(s) => Some(s.as_str()),
            _ => None,
        }
    }

    /// The items, where the document is an array.
    pub fn as_array(&self) -> (r: Option<&Vec<Json>>)
        ensures
            match r {
                Some(v) => self@.as_items() == Some(views(v@)),
                None => self@.as_items() is None,
            },
    {
        match self {
            Json::Array(v) => {
                proof {
                    lemma_array_view(*v);
                }
                Some(v)
            },
            _ => None,
        }
    }

    /// The unsigned integer, where the document is one.
    pub fn as_u64(&self) -> (r: Option<u64>)
        ensures
            r == self@.as_unsigned(),
    {
        match self {
            Json::Number(Number::Unsigned(n)) => Some(*n),
            _ => None,
        }
    }

    /// The text under a key.
    pub fn text(&self, key: &str) -> (r: Option<&str>)
        ensures
            seen(r) == self@.text(key@),
    {
        match self.get(key) {
            Some(v) => v.as_str(),
            None => None,
        }
    }

    /// The items under a key.
    pub fn items(&self, key: &str) -> (r: Option<&Vec<Json>>)
        ensures
            match r {
                Some(v) => self@.items(key@) == Some(views(v@)),
                None => self@.items(key@) is None,
            },
    {
        match self.get(key) {
            Some(v) => v.as_array(),
            None => None,
        }
    }

    /// The text under a key, or a default.
    pub fn text_or<'a>(&'a self, key: &str, default: &'a str) -> (r: &'a str)
        ensures
            r@ == self@.text_or(key@, default@),
    {
        match self.text(key) {
            Some(s) => s,
            None => default,
        }
    }
}

/// The text of an optional document.
pub fn opt_str<'a>(o: Option<&'a Json>) -> (r: Option<&'a str>)
    ensures
        seen(r) == text_in(seen(o)),
{
    match o {
        Some(v) => v.as_str(),
        None => None,
    }
}

/// The items of an optional document.
pub fn opt_array<'a>(o: Option<&'a Json>) -> (r: Option<&'a Vec<Json>>)
    ensures
        match r {
            Some(v) => items_in(seen(o)) == Some(views(v@)),
            None => items_in(seen(o)) is None,
        },
{
    match o {
        Some(v) => v.as_array(),
        None => None,
    }
}

/// The text of an optional string.
pub fn str_of<'a>(o: &'a Option<String>) -> (r: Option<&'a str>)
    ensures
        seen(r) == seen(*o),
{
    match o {
        Some(s) => Some(s.as_str()),
        None => None,
    }
}

/// A copy of a number.
fn copy_number(n: &Number) -> (r: Number)
    ensures
        r@ == n@,
{
    match n {
        Number::Unsigned(n) => Number::Unsigned(*n),
        Number::Negative(n) => Number::Negative(*n),
        Number::Decimal(s) => Number::Decimal(s.clone()),
    }
}

/// A copy of a document.
fn copy_json(j: &Json) -> (r: Json)
    ensures
        r@ == j@,
    decreases j,
{
    match j {
        Json::Null => Json::Null,
        Json::Bool(b) => Json::Bool(*b),
        Json::Number(n) => Json::Number(copy_number(n)),
        Json::Text(s) => Json::Text(s.clone()),
        Json::Array(v) => {
            let mut out: Vec<Json> = Vec::new();
            let mut i: usize = 0;
            while i < v.len()
                invariant
                    i <= v.len(),
                    out.len() == i,
                    decreases_to!(j => v),
                    forall|k: int|
                        0 <= k < i ==> json_view(#[trigger] out@[k]) == json_view(v@[k]),
                decreases v.len() - i,
            {
                out.push(copy_json(&v[i]));
                i += 1;
            }
            proof {
                lemma_array_view(out);
                lemma_array_view(*v);
                assert(views(out@) =~= views(v@));
            }
            Json::Array(out)
        },
        Json::Object(v) => {
            let mut out: Vec<(String, Json)> = Vec::new();
            let mut i: usize = 0;
            while i < v.len()
                invariant
                    i <= v.len(),
                    out.len() == i,
                    decreases_to!(j => v),
                    forall|k: int|
                        0 <= k < i ==> (#[trigger] out@[k]).0@ == v@[k].0@ && json_view(out@[k].1)
                            == json_view(v@[k].1),
                decreases v.len() - i,
            {
                let field = &v[i];
                out.push((field.0.clone(), copy_json(&field.1)));
                i += 1;
            }
            proof {
                lemma_object_view(out);
                lemma_object_view(*v);
                assert(field_views(out@) =~= field_views(v@));
            }
            Json::Object(out)
        },
    }
}

impl Clone for Json {
    fn clone(&self) -> (r: Self)
        ensures
            r@ == self@,
    {
        copy_json(self)
    }
}

/// A text as a document.
pub fn text_value(s: &str) -> (r: Json)
    ensures
        r@ == JsonView::Text(s@),
{
    Json::Text(s.to_owned())
}

/// An optional text as a document, where a missing one is null.
pub fn optional_text(o: Option<&str>) -> (r: Json)
    ensures
        r@ == text_or_null(seen(o)),
{
    match o {
        Some(s) => text_value(s),
        None => Json::Null,
    }
}

/// An optional document, where a missing one is null.
pub fn optional(o: Option<&Json>) -> (r: Json)
    ensures
        r@ == or_null(seen(o)),
{
    match o {
        Some(v) => v.clone(),
        None => Json::Null,
    }
}

/// An unsigned integer as a document.
pub fn number(n: u64) -> (r: Json)
    ensures
        r@ == JsonView::Number(NumberView::Unsigned(n)),
{
    Json::Number(Number::Unsigned(n))
}

/// An array of documents.
pub fn array(v: Vec<Json>) -> (r: Json)
    ensures
        r@ == JsonView::Array(views(v@)),
{
    proof {
        lemma_array_view(v);
    }
    Json::Array(v)
}

/// An object with some fields.
pub fn object(v: Vec<(String, Json)>) -> (r: Json)
    ensures
        r@ == JsonView::Object(field_views(v@)),
{
    proof {
        lemma_object_view(v);
    }
    Json::Object(v)
}

/// A list of no fields.
pub fn no_fields() -> (r: Vec<(String, Json)>)
    ensures
        field_views(r@) == Seq::<(Seq<char>, JsonView)>::empty(),
{
    let r: Vec<(String, Json)> = Vec::new();
    assert(field_views(r@) =~= Seq::empty());
    r
}

/// Adds a field at the end of a list of fields.
pub fn add_field(fields: &mut Vec<(String, Json)>, key: &str, value: Json)
    ensures
        field_views(final(fields)@) == field_views(old(fields)@).push((key@, value@)),
{
    fields.push((key.to_owned(), value));
    assert(field_views(fields@) =~= field_views(old(fields)@).push((key@, value@)));
}

/// Texts as an array.
pub fn text_list(v: &Vec<String>) -> (r: Json)
    ensures
        r@ == text_array(text::text_views(v@)),
{
    let mut out: Vec<Json> = Vec::new();
    let mut i: usize = 0;
    while i < v.len()
        invariant
            i <= v.len(),
            out.len() == i,
            forall|k: int|
                0 <= k < i ==> json_view(#[trigger] out@[k]) == JsonView::Text(v@[k]@),
        decreases v.len() - i,
    {
        out.push(text_value(v[i].as_str()));
        i += 1;
    }
    let r = array(out);
    assert(r@->Array_0 =~= text_array(text::text_views(v@))->Array_0);
    r
}

/// Gives a key a value, as [`put`] says.
pub fn put_field(fields: &mut Vec<(String, Json)>, key: &str, value: Json)
    ensures
        field_views(final(fields)@) == put(field_views(old(fields)@), key@, value@),
{
    let ghost all = field_views(fields@);
    let n = fields.len();
    let mut i: usize = 0;
    assert(all.skip(0) =~= all);
    assert(put(all, key@, value@) =~= all.take(0) + put(all.skip(0), key@, value@));
    while i < n
        invariant
            i <= n,
            n == fields.len(),
            *fields == *old(fields),
            all == field_views(fields@),
            put(all, key@, value@) == all.take(i as int) + put(all.skip(i as int), key@, value@),
        decreases n - i,
    {
        assert(all.skip(i as int)[0] == (fields@[i as int].0@, fields@[i as int].1@));
        if text_eq(fields[i].0.as_str(), key) {
            fields.set(i, (key.to_owned(), value));
            assert(field_views(fields@) =~= all.take(i as int) + (seq![(key@, value@)] + all.skip(
                i as int,
            ).drop_first()));
            return ;
        }
        proof {
            assert(all.skip(i as int).drop_first() =~= all.skip(i + 1));
            assert(all.take(i as int) + (seq![all[i as int]] + put(all.skip(i + 1), key@, value@))
                =~= all.take(i + 1) + put(all.skip(i + 1), key@, value@));
        }
        i += 1;
    }
    assert(all.take(n as int) + seq![(key@, value@)] =~= all.push((key@, value@)));
    add_field(fields, key, value);
}

/// Gives a key of an object a value, as [`put`] says. Any other document is
/// left as it is.
pub fn set_field(j: Json, key: &str, value: Json) -> (r: Json)
    ensures
        r@ == with_field(j@, key@, value@),
{
    match j {
        Json::Object(fields) => {
            proof {
                lemma_object_view(fields);
            }
            let mut fields = fields;
            put_field(&mut fields, key, value);
            object(fields)
        },
        other => other,
    }
}

/// A key that was given a value has it.
pub proof fn law_put_then_lookup(
    fields: Seq<(Seq<char>, JsonView)>,
    key: Seq<char>,
    value: JsonView,
)
    ensures
        lookup(put(fields, key, value), key) == Some(value),
    decreases fields.len(),
{
    if fields.len() == 0 {
    } else if fields[0].0 == key {
        assert(put(fields, key, value)[0] == (key, value));
    } else {
        let rest = fields.drop_first();
        law_put_then_lookup(rest, key, value);
        assert(put(fields, key, value).drop_first() =~= put(rest, key, value));
    }
}

/// Giving a key a value changes what no other key holds.
pub proof fn law_put_keeps_other_keys(
    fields: Seq<(Seq<char>, JsonView)>,
    key: Seq<char>,
    value: JsonView,
    other: Seq<char>,
)
    requires
        other != key,
    ensures
        lookup(put(fields, key, value), other) == lookup(fields, other),
    decreases fields.len(),
{
    if fields.len() == 0 {
        assert(seq![(key, value)].drop_first() =~= fields);
    } else if fields[0].0 == key {
        assert(put(fields, key, value).drop_first() =~= fields.drop_first());
    } else {
        let rest = fields.drop_first();
        law_put_keeps_other_keys(rest, key, value, other);
        assert(put(fields, key, value).drop_first() =~= put(rest, key, value));
    }
}

/// What a key holds is what its first field holds; a key without a field holds
/// nothing.
pub proof fn law_first_field_counts(
    fields: Seq<(Seq<char>, JsonView)>,
    key: Seq<char>,
    n: int,
)
    requires
        0 <= n <= fields.len(),
        forall|k: int| 0 <= k < n ==> (#[trigger] fields[k]).0 != key,
        n < fields.len() ==> fields[n].0 == key,
    ensures
        JsonView::Object(fields).get(key) == (if n < fields.len() {
            Some(fields[n].1)
        } else {
            None
        }),
        lookup(fields, key) == JsonView::Object(fields).get(key),
    decreases fields.len(),
{
    if n > 0 {
        let rest = fields.drop_first();
        assert(fields[0].0 != key);
        assert forall|k: int| 0 <= k < n - 1 implies (#[trigger] rest[k]).0 != key by {
            assert(rest[k] == fields[k + 1]);
        }
        law_first_field_counts(rest, key, n - 1);
    }
}

/// A document has a text, or items, under a key exactly if a text, or an array,
/// stands there; only objects have keys.
pub proof fn law_values_have_one_type(v: JsonView, key: Seq<char>, default: Seq<char>)
    ensures
        !(v is Object) ==> v.get(key) is None,
        forall|s: Seq<char>| v.text(key) == Some(s) <==> v.get(key) == Some(JsonView::Text(s)),
        forall|a: Seq<JsonView>| v.items(key) == Some(a) <==> v.get(key) == Some(JsonView::Array(a)),
        v.text(key) is None ==> v.text_or(key, default) == default,
        v.text(key) matches Some(s) ==> v.text_or(key, default) == s,
{
}

/// A value under a path of keys is one step further than the value before it.
pub proof fn law_paths_go_step_by_step(
    v: JsonView,
    a: Seq<char>,
    b: Seq<char>,
    c: Seq<char>,
    w: JsonView,
)
    ensures
        v.get(a) is None ==> v.get2(a, b) is None && v.get3(a, b, c) is None,
        v.get(a) == Some(w) ==> v.get2(a, b) == w.get(b) && v.get3(a, b, c) == w.get2(b, c),
{
}

/// Giving a key a value moves no field: there is one field more only where the
/// key had none, and it stands at the end.
pub proof fn law_put_moves_nothing(
    fields: Seq<(Seq<char>, JsonView)>,
    key: Seq<char>,
    value: JsonView,
)
    ensures
        put(fields, key, value).len() == fields.len() + (if lookup(fields, key) is None {
            1int
        } else {
            0
        }),
        forall|i: int|
            0 <= i < fields.len() ==> (#[trigger] put(fields, key, value)[i]).0 == fields[i].0,
        forall|i: int|
            0 <= i < fields.len() && fields[i].0 != key ==> #[trigger] put(fields, key, value)[i]
                == fields[i],
    decreases fields.len(),
{
    if fields.len() > 0 && fields[0].0 != key {
        let rest = fields.drop_first();
        law_put_moves_nothing(rest, key, value);
        let all = put(fields, key, value);
        assert forall|i: int| 0 <= i < fields.len() implies (#[trigger] all[i]).0 == fields[i].0 && (
        fields[i].0 != key ==> all[i] == fields[i]) by {
            if i > 0 {
                assert(all[i] == put(rest, key, value)[i - 1]);
                assert(fields[i] == rest[i - 1]);
            }
        }
    }
}

/// A key is repeated exactly if two fields have it.
pub proof fn law_two_fields_repeat_a_key(fields: Seq<(Seq<char>, JsonView)>, key: Seq<char>)
    ensures
        times(fields, key) > 0 <==> exists|i: int|
            0 <= i < fields.len() && #[trigger] fields[i].0 == key,
        times(fields, key) > 1 <==> exists|i: int, j: int|
            0 <= i < j < fields.len() && #[trigger] fields[i].0 == key && #[trigger] fields[j].0
                == key,
    decreases fields.len(),
{
    if fields.len() > 0 {
        let rest = fields.drop_last();
        let last = fields.len() - 1;
        law_two_fields_repeat_a_key(rest, key);
        assert(fields.last() == fields[last]);
        if times(rest, key) > 0 {
            let i = choose|i: int| 0 <= i < rest.len() && #[trigger] rest[i].0 == key;
            assert(fields[i].0 == key);
        }
        if times(rest, key) > 1 {
            let (i, j) = choose|i: int, j: int|
                0 <= i < j < rest.len() && #[trigger] rest[i].0 == key && #[trigger] rest[j].0
                    == key;
            assert(fields[i].0 == key && fields[j].0 == key);
        }
        assert forall|i: int| 0 <= i < last && #[trigger] fields[i].0 == key implies times(rest, key)
            > 0 by {
            assert(rest[i].0 == key);
        }
        assert forall|i: int, j: int|
            0 <= i < j < last && #[trigger] fields[i].0 == key && #[trigger] fields[j].0
                == key implies times(rest, key) > 1 by {
            assert(rest[i].0 == key && rest[j].0 == key);
        }
    }
}

/// Texts as an array are those texts in their order.
pub proof fn law_text_array_holds_the_texts(s: Seq<Seq<char>>)
    ensures
        text_array(s) matches JsonView::Array(a) && a.len() == s.len() && (forall|i: int|
            0 <= i < s.len() ==> #[trigger] a[i] == JsonView::Text(s[i])),
{
}

/// What is missing is null; the first of two values counts where it is there.
pub proof fn law_missing_values_are_null(v: JsonView, s: Seq<char>, o: Option<JsonView>)
    ensures
        or_null(Some(v)) == v,
        or_null(None) == JsonView::Null,
        text_or_null(Some(s)) == JsonView::Text(s),
        text_or_null(None) == JsonView::Null,
        first_of(Some(v), o) == Some(v),
        first_of(None, o) == o,
        text_in(Some(JsonView::Text(s))) == Some(s),
        text_in(None) is None,
        !(v is Text) ==> text_in(Some(v)) is None,
        !(v is Array) ==> items_in(Some(v)) is None,
        items_in(None) is None,
{
}

/// Only objects are given values under a key; a number is unsigned or none.
pub proof fn law_only_objects_have_fields(v: JsonView, key: Seq<char>, value: JsonView, n: u64)
    ensures
        !(v is Object) ==> with_field(v, key, value) == v,
        v matches JsonView::Object(fields) ==> with_field(v, key, value) == JsonView::Object(
            put(fields, key, value),
        ),
        JsonView::Number(NumberView::Unsigned(n)).as_unsigned() == Some(n),
        v.as_unsigned() is Some ==> v is Number,
        v.as_text() is Some <==> v is Text,
        v.as_items() is Some <==> v is Array,
{
}

/// What is seen of an optional value is what it says, and of a document what its
/// parts say.
pub proof fn law_values_are_seen(o: Option<String>, items: Vec<Json>, b: bool, s: String)
    ensures
        o matches Some(x) ==> seen(o) == Some(x@),
        o is None ==> seen(o) is None,
        Json::Null@ == JsonView::Null,
        Json::Bool(b)@ == JsonView::Bool(b),
        Json::Text(s)@ == JsonView::Text(s@),
        Json::Array(items)@ matches JsonView::Array(a) && a.len() == items@.len() && forall|i: int|
            0 <= i < items@.len() ==> #[trigger] a[i] == items@[i]@,
{
}

} // verus!
