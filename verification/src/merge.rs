//! Owned and shared meetings, fetched page by page and merged into one list.

use crate::json;
use crate::json::{find_field, put_field, set_field, text_value, Json, JsonView};
use crate::text;
use crate::text::{text_eq, text_less};
use vstd::prelude::*;

verus! {

/// How many documents one request asks for.
pub const PAGE_SIZE: u32 = 100;

/// The most owned documents that are asked for.
pub const MAX_OWNED: u32 = 1000;

// ---- Documents by id --------------------------------------------------------

/// A document that says where it came from.
pub open spec fn stamped(document: JsonView, origin: Seq<char>) -> JsonView {
    json::with_field(document, "_origin"@, JsonView::Text(origin))
}

/// Documents by id after some more came in: one with a known id replaces the
/// earlier one, and one without an id is skipped.
pub open spec fn with_documents(
    known: Seq<(Seq<char>, JsonView)>,
    items: Seq<JsonView>,
    origin: Seq<char>,
) -> Seq<(Seq<char>, JsonView)>
    decreases items.len(),
{
    if items.len() == 0 {
        known
    } else {
        let before = with_documents(known, items.drop_last(), origin);
        match items.last().text("id"@) {
            Some(id) => json::put(before, id, stamped(items.last(), origin)),
            None => before,
        }
    }
}

/// The items of an optional array.
pub open spec fn items_or_none(o: Option<Seq<JsonView>>) -> Seq<JsonView> {
    match o {
        Some(items) => items,
        None => Seq::empty(),
    }
}

/// The documents of a page of owned documents.
pub open spec fn page_items(reply: JsonView) -> Seq<JsonView> {
    items_or_none(reply.items("docs"@))
}

/// The documents of a batch: under `documents`, or under `docs` where there is
/// no such key.
pub open spec fn batch_items(reply: JsonView) -> Seq<JsonView> {
    items_or_none(
        json::items_in(json::first_of(reply.get("documents"@), reply.get("docs"@))),
    )
}

/// Adds documents to those known by id.
fn add_documents(known: &mut Vec<(String, Json)>, items: &Vec<Json>, origin: &str)
    ensures
        json::field_views(final(known)@) == with_documents(
            json::field_views(old(known)@),
            json::views(items@),
            origin@,
        ),
{
    let ghost before = json::field_views(known@);
    let ghost all = json::views(items@);
    let mut i: usize = 0;
    while i < items.len()
        invariant
            i <= items.len(),
            all == json::views(items@),
            json::field_views(known@) == with_documents(before, all.take(i as int), origin@),
        decreases items.len() - i,
    {
        let item = &items[i];
        assert(all.take(i + 1).drop_last() =~= all.take(i as int));
        assert(all.take(i + 1).last() == item@);
        if let Some(id) = item.text("id") {
            put_field(known, id, set_field(item.clone(), "_origin", text_value(origin)));
        }
        i += 1;
    }
    assert(all.take(items.len() as int) =~= all);
}

// ---- Shared documents -------------------------------------------------------

/// Ids after one more was named: one that is known already, as a document or
/// as an id, changes nothing.
pub open spec fn with_id(
    ids: Seq<Seq<char>>,
    known: Seq<(Seq<char>, JsonView)>,
    id: Seq<char>,
) -> Seq<Seq<char>> {
    if json::lookup(known, id) is Some || ids.contains(id) {
        ids
    } else {
        ids.push(id)
    }
}

/// Ids after the documents of a list were named.
pub open spec fn with_document_ids(
    ids: Seq<Seq<char>>,
    known: Seq<(Seq<char>, JsonView)>,
    items: Seq<JsonView>,
) -> Seq<Seq<char>>
    decreases items.len(),
{
    if items.len() == 0 {
        ids
    } else {
        let before = with_document_ids(ids, known, items.drop_last());
        match items.last().text("id"@) {
            Some(id) => with_id(before, known, id),
            None => before,
        }
    }
}

/// Ids after those of a list were named.
pub open spec fn with_plain_ids(
    ids: Seq<Seq<char>>,
    known: Seq<(Seq<char>, JsonView)>,
    items: Seq<JsonView>,
) -> Seq<Seq<char>>
    decreases items.len(),
{
    if items.len() == 0 {
        ids
    } else {
        let before = with_plain_ids(ids, known, items.drop_last());
        match items.last().as_text() {
            Some(id) => with_id(before, known, id),
            None => before,
        }
    }
}

/// The ids that document lists name and that are not known: of each list first
/// those of its documents, then its plain ids, each id once.
pub open spec fn shared_ids(
    known: Seq<(Seq<char>, JsonView)>,
    lists: Seq<JsonView>,
) -> Seq<Seq<char>>
    decreases lists.len(),
{
    if lists.len() == 0 {
        Seq::empty()
    } else {
        let before = shared_ids(known, lists.drop_last());
        let list = lists.last();
        with_plain_ids(
            with_document_ids(before, known, items_or_none(list.items("documents"@))),
            known,
            items_or_none(list.items("document_ids"@)),
        )
    }
}

/// Whether a text is one of a list.
fn listed(ids: &Vec<String>, id: &str) -> (r: bool)
    ensures
        r == text::text_views(ids@).contains(id@),
{
    let mut i: usize = 0;
    while i < ids.len()
        invariant
            i <= ids.len(),
            forall|k: int| 0 <= k < i ==> (#[trigger] ids@[k])@ != id@,
        decreases ids.len() - i,
    {
        if text_eq(ids[i].as_str(), id) {
            assert(text::text_views(ids@)[i as int] == id@);
            return true;
        }
        i += 1;
    }
    assert forall|k: int| 0 <= k < ids.len() implies text::text_views(ids@)[k] != id@ by {
        assert(ids@[k]@ != id@);
    }
    false
}

/// Names one more id.
fn add_id(ids: &mut Vec<String>, known: &Vec<(String, Json)>, id: &str)
    ensures
        text::text_views(final(ids)@) == with_id(
            text::text_views(old(ids)@),
            json::field_views(known@),
            id@,
        ),
{
    if find_field(known, id).is_none() && !listed(ids, id) {
        ids.push(id.to_owned());
        assert(text::text_views(ids@) =~= text::text_views(old(ids)@).push(id@));
    }
}

/// The ids that document lists name and that are not known.
fn collect_shared(known: &Vec<(String, Json)>, lists: &Vec<Json>) -> (r: Vec<String>)
    ensures
        text::text_views(r@) == shared_ids(json::field_views(known@), json::views(lists@)),
{
    let ghost docs = json::field_views(known@);
    let ghost all = json::views(lists@);
    let mut ids: Vec<String> = Vec::new();
    assert(text::text_views(ids@) =~= shared_ids(docs, all.take(0)));
    let mut i: usize = 0;
    while i < lists.len()
        invariant
            i <= lists.len(),
            docs == json::field_views(known@),
            all == json::views(lists@),
            text::text_views(ids@) == shared_ids(docs, all.take(i as int)),
        decreases lists.len() - i,
    {
        let list = &lists[i];
        let ghost before = text::text_views(ids@);
        assert(all.take(i + 1).drop_last() =~= all.take(i as int));
        assert(all.take(i + 1).last() == list@);
        if let Some(items) = list.items("documents") {
            let ghost named = json::views(items@);
            let mut k: usize = 0;
            while k < items.len()
                invariant
                    k <= items.len(),
                    docs == json::field_views(known@),
                    named == json::views(items@),
                    text::text_views(ids@) == with_document_ids(before, docs, named.take(k as int)),
                decreases items.len() - k,
            {
                assert(named.take(k + 1).drop_last() =~= named.take(k as int));
                assert(named.take(k + 1).last() == items@[k as int]@);
                if let Some(id) = items[k].text("id") {
                    add_id(&mut ids, known, id);
                }
                k += 1;
            }
            assert(named.take(items.len() as int) =~= named);
        }
        let ghost between = text::text_views(ids@);
        if let Some(items) = list.items("document_ids") {
            let ghost named = json::views(items@);
            let mut k: usize = 0;
            while k < items.len()
                invariant
                    k <= items.len(),
                    docs == json::field_views(known@),
                    named == json::views(items@),
                    text::text_views(ids@) == with_plain_ids(between, docs, named.take(k as int)),
                decreases items.len() - k,
            {
                assert(named.take(k + 1).drop_last() =~= named.take(k as int));
                assert(named.take(k + 1).last() == items@[k as int]@);
                if let Some(id) = items[k].as_str() {
                    add_id(&mut ids, known, id);
                }
                k += 1;
            }
            assert(named.take(items.len() as int) =~= named);
        }
        i += 1;
    }
    assert(all.take(lists.len() as int) =~= all);
    ids
}

// ---- The fetch --------------------------------------------------------------

/// How far a fetch is.
#[derive(Debug, Clone, Copy, PartialEq, Eq, Structural)]
pub enum Stage {
    /// A page of owned documents is to be asked for.
    Owned { offset: u32 },
    /// The document lists are to be asked for.
    Lists,
    /// The shared documents from the given place on are to be asked for.
    Batch { from: usize },
    /// All is there.
    Done,
}

/// What a fetch asks for next.
#[derive(Debug, PartialEq, Eq)]
pub enum Ask {
    Documents { limit: u32, offset: u32 },
    Lists,
    Batch(Vec<String>),
}

/// What an [`Ask`] says.
pub enum AskView {
    Documents { limit: u32, offset: u32 },
    Lists,
    Batch(Seq<Seq<char>>),
}

impl View for Ask {
    type V = AskView;

    open spec fn view(&self) -> AskView {
        match self {
            Ask::Documents { limit, offset } => AskView::Documents { limit: *limit, offset: *offset },
            Ask::Lists => AskView::Lists,
            Ask::Batch(ids) => AskView::Batch(text::text_views(ids@)),
        }
    }
}

/// A fetch of all meetings, as far as it has come.
pub struct Merge {
    include_shared: bool,
    stage: Stage,
    documents: Vec<(String, Json)>,
    shared: Vec<String>,
}

/// What a [`Merge`] holds.
#[verifier::ext_equal]
pub struct MergeView {
    pub include_shared: bool,
    pub stage: Stage,
    pub documents: Seq<(Seq<char>, JsonView)>,
    pub shared: Seq<Seq<char>>,
}

impl View for Merge {
    type V = MergeView;

    closed spec fn view(&self) -> MergeView {
        MergeView {
            include_shared: self.include_shared,
            stage: self.stage,
            documents: json::field_views(self.documents@),
            shared: text::text_views(self.shared@),
        }
    }
}

impl MergeView {
    /// A fetch that has not asked for anything.
    pub open spec fn initial(include_shared: bool) -> MergeView {
        MergeView {
            include_shared,
            stage: Stage::Owned { offset: 0 },
            documents: Seq::empty(),
            shared: Seq::empty(),
        }
    }

    /// What holds of every fetch: pages are asked for within the bound, shared
    /// documents only where they are wanted, and batches only where ids are
    /// left.
    pub open spec fn sound(self) -> bool {
        match self.stage {
            Stage::Owned { offset } => offset < MAX_OWNED && offset % PAGE_SIZE == 0,
            Stage::Lists => self.include_shared,
            Stage::Batch { from } => self.include_shared && from < self.shared.len()
                <= usize::MAX,
            Stage::Done => true,
        }
    }

    /// The ids of the batch that begins at a place.
    pub open spec fn batch(self, from: int) -> Seq<Seq<char>> {
        if from + PAGE_SIZE < self.shared.len() {
            self.shared.subrange(from, from + PAGE_SIZE)
        } else {
            self.shared.skip(from)
        }
    }

    /// What is asked for next.
    pub open spec fn ask(self) -> Option<AskView> {
        match self.stage {
            Stage::Owned { offset } => Some(AskView::Documents { limit: PAGE_SIZE, offset }),
            Stage::Lists => Some(AskView::Lists),
            Stage::Batch { from } => Some(AskView::Batch(self.batch(from as int))),
            Stage::Done => None,
        }
    }

    /// The stage after the last page of owned documents.
    pub open spec fn after_owned(self) -> Stage {
        if self.include_shared {
            Stage::Lists
        } else {
            Stage::Done
        }
    }

    /// The stage after a page of owned documents: the next page, if this one
    /// was full and the bound is not reached.
    pub open spec fn after_page(self, offset: u32, n: nat) -> Stage {
        if n < PAGE_SIZE || offset + PAGE_SIZE >= MAX_OWNED {
            self.after_owned()
        } else {
            Stage::Owned { offset: (offset + PAGE_SIZE) as u32 }
        }
    }

    /// The fetch after a reply; `None` is a request that failed. Only a failed
    /// request for the lists is tolerated, and taken for no lists.
    pub open spec fn after(self, reply: Option<JsonView>) -> Option<MergeView> {
        match (self.stage, reply) {
            (Stage::Owned { offset }, Some(v)) => Some(
                MergeView {
                    stage: self.after_page(offset, page_items(v).len()),
                    documents: with_documents(self.documents, page_items(v), "owned"@),
                    ..self
                },
            ),
            (Stage::Lists, r) => {
                let ids = shared_ids(self.documents, items_or_none(json::items_in(r)));
                Some(
                    MergeView {
                        stage: if ids.len() == 0 {
                            Stage::Done
                        } else {
                            Stage::Batch { from: 0 }
                        },
                        shared: ids,
                        ..self
                    },
                )
            },
            (Stage::Batch { from }, Some(v)) => Some(
                MergeView {
                    stage: if from + PAGE_SIZE < self.shared.len() {
                        Stage::Batch { from: (from + PAGE_SIZE) as usize }
                    } else {
                        Stage::Done
                    },
                    documents: with_documents(self.documents, batch_items(v), "shared"@),
                    ..self
                },
            ),
            (Stage::Done, Some(_)) => Some(self),
            (_, None) => None,
        }
    }

    /// The fetch after some replies, one after the other.
    pub open spec fn after_all(self, replies: Seq<Option<JsonView>>) -> Option<MergeView>
        decreases replies.len(),
    {
        if replies.len() == 0 {
            Some(self)
        } else {
            match self.after_all(replies.drop_last()) {
                Some(m) => m.after(replies.last()),
                None => None,
            }
        }
    }
}

/// The documents of a page of owned documents.
fn page_of(reply: &Json) -> (r: Vec<Json>)
    ensures
        json::views(r@) == page_items(reply@),
{
    copy_items(reply.items("docs"))
}

/// The documents of a batch.
pub fn batch_of(reply: &Json) -> (r: Vec<Json>)
    ensures
        json::views(r@) == batch_items(reply@),
{
    let found = match reply.get("documents") {
        Some(v) => Some(v),
        None => reply.get("docs"),
    };
    copy_items(json::opt_array(found))
}

/// A copy of the items of an optional array.
pub fn copy_items(o: Option<&Vec<Json>>) -> (r: Vec<Json>)
    ensures
        json::views(r@) == (match o {
            Some(v) => json::views(v@),
            None => Seq::empty(),
        }),
{
    let mut out: Vec<Json> = Vec::new();
    match o {
        Some(v) => {
            let mut i: usize = 0;
            while i < v.len()
                invariant
                    i <= v.len(),
                    out.len() == i,
                    forall|k: int|
                        0 <= k < i ==> json::json_view(#[trigger] out@[k]) == json::json_view(
                            v@[k],
                        ),
                decreases v.len() - i,
            {
                out.push(v[i].clone());
                i += 1;
            }
            assert(json::views(out@) =~= json::views(v@));
        },
        None => {
            assert(json::views(out@) =~= Seq::empty());
        },
    }
    out
}

/// A range of texts.
fn copy_texts(v: &Vec<String>, from: usize, to: usize) -> (r: Vec<String>)
    requires
        from <= to <= v.len(),
    ensures
        text::text_views(r@) == text::text_views(v@).subrange(from as int, to as int),
{
    let mut out: Vec<String> = Vec::new();
    let mut i: usize = from;
    while i < to
        invariant
            from <= i <= to <= v.len(),
            out.len() == i - from,
            forall|k: int| 0 <= k < i - from ==> (#[trigger] out@[k])@ == v@[from + k]@,
        decreases to - i,
    {
        out.push(v[i].clone());
        i += 1;
    }
    assert(text::text_views(out@) =~= text::text_views(v@).subrange(from as int, to as int));
    out
}

impl Merge {
    /// Begins a fetch of all owned documents, and of the shared ones if they
    /// are wanted.
    pub fn start(include_shared: bool) -> (r: Merge)
        ensures
            r@ == MergeView::initial(include_shared),
            r@.sound(),
    {
        let r = Merge {
            include_shared,
            stage: Stage::Owned { offset: 0 },
            documents: Vec::new(),
            shared: Vec::new(),
        };
        assert(r@ =~= MergeView::initial(include_shared));
        r
    }

    /// What is to be asked for next; nothing, once all is there.
    pub fn ask(&self) -> (r: Option<Ask>)
        requires
            self@.sound(),
        ensures
            json::seen(r) == self@.ask(),
    {
        match self.stage {
            Stage::Owned { offset } => Some(Ask::Documents { limit: PAGE_SIZE, offset }),
            Stage::Lists => Some(Ask::Lists),
            Stage::Batch { from } => {
                let to: usize = if self.shared.len() - from > PAGE_SIZE as usize {
                    from + PAGE_SIZE as usize
                } else {
                    self.shared.len()
                };
                let ids = copy_texts(&self.shared, from, to);
                assert(text::text_views(ids@) =~= self@.batch(from as int));
                Some(Ask::Batch(ids))
            },
            Stage::Done => None,
        }
    }

    /// Takes in the reply to what was asked; `None` is a request that failed.
    /// Where the result is `None`, the failure ends the fetch.
    pub fn answer(self, reply: Option<Json>) -> (r: Option<Merge>)
        requires
            self@.sound(),
        ensures
            json::seen(r) == self@.after(json::seen(reply)),
            r matches Some(m) ==> m@.sound(),
    {
        let mut next = self;
        match next.stage {
            Stage::Owned { offset } => match reply {
                Some(v) => {
                    let items = page_of(&v);
                    add_documents(&mut next.documents, &items, "owned");
                    next.stage = if items.len() < PAGE_SIZE as usize || offset + PAGE_SIZE
                        >= MAX_OWNED {
                        if next.include_shared {
                            Stage::Lists
                        } else {
                            Stage::Done
                        }
                    } else {
                        Stage::Owned { offset: offset + PAGE_SIZE }
                    };
                    assert(next@ =~= self@.after(Some(v@))->0);
                    Some(next)
                },
                None => None,
            },
            Stage::Lists => {
                let lists = match &reply {
                    Some(v) => copy_items(v.as_array()),
                    None => copy_items(None),
                };
                next.shared = collect_shared(&next.documents, &lists);
                next.stage = if next.shared.len() == 0 {
                    Stage::Done
                } else {
                    Stage::Batch { from: 0 }
                };
                assert(next@ =~= self@.after(json::seen(reply))->0);
                Some(next)
            },
            Stage::Batch { from } => match reply {
                Some(v) => {
                    let items = batch_of(&v);
                    add_documents(&mut next.documents, &items, "shared");
                    next.stage = if next.shared.len() - from > PAGE_SIZE as usize {
                        Stage::Batch { from: from + PAGE_SIZE as usize }
                    } else {
                        Stage::Done
                    };
                    assert(next@ =~= self@.after(Some(v@))->0);
                    Some(next)
                },
                None => None,
            },
            Stage::Done => match reply {
                Some(_) => Some(next),
                None => None,
            },
        }
    }
}

// ---- Order ------------------------------------------------------------------

/// When a document was last changed, as it says.
pub open spec fn updated(document: JsonView) -> Seq<char> {
    document.text_or("updated_at"@, ""@)
}

/// Documents with one more put in its place, the newest first. Among those of
/// the same time it comes last.
pub open spec fn with_newest(s: Seq<JsonView>, x: JsonView) -> Seq<JsonView>
    decreases s.len(),
{
    if s.len() == 0 {
        seq![x]
    } else if text::precedes(updated(s[0]), updated(x)) {
        seq![x] + s
    } else {
        seq![s[0]] + with_newest(s.drop_first(), x)
    }
}

/// Documents in the order of their times, the newest first.
pub open spec fn newest_first(s: Seq<JsonView>) -> Seq<JsonView>
    decreases s.len(),
{
    if s.len() == 0 {
        Seq::empty()
    } else {
        with_newest(newest_first(s.drop_last()), s.last())
    }
}

/// The documents, without their ids.
pub open spec fn values(documents: Seq<(Seq<char>, JsonView)>) -> Seq<JsonView> {
    Seq::new(documents.len(), |i: int| documents[i].1)
}

/// Puts a document in its place, the newest first.
fn put_newest(v: &mut Vec<Json>, x: Json)
    ensures
        json::views(final(v)@) == with_newest(json::views(old(v)@), x@),
{
    let ghost all = json::views(v@);
    let mut i: usize = 0;
    assert(all.skip(0) =~= all);
    assert(with_newest(all, x@) =~= all.take(0) + with_newest(all.skip(0), x@));
    while i < v.len() && !text_less(v[i].text_or("updated_at", ""), x.text_or("updated_at", ""))
        invariant
            i <= v.len(),
            *v == *old(v),
            all == json::views(v@),
            with_newest(all, x@) == all.take(i as int) + with_newest(all.skip(i as int), x@),
        decreases v.len() - i,
    {
        proof {
            let rest = all.skip(i as int);
            assert(rest[0] == v@[i as int]@);
            assert(rest.drop_first() =~= all.skip(i + 1));
            assert(all.take(i as int) + (seq![rest[0]] + with_newest(all.skip(i + 1), x@))
                =~= all.take(i + 1) + with_newest(all.skip(i + 1), x@));
        }
        i += 1;
    }
    let ghost rest = all.skip(i as int);
    assert(i < v.len() ==> rest[0] == v@[i as int]@);
    v.insert(i, x);
    assert(json::views(v@) =~= all.take(i as int) + (seq![x@] + rest));
    assert(rest.len() == 0 ==> seq![x@] + rest =~= seq![x@]);
}

impl Merge {
    /// The documents, the newest first.
    pub fn meetings(&self) -> (r: Vec<Json>)
        ensures
            json::views(r@) == newest_first(values(self@.documents)),
    {
        let ghost all = values(self@.documents);
        let mut out: Vec<Json> = Vec::new();
        assert(json::views(out@) =~= newest_first(all.take(0)));
        let mut i: usize = 0;
        while i < self.documents.len()
            invariant
                i <= self.documents.len(),
                all == values(self@.documents),
                json::views(out@) == newest_first(all.take(i as int)),
            decreases self.documents.len() - i,
        {
            assert(all.take(i + 1).drop_last() =~= all.take(i as int));
            assert(all.take(i + 1).last() == self.documents@[i as int].1@);
            put_newest(&mut out, self.documents[i].1.clone());
            i += 1;
        }
        assert(all.take(self.documents.len() as int) =~= all);
        out
    }
}

// ---- What holds of a fetch --------------------------------------------------

/// Whether documents stand under their own ids, each id once, and say where
/// they came from.
pub open spec fn well_kept(documents: Seq<(Seq<char>, JsonView)>) -> bool {
    &&& forall|i: int, j: int|
        0 <= i < j < documents.len() ==> (#[trigger] documents[i]).0 != (
        #[trigger] documents[j]).0
    &&& forall|i: int|
        0 <= i < documents.len() ==> #[trigger] kept_under(documents[i].0, documents[i].1)
}

/// Whether a document has an id and says where it came from.
pub open spec fn kept_under(id: Seq<char>, document: JsonView) -> bool {
    &&& document.text("id"@) == Some(id)
    &&& (document.text("_origin"@) == Some("owned"@) || document.text("_origin"@) == Some(
        "shared"@,
    ))
}

/// Giving a key a value changes the keys only by adding that one, and the
/// values only under it.
proof fn lemma_put_entries(
    fields: Seq<(Seq<char>, JsonView)>,
    key: Seq<char>,
    value: JsonView,
)
    requires
        forall|i: int, j: int|
            0 <= i < j < fields.len() ==> (#[trigger] fields[i]).0 != (#[trigger] fields[j]).0,
    ensures
        forall|i: int, j: int|
            0 <= i < j < json::put(fields, key, value).len() ==> (#[trigger] json::put(
                fields,
                key,
                value,
            )[i]).0 != (#[trigger] json::put(fields, key, value)[j]).0,
        forall|i: int|
            0 <= i < json::put(fields, key, value).len() ==> (#[trigger] json::put(
                fields,
                key,
                value,
            )[i]) == (key, value) || (exists|k: int|
                0 <= k < fields.len() && fields[k] == json::put(fields, key, value)[i]),
    decreases fields.len(),
{
    let r = json::put(fields, key, value);
    if fields.len() == 0 {
        assert(r[0] == (key, value));
    } else if fields[0].0 == key {
        let rest = fields.drop_first();
        assert(r =~= fields.update(0, (key, value)));
        assert forall|i: int| 0 <= i < r.len() implies #[trigger] r[i] == (key, value) || (exists|
            k: int,
        |
            0 <= k < fields.len() && fields[k] == r[i]) by {
            if i > 0 {
                assert(fields[i] == r[i]);
            }
        }
    } else {
        let rest = fields.drop_first();
        assert forall|i: int, j: int| 0 <= i < j < rest.len() implies (#[trigger] rest[i]).0 != (
        #[trigger] rest[j]).0 by {
            assert(rest[i] == fields[i + 1] && rest[j] == fields[j + 1]);
        }
        lemma_put_entries(rest, key, value);
        let t = json::put(rest, key, value);
        assert(r =~= seq![fields[0]] + t);
        assert forall|i: int| 0 <= i < t.len() implies (#[trigger] t[i]).0 != fields[0].0 by {
            if t[i] != (key, value) {
                let k = choose|k: int| 0 <= k < rest.len() && rest[k] == t[i];
                assert(fields[k + 1] == t[i]);
            }
        }
        assert forall|i: int, j: int| 0 <= i < j < r.len() implies (#[trigger] r[i]).0 != (
        #[trigger] r[j]).0 by {
            assert(r[j] == t[j - 1]);
            if i > 0 {
                assert(r[i] == t[i - 1]);
            }
        }
        assert forall|i: int| 0 <= i < r.len() implies #[trigger] r[i] == (key, value) || (exists|
            k: int,
        |
            0 <= k < fields.len() && fields[k] == r[i]) by {
            if i == 0 {
                assert(fields[0] == r[0]);
            } else {
                assert(r[i] == t[i - 1]);
                if t[i - 1] != (key, value) {
                    let k = choose|k: int| 0 <= k < rest.len() && rest[k] == t[i - 1];
                    assert(fields[k + 1] == r[i]);
                }
            }
        }
    }
}

/// Taking in documents keeps them under their own ids, each id once, with
/// their origin.
pub proof fn law_documents_are_well_kept(
    known: Seq<(Seq<char>, JsonView)>,
    items: Seq<JsonView>,
    origin: Seq<char>,
)
    requires
        well_kept(known),
        origin == "owned"@ || origin == "shared"@,
    ensures
        well_kept(with_documents(known, items, origin)),
    decreases items.len(),
{
    if items.len() > 0 {
        let before = with_documents(known, items.drop_last(), origin);
        law_documents_are_well_kept(known, items.drop_last(), origin);
        let item = items.last();
        if let Some(id) = item.text("id"@) {
            let fields = item->Object_0;
            let value = stamped(item, origin);
            reveal_strlit("id");
            reveal_strlit("_origin");
            assert("id"@.len() != "_origin"@.len());
            json::law_put_then_lookup(fields, "_origin"@, JsonView::Text(origin));
            json::law_put_keeps_other_keys(
                fields,
                "_origin"@,
                JsonView::Text(origin),
                "id"@,
            );
            assert(kept_under(id, value));
            let after = json::put(before, id, value);
            lemma_put_entries(before, id, value);
            assert forall|i: int| 0 <= i < after.len() implies #[trigger] kept_under(
                after[i].0,
                after[i].1,
            ) by {
                if after[i] != (id, value) {
                    let k = choose|k: int| 0 <= k < before.len() && before[k] == after[i];
                    assert(kept_under(before[k].0, before[k].1));
                }
            }
        }
    }
}

/// Taking in documents loses none: an id is known afterwards exactly if it was
/// known before or one of the documents has it.
pub proof fn law_documents_are_taken_in(
    known: Seq<(Seq<char>, JsonView)>,
    items: Seq<JsonView>,
    origin: Seq<char>,
    id: Seq<char>,
)
    ensures
        json::lookup(with_documents(known, items, origin), id) is Some <==> json::lookup(
            known,
            id,
        ) is Some || exists|k: int|
            0 <= k < items.len() && #[trigger] items[k].text("id"@) == Some(id),
    decreases items.len(),
{
    if items.len() > 0 {
        let rest = items.drop_last();
        let before = with_documents(known, rest, origin);
        law_documents_are_taken_in(known, rest, origin, id);
        assert(items[items.len() - 1] == items.last());
        match items.last().text("id"@) {
            Some(last) => {
                let value = stamped(items.last(), origin);
                if last == id {
                    json::law_put_then_lookup(before, last, value);
                    assert(items[items.len() - 1].text("id"@) == Some(id));
                } else {
                    json::law_put_keeps_other_keys(before, last, value, id);
                }
            },
            None => {},
        }
        if exists|k: int| 0 <= k < rest.len() && #[trigger] rest[k].text("id"@) == Some(id) {
            let k = choose|k: int|
                0 <= k < rest.len() && #[trigger] rest[k].text("id"@) == Some(id);
            assert(items[k].text("id"@) == Some(id));
        }
        if exists|k: int| 0 <= k < items.len() && #[trigger] items[k].text("id"@) == Some(id) {
            let k = choose|k: int|
                0 <= k < items.len() && #[trigger] items[k].text("id"@) == Some(id);
            if k < rest.len() {
                assert(rest[k].text("id"@) == Some(id));
            }
        }
    }
}

/// Every fetch keeps its documents under their own ids, each id once, with
/// their origin.
pub proof fn law_fetch_keeps_documents(m: MergeView, reply: Option<JsonView>)
    requires
        well_kept(m.documents),
    ensures
        m.after(reply) matches Some(n) ==> well_kept(n.documents),
        forall|include_shared: bool|
            well_kept((#[trigger] MergeView::initial(include_shared)).documents),
{
    if let Some(v) = reply {
        law_documents_are_well_kept(m.documents, page_items(v), "owned"@);
        law_documents_are_well_kept(m.documents, batch_items(v), "shared"@);
    }
}

/// The rank of a stage: the later the stage, the lower.
pub open spec fn rank(stage: Stage) -> nat {
    match stage {
        Stage::Owned { .. } => 3,
        Stage::Lists => 2,
        Stage::Batch { .. } => 1,
        Stage::Done => 0,
    }
}

/// What is left to do within a stage.
pub open spec fn left(m: MergeView) -> int {
    match m.stage {
        Stage::Owned { offset } => MAX_OWNED - offset,
        Stage::Batch { from } => m.shared.len() - from,
        _ => 0,
    }
}

/// A fetch comes to an end: each reply brings a later stage, or leaves less to
/// do within the stage. Whether shared documents are wanted never changes. (No
/// list of ids is longer than memory can hold.)
pub proof fn law_fetch_ends(m: MergeView, reply: Option<JsonView>)
    requires
        m.sound(),
        m.stage != Stage::Done,
    ensures
        match m.after(reply) {
            Some(n) => n.shared.len() <= usize::MAX ==> n.sound() && n.include_shared
                == m.include_shared && (rank(n.stage) < rank(m.stage) || (rank(n.stage) == rank(
                m.stage,
            ) && 0 <= left(n) < left(m))),
            None => true,
        },
{
}

/// Putting a field adds at most one.
proof fn lemma_put_length(fields: Seq<(Seq<char>, JsonView)>, key: Seq<char>, value: JsonView)
    ensures
        json::put(fields, key, value).len() <= fields.len() + 1,
    decreases fields.len(),
{
    if fields.len() > 0 && fields[0].0 != key {
        lemma_put_length(fields.drop_first(), key, value);
    }
}

/// Taking in documents adds at most as many as there are.
proof fn lemma_documents_length(
    known: Seq<(Seq<char>, JsonView)>,
    items: Seq<JsonView>,
    origin: Seq<char>,
)
    ensures
        with_documents(known, items, origin).len() <= known.len() + items.len(),
    decreases items.len(),
{
    if items.len() > 0 {
        let before = with_documents(known, items.drop_last(), origin);
        lemma_documents_length(known, items.drop_last(), origin);
        if let Some(id) = items.last().text("id"@) {
            lemma_put_length(before, id, stamped(items.last(), origin));
        }
    }
}

/// Whether a fetch holds no more owned documents than the pages that it asked
/// for can bring.
pub open spec fn within_bound(m: MergeView) -> bool {
    match m.stage {
        Stage::Owned { offset } => m.documents.len() <= offset < MAX_OWNED && offset % PAGE_SIZE
            == 0,
        Stage::Lists => m.include_shared && m.documents.len() <= MAX_OWNED,
        Stage::Batch { .. } => m.include_shared,
        Stage::Done => !m.include_shared ==> m.documents.len() <= MAX_OWNED,
    }
}

/// Whether a page of owned documents is no longer than it was asked for.
pub open spec fn page_fits(m: MergeView, reply: Option<JsonView>) -> bool {
    m.stage is Owned ==> (reply matches Some(v) ==> page_items(v).len() <= PAGE_SIZE)
}

/// A fetch takes in at most a thousand owned documents, from a service that
/// sends no more on a page than it was asked for.
pub proof fn law_owned_documents_are_bounded(m: MergeView, reply: Option<JsonView>)
    requires
        within_bound(m),
        page_fits(m, reply),
    ensures
        m.after(reply) matches Some(n) ==> within_bound(n) && (m.stage is Owned
            ==> n.documents.len() <= MAX_OWNED),
        forall|include_shared: bool|
            within_bound(#[trigger] MergeView::initial(include_shared)),
{
    if let Some(v) = reply {
        lemma_documents_length(m.documents, page_items(v), "owned"@);
    }
}

/// Whether every page of owned documents on the way is no longer than it was
/// asked for.
pub open spec fn pages_fit(m: MergeView, replies: Seq<Option<JsonView>>) -> bool
    decreases replies.len(),
{
    replies.len() > 0 ==> pages_fit(m, replies.drop_last()) && (m.after_all(
        replies.drop_last(),
    ) matches Some(n) ==> page_fits(n, replies.last()))
}

/// However a fetch goes, it holds at most a thousand documents while it asks
/// for owned ones, and at its end where no shared ones are wanted.
pub proof fn law_fetch_is_bounded(include_shared: bool, replies: Seq<Option<JsonView>>)
    requires
        pages_fit(MergeView::initial(include_shared), replies),
    ensures
        MergeView::initial(include_shared).after_all(replies) matches Some(m) ==> within_bound(m)
            && m.include_shared == include_shared && (m.stage is Owned || !include_shared
            ==> m.documents.len() <= MAX_OWNED),
    decreases replies.len(),
{
    let start = MergeView::initial(include_shared);
    if replies.len() > 0 {
        law_fetch_is_bounded(include_shared, replies.drop_last());
        if let Some(m) = start.after_all(replies.drop_last()) {
            law_owned_documents_are_bounded(m, replies.last());
        }
    }
}

/// Only a failed request for the document lists is tolerated.
pub proof fn law_only_lists_may_fail(m: MergeView)
    ensures
        m.after(None) is Some <==> m.stage == Stage::Lists,
{
}

/// Naming an id keeps ids new and each once.
proof fn lemma_with_id(
    ids: Seq<Seq<char>>,
    known: Seq<(Seq<char>, JsonView)>,
    id: Seq<char>,
)
    requires
        all_new(ids, known),
    ensures
        all_new(with_id(ids, known, id), known),
{
}

/// Whether ids are each there once, and none is that of a known document.
pub open spec fn all_new(ids: Seq<Seq<char>>, known: Seq<(Seq<char>, JsonView)>) -> bool {
    &&& ids.no_duplicates()
    &&& forall|i: int| 0 <= i < ids.len() ==> json::lookup(known, #[trigger] ids[i]) is None
}

/// Naming the documents of a list keeps ids new and each once.
proof fn lemma_with_document_ids(
    ids: Seq<Seq<char>>,
    known: Seq<(Seq<char>, JsonView)>,
    items: Seq<JsonView>,
)
    requires
        all_new(ids, known),
    ensures
        all_new(with_document_ids(ids, known, items), known),
    decreases items.len(),
{
    if items.len() > 0 {
        lemma_with_document_ids(ids, known, items.drop_last());
        let before = with_document_ids(ids, known, items.drop_last());
        if let Some(id) = items.last().text("id"@) {
            lemma_with_id(before, known, id);
        }
    }
}

/// Naming the ids of a list keeps ids new and each once.
proof fn lemma_with_plain_ids(
    ids: Seq<Seq<char>>,
    known: Seq<(Seq<char>, JsonView)>,
    items: Seq<JsonView>,
)
    requires
        all_new(ids, known),
    ensures
        all_new(with_plain_ids(ids, known, items), known),
    decreases items.len(),
{
    if items.len() > 0 {
        lemma_with_plain_ids(ids, known, items.drop_last());
        let before = with_plain_ids(ids, known, items.drop_last());
        if let Some(id) = items.last().as_text() {
            lemma_with_id(before, known, id);
        }
    }
}

/// A document that is owned is never asked for as a shared one, and no shared
/// one is asked for twice.
pub proof fn law_shared_ids_are_new(known: Seq<(Seq<char>, JsonView)>, lists: Seq<JsonView>)
    ensures
        all_new(shared_ids(known, lists), known),
    decreases lists.len(),
{
    if lists.len() > 0 {
        law_shared_ids_are_new(known, lists.drop_last());
        let before = shared_ids(known, lists.drop_last());
        let list = lists.last();
        let named = items_or_none(list.items("documents"@));
        lemma_with_document_ids(before, known, named);
        lemma_with_plain_ids(
            with_document_ids(before, known, named),
            known,
            items_or_none(list.items("document_ids"@)),
        );
    }
}

/// Whether one of some documents has an id.
pub open spec fn one_has_id(items: Seq<JsonView>, id: Seq<char>) -> bool {
    exists|k: int| 0 <= k < items.len() && #[trigger] items[k].text("id"@) == Some(id)
}

/// Whether one of some items is a text.
pub open spec fn one_is_text(items: Seq<JsonView>, id: Seq<char>) -> bool {
    exists|k: int| 0 <= k < items.len() && #[trigger] items[k].as_text() == Some(id)
}

/// Whether a document list names an id, of a document or as it is.
pub open spec fn list_names(list: JsonView, id: Seq<char>) -> bool {
    one_has_id(items_or_none(list.items("documents"@)), id) || one_is_text(
        items_or_none(list.items("document_ids"@)),
        id,
    )
}

/// Naming one more id adds that id, unless it is known.
proof fn lemma_named_id(
    ids: Seq<Seq<char>>,
    known: Seq<(Seq<char>, JsonView)>,
    new: Seq<char>,
    id: Seq<char>,
)
    ensures
        with_id(ids, known, new).contains(id) <==> ids.contains(id) || (id == new && json::lookup(
            known,
            id,
        ) is None),
{
    let after = with_id(ids, known, new);
    if ids.contains(id) {
        let i = choose|i: int| 0 <= i < ids.len() && ids[i] == id;
        assert(after[i] == id);
    }
    if after.contains(id) && after.len() > ids.len() {
        let i = choose|i: int| 0 <= i < after.len() && after[i] == id;
        if i < ids.len() {
            assert(ids[i] == id);
        }
    }
    if after.len() > ids.len() {
        assert(after[ids.len() as int] == new);
    }
}

/// Naming the documents of a list adds their ids, unless they are known.
proof fn lemma_document_ids(
    ids: Seq<Seq<char>>,
    known: Seq<(Seq<char>, JsonView)>,
    items: Seq<JsonView>,
    id: Seq<char>,
)
    ensures
        with_document_ids(ids, known, items).contains(id) <==> ids.contains(id) || (one_has_id(
            items,
            id,
        ) && json::lookup(known, id) is None),
    decreases items.len(),
{
    if items.len() > 0 {
        let rest = items.drop_last();
        let before = with_document_ids(ids, known, rest);
        lemma_document_ids(ids, known, rest, id);
        assert(items[items.len() - 1] == items.last());
        if let Some(last) = items.last().text("id"@) {
            lemma_named_id(before, known, last, id);
            assert(items[items.len() - 1].text("id"@) == Some(last));
        }
        if one_has_id(rest, id) {
            let k = choose|k: int|
                0 <= k < rest.len() && #[trigger] rest[k].text("id"@) == Some(id);
            assert(items[k].text("id"@) == Some(id));
        }
        if one_has_id(items, id) {
            let k = choose|k: int|
                0 <= k < items.len() && #[trigger] items[k].text("id"@) == Some(id);
            if k < rest.len() {
                assert(rest[k].text("id"@) == Some(id));
            }
        }
    }
}

/// Naming the plain ids of a list adds them, unless they are known.
proof fn lemma_plain_ids(
    ids: Seq<Seq<char>>,
    known: Seq<(Seq<char>, JsonView)>,
    items: Seq<JsonView>,
    id: Seq<char>,
)
    ensures
        with_plain_ids(ids, known, items).contains(id) <==> ids.contains(id) || (one_is_text(
            items,
            id,
        ) && json::lookup(known, id) is None),
    decreases items.len(),
{
    if items.len() > 0 {
        let rest = items.drop_last();
        let before = with_plain_ids(ids, known, rest);
        lemma_plain_ids(ids, known, rest, id);
        assert(items[items.len() - 1] == items.last());
        if let Some(last) = items.last().as_text() {
            lemma_named_id(before, known, last, id);
            assert(items[items.len() - 1].as_text() == Some(last));
        }
        if one_is_text(rest, id) {
            let k = choose|k: int|
                0 <= k < rest.len() && #[trigger] rest[k].as_text() == Some(id);
            assert(items[k].as_text() == Some(id));
        }
        if one_is_text(items, id) {
            let k = choose|k: int|
                0 <= k < items.len() && #[trigger] items[k].as_text() == Some(id);
            if k < rest.len() {
                assert(rest[k].as_text() == Some(id));
            }
        }
    }
}

/// No shared document is passed over: an id is asked for exactly if a document
/// list names it and no owned document has it.
pub proof fn law_shared_ids_are_those_named(
    known: Seq<(Seq<char>, JsonView)>,
    lists: Seq<JsonView>,
    id: Seq<char>,
)
    ensures
        shared_ids(known, lists).contains(id) <==> json::lookup(known, id) is None && exists|k: int|
            0 <= k < lists.len() && list_names(#[trigger] lists[k], id),
    decreases lists.len(),
{
    if lists.len() > 0 {
        let rest = lists.drop_last();
        let list = lists.last();
        let before = shared_ids(known, rest);
        let documents = items_or_none(list.items("documents"@));
        law_shared_ids_are_those_named(known, rest, id);
        lemma_document_ids(before, known, documents, id);
        lemma_plain_ids(
            with_document_ids(before, known, documents),
            known,
            items_or_none(list.items("document_ids"@)),
            id,
        );
        assert(lists[lists.len() - 1] == list);
        if exists|k: int| 0 <= k < rest.len() && list_names(#[trigger] rest[k], id) {
            let k = choose|k: int| 0 <= k < rest.len() && list_names(#[trigger] rest[k], id);
            assert(lists[k] == rest[k]);
        }
        if exists|k: int| 0 <= k < lists.len() && list_names(#[trigger] lists[k], id) {
            let k = choose|k: int| 0 <= k < lists.len() && list_names(#[trigger] lists[k], id);
            if k < rest.len() {
                assert(rest[k] == lists[k]);
            }
        }
    }
}

/// Whether the document of an id came from a page of owned documents.
pub open spec fn is_owned(documents: Seq<(Seq<char>, JsonView)>, id: Seq<char>) -> bool {
    json::lookup(documents, id) matches Some(d) && d.text("_origin"@) == Some("owned"@)
}

/// Whether a reply to a batch holds only documents that the fetch asks for as
/// shared ones.
pub open spec fn only_asked(m: MergeView, reply: Option<JsonView>) -> bool {
    m.stage is Batch ==> (reply matches Some(v) ==> forall|id: Seq<char>| #[trigger]
        one_has_id(batch_items(v), id) ==> m.shared.contains(id))
}

/// Whether every reply to a batch on the way holds only documents that were
/// asked for.
pub open spec fn all_only_asked(m: MergeView, replies: Seq<Option<JsonView>>) -> bool
    decreases replies.len(),
{
    replies.len() > 0 ==> all_only_asked(m, replies.drop_last()) && (m.after_all(
        replies.drop_last(),
    ) matches Some(n) ==> only_asked(n, replies.last()))
}

/// Taking in documents leaves an owned one owned, if they are owned or none of
/// them has its id; and an owned page makes its documents owned.
proof fn lemma_owned_kept(
    known: Seq<(Seq<char>, JsonView)>,
    items: Seq<JsonView>,
    origin: Seq<char>,
    id: Seq<char>,
)
    requires
        origin == "owned"@ || !one_has_id(items, id),
        is_owned(known, id) || one_has_id(items, id),
    ensures
        is_owned(with_documents(known, items, origin), id),
    decreases items.len(),
{
    if items.len() > 0 {
        let rest = items.drop_last();
        let item = items.last();
        let before = with_documents(known, rest, origin);
        assert(items[items.len() - 1] == item);
        if one_has_id(rest, id) {
            let k = choose|k: int|
                0 <= k < rest.len() && #[trigger] rest[k].text("id"@) == Some(id);
            assert(items[k].text("id"@) == Some(id));
        }
        if item.text("id"@) == Some(id) {
            assert(items[items.len() - 1].text("id"@) == Some(id));
            json::law_put_then_lookup(item->Object_0, "_origin"@, JsonView::Text(origin));
            json::law_put_then_lookup(before, id, stamped(item, origin));
        } else {
            if one_has_id(items, id) {
                let k = choose|k: int|
                    0 <= k < items.len() && #[trigger] items[k].text("id"@) == Some(id);
                assert(rest[k].text("id"@) == Some(id));
            }
            lemma_owned_kept(known, rest, origin, id);
            if let Some(other) = item.text("id"@) {
                json::law_put_keeps_other_keys(before, other, stamped(item, origin), id);
            }
        }
    }
}

/// An owned document that is not asked for as a shared one stays so.
proof fn lemma_stays_owned(m: MergeView, reply: Option<JsonView>, id: Seq<char>)
    requires
        is_owned(m.documents, id),
        !m.shared.contains(id),
        only_asked(m, reply),
    ensures
        m.after(reply) matches Some(n) ==> is_owned(n.documents, id) && !n.shared.contains(id),
{
    match (m.stage, reply) {
        (Stage::Owned { .. }, Some(v)) => {
            lemma_owned_kept(m.documents, page_items(v), "owned"@, id);
        },
        (Stage::Lists, r) => {
            law_shared_ids_are_those_named(
                m.documents,
                items_or_none(json::items_in(r)),
                id,
            );
        },
        (Stage::Batch { .. }, Some(v)) => {
            lemma_owned_kept(m.documents, batch_items(v), "shared"@, id);
        },
        _ => {},
    }
}

/// A document on a page of owned documents stays an owned one to the end of the
/// fetch, where batches hold only documents that were asked for.
pub proof fn law_owned_documents_stay_owned(
    m: MergeView,
    page: JsonView,
    replies: Seq<Option<JsonView>>,
    id: Seq<char>,
)
    requires
        m.stage is Owned,
        m.shared.len() == 0,
        one_has_id(page_items(page), id),
        m.after(Some(page)) matches Some(n) && all_only_asked(n, replies),
    ensures
        m.after(Some(page))->0.after_all(replies) matches Some(end) ==> is_owned(
            end.documents,
            id,
        ) && !end.shared.contains(id),
    decreases replies.len(),
{
    let n = m.after(Some(page))->0;
    if replies.len() == 0 {
        lemma_owned_kept(m.documents, page_items(page), "owned"@, id);
    } else {
        law_owned_documents_stay_owned(m, page, replies.drop_last(), id);
        if let Some(before) = n.after_all(replies.drop_last()) {
            lemma_stays_owned(before, replies.last(), id);
        }
    }
}

/// The batches follow each other without a gap: each takes between one and a
/// page of the ids that are left, and the next takes up where it ends.
pub proof fn law_batches_cover_shared_ids(m: MergeView, from: usize, reply: JsonView)
    requires
        m.sound(),
        m.stage == (Stage::Batch { from }),
    ensures
        1 <= m.batch(from as int).len() <= PAGE_SIZE,
        match m.after(Some(reply)) {
            Some(n) => match n.stage {
                Stage::Batch { from: next } => m.shared.skip(from as int) == m.batch(from as int)
                    + n.shared.skip(next as int),
                _ => m.shared.skip(from as int) == m.batch(from as int),
            },
            None => false,
        },
{
    if from + PAGE_SIZE < m.shared.len() {
        assert(m.shared.skip(from as int) =~= m.batch(from as int) + m.shared.skip(
            from + PAGE_SIZE,
        ));
    }
}

/// Whether no document is older than one that follows it.
pub open spec fn newest_come_first(s: Seq<JsonView>) -> bool {
    forall|i: int, j: int|
        0 <= i < j < s.len() ==> !#[trigger] text::precedes(updated(s[i]), updated(s[j]))
}

/// Putting a document in its place keeps the order, and adds that document.
proof fn lemma_with_newest(s: Seq<JsonView>, x: JsonView)
    requires
        newest_come_first(s),
    ensures
        newest_come_first(with_newest(s, x)),
        with_newest(s, x).to_multiset() == s.to_multiset().insert(x),
    decreases s.len(),
{
    broadcast use vstd::seq_lib::group_to_multiset_ensures;

    let r = with_newest(s, x);
    if s.len() == 0 {
        assert(s =~= Seq::empty());
        assert(r =~= s.push(x));
    } else if text::precedes(updated(s[0]), updated(x)) {
        assert forall|i: int, j: int| 0 <= i < j < r.len() implies !#[trigger] text::precedes(
            updated(r[i]),
            updated(r[j]),
        ) by {
            if i == 0 {
                if text::precedes(updated(x), updated(s[j - 1])) {
                    text::lemma_precedes_transitive(updated(s[0]), updated(x), updated(s[j - 1]));
                    if j == 1 {
                        text::lemma_precedes_irreflexive(updated(s[0]));
                    } else {
                        assert(!text::precedes(updated(s[0]), updated(s[j - 1])));
                    }
                }
            } else {
                assert(!text::precedes(updated(s[i - 1]), updated(s[j - 1])));
            }
        }
        assert(r =~= s.insert(0, x));
    } else {
        let rest = s.drop_first();
        assert forall|i: int, j: int| 0 <= i < j < rest.len() implies !#[trigger] text::precedes(
            updated(rest[i]),
            updated(rest[j]),
        ) by {
            assert(!text::precedes(updated(s[i + 1]), updated(s[j + 1])));
        }
        lemma_with_newest(rest, x);
        let t = with_newest(rest, x);
        assert(s =~= rest.insert(0, s[0]));
        assert(r =~= t.insert(0, s[0]));
        assert forall|i: int, j: int| 0 <= i < j < r.len() implies !#[trigger] text::precedes(
            updated(r[i]),
            updated(r[j]),
        ) by {
            if i == 0 {
                let y = t[j - 1];
                assert(t.to_multiset().count(y) > 0) by {
                    assert(t.contains(y));
                }
                if y != x {
                    assert(rest.to_multiset().count(y) > 0);
                    assert(rest.contains(y));
                    let k = choose|k: int| 0 <= k < rest.len() && rest[k] == y;
                    assert(!text::precedes(updated(s[0]), updated(s[k + 1])));
                }
            } else {
                assert(!text::precedes(updated(t[i - 1]), updated(t[j - 1])));
            }
        }
        assert(s.to_multiset() =~= rest.to_multiset().insert(s[0]));
        assert(r.to_multiset() =~= t.to_multiset().insert(s[0]));
        assert(r.to_multiset() =~= s.to_multiset().insert(x));
    }
}

/// The merged list holds the fetched documents and no others, and the newest
/// come first.
pub proof fn law_newest_first(s: Seq<JsonView>)
    ensures
        newest_come_first(newest_first(s)),
        newest_first(s).to_multiset() == s.to_multiset(),
    decreases s.len(),
{
    broadcast use vstd::seq_lib::group_to_multiset_ensures;

    if s.len() > 0 {
        law_newest_first(s.drop_last());
        lemma_with_newest(newest_first(s.drop_last()), s.last());
        assert(s =~= s.drop_last().push(s.last()));
    } else {
        assert(s =~= Seq::empty());
    }
}

/// In the merged list no document has an earlier `updated_at` than one behind
/// it; one without such a text counts as the earliest. The list holds each
/// document as often as it was fetched, and no others.
pub proof fn law_latest_update_comes_first(s: Seq<JsonView>)
    ensures
        forall|i: int, j: int|
            #![trigger newest_first(s)[i], newest_first(s)[j]]
            0 <= i < j < newest_first(s).len() ==> !text::precedes(
                match newest_first(s)[i].text("updated_at"@) {
                    Some(t) => t,
                    None => Seq::empty(),
                },
                match newest_first(s)[j].text("updated_at"@) {
                    Some(t) => t,
                    None => Seq::empty(),
                },
            ),
        newest_first(s).len() == s.len(),
        forall|m: JsonView| #[trigger] newest_first(s).contains(m) <==> s.contains(m),
        newest_first(s).to_multiset() == s.to_multiset(),
{
    broadcast use vstd::seq_lib::group_to_multiset_ensures;

    law_newest_first(s);
    let r = newest_first(s);
    reveal_strlit("");
    assert(""@ =~= Seq::empty());
    assert forall|i: int, j: int|
        #![trigger newest_first(s)[i], newest_first(s)[j]]
        0 <= i < j < newest_first(s).len() implies !text::precedes(
        match newest_first(s)[i].text("updated_at"@) {
            Some(t) => t,
            None => Seq::empty(),
        },
        match newest_first(s)[j].text("updated_at"@) {
            Some(t) => t,
            None => Seq::empty(),
        },
    ) by {
        assert(!text::precedes(updated(r[i]), updated(r[j])));
    }
    assert(r.len() == r.to_multiset().len());
    assert(s.len() == s.to_multiset().len());
    assert forall|m: JsonView| #[trigger] r.contains(m) <==> s.contains(m) by {
        assert(r.contains(m) <==> r.to_multiset().count(m) > 0);
        assert(s.contains(m) <==> s.to_multiset().count(m) > 0);
    }
}

/// Documents with the same `updated_at` keep the order in which they came.
pub proof fn law_equal_updates_keep_their_order(s: Seq<JsonView>, x: JsonView)
    requires
        forall|i: int|
            0 <= i < s.len() ==> (#[trigger] s[i]).text("updated_at"@) == x.text("updated_at"@),
    ensures
        newest_first(s.push(x)) == newest_first(s).push(x),
{
    let t = newest_first(s);
    law_latest_update_comes_first(s);
    assert(s.push(x).drop_last() =~= s);
    assert forall|i: int| 0 <= i < t.len() implies updated(#[trigger] t[i]) == updated(x) by {
        assert(t.contains(t[i]));
        let k = choose|k: int| 0 <= k < s.len() && s[k] == t[i];
        assert(s[k].text("updated_at"@) == x.text("updated_at"@));
    }
    lemma_goes_last(t, x);
}

/// A document that is newer than none goes to the end.
proof fn lemma_goes_last(s: Seq<JsonView>, x: JsonView)
    requires
        forall|i: int| 0 <= i < s.len() ==> updated(#[trigger] s[i]) == updated(x),
    ensures
        with_newest(s, x) == s.push(x),
    decreases s.len(),
{
    if s.len() == 0 {
        assert(with_newest(s, x) =~= s.push(x));
    } else {
        text::lemma_precedes_irreflexive(updated(x));
        assert(updated(s[0]) == updated(x));
        let rest = s.drop_first();
        assert forall|i: int| 0 <= i < rest.len() implies updated(#[trigger] rest[i]) == updated(
            x,
        ) by {
            assert(rest[i] == s[i + 1]);
        }
        lemma_goes_last(rest, x);
        assert(with_newest(s, x) =~= s.push(x));
    }
}

/// A document that came in is kept as it came, but for its origin: under its id
/// every key holds what it held, and `_origin` says where it came from.
pub proof fn law_documents_are_kept_as_they_came(
    known: Seq<(Seq<char>, JsonView)>,
    items: Seq<JsonView>,
    origin: Seq<char>,
    document: JsonView,
    id: Seq<char>,
    key: Seq<char>,
)
    requires
        document.text("id"@) == Some(id),
        key != "_origin"@,
    ensures
        json::lookup(with_documents(known, items.push(document), origin), id) matches Some(kept)
            && kept.get(key) == document.get(key) && kept.text("_origin"@) == Some(origin),
        forall|other: Seq<char>|
            other != id ==> #[trigger] json::lookup(
                with_documents(known, items.push(document), origin),
                other,
            ) == json::lookup(with_documents(known, items, origin), other),
{
    let before = with_documents(known, items, origin);
    assert(items.push(document).drop_last() =~= items);
    let value = stamped(document, origin);
    json::law_put_then_lookup(before, id, value);
    let fields = document->Object_0;
    json::law_put_then_lookup(fields, "_origin"@, JsonView::Text(origin));
    json::law_put_keeps_other_keys(fields, "_origin"@, JsonView::Text(origin), key);
    assert forall|other: Seq<char>| other != id implies #[trigger] json::lookup(
        with_documents(known, items.push(document), origin),
        other,
    ) == json::lookup(before, other) by {
        json::law_put_keeps_other_keys(before, id, value, other);
    }
}

/// A document without an id is left out.
pub proof fn law_documents_without_ids_are_left_out(
    known: Seq<(Seq<char>, JsonView)>,
    items: Seq<JsonView>,
    origin: Seq<char>,
    document: JsonView,
)
    requires
        document.text("id"@) is None,
    ensures
        with_documents(known, items.push(document), origin) == with_documents(
            known,
            items,
            origin,
        ),
        with_documents(known, Seq::empty(), origin) == known,
{
    assert(items.push(document).drop_last() =~= items);
}

/// How a fetch goes on: owned documents come by pages of a hundred, each from
/// where the last one ended, until one is not full or a thousand were asked
/// for. Then the lists are asked for, if shared documents are wanted, and then
/// what they name, a hundred at a time.
pub proof fn law_fetch_goes_page_by_page(m: MergeView, offset: u32, from: usize, v: JsonView)
    requires
        m.sound(),
    ensures
        m.stage == (Stage::Owned { offset }) ==> {
            let docs = match v.items("docs"@) {
                Some(items) => items,
                None => Seq::empty(),
            };
            &&& m.ask() == Some(AskView::Documents { limit: 100, offset })
            &&& m.after(Some(v)) matches Some(n) && n.documents == with_documents(
                m.documents,
                docs,
                "owned"@,
            ) && n.shared == m.shared && n.include_shared == m.include_shared && (if docs.len()
                >= 100 && offset + 100 < 1000 {
                n.stage == (Stage::Owned { offset: (offset + 100) as u32 })
            } else if m.include_shared {
                n.stage == Stage::Lists
            } else {
                n.stage == Stage::Done
            })
        },
        m.stage == Stage::Lists ==> m.ask() == Some(AskView::Lists),
        m.stage == (Stage::Batch { from }) ==> {
            &&& m.ask() matches Some(AskView::Batch(ids)) && ids == m.shared.subrange(
                from as int,
                if from + 100 < m.shared.len() {
                    from + 100
                } else {
                    m.shared.len() as int
                },
            )
            &&& m.after(Some(v)) matches Some(n) && n.shared == m.shared && n.include_shared
                == m.include_shared && (if from + 100 < m.shared.len() {
                n.stage == (Stage::Batch { from: (from + 100) as usize })
            } else {
                n.stage == Stage::Done
            })
        },
        m.stage == Stage::Done ==> m.ask() is None,
        forall|b: bool|
            (#[trigger] MergeView::initial(b)).stage == (Stage::Owned { offset: 0 })
                && MergeView::initial(b).include_shared == b && MergeView::initial(
                b,
            ).documents.len() == 0 && MergeView::initial(b).sound(),
{
    if m.stage == (Stage::Batch { from }) {
        assert(m.shared.skip(from as int) =~= m.shared.subrange(
            from as int,
            m.shared.len() as int,
        ));
    }
}

/// A batch brings in its documents as shared ones: those under `documents`, or
/// under `docs` where that key is missing.
pub proof fn law_batch_brings_shared_documents(m: MergeView, v: JsonView, docs: Seq<JsonView>)
    requires
        m.stage is Batch,
        v.get("documents"@) == Some(JsonView::Array(docs)) || (v.get("documents"@) is None && v.get(
            "docs"@,
        ) == Some(JsonView::Array(docs))),
    ensures
        m.after(Some(v)) matches Some(n) && n.documents == with_documents(
            m.documents,
            docs,
            "shared"@,
        ),
{
}

/// The lists bring the shared ids and no documents; where they name no new id,
/// the fetch is done.
pub proof fn law_lists_bring_ids(m: MergeView, v: JsonView, lists: Seq<JsonView>)
    requires
        m.stage == Stage::Lists,
        v == JsonView::Array(lists),
    ensures
        m.after(Some(v)) matches Some(n) && n.documents == m.documents && n.shared == shared_ids(
            m.documents,
            lists,
        ) && (n.stage == Stage::Done <==> n.shared.len() == 0) && (n.shared.len() > 0 ==> n.stage
            == (Stage::Batch { from: 0 })),
        m.after(None) matches Some(n) && n.documents == m.documents && n.shared.len() == 0
            && n.stage == Stage::Done,
{
}

/// A shared id is one that a list names, under `documents` by a document that has
/// it or under `document_ids` by itself, and that is not known yet.
pub proof fn law_lists_name_their_documents(
    known: Seq<(Seq<char>, JsonView)>,
    lists: Seq<JsonView>,
    id: Seq<char>,
    k: int,
    j: int,
    docs: Seq<JsonView>,
)
    requires
        0 <= k < lists.len(),
        0 <= j < docs.len(),
        json::lookup(known, id) is None,
    ensures
        lists[k].get("documents"@) == Some(JsonView::Array(docs)) && docs[j].text("id"@) == Some(id)
            ==> shared_ids(known, lists).contains(id),
        lists[k].get("document_ids"@) == Some(JsonView::Array(docs)) && docs[j] == JsonView::Text(
            id,
        ) ==> shared_ids(known, lists).contains(id),
{
    law_shared_ids_are_those_named(known, lists, id);
    if lists[k].get("documents"@) == Some(JsonView::Array(docs)) && docs[j].text("id"@) == Some(
        id,
    ) {
        assert(one_has_id(docs, id));
        assert(list_names(lists[k], id));
    }
    if lists[k].get("document_ids"@) == Some(JsonView::Array(docs)) && docs[j] == JsonView::Text(
        id,
    ) {
        assert(docs[j].as_text() == Some(id));
        assert(one_is_text(docs, id));
        assert(list_names(lists[k], id));
    }
}

/// An id that no list names is none of the shared ones, and neither is a known
/// one.
pub proof fn law_unnamed_ids_are_not_shared(
    known: Seq<(Seq<char>, JsonView)>,
    lists: Seq<JsonView>,
    id: Seq<char>,
)
    ensures
        json::lookup(known, id) is Some ==> !shared_ids(known, lists).contains(id),
        (forall|k: int|
            0 <= k < lists.len() ==> (#[trigger] lists[k]).get("documents"@) is None && lists[k].get(
                "document_ids"@,
            ) is None) ==> shared_ids(known, lists).len() == 0,
        shared_ids(known, lists).no_duplicates(),
{
    law_shared_ids_are_new(known, lists);
    law_shared_ids_are_those_named(known, lists, id);
    let all = shared_ids(known, lists);
    if (forall|k: int|
        0 <= k < lists.len() ==> (#[trigger] lists[k]).get("documents"@) is None && lists[k].get(
            "document_ids"@,
        ) is None) && all.len() > 0 {
        law_shared_ids_are_those_named(known, lists, all[0]);
        assert(all.contains(all[0]));
        let k = choose|k: int| 0 <= k < lists.len() && list_names(#[trigger] lists[k], all[0]);
        assert(lists[k].get("documents"@) is None);
    }
}

/// A reply without documents brings none in: a page without `docs`, and a batch
/// whose `documents` are no array, or that has neither key.
pub proof fn law_empty_replies_bring_nothing(m: MergeView, v: JsonView)
    ensures
        m.stage is Owned && v.items("docs"@) is None ==> (m.after(Some(v)) matches Some(n)
            && n.documents == m.documents),
        m.stage is Batch && (v.get("documents"@) matches Some(w) && !(w is Array)) ==> (m.after(
            Some(v),
        ) matches Some(n) && n.documents == m.documents),
        m.stage is Batch && v.get("documents"@) is None && v.items("docs"@) is None ==> (m.after(
            Some(v),
        ) matches Some(n) && n.documents == m.documents),
{
}

} // verus!
