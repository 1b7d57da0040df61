//! Which meetings a list shows: bounds in time, a search in titles, and pages.

use crate::dates;
use crate::dates::{
    day_after, now, parse_date_spec_at, parse_rfc3339, DateError, DateErrorView, Timestamp,
};
use crate::json;
use crate::json::{str_of, Json, JsonView};
use crate::merge;
use crate::text;
use crate::text::{contains, to_lowercase};
use vstd::prelude::*;

verus! {

/// The largest page.
pub const MAX_LIMIT: u32 = 200;

/// A query as it is written. `date` is short for the bounds of a single day;
/// `created_since` and `created_until` are other names of `since` and `until`.
pub struct MeetingQuerySpec<'a> {
    pub date: Option<&'a str>,
    pub since: Option<&'a str>,
    pub until: Option<&'a str>,
    pub created_since: Option<&'a str>,
    pub created_until: Option<&'a str>,
    pub updated_since: Option<&'a str>,
    pub updated_until: Option<&'a str>,
    pub search: Option<&'a str>,
    pub limit: u32,
    pub offset: u32,
    pub include_shared: bool,
}

/// What a [`MeetingQuerySpec`] says.
pub struct QuerySpecView {
    pub date: Option<Seq<char>>,
    pub since: Option<Seq<char>>,
    pub until: Option<Seq<char>>,
    pub created_since: Option<Seq<char>>,
    pub created_until: Option<Seq<char>>,
    pub updated_since: Option<Seq<char>>,
    pub updated_until: Option<Seq<char>>,
    pub search: Option<Seq<char>>,
    pub limit: u32,
    pub offset: u32,
    pub include_shared: bool,
}

impl<'a> View for MeetingQuerySpec<'a> {
    type V = QuerySpecView;

    open spec fn view(&self) -> QuerySpecView {
        QuerySpecView {
            date: json::seen(self.date),
            since: json::seen(self.since),
            until: json::seen(self.until),
            created_since: json::seen(self.created_since),
            created_until: json::seen(self.created_until),
            updated_since: json::seen(self.updated_since),
            updated_until: json::seen(self.updated_until),
            search: json::seen(self.search),
            limit: self.limit,
            offset: self.offset,
            include_shared: self.include_shared,
        }
    }
}

/// A query with its bounds read, its search in small letters and its limit in
/// range.
#[derive(Debug, PartialEq, Eq)]
pub struct MeetingQuery {
    pub created_since: Option<Timestamp>,
    pub created_until: Option<Timestamp>,
    pub updated_since: Option<Timestamp>,
    pub updated_until: Option<Timestamp>,
    pub search: Option<String>,
    pub limit: u32,
    pub offset: u32,
    pub include_shared: bool,
}

/// What a [`MeetingQuery`] says.
pub struct QueryView {
    pub created_since: Option<Timestamp>,
    pub created_until: Option<Timestamp>,
    pub updated_since: Option<Timestamp>,
    pub updated_until: Option<Timestamp>,
    pub search: Option<Seq<char>>,
    pub limit: u32,
    pub offset: u32,
    pub include_shared: bool,
}

impl View for MeetingQuery {
    type V = QueryView;

    open spec fn view(&self) -> QueryView {
        QueryView {
            created_since: self.created_since,
            created_until: self.created_until,
            updated_since: self.updated_since,
            updated_until: self.updated_until,
            search: json::seen(self.search),
            limit: self.limit,
            offset: self.offset,
            include_shared: self.include_shared,
        }
    }
}

/// Why a query cannot be run: a bound that gives no moment.
#[derive(Debug, PartialEq, Eq)]
pub struct QueryError {
    pub field: String,
    pub cause: DateError,
}

/// What a [`QueryError`] says.
pub struct QueryErrorView {
    pub field: Seq<char>,
    pub cause: DateErrorView,
}

impl View for QueryError {
    type V = QueryErrorView;

    open spec fn view(&self) -> QueryErrorView {
        QueryErrorView { field: self.field@, cause: self.cause@ }
    }
}

// ---- Reading a query --------------------------------------------------------

/// The moment of an optional bound.
pub open spec fn bound(
    spec: Option<Seq<char>>,
    now: Timestamp,
) -> Result<Option<Timestamp>, DateErrorView> {
    match spec {
        None => Ok(None),
        Some(s) => match dates::date_at(s, now) {
            Ok(t) => Ok(Some(t)),
            Err(e) => Err(e),
        },
    }
}

/// The bounds of a single day: its start, and the same time on the next day.
pub open spec fn day_bounds(
    date: Option<Seq<char>>,
    now: Timestamp,
) -> Result<(Option<Timestamp>, Option<Timestamp>), DateErrorView> {
    match bound(date, now) {
        Err(e) => Err(e),
        Ok(None) => Ok((None, None)),
        Ok(Some(t)) => match dates::next_day(t) {
            Some(u) => Ok((Some(t), Some(u))),
            None => Err(DateErrorView::OutOfRange),
        },
    }
}

/// A limit between one and the largest page.
pub open spec fn clamped(limit: u32) -> u32 {
    if limit < 1 {
        1
    } else if limit > MAX_LIMIT {
        MAX_LIMIT
    } else {
        limit
    }
}

/// The lowercase form of an optional text.
pub open spec fn lowercase_in(o: Option<Seq<char>>) -> Option<Seq<char>> {
    match o {
        Some(s) => Some(text::lowercase(s)),
        None => None,
    }
}

/// An error of a bound.
pub open spec fn failed(field: Seq<char>, cause: DateErrorView) -> Result<
    QueryView,
    QueryErrorView,
> {
    Err(QueryErrorView { field, cause })
}

/// The query that is meant when the clock reads `now`: the first bound that
/// gives no moment is the error. Bounds that are written win over those of
/// `date`.
pub open spec fn query_at(s: QuerySpecView, now: Timestamp) -> Result<QueryView, QueryErrorView> {
    match day_bounds(s.date, now) {
        Err(e) => failed("date"@, e),
        Ok(day) => match bound(json::first_of(s.created_since, s.since), now) {
            Err(e) => failed("since"@, e),
            Ok(created_since) => match bound(json::first_of(s.created_until, s.until), now) {
                Err(e) => failed("until"@, e),
                Ok(created_until) => match bound(s.updated_since, now) {
                    Err(e) => failed("updated_since"@, e),
                    Ok(updated_since) => match bound(s.updated_until, now) {
                        Err(e) => failed("updated_until"@, e),
                        Ok(updated_until) => Ok(
                            QueryView {
                                created_since: json::first_of(created_since, day.0),
                                created_until: json::first_of(created_until, day.1),
                                updated_since,
                                updated_until,
                                search: lowercase_in(s.search),
                                limit: clamped(s.limit),
                                offset: s.offset,
                                include_shared: s.include_shared,
                            },
                        ),
                    },
                },
            },
        },
    }
}

/// What a result of reading a query says.
pub open spec fn query_view(r: Result<MeetingQuery, QueryError>) -> Result<
    QueryView,
    QueryErrorView,
> {
    match r {
        Ok(q) => Ok(q@),
        Err(e) => Err(e@),
    }
}

/// The moment of an optional bound.
fn parse_bound(spec: Option<&str>, field: &str, now: Timestamp) -> (r: Result<
    Option<Timestamp>,
    QueryError,
>)
    requires
        dates::clock_reading(now),
    ensures
        match r {
            Ok(t) => bound(json::seen(spec), now) == Ok::<
                Option<Timestamp>,
                DateErrorView,
            >(t) && (t matches Some(m) ==> m.valid()),
            Err(e) => e@.field == field@ && bound(json::seen(spec), now) == Err::<
                Option<Timestamp>,
                DateErrorView,
            >(e@.cause),
        },
{
    match spec {
        None => Ok(None),
        Some(s) => match parse_date_spec_at(s, now) {
            Ok(t) => Ok(Some(t)),
            Err(cause) => Err(QueryError { field: field.to_owned(), cause }),
        },
    }
}

/// The first of two optional moments that is there.
fn either<T>(a: Option<T>, b: Option<T>) -> (r: Option<T>)
    ensures
        r == json::first_of(a, b),
{
    match a {
        Some(v) => Some(v),
        None => b,
    }
}

impl<'a> MeetingQuerySpec<'a> {
    /// The query that is meant when the clock reads `now`.
    pub fn resolve_at(&self, now: Timestamp) -> (r: Result<MeetingQuery, QueryError>)
        requires
            dates::clock_reading(now),
        ensures
            query_view(r) == query_at(self@, now),
    {
        let (date_since, date_until) = match parse_bound(self.date, "date", now) {
            Err(e) => {
                return Err(e);
            },
            Ok(None) => (None, None),
            Ok(Some(t)) => match day_after(&t) {
                Some(u) => (Some(t), Some(u)),
                None => {
                    return Err(
                        QueryError { field: "date".to_owned(), cause: DateError::OutOfRange },
                    );
                },
            },
        };
        let created_since = match parse_bound(
            either(self.created_since, self.since),
            "since",
            now,
        ) {
            Err(e) => {
                return Err(e);
            },
            Ok(t) => t,
        };
        let created_until = match parse_bound(
            either(self.created_until, self.until),
            "until",
            now,
        ) {
            Err(e) => {
                return Err(e);
            },
            Ok(t) => t,
        };
        let updated_since = match parse_bound(self.updated_since, "updated_since", now) {
            Err(e) => {
                return Err(e);
            },
            Ok(t) => t,
        };
        let updated_until = match parse_bound(self.updated_until, "updated_until", now) {
            Err(e) => {
                return Err(e);
            },
            Ok(t) => t,
        };
        let search = match self.search {
            Some(s) => Some(to_lowercase(s)),
            None => None,
        };
        let limit: u32 = if self.limit < 1 {
            1
        } else if self.limit > MAX_LIMIT {
            MAX_LIMIT
        } else {
            self.limit
        };
        Ok(
            MeetingQuery {
                created_since: either(created_since, date_since),
                created_until: either(created_until, date_until),
                updated_since,
                updated_until,
                search,
                limit,
                offset: self.offset,
                include_shared: self.include_shared,
            },
        )
    }

    /// The query that is meant at the time of the call.
    pub fn resolve(&self) -> (r: Result<MeetingQuery, QueryError>)
        ensures
            exists|now: Timestamp|
                #[trigger] dates::clock_reading(now) && query_view(r) == query_at(self@, now),
    {
        self.resolve_at(now())
    }
}

/// What is said of a query that cannot be run.
pub open spec fn query_message(e: QueryErrorView) -> Seq<char> {
    "invalid `"@ + e.field + "`: "@ + (match e.cause {
        DateErrorView::Unreadable(s) => s,
        DateErrorView::OutOfRange => "the date is out of range"@,
    })
}

impl QueryError {
    /// What went wrong, for a reader.
    pub fn message(&self) -> (r: String)
        ensures
            r@ == query_message(self@),
    {
        let mut out: String = "invalid `".to_owned();
        out.append(self.field.as_str());
        out.append("`: ");
        out.append(self.cause.message().as_str());
        out
    }
}

// ---- Filtering --------------------------------------------------------------

/// The moment under a key of a meeting, if it is one.
pub open spec fn moment_of(m: JsonView, field: Seq<char>) -> Option<Timestamp> {
    match m.text(field) {
        Some(s) => dates::rfc3339(s),
        None => None,
    }
}

/// Whether a moment lies within bounds, the upper one exclusive. Without a
/// moment, only where there are no bounds.
pub open spec fn within(
    t: Option<Timestamp>,
    since: Option<Timestamp>,
    until: Option<Timestamp>,
) -> bool {
    match t {
        None => since is None && until is None,
        Some(t) => (since matches Some(s) ==> !t.earlier(s)) && (until matches Some(u)
            ==> t.earlier(u)),
    }
}

/// Whether a title holds what is searched for. A meeting without a title is
/// found by no search.
pub open spec fn title_found(title: Option<Seq<char>>, search: Option<Seq<char>>) -> bool {
    match search {
        None => true,
        Some(q) => match title {
            Some(t) => text::holds(t, q),
            None => false,
        },
    }
}

/// Whether a query selects a meeting.
pub open spec fn selected(m: JsonView, q: QueryView) -> bool {
    &&& within(moment_of(m, "created_at"@), q.created_since, q.created_until)
    &&& within(moment_of(m, "updated_at"@), q.updated_since, q.updated_until)
    &&& title_found(lowercase_in(m.text("title"@)), q.search)
}

/// The meetings that a query selects, in their order.
pub open spec fn matching(all: Seq<JsonView>, q: QueryView) -> Seq<JsonView>
    decreases all.len(),
{
    if all.len() == 0 {
        Seq::empty()
    } else if selected(all.last(), q) {
        matching(all.drop_last(), q).push(all.last())
    } else {
        matching(all.drop_last(), q)
    }
}

/// At most `limit` items from the place `offset` on.
pub open spec fn window(s: Seq<JsonView>, offset: int, limit: int) -> Seq<JsonView> {
    if offset >= s.len() {
        Seq::empty()
    } else if offset + limit >= s.len() {
        s.skip(offset)
    } else {
        s.subrange(offset, offset + limit)
    }
}

/// Whether a moment lies within bounds, the upper one exclusive.
pub fn is_within(
    t: Option<Timestamp>,
    since: Option<Timestamp>,
    until: Option<Timestamp>,
) -> (r: bool)
    ensures
        r == within(t, since, until),
{
    match t {
        None => since.is_none() && until.is_none(),
        Some(t) => {
            if let Some(s) = since {
                if t.is_before(&s) {
                    return false;
                }
            }
            if let Some(u) = until {
                if !t.is_before(&u) {
                    return false;
                }
            }
            true
        },
    }
}

/// Whether the moment under a key of a meeting lies within bounds.
pub fn in_timestamp_range(
    m: &Json,
    field: &str,
    since: Option<Timestamp>,
    until: Option<Timestamp>,
) -> (r: bool)
    ensures
        r == within(moment_of(m@, field@), since, until),
{
    let t = match m.text(field) {
        Some(s) => parse_rfc3339(s),
        None => None,
    };
    is_within(t, since, until)
}

/// Whether a meeting was created within bounds.
pub fn in_date_range(m: &Json, since: Option<Timestamp>, until: Option<Timestamp>) -> (r: bool)
    ensures
        r == within(moment_of(m@, "created_at"@), since, until),
{
    in_timestamp_range(m, "created_at", since, until)
}

/// Whether a title in small letters holds what is searched for.
pub fn is_title_found(title: Option<&str>, search: Option<&str>) -> (r: bool)
    ensures
        r == title_found(json::seen(title), json::seen(search)),
{
    match search {
        None => true,
        Some(q) => match title {
            Some(t) => contains(t, q),
            None => false,
        },
    }
}

/// Whether a query selects a meeting.
pub fn is_selected(m: &Json, query: &MeetingQuery) -> (r: bool)
    ensures
        r == selected(m@, query@),
{
    let title = match m.text("title") {
        Some(t) => Some(to_lowercase(t)),
        None => None,
    };
    in_date_range(m, query.created_since, query.created_until) && in_timestamp_range(
        m,
        "updated_at",
        query.updated_since,
        query.updated_until,
    ) && is_title_found(str_of(&title), str_of(&query.search))
}

// ---- Pages ------------------------------------------------------------------

/// One page of the meetings that a query selects, with how many there are.
pub struct MeetingPage {
    pub total_matched: usize,
    pub offset: u32,
    pub meetings: Vec<Json>,
}

/// The page of a query over all meetings.
pub fn list_meetings(all: &Vec<Json>, query: &MeetingQuery) -> (r: MeetingPage)
    ensures
        r.total_matched == matching(json::views(all@), query@).len(),
        r.offset == query.offset,
        json::views(r.meetings@) == window(
            matching(json::views(all@), query@),
            query.offset as int,
            query.limit as int,
        ),
{
    let ghost views = json::views(all@);
    let mut total: usize = 0;
    let mut meetings: Vec<Json> = Vec::new();
    assert(json::views(meetings@) =~= window(
        matching(views.take(0), query@),
        query.offset as int,
        query.limit as int,
    ));
    let mut i: usize = 0;
    while i < all.len()
        invariant
            i <= all.len(),
            views == json::views(all@),
            total == matching(views.take(i as int), query@).len(),
            total <= i,
            json::views(meetings@) == window(
                matching(views.take(i as int), query@),
                query.offset as int,
                query.limit as int,
            ),
        decreases all.len() - i,
    {
        let m = &all[i];
        let ghost before = matching(views.take(i as int), query@);
        assert(views.take(i + 1).drop_last() =~= views.take(i as int));
        assert(views.take(i + 1).last() == m@);
        if is_selected(m, query) {
            let ghost after = matching(views.take(i + 1), query@);
            let ghost shown = json::views(meetings@);
            assert(after == before.push(m@));
            if total >= query.offset as usize && total - (query.offset as usize)
                < query.limit as usize {
                meetings.push(m.clone());
                assert(json::views(meetings@) =~= shown.push(m@));
                assert(shown.push(m@) =~= window(
                    after,
                    query.offset as int,
                    query.limit as int,
                ));
            } else {
                assert(shown =~= window(after, query.offset as int, query.limit as int));
            }
            total += 1;
        }
        i += 1;
    }
    assert(views.take(all.len() as int) =~= views);
    MeetingPage { total_matched: total, offset: query.offset, meetings }
}

// ---- What holds of queries --------------------------------------------------

/// Bounds that are written win over those of `date`.
pub proof fn law_written_bounds_win(s: QuerySpecView, now: Timestamp)
    ensures
        query_at(s, now) matches Ok(q) ==> {
            &&& json::first_of(s.created_since, s.since) matches Some(b) ==> dates::date_at(b, now)
                == Ok::<Timestamp, DateErrorView>(q.created_since->0) && q.created_since is Some
            &&& json::first_of(s.created_until, s.until) matches Some(b) ==> dates::date_at(b, now)
                == Ok::<Timestamp, DateErrorView>(q.created_until->0) && q.created_until is Some
        },
{
}

/// `date` selects exactly the meetings created within one day from its moment
/// on.
pub proof fn law_date_is_one_day(s: QuerySpecView, now: Timestamp, m: JsonView)
    requires
        s.date is Some,
        s.since is None,
        s.until is None,
        s.created_since is None,
        s.created_until is None,
        s.updated_since is None,
        s.updated_until is None,
        s.search is None,
    ensures
        query_at(s, now) matches Ok(q) ==> (dates::date_at(s.date->0, now) matches Ok(t) && (
        selected(m, q) <==> (moment_of(m, "created_at"@) matches Some(c) && !c.earlier(t)
            && c.earlier(dates::next_day(t)->0)))),
{
}

/// A query shows between one and the largest page of meetings.
pub proof fn law_limit_is_in_range(s: QuerySpecView, now: Timestamp)
    ensures
        query_at(s, now) matches Ok(q) ==> 1 <= q.limit <= MAX_LIMIT,
{
}

/// A meeting is listed exactly if it is there and the query selects it.
pub proof fn law_matching(all: Seq<JsonView>, q: QueryView, m: JsonView)
    ensures
        matching(all, q).contains(m) <==> all.contains(m) && selected(m, q),
    decreases all.len(),
{
    if all.len() > 0 {
        let rest = all.drop_last();
        let before = matching(rest, q);
        let after = matching(all, q);
        law_matching(rest, q, m);
        if before.contains(m) {
            let k = choose|k: int| 0 <= k < before.len() && before[k] == m;
            assert(after[k] == m);
        }
        if rest.contains(m) {
            let k = choose|k: int| 0 <= k < rest.len() && rest[k] == m;
            assert(all[k] == m);
        }
        if all.contains(m) {
            let k = choose|k: int| 0 <= k < all.len() && all[k] == m;
            if k < rest.len() {
                assert(rest[k] == m);
            } else if selected(m, q) {
                assert(after[after.len() - 1] == m);
            }
        }
        if after.contains(m) {
            let k = choose|k: int| 0 <= k < after.len() && after[k] == m;
            if k < before.len() {
                assert(before[k] == m);
            } else {
                assert(all[all.len() - 1] == m);
            }
        }
    }
}

/// Selecting and paging keep the order: where the newest meetings come first,
/// they do so on every page.
pub proof fn law_pages_are_newest_first(
    all: Seq<JsonView>,
    q: QueryView,
    offset: nat,
    limit: nat,
)
    requires
        merge::newest_come_first(all),
    ensures
        merge::newest_come_first(matching(all, q)),
        merge::newest_come_first(window(matching(all, q), offset as int, limit as int)),
{
    lemma_matching_keeps_order(all, q);
    let found = matching(all, q);
    let shown = window(found, offset as int, limit as int);
    assert forall|i: int, j: int| 0 <= i < j < shown.len() implies !#[trigger] text::precedes(
        merge::updated(shown[i]),
        merge::updated(shown[j]),
    ) by {
        assert(shown[i] == found[offset + i] && shown[j] == found[offset + j]);
    }
}

/// Selecting keeps the order.
proof fn lemma_matching_keeps_order(all: Seq<JsonView>, q: QueryView)
    requires
        merge::newest_come_first(all),
    ensures
        merge::newest_come_first(matching(all, q)),
    decreases all.len(),
{
    if all.len() > 0 {
        let rest = all.drop_last();
        let before = matching(rest, q);
        assert forall|i: int, j: int| 0 <= i < j < rest.len() implies !#[trigger] text::precedes(
            merge::updated(rest[i]),
            merge::updated(rest[j]),
        ) by {
            assert(rest[i] == all[i] && rest[j] == all[j]);
        }
        lemma_matching_keeps_order(rest, q);
        if selected(all.last(), q) {
            let found = before.push(all.last());
            assert forall|i: int, j: int| 0 <= i < j < found.len() implies !#[trigger]
            text::precedes(merge::updated(found[i]), merge::updated(found[j])) by {
                if j == before.len() {
                    law_matching(rest, q, before[i]);
                    assert(before.contains(before[i]));
                    let k = choose|k: int| 0 <= k < rest.len() && rest[k] == before[i];
                    assert(all[k] == before[i]);
                    assert(all[all.len() - 1] == all.last());
                } else {
                    assert(found[i] == before[i] && found[j] == before[j]);
                }
            }
        }
    }
}

/// Pages follow each other without a gap: what is left from an offset on is
/// the page there and what is left after it.
pub proof fn law_pages_follow_each_other(s: Seq<JsonView>, offset: nat, limit: nat)
    ensures
        window(s, offset as int, s.len() as int) == window(s, offset as int, limit as int)
            + window(s, (offset + limit) as int, s.len() as int),
        window(s, offset as int, limit as int).len() <= limit,
        offset < s.len() && limit > 0 ==> window(s, offset as int, limit as int).len() > 0,
{
    assert(window(s, offset as int, s.len() as int) =~= window(s, offset as int, limit as int)
        + window(s, (offset + limit) as int, s.len() as int));
}

/// A meeting is selected exactly if each bound that there is, on its own, is met
/// by the moment that the bound is about, and its title holds what is searched
/// for.
pub proof fn law_every_bound_counts(m: JsonView, q: QueryView)
    ensures
        selected(m, q) <==> {
            &&& q.created_since matches Some(s) ==> (m.text("created_at"@) matches Some(w) && (
            dates::rfc3339(w) matches Some(t) && !t.earlier(s)))
            &&& q.created_until matches Some(u) ==> (m.text("created_at"@) matches Some(w) && (
            dates::rfc3339(w) matches Some(t) && t.earlier(u)))
            &&& q.updated_since matches Some(s) ==> (m.text("updated_at"@) matches Some(w) && (
            dates::rfc3339(w) matches Some(t) && !t.earlier(s)))
            &&& q.updated_until matches Some(u) ==> (m.text("updated_at"@) matches Some(w) && (
            dates::rfc3339(w) matches Some(t) && t.earlier(u)))
            &&& q.search matches Some(p) ==> (m.text("title"@) matches Some(title) && exists|
                a: Seq<char>,
                b: Seq<char>,
            |
                text::lowercase(title) == #[trigger] (a + p + b))
        },
{
    if let (Some(p), Some(title)) = (q.search, m.text("title"@)) {
        text::law_parts_are_held(text::lowercase(title), p);
    }
}

/// A moment lies within bounds exactly if it lies within each of them alone:
/// not before the lower, and before the upper. Without a moment no bound is met.
pub proof fn law_bounds_are_met_one_by_one(t: Timestamp, s: Timestamp, u: Timestamp)
    ensures
        within(Some(t), None, None),
        within(Some(t), Some(s), None) <==> !t.earlier(s),
        within(Some(t), None, Some(u)) <==> t.earlier(u),
        within(Some(t), Some(s), Some(u)) <==> !t.earlier(s) && t.earlier(u),
        within(None, None, None),
        !within(None, Some(s), None),
        !within(None, None, Some(u)),
        !within(None, Some(s), Some(u)),
{
}

/// A bound only ever takes meetings away.
pub proof fn law_bounds_narrow(m: JsonView, q: QueryView, s: Timestamp, p: Seq<char>)
    ensures
        selected(m, QueryView { created_since: Some(s), ..q }) ==> selected(
            m,
            QueryView { created_since: None, ..q },
        ),
        selected(m, QueryView { created_until: Some(s), ..q }) ==> selected(
            m,
            QueryView { created_until: None, ..q },
        ),
        selected(m, QueryView { updated_since: Some(s), ..q }) ==> selected(
            m,
            QueryView { updated_since: None, ..q },
        ),
        selected(m, QueryView { updated_until: Some(s), ..q }) ==> selected(
            m,
            QueryView { updated_until: None, ..q },
        ),
        selected(m, QueryView { search: Some(p), ..q }) ==> selected(
            m,
            QueryView { search: None, ..q },
        ),
{
}

/// Selecting goes meeting by meeting: of two lists the selected ones of the
/// first come first, then those of the second, each as often as it is there.
pub proof fn law_matching_goes_one_by_one(a: Seq<JsonView>, b: Seq<JsonView>, q: QueryView)
    ensures
        matching(a + b, q) == matching(a, q) + matching(b, q),
        matching(Seq::empty(), q).len() == 0,
        forall|m: JsonView|
            #[trigger] matching(seq![m], q) == (if selected(m, q) {
                seq![m]
            } else {
                Seq::<JsonView>::empty()
            }),
    decreases b.len(),
{
    if b.len() == 0 {
        assert(a + b =~= a);
        assert(matching(a, q) + matching(b, q) =~= matching(a, q));
    } else {
        assert((a + b).drop_last() =~= a + b.drop_last());
        law_matching_goes_one_by_one(a, b.drop_last(), q);
        assert(matching(a + b, q) =~= matching(a, q) + matching(b, q));
    }
    assert forall|m: JsonView| #[trigger] matching(seq![m], q) == (if selected(m, q) {
        seq![m]
    } else {
        Seq::<JsonView>::empty()
    }) by {
        assert(seq![m].drop_last() =~= Seq::empty());
        assert(matching(Seq::empty(), q) =~= Seq::empty());
        assert(Seq::<JsonView>::empty().push(m) =~= seq![m]);
    }
}

/// A page begins at its offset, leaves nothing out, and ends at its limit or
/// with the last meeting.
pub proof fn law_page_is_a_range(s: Seq<JsonView>, offset: nat, limit: nat)
    ensures
        ({
            let page = window(s, offset as int, limit as int);
            &&& forall|i: int| 0 <= i < page.len() ==> #[trigger] page[i] == s[offset + i]
            &&& page.len() == (if offset >= s.len() {
                0int
            } else if limit <= s.len() - offset {
                limit as int
            } else {
                s.len() - offset
            })
        }),
{
}

/// What a query is made of: each bound is the moment of what was written for it,
/// in which `created_since` and `created_until` go before `since` and `until`;
/// without any of these, `date` bounds the day that begins at its moment. The
/// search is in small letters, and the rest as it was written.
pub proof fn law_query_is_as_written(s: QuerySpecView, now: Timestamp)
    ensures
        query_at(s, now) matches Ok(q) ==> {
            &&& q.offset == s.offset
            &&& q.include_shared == s.include_shared
            &&& s.limit == 0 ==> q.limit == 1
            &&& 1 <= s.limit <= 200 ==> q.limit == s.limit
            &&& s.limit > 200 ==> q.limit == 200
            &&& s.search is None ==> q.search is None
            &&& s.search matches Some(p) ==> q.search == Some(text::lowercase(p))
            &&& s.updated_since is None ==> q.updated_since is None
            &&& s.updated_since matches Some(w) ==> (q.updated_since matches Some(t)
                && dates::date_at(w, now) == Ok::<Timestamp, DateErrorView>(t))
            &&& s.updated_until is None ==> q.updated_until is None
            &&& s.updated_until matches Some(w) ==> (q.updated_until matches Some(t)
                && dates::date_at(w, now) == Ok::<Timestamp, DateErrorView>(t))
            &&& s.created_since matches Some(w) ==> (q.created_since matches Some(t)
                && dates::date_at(w, now) == Ok::<Timestamp, DateErrorView>(t))
            &&& s.created_since is None ==> (s.since matches Some(w) ==> (
            q.created_since matches Some(t) && dates::date_at(w, now) == Ok::<
                Timestamp,
                DateErrorView,
            >(t)))
            &&& s.created_until matches Some(w) ==> (q.created_until matches Some(t)
                && dates::date_at(w, now) == Ok::<Timestamp, DateErrorView>(t))
            &&& s.created_until is None ==> (s.until matches Some(w) ==> (
            q.created_until matches Some(t) && dates::date_at(w, now) == Ok::<
                Timestamp,
                DateErrorView,
            >(t)))
            &&& s.created_since is None && s.since is None && s.date is None
                ==> q.created_since is None
            &&& s.created_until is None && s.until is None && s.date is None
                ==> q.created_until is None
            &&& s.created_since is None && s.since is None ==> (s.date matches Some(w) ==> (
            q.created_since matches Some(t) && dates::date_at(w, now) == Ok::<
                Timestamp,
                DateErrorView,
            >(t)))
            &&& s.created_until is None && s.until is None ==> (s.date matches Some(w) ==> (
            dates::date_at(w, now) matches Ok(t) && q.created_until is Some && q.created_until
                == dates::next_day(t)))
        },
{
}

/// A query can be run exactly if each bound that is looked at gives a moment; a
/// bound that gives none is named, and the reason is that of the bound.
pub proof fn law_wrong_bounds_are_named(s: QuerySpecView, now: Timestamp)
    ensures
        query_at(s, now) matches Err(e) ==> {
            ||| e.field == "date"@ && (s.date matches Some(w) && (dates::date_at(w, now) == Err::<
                Timestamp,
                DateErrorView,
            >(e.cause) || (e.cause == DateErrorView::OutOfRange && (dates::date_at(w, now) matches Ok(t)
                && dates::next_day(t) is None))))
            ||| e.field == "since"@ && (s.created_since is Some && dates::date_at(
                s.created_since->0,
                now,
            ) == Err::<Timestamp, DateErrorView>(e.cause) || s.created_since is None
                && s.since is Some && dates::date_at(s.since->0, now) == Err::<
                Timestamp,
                DateErrorView,
            >(e.cause))
            ||| e.field == "until"@ && (s.created_until is Some && dates::date_at(
                s.created_until->0,
                now,
            ) == Err::<Timestamp, DateErrorView>(e.cause) || s.created_until is None
                && s.until is Some && dates::date_at(s.until->0, now) == Err::<
                Timestamp,
                DateErrorView,
            >(e.cause))
            ||| e.field == "updated_since"@ && (s.updated_since matches Some(w) && dates::date_at(
                w,
                now,
            ) == Err::<Timestamp, DateErrorView>(e.cause))
            ||| e.field == "updated_until"@ && (s.updated_until matches Some(w) && dates::date_at(
                w,
                now,
            ) == Err::<Timestamp, DateErrorView>(e.cause))
        },
{
}

/// What is said of a bound names it.
pub proof fn law_message_names_the_bound(e: QueryErrorView)
    ensures
        exists|rest: Seq<char>|
            query_message(e) == #[trigger] ("invalid `"@ + e.field + "`: "@ + rest),
        e.cause matches DateErrorView::Unreadable(s) ==> query_message(e) == "invalid `"@ + e.field
            + "`: "@ + s,
{
    let rest = match e.cause {
        DateErrorView::Unreadable(s) => s,
        DateErrorView::OutOfRange => "the date is out of range"@,
    };
    assert(query_message(e) == "invalid `"@ + e.field + "`: "@ + rest);
}

/// A bound that leads out of the calendar is told so.
pub proof fn law_bounds_out_of_range_are_told(field: Seq<char>)
    ensures
        query_message(QueryErrorView { field, cause: DateErrorView::OutOfRange }) == "invalid `"@
            + field + "`: "@ + "the date is out of range"@,
{
}

/// A query is seen as it is, and so is one that cannot be run.
pub proof fn law_queries_are_seen(r: Result<MeetingQuery, QueryError>, s: MeetingQuerySpec<'_>)
    ensures
        r matches Ok(q) ==> (query_view(r) matches Ok(v) && v.created_since == q.created_since
            && v.created_until == q.created_until && v.updated_since == q.updated_since
            && v.updated_until == q.updated_until && v.search == json::seen(q.search) && v.limit
            == q.limit && v.offset == q.offset && v.include_shared == q.include_shared),
        r matches Err(e) ==> (query_view(r) matches Err(v) && v.field == e.field@ && v.cause
            == e.cause@),
        s@.date == json::seen(s.date) && s@.since == json::seen(s.since) && s@.until == json::seen(
            s.until,
        ) && s@.created_since == json::seen(s.created_since) && s@.created_until == json::seen(
            s.created_until,
        ) && s@.updated_since == json::seen(s.updated_since) && s@.updated_until == json::seen(
            s.updated_until,
        ) && s@.search == json::seen(s.search) && s@.limit == s.limit && s@.offset == s.offset
            && s@.include_shared == s.include_shared,
{
}

/// The first bound that gives no moment is the one that is named: `date`, then
/// the lower and the upper bound of the creation, then those of the update.
pub proof fn law_first_wrong_bound_is_named(s: QuerySpecView, now: Timestamp)
    ensures
        ({
            let since = if s.created_since is Some {
                s.created_since
            } else {
                s.since
            };
            let until = if s.created_until is Some {
                s.created_until
            } else {
                s.until
            };
            let day = s.date matches Some(w) ==> (dates::date_at(w, now) matches Ok(t)
                && dates::next_day(t) is Some);
            let lower = since matches Some(w) ==> dates::date_at(w, now) is Ok;
            let upper = until matches Some(w) ==> dates::date_at(w, now) is Ok;
            let updated_lower = s.updated_since matches Some(w) ==> dates::date_at(w, now) is Ok;
            let updated_upper = s.updated_until matches Some(w) ==> dates::date_at(w, now) is Ok;
            &&& query_at(s, now) is Ok <==> day && lower && upper && updated_lower && updated_upper
            &&& !day ==> (query_at(s, now) matches Err(e) && e.field == "date"@)
            &&& day && !lower ==> (query_at(s, now) matches Err(e) && e.field == "since"@)
            &&& day && lower && !upper ==> (query_at(s, now) matches Err(e) && e.field == "until"@)
            &&& day && lower && upper && !updated_lower ==> (query_at(s, now) matches Err(e)
                && e.field == "updated_since"@)
            &&& day && lower && upper && updated_lower && !updated_upper ==> (query_at(
                s,
                now,
            ) matches Err(e) && e.field == "updated_until"@)
        }),
{
}

} // verus!
