//! The local table of records and the read-through cache in front of the
//! remote feed.
//!
//! The table answers a query by itself whenever it holds at least one row for
//! it; there is no expiry. On a miss the feed's answer is normalized and every
//! record is inserted in order, and the inserted records are the answer. A
//! failed insert ends the call, and the rows inserted before it stay.

use vstd::prelude::*;
use crate::date::{date_of_text, parse_date, CalendarDate};
use crate::error::AppError;
use crate::json::{json_decoding, Json};
use crate::neo::{CreateNeo, IntoNeoId, Neo, NeoId, NeoView, PagePackageNeo};
use crate::normalize::{
    all_records, feed_from_json, feed_texts, flatten, object_from_json, object_records,
    object_text_of, object_views, same_outcome, views, lemma_object_records_carry_parent,
    lemma_bad_velocity_fails,
};
use crate::text::{check_decimal, int_of_text, int_text, int_to_text, is_decimal};

verus! {

broadcast use vstd::seq_lib::group_seq_properties;

/// The most rows the table holds: identifiers run from 1 to `i32::MAX`.
pub const MAX_ROWS: usize = 2147483647;

/// What a caller asks the table for.
#[derive(Clone, Copy, Debug, PartialEq, Eq, Structural)]
pub enum Query {
    /// The approaches from `begin` to `end`, both days included.
    DateRange { begin: CalendarDate, end: CalendarDate },
    /// Every approach of the object the feed calls `id`.
    ByExternalId { id: i32 },
}

impl Query {
    /// Whether the days of a date range exist.
    pub open spec fn valid(self) -> bool {
        match self {
            Query::DateRange { begin, end } => begin.valid() && end.valid(),
            Query::ByExternalId { .. } => true,
        }
    }

    /// The feed's path and query string for this query, relative to the
    /// feed's base address.
    pub open spec fn request_text(self, api_key: Seq<char>) -> Seq<char> {
        match self {
            Query::DateRange { begin, end } => "feed?start_date="@ + begin.iso_text()
                + "&end_date="@ + end.iso_text() + "&api_key="@ + api_key,
            Query::ByExternalId { id } => "neo/"@ + int_text(id as int) + "?api_key="@ + api_key,
        }
    }

    /// Writes the feed request for this query (see `request_text`).
    pub fn request_path(&self, api_key: &str) -> (r: String)
        requires
            self.valid(),
        ensures
            r@ == self.request_text(api_key@),
    {
        match self {
            Query::DateRange { begin, end } => {
                let mut out = String::from_str("feed?start_date=");
                out.append(begin.to_iso_string().as_str());
                out.append("&end_date=");
                out.append(end.to_iso_string().as_str());
                out.append("&api_key=");
                out.append(api_key);
                out
            },
            Query::ByExternalId { id } => {
                let mut out = String::from_str("neo/");
                out.append(int_to_text(*id).as_str());
                out.append("?api_key=");
                out.append(api_key);
                out
            },
        }
    }
}

/// Whether record `r` answers query `q`.
pub open spec fn answers(q: Query, r: NeoView) -> bool {
    match q {
        Query::DateRange { begin, end } => r.within(begin, end),
        Query::ByExternalId { id } => r.api_id == id,
    }
}

/// The rows of `rows` that answer `q`, in table order.
pub open spec fn lookup(rows: Seq<NeoView>, q: Query) -> Seq<NeoView> {
    rows.filter(|r: NeoView| answers(q, r))
}

/// The records that the feed's answer `feed` gives for `q`; `None` stands for
/// a feed that could not be reached.
pub open spec fn fetched(q: Query, feed: Option<Seq<char>>) -> Result<Seq<NeoView>, AppError> {
    match feed {
        None => Err(AppError::RequestAPI),
        Some(text) => match json_decoding(text) {
            None => Err(AppError::SerdeFailedParse),
            Some(j) => match q {
                Query::DateRange { .. } => match feed_texts(j) {
                    None => Err(AppError::SerdeFailedParse),
                    Some(os) => all_records(os),
                },
                Query::ByExternalId { .. } => match object_text_of(j, "designation"@) {
                    None => Err(AppError::SerdeFailedParse),
                    Some(o) => object_records(o, o.approaches.len() as int),
                },
            },
        },
    }
}

/// `recs` as rows appended to a table of `base` rows.
pub open spec fn stamped(recs: Seq<NeoView>, base: int) -> Seq<NeoView> {
    Seq::new(recs.len(), |i: int| recs[i].with_id((base + 1 + i) as i32))
}

/// The answer to `q` and the table after it, for a table holding `rows` and a
/// feed that answers `feed`.
pub open spec fn resolution(rows: Seq<NeoView>, q: Query, feed: Option<Seq<char>>) -> (
    Result<Seq<NeoView>, AppError>,
    Seq<NeoView>,
) {
    let hit = lookup(rows, q);
    if hit.len() > 0 {
        (Ok(hit), rows)
    } else {
        match fetched(q, feed) {
            Err(e) => (Err(e), rows),
            Ok(recs) => {
                let new_rows = stamped(recs, rows.len() as int);
                if rows.len() + recs.len() <= MAX_ROWS {
                    (Ok(new_rows), rows + new_rows)
                } else {
                    (Err(AppError::Database), rows + new_rows.take(MAX_ROWS - rows.len()))
                }
            },
        }
    }
}

/// The local table of records, held in memory.
pub struct Store {
    rows: Vec<Neo>,
}

impl View for Store {
    type V = Seq<NeoView>;

    closed spec fn view(&self) -> Seq<NeoView> {
        views(self.rows@)
    }
}

/// The text of a feed answer, if there is one.
pub open spec fn feed_view(feed: Option<&str>) -> Option<Seq<char>> {
    match feed {
        Some(t) => Some(t@),
        None => None,
    }
}

/// Reads the feed's answer to `q` into records that are not yet stored.
pub fn fetch_records(q: &Query, feed: Option<&str>) -> (r: Result<Vec<Neo>, AppError>)
    ensures
        same_outcome(r, fetched(*q, feed_view(feed))),
{
    let text = match feed {
        Some(t) => t,
        None => {
            return Err(AppError::RequestAPI);
        },
    };
    let doc = match Json::parse(text) {
        Ok(j) => j,
        Err(e) => {
            return Err(e);
        },
    };
    match q {
        Query::DateRange { .. } => match feed_from_json(&doc) {
            Some(feed) => flatten(&feed.into_objects()),
            None => Err(AppError::SerdeFailedParse),
        },
        Query::ByExternalId { .. } => match object_from_json(&doc, "designation") {
            Some(obj) => {
                let objs = vec![obj];
                let ghost o = objs@[0]@;
                proof {
                    let os = object_views(objs@);
                    assert(os.drop_last() =~= Seq::<crate::neo::ObjectText>::empty());
                    assert(all_records(os.drop_last()) == Ok::<Seq<NeoView>, AppError>(Seq::empty()));
                    assert(os.last() == o);
                    match object_records(o, o.approaches.len() as int) {
                        Ok(rs) => {
                            assert(Seq::<NeoView>::empty() + rs =~= rs);
                        },
                        Err(_) => {},
                    }
                    assert(all_records(os) == object_records(o, o.approaches.len() as int));
                }
                flatten(&objs)
            },
            None => Err(AppError::SerdeFailedParse),
        },
    }
}

impl Store {
    /// Row `i` has identifier `i + 1`, and the identifiers fit an `i32`.
    pub open spec fn wf(&self) -> bool {
        &&& self@.len() <= MAX_ROWS
        &&& forall|i: int| 0 <= i < self@.len() ==> (#[trigger] self@[i]).id == i + 1
    }

    /// An empty table.
    pub fn new() -> (r: Store)
        ensures
            r.wf(),
            r@ == Seq::<NeoView>::empty(),
    {
        let r = Store { rows: Vec::new() };
        assert(r@ =~= Seq::<NeoView>::empty());
        r
    }

    /// Every row, in table order.
    pub fn get_all_neos(&self) -> (r: Vec<Neo>)
        ensures
            views(r@) == self@,
    {
        let mut out: Vec<Neo> = Vec::new();
        let mut i: usize = 0;
        while i < self.rows.len()
            invariant
                i <= self.rows@.len(),
                views(out@) == views(self.rows@).take(i as int),
            decreases self.rows.len() - i,
        {
            let ghost before = out@;
            out.push(self.rows[i].duplicate());
            assert(views(out@) =~= views(before).push(out@.last()@));
            assert(views(out@) =~= views(self.rows@).take(i + 1));
            i = i + 1;
        }
        assert(views(self.rows@).take(i as int) =~= views(self.rows@));
        out
    }

    /// Every row, in table order, packed for the listing page.
    pub fn get_all_neo_pages(&self) -> (r: PagePackageNeo)
        ensures
            views(r.neos@) == self@,
    {
        PagePackageNeo { neos: self.get_all_neos() }
    }

    /// Inserts `rec` as a new row and returns the row; fails with `Database`
    /// when the table is full.
    pub fn insert(&mut self, rec: &Neo) -> (r: Result<Neo, AppError>)
        requires
            old(self).wf(),
        ensures
            final(self).wf(),
            old(self)@.len() < MAX_ROWS ==> (r matches Ok(n) && n@ == rec@.with_id(
                (old(self)@.len() + 1) as i32,
            ) && final(self)@ == old(self)@.push(n@)),
            old(self)@.len() >= MAX_ROWS ==> r == Err::<Neo, AppError>(AppError::Database)
                && final(self)@ == old(self)@,
    {
        if self.rows.len() >= MAX_ROWS {
            return Err(AppError::Database);
        }
        let mut row = rec.duplicate();
        row.id = NeoId((self.rows.len() + 1) as i32);
        let out = row.duplicate();
        self.rows.push(row);
        assert(self@ =~= old(self)@.push(out@));
        Ok(out)
    }

    /// The rows that answer `q`, in table order.
    pub fn lookup(&self, q: &Query) -> (r: Vec<Neo>)
        ensures
            views(r@) == lookup(self@, *q),
    {
        let mut out: Vec<Neo> = Vec::new();
        let mut i: usize = 0;
        while i < self.rows.len()
            invariant
                i <= self.rows@.len(),
                views(out@) == lookup(views(self.rows@).take(i as int), *q),
            decreases self.rows.len() - i,
        {
            let row = &self.rows[i];
            let hit = match q {
                Query::DateRange { begin, end } => begin.is_no_later_than(&row.approach_date)
                    && row.approach_date.is_no_later_than(end),
                Query::ByExternalId { id } => row.api_id == *id,
            };
            let ghost before = out@;
            proof {
                reveal(Seq::filter);
                assert(views(self.rows@).take(i + 1).drop_last() =~= views(self.rows@).take(i as int));
            }
            if hit {
                out.push(row.duplicate());
                assert(views(out@) =~= views(before).push(out@.last()@));
            }
            i = i + 1;
        }
        assert(views(self.rows@).take(i as int) =~= views(self.rows@));
        out
    }

    /// Inserts `recs` in order; stops at the first insert that fails, and the
    /// rows inserted before it stay.
    fn insert_all(&mut self, recs: &Vec<Neo>) -> (r: Result<Vec<Neo>, AppError>)
        requires
            old(self).wf(),
        ensures
            final(self).wf(),
            ({
                let new_rows = stamped(views(recs@), old(self)@.len() as int);
                if old(self)@.len() + recs@.len() <= MAX_ROWS {
                    same_outcome(r, Ok(new_rows)) && final(self)@ == old(self)@ + new_rows
                } else {
                    r == Err::<Vec<Neo>, AppError>(AppError::Database) && final(self)@ == old(
                        self,
                    )@ + new_rows.take(MAX_ROWS - old(self)@.len())
                }
            }),
    {
        let ghost start = self@;
        let ghost new_rows = stamped(views(recs@), start.len() as int);
        let mut out: Vec<Neo> = Vec::new();
        let mut i: usize = 0;
        while i < recs.len()
            invariant
                self.wf(),
                start == old(self)@,
                i <= recs@.len(),
                start.len() + i <= MAX_ROWS,
                new_rows == stamped(views(recs@), start.len() as int),
                self@ == start + new_rows.take(i as int),
                views(out@) == new_rows.take(i as int),
            decreases recs.len() - i,
        {
            let ghost before = out@;
            match self.insert(&recs[i]) {
                Ok(row) => {
                    out.push(row);
                    assert(views(out@) =~= views(before).push(out@.last()@));
                    assert(new_rows.take(i + 1) =~= new_rows.take(i as int).push(new_rows[i as int]));
                },
                Err(e) => {
                    assert(start.len() + recs@.len() > MAX_ROWS);
                    assert(i == MAX_ROWS - start.len());
                    return Err(e);
                },
            }
            i = i + 1;
        }
        assert(new_rows.take(i as int) =~= new_rows);
        Ok(out)
    }

    /// Answers `q` from the table when it holds a row for it; otherwise reads
    /// the feed's answer `feed` (`None` when the feed cannot be reached),
    /// inserts its records in order and answers with the inserted rows.
    pub fn resolve(&mut self, q: &Query, feed: Option<&str>) -> (r: Result<Vec<Neo>, AppError>)
        requires
            old(self).wf(),
        ensures
            final(self).wf(),
            same_outcome(r, resolution(old(self)@, *q, feed_view(feed)).0),
            final(self)@ == resolution(old(self)@, *q, feed_view(feed)).1,
    {
        let hit = self.lookup(q);
        if hit.len() > 0 {
            return Ok(hit);
        }
        let recs = match fetch_records(q, feed) {
            Ok(v) => v,
            Err(e) => {
                return Err(e);
            },
        };
        self.insert_all(&recs)
    }

    /// Answers the approaches from day `begin` to day `end`, both written
    /// `YYYY-MM-DD`; a text that names no day fails with `InvalidDate` before
    /// the table or the feed is consulted.
    pub fn get_neo_by_date(&mut self, begin: &str, end: &str, feed: Option<&str>) -> (r: Result<
        Vec<Neo>,
        AppError,
    >)
        requires
            old(self).wf(),
        ensures
            final(self).wf(),
            match (date_of_text(begin@), date_of_text(end@)) {
                (Some(b), Some(e)) => {
                    let q = Query::DateRange { begin: b, end: e };
                    same_outcome(r, resolution(old(self)@, q, feed_view(feed)).0) && final(self)@
                        == resolution(old(self)@, q, feed_view(feed)).1
                },
                _ => r == Err::<Vec<Neo>, AppError>(AppError::InvalidDate) && final(self)@ == old(
                    self,
                )@,
            },
    {
        let b = match parse_date(begin) {
            Some(d) => d,
            None => {
                return Err(AppError::InvalidDate);
            },
        };
        let e = match parse_date(end) {
            Some(d) => d,
            None => {
                return Err(AppError::InvalidDate);
            },
        };
        self.resolve(&Query::DateRange { begin: b, end: e }, feed)
    }

    /// Answers every approach of the object `id`.
    pub fn get_neo_by_id<T: IntoNeoId>(&mut self, id: T, feed: Option<&str>) -> (r: Result<
        Vec<Neo>,
        AppError,
    >)
        requires
            old(self).wf(),
        ensures
            final(self).wf(),
            ({
                let q = Query::ByExternalId { id: id.id_value() };
                same_outcome(r, resolution(old(self)@, q, feed_view(feed)).0) && final(self)@
                    == resolution(old(self)@, q, feed_view(feed)).1
            }),
    {
        let id = id.into_neo_id();
        self.resolve(&Query::ByExternalId { id: id.0 }, feed)
    }

    /// Stores a record that a client submits directly. Its date must be
    /// `YYYY-MM-DD` (else `InvalidDate`) and its measures decimal numbers
    /// (else `SerdeFailedParse`); a full table fails with `Database`.
    pub fn add_neo(&mut self, new: &CreateNeo) -> (r: Result<Neo, AppError>)
        requires
            old(self).wf(),
        ensures
            final(self).wf(),
            date_of_text(new.approach_date@) is None ==> r == Err::<Neo, AppError>(
                AppError::InvalidDate,
            ) && final(self)@ == old(self)@,
            date_of_text(new.approach_date@) matches Some(d) ==> {
                let measures_ok = is_decimal(new.diameter_min@) && is_decimal(new.diameter_max@)
                    && is_decimal(new.velocity@) && is_decimal(new.miss_distance@);
                let row = NeoView {
                    id: (old(self)@.len() + 1) as i32,
                    api_id: new.api_id,
                    designation: new.designation@,
                    diameter_min: new.diameter_min@,
                    diameter_max: new.diameter_max@,
                    hazardous_asteroid: new.hazardous_asteroid,
                    approach_date: d,
                    velocity: new.velocity@,
                    miss_distance: new.miss_distance@,
                    orbiting_body: new.orbiting_body@,
                };
                &&& !measures_ok ==> r == Err::<Neo, AppError>(AppError::SerdeFailedParse)
                    && final(self)@ == old(self)@
                &&& measures_ok && old(self)@.len() < MAX_ROWS ==> (r matches Ok(n) && n@ == row
                    && final(self)@ == old(self)@.push(row))
                &&& measures_ok && old(self)@.len() >= MAX_ROWS ==> r == Err::<Neo, AppError>(
                    AppError::Database,
                ) && final(self)@ == old(self)@
            },
    {
        let d = match parse_date(new.approach_date.as_str()) {
            Some(d) => d,
            None => {
                return Err(AppError::InvalidDate);
            },
        };
        if !check_decimal(new.diameter_min.as_str()) || !check_decimal(new.diameter_max.as_str())
            || !check_decimal(new.velocity.as_str()) || !check_decimal(new.miss_distance.as_str()) {
            return Err(AppError::SerdeFailedParse);
        }
        let rec = Neo::new(
            NeoId(0),
            new.api_id,
            new.designation.clone(),
            new.diameter_min.clone(),
            new.diameter_max.clone(),
            new.hazardous_asteroid,
            d,
            new.velocity.clone(),
            new.miss_distance.clone(),
            new.orbiting_body.clone(),
        );
        self.insert(&rec)
    }
}


proof fn lemma_filter_keeps_all(s: Seq<NeoView>, q: Query)
    requires
        forall|i: int| 0 <= i < s.len() ==> answers(q, #[trigger] s[i]),
    ensures
        lookup(s, q) == s,
    decreases s.len(),
{
    reveal(Seq::filter);
    if s.len() > 0 {
        lemma_filter_keeps_all(s.drop_last(), q);
        assert(s.drop_last().push(s.last()) =~= s);
    }
}

/// A table that holds a row answering a query answers it from those rows and
/// stays as it is, whatever the feed would have answered: the feed is not
/// consulted.
pub proof fn lemma_cached_query_skips_feed(
    rows: Seq<NeoView>,
    q: Query,
    f1: Option<Seq<char>>,
    f2: Option<Seq<char>>,
)
    requires
        exists|i: int| 0 <= i < rows.len() && answers(q, #[trigger] rows[i]),
    ensures
        resolution(rows, q, f1) == resolution(rows, q, f2),
        resolution(rows, q, f1) == (Ok::<Seq<NeoView>, AppError>(lookup(rows, q)), rows),
{
    let i = choose|i: int| 0 <= i < rows.len() && answers(q, #[trigger] rows[i]);
    let pred = |r: NeoView| answers(q, r);
    rows.lemma_filter_contains_rev(pred, rows[i]);
    assert(lookup(rows, q).contains(rows[i]));
}

/// Asking twice, with the feed out of reach the second time, gives the same
/// rows both times and leaves the table as the first call left it, provided
/// the first call answered with at least one row and every row it answered
/// with answers the query.
pub proof fn lemma_resolve_twice(rows: Seq<NeoView>, q: Query, feed: Option<Seq<char>>)
    requires
        resolution(rows, q, feed).0 matches Ok(v) && v.len() > 0 && forall|i: int|
            0 <= i < v.len() ==> answers(q, #[trigger] v[i]),
    ensures
        resolution(resolution(rows, q, feed).1, q, None) == (
            resolution(rows, q, feed).0,
            resolution(rows, q, feed).1,
        ),
{
    let v = resolution(rows, q, feed).0->Ok_0;
    if lookup(rows, q).len() == 0 {
        let rows1 = rows + v;
        assert(resolution(rows, q, feed).1 == rows1);
        Seq::filter_distributes_over_add(rows, v, |r: NeoView| answers(q, r));
        lemma_filter_keeps_all(v, q);
        assert(lookup(rows1, q) =~= v);
    }
}

/// On a miss, a single-object answer of the feed with `n` approaches that
/// resolves without error adds exactly `n` rows, all with the object's
/// identifier, and answers with those rows.
pub proof fn lemma_object_fill(rows: Seq<NeoView>, id: i32, text: Seq<char>)
    requires
        lookup(rows, Query::ByExternalId { id }).len() == 0,
        json_decoding(text) matches Some(j) && object_text_of(j, "designation"@) is Some,
        resolution(rows, Query::ByExternalId { id }, Some(text)).0 is Ok,
    ensures
        ({
            let o = object_text_of(json_decoding(text)->0, "designation"@)->0;
            let (r, rows1) = resolution(rows, Query::ByExternalId { id }, Some(text));
            &&& rows1.len() == rows.len() + o.approaches.len()
            &&& rows1.take(rows.len() as int) == rows
            &&& r == Ok::<Seq<NeoView>, AppError>(rows1.skip(rows.len() as int))
            &&& forall|i: int|
                rows.len() <= i < rows1.len() ==> Some((#[trigger] rows1[i]).api_id)
                    == int_of_text(o.id)
        }),
{
    let q = Query::ByExternalId { id };
    let o = object_text_of(json_decoding(text)->0, "designation"@)->0;
    let n = o.approaches.len() as int;
    lemma_object_records_carry_parent(o, n);
    let recs = object_records(o, n)->Ok_0;
    let new_rows = stamped(recs, rows.len() as int);
    let rows1 = resolution(rows, q, Some(text)).1;
    assert(rows1 == rows + new_rows);
    assert(rows1.take(rows.len() as int) =~= rows);
    assert(rows1.skip(rows.len() as int) =~= new_rows);
    assert forall|i: int| rows.len() <= i < rows1.len() implies Some((#[trigger] rows1[i]).api_id)
        == int_of_text(o.id) by {
        assert(rows1[i] == new_rows[i - rows.len()]);
        assert(recs[i - rows.len()].api_id == new_rows[i - rows.len()].api_id);
    }
}

/// On a miss, a feed answer with an approach whose velocity is not a decimal
/// number fails the call and leaves the table as it was.
pub proof fn lemma_bad_velocity_stores_nothing(
    rows: Seq<NeoView>,
    b: CalendarDate,
    e: CalendarDate,
    text: Seq<char>,
    i: int,
    k: int,
)
    requires
        lookup(rows, Query::DateRange { begin: b, end: e }).len() == 0,
        json_decoding(text) matches Some(j) && feed_texts(j) matches Some(os) && 0 <= i < os.len()
            && 0 <= k < os[i].approaches.len() && !is_decimal(os[i].approaches[k].velocity),
    ensures
        resolution(rows, Query::DateRange { begin: b, end: e }, Some(text)).0 is Err,
        resolution(rows, Query::DateRange { begin: b, end: e }, Some(text)).1 == rows,
{
    let os = feed_texts(json_decoding(text)->0)->0;
    lemma_bad_velocity_fails(os, i, k);
}

} // verus!
