//! The read-through cache as a sequence of steps, for a table and a feed
//! that the caller reaches itself.
//!
//! The caller looks the query up and hands the rows to `on_lookup`; on a miss
//! it is told what to fetch, hands the feed's answer to `on_feed`, and then
//! inserts each record it is given and hands each outcome to `on_insert`,
//! until it is told the answer or the error.

use vstd::prelude::*;
use crate::error::AppError;
use crate::neo::{Neo, NeoView};
use crate::normalize::views;
use crate::reconcile::{feed_view, fetch_records, fetched, Query};

verus! {

/// What the caller does next.
#[derive(Debug)]
pub enum Step {
    /// Fetch this path and query string from the feed.
    Fetch(String),
    /// Insert this record into the table.
    Insert(Neo),
    /// The answer.
    Done(Vec<Neo>),
    /// The call fails with this error.
    Fail(AppError),
}

/// Which event a cache fill waits for.
#[derive(Clone, Copy, Debug, PartialEq, Eq, Structural)]
pub enum Phase {
    Lookup,
    Fetch,
    Insert,
    Finished,
}

/// One cache fill in progress.
pub struct CacheFill {
    query: Query,
    api_key: String,
    phase: Phase,
    pending: Vec<Neo>,
    next: usize,
    stored: Vec<Neo>,
}

impl CacheFill {
    pub closed spec fn query(&self) -> Query {
        self.query
    }

    pub closed spec fn api_key(&self) -> Seq<char> {
        self.api_key@
    }

    pub closed spec fn phase(&self) -> Phase {
        self.phase
    }

    /// The records still to be inserted are `pending()[next()..]`.
    pub closed spec fn pending(&self) -> Seq<NeoView> {
        views(self.pending@)
    }

    pub closed spec fn next(&self) -> int {
        self.next as int
    }

    /// The rows the table gave back for the records inserted so far.
    pub closed spec fn stored(&self) -> Seq<NeoView> {
        views(self.stored@)
    }

    pub closed spec fn wf(&self) -> bool {
        &&& self.query.valid()
        &&& self.phase == Phase::Insert ==> 0 < self.next <= self.pending@.len()
            && self.stored@.len() == self.next - 1
    }

    /// Starts answering `query`; the caller looks it up in the table first.
    pub fn start(query: Query, api_key: &str) -> (r: CacheFill)
        requires
            query.valid(),
        ensures
            r.wf(),
            r.query() == query,
            r.api_key() == api_key@,
            r.phase() == Phase::Lookup,
    {
        CacheFill {
            query,
            api_key: String::from_str(api_key),
            phase: Phase::Lookup,
            pending: Vec::new(),
            next: 0,
            stored: Vec::new(),
        }
    }

    /// Takes the table's rows for the query. Rows answer the call at once and
    /// the feed is not consulted; no rows ask for the feed.
    pub fn on_lookup(&mut self, rows: Vec<Neo>) -> (r: Step)
        requires
            old(self).wf(),
            old(self).phase() == Phase::Lookup,
        ensures
            final(self).wf(),
            final(self).query() == old(self).query(),
            final(self).api_key() == old(self).api_key(),
            rows@.len() > 0 ==> (r matches Step::Done(v) && views(v@) == views(rows@))
                && final(self).phase() == Phase::Finished,
            rows@.len() == 0 ==> (r matches Step::Fetch(p) && p@ == old(self).query().request_text(
                old(self).api_key(),
            )) && final(self).phase() == Phase::Fetch,
    {
        if rows.len() > 0 {
            self.phase = Phase::Finished;
            Step::Done(rows)
        } else {
            self.phase = Phase::Fetch;
            Step::Fetch(self.query.request_path(self.api_key.as_str()))
        }
    }

    /// Takes the feed's answer (`None` when it could not be reached) and
    /// asks for the first insert, or ends the call.
    pub fn on_feed(&mut self, body: Option<&str>) -> (r: Step)
        requires
            old(self).wf(),
            old(self).phase() == Phase::Fetch,
        ensures
            final(self).wf(),
            final(self).query() == old(self).query(),
            final(self).api_key() == old(self).api_key(),
            match fetched(old(self).query(), feed_view(body)) {
                Err(e) => r == Step::Fail(e) && final(self).phase() == Phase::Finished,
                Ok(recs) => if recs.len() == 0 {
                    (r matches Step::Done(v) && v@.len() == 0) && final(self).phase()
                        == Phase::Finished
                } else {
                    &&& r matches Step::Insert(n) && n@ == recs[0]
                    &&& final(self).phase() == Phase::Insert
                    &&& final(self).pending() == recs
                    &&& final(self).next() == 1
                    &&& final(self).stored() == Seq::<NeoView>::empty()
                },
            },
    {
        match fetch_records(&self.query, body) {
            Err(e) => {
                self.phase = Phase::Finished;
                Step::Fail(e)
            },
            Ok(recs) => {
                if recs.len() == 0 {
                    self.phase = Phase::Finished;
                    Step::Done(recs)
                } else {
                    let first = recs[0].duplicate();
                    self.pending = recs;
                    self.next = 1;
                    self.stored = Vec::new();
                    self.phase = Phase::Insert;
                    proof {
                        assert(views(self.stored@) =~= Seq::<NeoView>::empty());
                    }
                    Step::Insert(first)
                }
            },
        }
    }

    /// Takes the outcome of the last insert: the stored row, or the error
    /// that ends the call (the rows inserted before it stay).
    pub fn on_insert(&mut self, outcome: Result<Neo, AppError>) -> (r: Step)
        requires
            old(self).wf(),
            old(self).phase() == Phase::Insert,
        ensures
            final(self).wf(),
            final(self).query() == old(self).query(),
            final(self).api_key() == old(self).api_key(),
            final(self).pending() == old(self).pending(),
            match outcome {
                Err(e) => r == Step::Fail(e) && final(self).phase() == Phase::Finished,
                Ok(row) => {
                    let stored = old(self).stored().push(row@);
                    if old(self).next() < old(self).pending().len() {
                        &&& r matches Step::Insert(n) && n@ == old(self).pending()[old(self).next()]
                        &&& final(self).phase() == Phase::Insert
                        &&& final(self).next() == old(self).next() + 1
                        &&& final(self).stored() == stored
                    } else {
                        &&& r matches Step::Done(v) && views(v@) == stored
                        &&& final(self).phase() == Phase::Finished
                    }
                },
            },
    {
        match outcome {
            Err(e) => {
                self.phase = Phase::Finished;
                Step::Fail(e)
            },
            Ok(row) => {
                let ghost before = self.stored@;
                self.stored.push(row);
                proof {
                    assert(views(self.stored@) =~= views(before).push(self.stored@.last()@));
                }
                if self.next < self.pending.len() {
                    let n = self.pending[self.next].duplicate();
                    self.next = self.next + 1;
                    Step::Insert(n)
                } else {
                    self.phase = Phase::Finished;
                    let mut done = Vec::new();
                    std::mem::swap(&mut done, &mut self.stored);
                    Step::Done(done)
                }
            },
        }
    }
}

} // verus!
