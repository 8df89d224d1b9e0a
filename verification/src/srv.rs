//! The allocator and resolver: a code is allocated for a URL with at
//! most one retry on a code collision, a code is resolved to its URL,
//! and a visit of a code is counted.
//!
//! Each operation is specified as a function on the table model of
//! [`crate::store`]. The decisions that follow a store's answer stand in
//! functions of their own, which take that answer as a plain value.

use crate::code::{generate, is_code};
use crate::error::{text_result, unit_result, Failure, ServiceError};
use crate::store::{
    consistent, count_outcome, counted, holds_url, code_for, record_of, record_outcome,
    rows_outcome, taken_detail, taken_detail_text, write_outcome, written, Record, RecordView,
    Row, Rows, StoreError, StoreFault, Table,
};
use vstd::prelude::*;

verus! {

/// Where an allocation stands in its budget of two writes.
#[derive(Debug, Clone, Copy, PartialEq, Eq, Structural)]
pub enum Attempt {
    /// No write has been made yet.
    First,
    /// The first write collided on its code; one more may be made.
    Retry,
}

/// What an allocation does once a write has been answered.
#[derive(Debug, Clone, PartialEq, Eq)]
pub enum Step {
    /// The URL is stored under this code; the allocation is over.
    Done(String),
    /// The code collided and a write is left: draw a new code and write
    /// again, as [`Attempt::Retry`].
    Again,
    /// The allocation is over without a code.
    Failed(ServiceError),
}

/// The mathematical value of a [`Step`].
pub enum StepView {
    Done(Seq<char>),
    Again,
    Failed(Failure),
}

impl View for Step {
    type V = StepView;

    open spec fn view(&self) -> StepView {
        match self {
            Step::Done(code) => StepView::Done(code@),
            Step::Again => StepView::Again,
            Step::Failed(e) => StepView::Failed(e@),
        }
    }
}

/// Whether `fault` reports that `code` is taken as a primary key: the
/// store rejected the statement, and its detail line is the one that
/// names the key `id` with the value `code`.
pub open spec fn is_collision(fault: StoreFault, code: Seq<char>) -> bool {
    fault matches StoreFault::Database { detail: Some(d), .. } && d == taken_detail(code)
}

/// The failure that the service reports for a store failure that it
/// does not handle itself.
pub open spec fn failure_of(fault: StoreFault) -> Failure {
    match fault {
        StoreFault::Database { message, .. } => Failure::DbError(message),
        StoreFault::Other => Failure::Unknown,
    }
}

/// The step that follows the answer `outcome` to a write of `code` made
/// in `state`. A record ends the allocation with the record's code. A
/// collision on `code` asks for the retry after the first write and is
/// final after the second. Any other failure is final at once.
pub open spec fn step_after(
    state: Attempt,
    code: Seq<char>,
    outcome: Result<RecordView, StoreFault>,
) -> StepView {
    match outcome {
        Ok(record) => StepView::Done(record.id),
        Err(fault) => if is_collision(fault, code) {
            match state {
                Attempt::First => StepView::Again,
                Attempt::Retry => StepView::Failed(Failure::RetryFailed),
            }
        } else {
            StepView::Failed(failure_of(fault))
        },
    }
}

/// One write of `(code, url)` made in `state`: the table after it and
/// the step that follows.
pub open spec fn attempted(t: Rows, state: Attempt, url: Seq<char>, code: Seq<char>) -> (
    Rows,
    StepView,
) {
    (written(t, code, url), step_after(state, code, write_outcome(t, code, url)))
}

/// A whole allocation for `url` whose candidate codes are `first` and,
/// if it comes to the retry, `second`: the table after it and the answer.
pub open spec fn allocated(t: Rows, url: Seq<char>, first: Seq<char>, second: Seq<char>) -> (
    Rows,
    Result<Seq<char>, Failure>,
) {
    let (t1, s1) = attempted(t, Attempt::First, url, first);
    match s1 {
        StepView::Done(code) => (t1, Ok(code)),
        StepView::Failed(e) => (t1, Err(e)),
        StepView::Again => {
            let (t2, s2) = attempted(t1, Attempt::Retry, url, second);
            match s2 {
                StepView::Done(code) => (t2, Ok(code)),
                StepView::Failed(e) => (t2, Err(e)),
                StepView::Again => (t2, Err(Failure::RetryFailed)),
            }
        },
    }
}

/// What an allocation for `url` with codes drawn at random may do to the
/// table `before`, leaving `after` and answering `r`.
///
/// A URL that is present gets its code back and the table stays as it
/// is. Otherwise either a code of the generated shape that was not
/// present now stands for the URL, with a count of zero, or the answer
/// is [`Failure::RetryFailed`], the table stays as it is, and some code
/// of the generated shape is present (the draws collided with it).
pub open spec fn shortened(
    before: Rows,
    url: Seq<char>,
    after: Rows,
    r: Result<Seq<char>, Failure>,
) -> bool {
    if holds_url(before, url) {
        r == Ok::<Seq<char>, Failure>(code_for(before, url)) && after == before
    } else {
        match r {
            Ok(code) => {
                &&& is_code(code)
                &&& !before.contains_key(code)
                &&& after == before.insert(code, Row { url, count: 0 })
            },
            Err(e) => {
                &&& e == Failure::RetryFailed
                &&& after == before
                &&& exists|code: Seq<char>| is_code(code) && #[trigger] before.contains_key(code)
            },
        }
    }
}

/// The answer to resolving `id`: the URL that it stands for, or
/// [`Failure::NotFound`] with `id` where no record has that code.
pub open spec fn resolved(t: Rows, id: Seq<char>) -> Result<Seq<char>, Failure> {
    if t.contains_key(id) {
        Ok(t[id].url)
    } else {
        Err(Failure::NotFound(id))
    }
}

/// The message with which a visit reports that it updated no record.
pub open spec fn nothing_counted() -> Seq<char> {
    "no record was updated"@
}

/// The answer to a visit, given the store's answer to the update: an
/// acknowledgement where a row was updated, a store failure where none
/// was or where the store refused.
pub open spec fn visit_answer(outcome: Result<u64, StoreFault>) -> Result<(), Failure> {
    match outcome {
        Ok(n) => if n == 0 {
            Err(Failure::DbError(nothing_counted()))
        } else {
            Ok(())
        },
        Err(fault) => Err(failure_of(fault)),
    }
}

/// The answer to resolving, given what the store found under `id`.
pub open spec fn lookup_answer(found: Option<RecordView>, id: Seq<char>) -> Result<
    Seq<char>,
    Failure,
> {
    match found {
        Some(record) => Ok(record.url),
        None => Err(Failure::NotFound(id)),
    }
}

/// Whether `error` reports that `code` is taken as a primary key.
pub fn is_code_collision(error: &StoreError, code: &str) -> (collided: bool)
    ensures
        collided == is_collision(error@, code@),
{
    match error {
        StoreError::Database { detail: Some(d), .. } => {
            let expected = taken_detail_text(code);
            *d == expected
        },
        _ => false,
    }
}

/// The failure that the service reports for a store failure that it
/// does not handle itself.
pub fn failure(error: StoreError) -> (e: ServiceError)
    ensures
        e@ == failure_of(error@),
{
    match error {
        StoreError::Database { message, .. } => ServiceError::DbError(message),
        StoreError::Other => ServiceError::Unknown,
    }
}

/// Decides what an allocation does once the store has answered the
/// write of `code` that was made in `state`.
pub fn next_step(state: Attempt, code: &str, outcome: Result<Record, StoreError>) -> (step: Step)
    ensures
        step@ == step_after(state, code@, record_outcome(outcome)),
{
    match outcome {
        Ok(record) => Step::Done(record.id),
        Err(error) => {
            if is_code_collision(&error, code) {
                match state {
                    Attempt::First => Step::Again,
                    Attempt::Retry => Step::Failed(ServiceError::RetryFailed),
                }
            } else {
                Step::Failed(failure(error))
            }
        },
    }
}

/// Decides the answer to resolving `id` from what the store found.
pub fn lookup_result(found: Option<Record>, id: &str) -> (r: Result<String, ServiceError>)
    ensures
        text_result(r) == lookup_answer(record_of(found), id@),
{
    match found {
        Some(record) => Ok(record.url),
        None => Err(ServiceError::NotFound(String::from_str(id))),
    }
}

/// Decides the answer to a visit from the store's answer to the update.
pub fn visit_result(outcome: Result<u64, StoreError>) -> (r: Result<(), ServiceError>)
    ensures
        unit_result(r) == visit_answer(rows_outcome(outcome)),
{
    match outcome {
        Ok(n) => {
            if n == 0 {
                Err(ServiceError::DbError(String::from_str("no record was updated")))
            } else {
                Ok(())
            }
        },
        Err(error) => Err(failure(error)),
    }
}

/// If both candidate codes have the generated shape, an allocation over
/// them is one of the outcomes that [`shortened`] admits.
pub proof fn lemma_allocated_is_shortened(
    t: Rows,
    url: Seq<char>,
    first: Seq<char>,
    second: Seq<char>,
)
    requires
        is_code(first),
        is_code(second),
    ensures
        shortened(t, url, allocated(t, url, first, second).0, allocated(t, url, first, second).1),
{
    if !holds_url(t, url) && t.contains_key(first) {
        assert(written(t, first, url) == t);
    }
}

/// The operations of the shortening service.
pub trait ShortenService {
    /// The table that the service works on.
    spec fn rows(&self) -> Rows;

    /// Allocates a code for `url`, or returns the one it has. A URL that
    /// is stored always gets its code back. A new one gets a code drawn
    /// at random, unless the draw and its one retry both hit codes that
    /// are taken.
    fn shorten(&mut self, url: &str) -> (r: Result<String, ServiceError>)
        ensures
            shortened(old(self).rows(), url@, final(self).rows(), text_result(r)),
            consistent(final(self).rows()),
    ;

    /// Resolves `id` to the URL that it stands for, and fails with
    /// [`ServiceError::NotFound`] where no record has that code.
    fn get_url(&self, id: &str) -> (r: Result<String, ServiceError>)
        ensures
            text_result(r) == resolved(self.rows(), id@),
            consistent(self.rows()),
    ;

    /// Counts one visit of `id`. Where no record has that code, or the
    /// count is at its limit, nothing changes and the answer is a store
    /// failure.
    fn visit(&mut self, id: &str) -> (r: Result<(), ServiceError>)
        ensures
            final(self).rows() == counted(old(self).rows(), id@),
            unit_result(r) == visit_answer(count_outcome(old(self).rows(), id@)),
            consistent(final(self).rows()),
    ;
}

/// The shortening service over a table that it owns.
pub struct ShortenSrv {
    db: Table,
}

impl View for ShortenSrv {
    type V = Rows;

    closed spec fn view(&self) -> Rows {
        self.db@
    }
}

impl ShortenSrv {
    /// A service over the table `db`.
    pub fn new(db: Table) -> (srv: ShortenSrv)
        ensures
            srv@ == db@,
    {
        ShortenSrv { db }
    }

    /// The table that the service works on.
    pub fn table(&self) -> (db: &Table)
        ensures
            db@ == self@,
    {
        &self.db
    }

    /// Makes one write of `(code, url)` in `state` and decides the step
    /// that follows.
    pub fn attempt(&mut self, state: Attempt, url: &str, code: &str) -> (step: Step)
        ensures
            (final(self)@, step@) == attempted(old(self)@, state, url@, code@),
            consistent(final(self)@),
    {
        let outcome = self.db.insert(code, url);
        next_step(state, code, outcome)
    }

    /// Allocates a code for `url`: draws a code, writes, and on a code
    /// collision draws and writes once more.
    pub fn shorten_with_retry(&mut self, url: &str) -> (r: Result<String, ServiceError>)
        ensures
            shortened(old(self)@, url@, final(self)@, text_result(r)),
            consistent(final(self)@),
    {
        let ghost mut first: Seq<char> = Seq::empty();
        let mut state = Attempt::First;
        loop
            invariant
                self@ == old(self)@,
                state == Attempt::Retry ==> is_code(first) && attempted(
                    old(self)@,
                    Attempt::First,
                    url@,
                    first,
                ).1 == StepView::Again,
            decreases
                    (if state == Attempt::First {
                        1int
                    } else {
                        0int
                    }),
        {
            let code = generate();
            let step = self.attempt(state, url, code.as_str());
            proof {
                if state == Attempt::First {
                    lemma_allocated_is_shortened(old(self)@, url@, code@, code@);
                } else {
                    assert(written(old(self)@, first, url@) == old(self)@);
                    lemma_allocated_is_shortened(old(self)@, url@, first, code@);
                }
            }
            match step {
                Step::Done(code) => {
                    return Ok(code);
                },
                Step::Failed(e) => {
                    return Err(e);
                },
                Step::Again => {
                    proof {
                        first = code@;
                    }
                    state = Attempt::Retry;
                },
            }
        }
    }
}

impl ShortenService for ShortenSrv {
    open spec fn rows(&self) -> Rows {
        self@
    }

    fn shorten(&mut self, url: &str) -> (r: Result<String, ServiceError>) {
        self.shorten_with_retry(url)
    }

    fn get_url(&self, id: &str) -> (r: Result<String, ServiceError>) {
        lookup_result(self.db.select(id), id)
    }

    fn visit(&mut self, id: &str) -> (r: Result<(), ServiceError>) {
        visit_result(self.db.increment(id))
    }
}

} // verus!
