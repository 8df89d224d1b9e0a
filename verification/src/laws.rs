//! What holds of the service across calls, proved over the table model.
//!
//! The table is taken to answer each statement in one step, so a number
//! of callers at once is one caller after another in some order.

use crate::error::Failure;
use crate::srv::{
    allocated, attempted, nothing_counted, resolved, shortened, visit_answer, Attempt, StepView,
};
use crate::store::{
    code_for, consistent, count_outcome, counted, holds_url, Row, Rows, MAX_COUNT,
};
use vstd::prelude::*;

verus! {

/// A URL that is stored under a code is held by the table, and that
/// code is the one that stands for it.
pub proof fn lemma_code_of_url(t: Rows, code: Seq<char>)
    requires
        consistent(t),
        t.contains_key(code),
    ensures
        holds_url(t, t[code].url),
        code_for(t, t[code].url) == code,
{
    let url = t[code].url;
    let c = code_for(t, url);
    assert(t.contains_key(c) && t[c].url == url);
    assert(t[c].url == t[code].url);
}

/// A new row for a URL that the table does not hold keeps the table
/// consistent.
pub proof fn lemma_new_row_is_consistent(t: Rows, code: Seq<char>, url: Seq<char>)
    requires
        consistent(t),
        !holds_url(t, url),
    ensures
        consistent(t.insert(code, Row { url, count: 0 })),
{
    let after = t.insert(code, Row { url, count: 0 });
    assert forall|a: Seq<char>, b: Seq<char>|
        #![trigger after[a], after[b]]
        after.contains_key(a) && after.contains_key(b) && after[a].url == after[b].url implies a
        == b by {
        if a != code && b != code {
            assert(t.contains_key(a) && t.contains_key(b) && t[a].url == t[b].url);
        } else if a != code {
            assert(t.contains_key(a) && t[a].url == url);
        } else if b != code {
            assert(t.contains_key(b) && t[b].url == url);
        }
    }
}

/// Every allocation leaves a consistent table consistent.
pub proof fn law_allocation_keeps_consistency(
    t: Rows,
    url: Seq<char>,
    first: Seq<char>,
    second: Seq<char>,
)
    requires
        consistent(t),
    ensures
        consistent(allocated(t, url, first, second).0),
{
    if !holds_url(t, url) {
        lemma_new_row_is_consistent(t, first, url);
        lemma_new_row_is_consistent(t, second, url);
    }
}

/// Every visit leaves a consistent table consistent.
pub proof fn law_visit_keeps_consistency(t: Rows, code: Seq<char>)
    requires
        consistent(t),
    ensures
        consistent(counted(t, code)),
{
    let after = counted(t, code);
    if t.contains_key(code) && t[code].count < MAX_COUNT {
        assert forall|a: Seq<char>, b: Seq<char>|
            #![trigger after[a], after[b]]
            after.contains_key(a) && after.contains_key(b) && after[a].url == after[b].url implies a
            == b by {
            assert(t.contains_key(a) && t.contains_key(b) && t[a].url == t[b].url);
        }
        assert forall|c: Seq<char>| #[trigger] after.contains_key(c) implies 0 <= after[c].count
            <= MAX_COUNT by {
            assert(t.contains_key(c));
        }
    }
}

/// Shortening is idempotent: once a URL has been given a code, a second
/// request for it returns the same code and changes nothing.
pub proof fn law_shorten_twice(
    t0: Rows,
    url: Seq<char>,
    t1: Rows,
    code: Seq<char>,
    t2: Rows,
    again: Result<Seq<char>, Failure>,
)
    requires
        consistent(t0),
        shortened(t0, url, t1, Ok(code)),
        shortened(t1, url, t2, again),
    ensures
        again == Ok::<Seq<char>, Failure>(code),
        t2 == t1,
{
    law_resolve_after_shorten(t0, url, t1, code);
    if !holds_url(t0, url) {
        lemma_new_row_is_consistent(t0, code, url);
    }
    lemma_code_of_url(t1, code);
}

/// Shortening is idempotent whatever the candidate codes are: once an
/// allocation has returned a code for a URL, any further allocation for
/// that URL returns the same code and changes nothing.
pub proof fn law_allocate_twice(
    t: Rows,
    url: Seq<char>,
    first: Seq<char>,
    second: Seq<char>,
    third: Seq<char>,
    fourth: Seq<char>,
)
    requires
        consistent(t),
        allocated(t, url, first, second).1 is Ok,
    ensures
        allocated(allocated(t, url, first, second).0, url, third, fourth) == allocated(
            t,
            url,
            first,
            second,
        ),
{
    let (t1, r1) = allocated(t, url, first, second);
    let code = r1->Ok_0;
    law_allocation_keeps_consistency(t, url, first, second);
    law_resolve_after_allocate(t, url, first, second);
    lemma_code_of_url(t1, code);
}

/// A code that shortening has returned resolves to the URL that was
/// shortened.
pub proof fn law_resolve_after_shorten(t0: Rows, url: Seq<char>, t1: Rows, code: Seq<char>)
    requires
        consistent(t0),
        shortened(t0, url, t1, Ok(code)),
    ensures
        resolved(t1, code) == Ok::<Seq<char>, Failure>(url),
{
    if holds_url(t0, url) {
        let c = code_for(t0, url);
        assert(t0.contains_key(c) && t0[c].url == url);
    }
}

/// A code that an allocation has returned resolves to the URL that it
/// was allocated for, whatever the candidate codes were.
pub proof fn law_resolve_after_allocate(
    t: Rows,
    url: Seq<char>,
    first: Seq<char>,
    second: Seq<char>,
)
    requires
        consistent(t),
        allocated(t, url, first, second).1 is Ok,
    ensures
        resolved(
            allocated(t, url, first, second).0,
            allocated(t, url, first, second).1->Ok_0,
        ) == Ok::<Seq<char>, Failure>(url),
{
    if holds_url(t, url) {
        let c = code_for(t, url);
        assert(t.contains_key(c) && t[c].url == url);
    }
}

/// A code that was not in the table and that the allocation did not
/// return is not found afterwards: an allocation adds no code but the
/// one it returns.
pub proof fn law_unallocated_code_is_not_found(
    t: Rows,
    url: Seq<char>,
    first: Seq<char>,
    second: Seq<char>,
    code: Seq<char>,
)
    requires
        !t.contains_key(code),
        allocated(t, url, first, second).1 != Ok::<Seq<char>, Failure>(code),
    ensures
        resolved(allocated(t, url, first, second).0, code) == Err::<Seq<char>, Failure>(
            Failure::NotFound(code),
        ),
{
}

/// A code that was not in the table and that shortening did not return
/// is not found afterwards.
pub proof fn law_unreturned_code_is_not_found(
    t0: Rows,
    url: Seq<char>,
    t1: Rows,
    r: Result<Seq<char>, Failure>,
    code: Seq<char>,
)
    requires
        shortened(t0, url, t1, r),
        !t0.contains_key(code),
        r != Ok::<Seq<char>, Failure>(code),
    ensures
        resolved(t1, code) == Err::<Seq<char>, Failure>(Failure::NotFound(code)),
{
}

/// Two allocations for different new URLs whose first candidate is the
/// same free code: the earlier one takes that code at once; the later
/// one collides on it, retries with its second candidate, and takes
/// that. The two codes differ and each resolves to its own URL.
pub proof fn law_collision_then_retry(
    t: Rows,
    one: Seq<char>,
    other: Seq<char>,
    shared: Seq<char>,
    fresh: Seq<char>,
    unused: Seq<char>,
)
    requires
        consistent(t),
        one != other,
        !holds_url(t, one),
        !holds_url(t, other),
        !t.contains_key(shared),
        !t.contains_key(fresh),
        fresh != shared,
    ensures
        ({
            let (t1, r1) = allocated(t, one, shared, unused);
            let (t2, r2) = allocated(t1, other, shared, fresh);
            &&& r1 == Ok::<Seq<char>, Failure>(shared)
            &&& attempted(t1, Attempt::First, other, shared) == (t1, StepView::Again)
            &&& r2 == Ok::<Seq<char>, Failure>(fresh)
            &&& resolved(t2, shared) == Ok::<Seq<char>, Failure>(one)
            &&& resolved(t2, fresh) == Ok::<Seq<char>, Failure>(other)
        }),
{
    let (t1, r1) = allocated(t, one, shared, unused);
    assert(t1 == t.insert(shared, Row { url: one, count: 0 }));
    assert(!holds_url(t1, other)) by {
        if holds_url(t1, other) {
            let c = code_for(t1, other);
            assert(t1.contains_key(c) && t1[c].url == other);
            assert(t.contains_key(c) && t[c].url == other);
        }
    }
}

/// An allocation for a new URL whose two candidates are both taken
/// fails with [`Failure::RetryFailed`] and leaves the table as it was.
pub proof fn law_retry_exhausted(t: Rows, url: Seq<char>, first: Seq<char>, second: Seq<char>)
    requires
        !holds_url(t, url),
        t.contains_key(first),
        t.contains_key(second),
    ensures
        allocated(t, url, first, second) == (t, Err::<Seq<char>, Failure>(Failure::RetryFailed)),
{
}

/// The table after `n` visits of `code`, one after another.
pub open spec fn counted_times(t: Rows, code: Seq<char>, n: nat) -> Rows
    decreases n,
{
    if n == 0 {
        t
    } else {
        counted(counted_times(t, code, (n - 1) as nat), code)
    }
}

/// `n` visits of a code raise its count by exactly `n` and change
/// nothing else, and each of them is acknowledged, as long as the count
/// stays within [`MAX_COUNT`].
pub proof fn law_visits_add_up(t: Rows, code: Seq<char>, n: nat)
    requires
        t.contains_key(code),
        t[code].count + n <= MAX_COUNT,
    ensures
        counted_times(t, code, n) == t.insert(
            code,
            Row { url: t[code].url, count: t[code].count + n },
        ),
        forall|k: nat|
            k < n ==> visit_answer(count_outcome(#[trigger] counted_times(t, code, k), code))
                == Ok::<(), Failure>(()),
    decreases n,
{
    if n == 0 {
        assert(t.insert(code, Row { url: t[code].url, count: t[code].count + 0 }) =~= t);
    } else {
        let m = (n - 1) as nat;
        law_visits_add_up(t, code, m);
        let before = counted_times(t, code, m);
        assert(counted(before, code) =~= t.insert(
            code,
            Row { url: t[code].url, count: t[code].count + n },
        ));
        assert forall|k: nat| k < n implies visit_answer(
            count_outcome(#[trigger] counted_times(t, code, k), code),
        ) == Ok::<(), Failure>(()) by {
            if k == m {
            }
        }
    }
}

/// A visit of a code that is not in the table changes nothing and is
/// answered with a store failure.
pub proof fn law_visit_of_unknown_code(t: Rows, code: Seq<char>)
    requires
        !t.contains_key(code),
    ensures
        counted(t, code) == t,
        visit_answer(count_outcome(t, code)) == Err::<(), Failure>(
            Failure::DbError(nothing_counted()),
        ),
{
}

/// A visit, of whatever code and however it is answered, changes what
/// no code resolves to.
pub proof fn law_visit_keeps_urls(t: Rows, visited: Seq<char>, id: Seq<char>)
    ensures
        resolved(counted(t, visited), id) == resolved(t, id),
{
}

} // verus!
