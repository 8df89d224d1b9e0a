//! The record table: its mathematical model, the three statements that
//! the service issues against it, and a table held in memory that
//! answers them.
//!
//! The model is a map from code to row. The statements are given as
//! functions on that map, so that what the service does can be stated
//! without reference to any particular store.

use crate::text::{join3, same_text};
use vstd::prelude::*;

verus! {

/// What the table holds for one code.
pub struct Row {
    /// The URL that the code stands for.
    pub url: Seq<char>,
    /// How often the code has been visited.
    pub count: int,
}

/// The table as a mathematical value: each code that is present, with
/// its row.
pub type Rows = Map<Seq<char>, Row>;

/// The largest visit count that a row can hold.
pub const MAX_COUNT: i32 = i32::MAX;

/// The constraints that the table keeps: no URL is stored under two
/// codes, and every visit count lies between zero and [`MAX_COUNT`].
/// (That no code is stored twice is built into the map.)
pub open spec fn consistent(t: Rows) -> bool {
    &&& forall|a: Seq<char>, b: Seq<char>|
        #![trigger t[a], t[b]]
        t.contains_key(a) && t.contains_key(b) && t[a].url == t[b].url ==> a == b
    &&& forall|c: Seq<char>| #[trigger] t.contains_key(c) ==> 0 <= t[c].count <= MAX_COUNT
}

/// Whether some code stands for `url`.
pub open spec fn holds_url(t: Rows, url: Seq<char>) -> bool {
    exists|c: Seq<char>| #[trigger] t.contains_key(c) && t[c].url == url
}

/// The code that stands for `url`, where [`holds_url`] says there is one.
/// In a [`consistent`] table there is no other.
pub open spec fn code_for(t: Rows, url: Seq<char>) -> Seq<char> {
    choose|c: Seq<char>| #[trigger] t.contains_key(c) && t[c].url == url
}

/// One row of the table as the store hands it out.
#[derive(Debug, Clone, PartialEq, Eq)]
pub struct Record {
    /// The short code, the table's primary key.
    pub id: String,
    /// The URL that the code stands for.
    pub url: String,
    /// How often the code has been visited.
    pub count: i32,
}

/// The mathematical value of a [`Record`].
pub struct RecordView {
    pub id: Seq<char>,
    pub url: Seq<char>,
    pub count: int,
}

impl View for Record {
    type V = RecordView;

    open spec fn view(&self) -> RecordView {
        RecordView { id: self.id@, url: self.url@, count: self.count as int }
    }
}

/// The record that `t` holds under `code`.
pub open spec fn record_at(t: Rows, code: Seq<char>) -> RecordView {
    RecordView { id: code, url: t[code].url, count: t[code].count }
}

/// A failure of the store, in a shape that does not depend on the store
/// that reported it.
#[derive(Debug, Clone, PartialEq, Eq)]
pub enum StoreError {
    /// The store rejected the statement. `message` is what it said;
    /// `detail` is the further line that it may add, which for a violated
    /// key names the key and its value.
    Database { message: String, detail: Option<String> },
    /// Any other failure: the connection, the protocol, the driver.
    Other,
}

/// The mathematical value of a [`StoreError`].
pub enum StoreFault {
    Database { message: Seq<char>, detail: Option<Seq<char>> },
    Other,
}

impl View for StoreError {
    type V = StoreFault;

    open spec fn view(&self) -> StoreFault {
        match self {
            StoreError::Database { message, detail } => StoreFault::Database {
                message: message@,
                detail: match detail {
                    Some(d) => Some(d@),
                    None => None,
                },
            },
            StoreError::Other => StoreFault::Other,
        }
    }
}

/// The detail line with which the store reports that `code` is already
/// taken as a primary key.
pub open spec fn taken_detail(code: Seq<char>) -> Seq<char> {
    "Key (id)=("@ + code + ") already exists."@
}

/// The failure with which the store refuses a second row under `code`.
pub open spec fn code_taken(code: Seq<char>) -> StoreFault {
    StoreFault::Database {
        message: "duplicate key value violates unique constraint \"record_pkey\""@,
        detail: Some(taken_detail(code)),
    }
}

/// The failure with which the store refuses to count past [`MAX_COUNT`].
pub open spec fn count_out_of_range() -> StoreFault {
    StoreFault::Database { message: "integer out of range"@, detail: None }
}

/// The table after the write of `(code, url)`: a new row with a count of
/// zero where neither the URL nor the code is present, and no change
/// otherwise.
pub open spec fn written(t: Rows, code: Seq<char>, url: Seq<char>) -> Rows {
    if holds_url(t, url) || t.contains_key(code) {
        t
    } else {
        t.insert(code, Row { url, count: 0 })
    }
}

/// What the write of `(code, url)` returns. A URL that is present wins:
/// its row comes back, whatever `code` is. Otherwise a code that is
/// present is refused, and a code that is not gets the new row.
pub open spec fn write_outcome(t: Rows, code: Seq<char>, url: Seq<char>) -> Result<
    RecordView,
    StoreFault,
> {
    if holds_url(t, url) {
        Ok(record_at(t, code_for(t, url)))
    } else if t.contains_key(code) {
        Err(code_taken(code))
    } else {
        Ok(RecordView { id: code, url, count: 0 })
    }
}

/// Whether the count under `code` can be raised: the code is present
/// and its count is below [`MAX_COUNT`].
pub open spec fn countable(t: Rows, code: Seq<char>) -> bool {
    t.contains_key(code) && t[code].count < MAX_COUNT
}

/// The table after one visit of `code`: its count raised by one where
/// that can be done, and no change otherwise.
pub open spec fn counted(t: Rows, code: Seq<char>) -> Rows {
    if countable(t, code) {
        t.insert(code, Row { url: t[code].url, count: t[code].count + 1 })
    } else {
        t
    }
}

/// What counting a visit of `code` returns: the number of rows updated,
/// which is zero for a code that is not present, or the store's refusal
/// where the count is at its limit.
pub open spec fn count_outcome(t: Rows, code: Seq<char>) -> Result<u64, StoreFault> {
    if !t.contains_key(code) {
        Ok(0)
    } else if t[code].count < MAX_COUNT {
        Ok(1)
    } else {
        Err(count_out_of_range())
    }
}

/// The view of a store's answer that carries a record.
pub open spec fn record_outcome(r: Result<Record, StoreError>) -> Result<RecordView, StoreFault> {
    match r {
        Ok(record) => Ok(record@),
        Err(e) => Err(e@),
    }
}

/// The view of a store's answer that carries a number of rows.
pub open spec fn rows_outcome(r: Result<u64, StoreError>) -> Result<u64, StoreFault> {
    match r {
        Ok(n) => Ok(n),
        Err(e) => Err(e@),
    }
}

/// The view of an optional record.
pub open spec fn record_of(r: Option<Record>) -> Option<RecordView> {
    match r {
        Some(record) => Some(record@),
        None => None,
    }
}

/// The detail line with which the store reports that `code` is already
/// taken as a primary key.
pub fn taken_detail_text(code: &str) -> (detail: String)
    ensures
        detail@ == taken_detail(code@),
{
    join3("Key (id)=(", code, ") already exists.")
}

spec fn has_id(rows: Seq<Record>, id: Seq<char>) -> bool {
    exists|i: int| 0 <= i < rows.len() && (#[trigger] rows[i]).id@ == id
}

spec fn index_of(rows: Seq<Record>, id: Seq<char>) -> int {
    choose|i: int| 0 <= i < rows.len() && (#[trigger] rows[i]).id@ == id
}

spec fn row_of(record: Record) -> Row {
    Row { url: record.url@, count: record.count as int }
}

spec fn rows_view(rows: Seq<Record>) -> Rows {
    Map::new(|id: Seq<char>| has_id(rows, id), |id: Seq<char>| row_of(rows[index_of(rows, id)]))
}

spec fn rows_inv(rows: Seq<Record>) -> bool {
    &&& forall|i: int, j: int|
        0 <= i < j < rows.len() ==> (#[trigger] rows[i]).id@ != (#[trigger] rows[j]).id@
    &&& forall|i: int, j: int|
        0 <= i < j < rows.len() ==> (#[trigger] rows[i]).url@ != (#[trigger] rows[j]).url@
    &&& forall|i: int| 0 <= i < rows.len() ==> 0 <= (#[trigger] rows[i]).count
}

proof fn lemma_row_at(rows: Seq<Record>, i: int)
    requires
        rows_inv(rows),
        0 <= i < rows.len(),
    ensures
        rows_view(rows).contains_key(rows[i].id@),
        rows_view(rows)[rows[i].id@] == row_of(rows[i]),
        index_of(rows, rows[i].id@) == i,
{
    let id = rows[i].id@;
    assert(has_id(rows, id));
    let k = index_of(rows, id);
    assert(0 <= k < rows.len() && rows[k].id@ == id);
    if k < i {
        assert(rows[k].id@ != rows[i].id@);
    } else if i < k {
        assert(rows[i].id@ != rows[k].id@);
    }
}

proof fn lemma_key_has_index(rows: Seq<Record>, id: Seq<char>)
    requires
        rows_view(rows).contains_key(id),
    ensures
        0 <= index_of(rows, id) < rows.len(),
        rows[index_of(rows, id)].id@ == id,
        rows_view(rows)[id] == row_of(rows[index_of(rows, id)]),
{
    assert(has_id(rows, id));
}

proof fn lemma_consistent(rows: Seq<Record>)
    requires
        rows_inv(rows),
    ensures
        consistent(rows_view(rows)),
{
    let t = rows_view(rows);
    assert forall|a: Seq<char>, b: Seq<char>|
        #![trigger t[a], t[b]]
        t.contains_key(a) && t.contains_key(b) && t[a].url == t[b].url implies a == b by {
        lemma_key_has_index(rows, a);
        lemma_key_has_index(rows, b);
        let i = index_of(rows, a);
        let j = index_of(rows, b);
        if i < j {
            assert(rows[i].url@ != rows[j].url@);
        } else if j < i {
            assert(rows[j].url@ != rows[i].url@);
        }
    }
    assert forall|c: Seq<char>| #[trigger] t.contains_key(c) implies 0 <= t[c].count
        <= MAX_COUNT by {
        lemma_key_has_index(rows, c);
        let i = index_of(rows, c);
        assert(0 <= rows[i].count);
    }
}

proof fn lemma_url_at(rows: Seq<Record>, i: int)
    requires
        rows_inv(rows),
        0 <= i < rows.len(),
    ensures
        holds_url(rows_view(rows), rows[i].url@),
        code_for(rows_view(rows), rows[i].url@) == rows[i].id@,
{
    let t = rows_view(rows);
    let url = rows[i].url@;
    lemma_row_at(rows, i);
    lemma_consistent(rows);
    assert(t.contains_key(rows[i].id@) && t[rows[i].id@].url == url);
    let c = code_for(t, url);
    assert(t.contains_key(c) && t[c].url == url);
    assert(t[c].url == t[rows[i].id@].url);
}

proof fn lemma_no_url(rows: Seq<Record>, url: Seq<char>)
    requires
        forall|i: int| 0 <= i < rows.len() ==> (#[trigger] rows[i]).url@ != url,
    ensures
        !holds_url(rows_view(rows), url),
{
    let t = rows_view(rows);
    if holds_url(t, url) {
        let c = code_for(t, url);
        assert(t.contains_key(c) && t[c].url == url);
        lemma_key_has_index(rows, c);
        assert(rows[index_of(rows, c)].url@ == url);
    }
}

proof fn lemma_no_id(rows: Seq<Record>, id: Seq<char>)
    requires
        forall|i: int| 0 <= i < rows.len() ==> (#[trigger] rows[i]).id@ != id,
    ensures
        !rows_view(rows).contains_key(id),
{
}

proof fn lemma_pushed(rows: Seq<Record>, record: Record)
    requires
        rows_inv(rows),
        !rows_view(rows).contains_key(record.id@),
        !holds_url(rows_view(rows), record.url@),
        0 <= record.count,
    ensures
        rows_inv(rows.push(record)),
        rows_view(rows.push(record)) == rows_view(rows).insert(record.id@, row_of(record)),
{
    let after = rows.push(record);
    let n = rows.len() as int;
    assert forall|i: int| 0 <= i < n implies (#[trigger] after[i]).id@ != record.id@ && after[i].url@
        != record.url@ by {
        lemma_row_at(rows, i);
        lemma_url_at(rows, i);
    }
    assert(rows_inv(after));
    let lhs = rows_view(after);
    let rhs = rows_view(rows).insert(record.id@, row_of(record));
    assert forall|id: Seq<char>| lhs.contains_key(id) <==> rhs.contains_key(id) by {
        if lhs.contains_key(id) {
            lemma_key_has_index(after, id);
            let k = index_of(after, id);
            if k < n {
                assert(rows[k].id@ == id);
                assert(has_id(rows, id));
            }
        }
        if rhs.contains_key(id) {
            if id == record.id@ {
                assert(after[n].id@ == id);
                assert(has_id(after, id));
            } else {
                lemma_key_has_index(rows, id);
                let k = index_of(rows, id);
                assert(after[k].id@ == id);
                assert(has_id(after, id));
            }
        }
    }
    assert forall|id: Seq<char>| lhs.contains_key(id) implies lhs[id] == rhs[id] by {
        lemma_key_has_index(after, id);
        let k = index_of(after, id);
        if k < n {
            lemma_row_at(rows, k);
        }
    }
    assert(lhs =~= rhs);
}

proof fn lemma_updated(rows: Seq<Record>, i: int, record: Record)
    requires
        rows_inv(rows),
        0 <= i < rows.len(),
        record.id@ == rows[i].id@,
        record.url@ == rows[i].url@,
        0 <= record.count,
    ensures
        rows_inv(rows.update(i, record)),
        rows_view(rows.update(i, record)) == rows_view(rows).insert(record.id@, row_of(record)),
{
    let after = rows.update(i, record);
    assert(rows_inv(after)) by {
        assert forall|a: int, b: int| 0 <= a < b < after.len() implies (#[trigger] after[a]).id@ != (
        #[trigger] after[b]).id@ by {
            assert(rows[a].id@ != rows[b].id@);
        }
        assert forall|a: int, b: int| 0 <= a < b < after.len() implies (#[trigger] after[a]).url@
            != (#[trigger] after[b]).url@ by {
            assert(rows[a].url@ != rows[b].url@);
        }
        assert forall|a: int| 0 <= a < after.len() implies 0 <= (#[trigger] after[a]).count by {
            if a != i {
                assert(0 <= rows[a].count);
            }
        }
    }
    let lhs = rows_view(after);
    let rhs = rows_view(rows).insert(record.id@, row_of(record));
    assert forall|id: Seq<char>| lhs.contains_key(id) <==> rhs.contains_key(id) by {
        if lhs.contains_key(id) {
            lemma_key_has_index(after, id);
            let k = index_of(after, id);
            assert(rows[k].id@ == id);
            assert(has_id(rows, id));
        }
        if rhs.contains_key(id) {
            if id == record.id@ {
                assert(after[i].id@ == id);
                assert(has_id(after, id));
            } else {
                lemma_key_has_index(rows, id);
                let k = index_of(rows, id);
                assert(after[k].id@ == id);
                assert(has_id(after, id));
            }
        }
    }
    assert forall|id: Seq<char>| lhs.contains_key(id) implies lhs[id] == rhs[id] by {
        lemma_key_has_index(after, id);
        let k = index_of(after, id);
        lemma_row_at(after, k);
        if k != i {
            lemma_row_at(rows, k);
        }
    }
    assert(lhs =~= rhs);
}

/// A record table held in memory. It answers the three statements as
/// the model says a store does.
pub struct Table {
    rows: Vec<Record>,
}

impl View for Table {
    type V = Rows;

    closed spec fn view(&self) -> Rows {
        rows_view(self.rows@)
    }
}

impl Table {
    #[verifier::type_invariant]
    spec fn inv(&self) -> bool {
        rows_inv(self.rows@)
    }

    /// A table without rows.
    pub fn new() -> (table: Table)
        ensures
            table@ == Map::<Seq<char>, Row>::empty(),
            consistent(table@),
    {
        let table = Table { rows: Vec::new() };
        assert(table@ =~= Map::<Seq<char>, Row>::empty());
        table
    }

    fn position_of_id(&self, id: &str) -> (at: Option<usize>)
        ensures
            match at {
                Some(i) => i < self.rows.len() && self.rows[i as int].id@ == id@,
                None => forall|i: int| 0 <= i < self.rows.len() ==> (#[trigger] self.rows[i]).id@ != id@,
            },
    {
        let mut i: usize = 0;
        while i < self.rows.len()
            invariant
                i <= self.rows.len(),
                forall|k: int| 0 <= k < i ==> (#[trigger] self.rows[k]).id@ != id@,
            decreases self.rows.len() - i,
        {
            if same_text(self.rows[i].id.as_str(), id) {
                return Some(i);
            }
            i += 1;
        }
        None
    }

    fn position_of_url(&self, url: &str) -> (at: Option<usize>)
        ensures
            match at {
                Some(i) => i < self.rows.len() && self.rows[i as int].url@ == url@,
                None => forall|i: int| 0 <= i < self.rows.len() ==> (#[trigger] self.rows[i]).url@ != url@,
            },
    {
        let mut i: usize = 0;
        while i < self.rows.len()
            invariant
                i <= self.rows.len(),
                forall|k: int| 0 <= k < i ==> (#[trigger] self.rows[k]).url@ != url@,
            decreases self.rows.len() - i,
        {
            if same_text(self.rows[i].url.as_str(), url) {
                return Some(i);
            }
            i += 1;
        }
        None
    }

    fn record(&self, i: usize) -> (record: Record)
        requires
            i < self.rows.len(),
        ensures
            record@ == self.rows[i as int]@,
    {
        let row = &self.rows[i];
        Record { id: row.id.clone(), url: row.url.clone(), count: row.count }
    }

    /// The write: a row `(id, url, 0)` goes in, unless the URL is already
    /// there, in which case its row comes back and nothing changes.
    /// An `id` that is taken by another URL is refused with the failure
    /// [`code_taken`], and nothing changes.
    pub fn insert(&mut self, id: &str, url: &str) -> (outcome: Result<Record, StoreError>)
        ensures
            final(self)@ == written(old(self)@, id@, url@),
            record_outcome(outcome) == write_outcome(old(self)@, id@, url@),
            consistent(final(self)@),
    {
        proof {
            use_type_invariant(&*self);
            lemma_consistent(self.rows@);
        }
        match self.position_of_url(url) {
            Some(i) => {
                proof {
                    lemma_url_at(self.rows@, i as int);
                    lemma_row_at(self.rows@, i as int);
                }
                Ok(self.record(i))
            },
            None => {
                proof {
                    lemma_no_url(self.rows@, url@);
                }
                match self.position_of_id(id) {
                    Some(i) => {
                        proof {
                            lemma_row_at(self.rows@, i as int);
                        }
                        Err(
                            StoreError::Database {
                                message: String::from_str(
                                    "duplicate key value violates unique constraint \"record_pkey\"",
                                ),
                                detail: Some(taken_detail_text(id)),
                            },
                        )
                    },
                    None => {
                        proof {
                            lemma_no_id(self.rows@, id@);
                        }
                        let record = Record {
                            id: String::from_str(id),
                            url: String::from_str(url),
                            count: 0,
                        };
                        let copy = Record {
                            id: String::from_str(id),
                            url: String::from_str(url),
                            count: 0,
                        };
                        proof {
                            lemma_pushed(self.rows@, record);
                        }
                        let mut rows: Vec<Record> = Vec::new();
                        core::mem::swap(&mut self.rows, &mut rows);
                        rows.push(record);
                        self.rows = rows;
                        proof {
                            lemma_consistent(self.rows@);
                        }
                        Ok(copy)
                    },
                }
            },
        }
    }

    /// The lookup: the row under `id`, if there is one.
    pub fn select(&self, id: &str) -> (found: Option<Record>)
        ensures
            record_of(found) == if self@.contains_key(id@) {
                Some(record_at(self@, id@))
            } else {
                None
            },
            consistent(self@),
    {
        proof {
            use_type_invariant(self);
            lemma_consistent(self.rows@);
        }
        match self.position_of_id(id) {
            Some(i) => {
                proof {
                    lemma_row_at(self.rows@, i as int);
                }
                Some(self.record(i))
            },
            None => {
                proof {
                    lemma_no_id(self.rows@, id@);
                }
                None
            },
        }
    }

    /// The visit: the count under `id` goes up by one. Returns the number
    /// of rows updated, which is zero where `id` is not present. A count
    /// at [`MAX_COUNT`] is refused with the failure
    /// [`count_out_of_range`], and nothing changes.
    pub fn increment(&mut self, id: &str) -> (outcome: Result<u64, StoreError>)
        ensures
            final(self)@ == counted(old(self)@, id@),
            rows_outcome(outcome) == count_outcome(old(self)@, id@),
            consistent(final(self)@),
    {
        proof {
            use_type_invariant(&*self);
            lemma_consistent(self.rows@);
        }
        match self.position_of_id(id) {
            Some(i) => {
                proof {
                    lemma_row_at(self.rows@, i as int);
                }
                let row = &self.rows[i];
                if row.count < MAX_COUNT {
                    let raised = Record {
                        id: row.id.clone(),
                        url: row.url.clone(),
                        count: row.count + 1,
                    };
                    proof {
                        lemma_updated(self.rows@, i as int, raised);
                    }
                    let mut rows: Vec<Record> = Vec::new();
                    core::mem::swap(&mut self.rows, &mut rows);
                    rows.set(i, raised);
                    self.rows = rows;
                    proof {
                        lemma_consistent(self.rows@);
                    }
                    Ok(1)
                } else {
                    Err(
                        StoreError::Database {
                            message: String::from_str("integer out of range"),
                            detail: None,
                        },
                    )
                }
            },
            None => {
                proof {
                    lemma_no_id(self.rows@, id@);
                }
                Ok(0)
            },
        }
    }
}

} // verus!
