//! What a statement did.
use vstd::prelude::*;

use crate::number::{number_as_i64, number_as_u64, number_to_i64, number_to_u64};

verus! {

/// What a statement did: the rows it changed, and the rowid of the last row
/// it inserted, when the backend reports one.
#[derive(Debug, Clone, PartialEq, Eq)]
pub struct QueryResult {
    rows_affected: u64,
    last_insert_rowid: Option<i64>,
}

/// D1's name for [`QueryResult`]: D1's `meta.changes` and `meta.last_row_id`.
pub type D1QueryResult = QueryResult;

/// Durable Object storage's name for [`QueryResult`].
pub type DoQueryResult = QueryResult;

/// `r` is a result that reports `rows` rows affected and `rowid` as the last
/// inserted rowid.
pub open spec fn reports<E>(r: Result<QueryResult, E>, rows: nat, rowid: Option<i64>) -> bool {
    r matches Ok(q) && q.spec_rows_affected() == rows && q.spec_last_insert_rowid() == rowid
}

/// The rows changed by all of `results` together.
pub open spec fn total_rows_affected(results: Seq<QueryResult>) -> nat
    decreases results.len(),
{
    if results.len() == 0 {
        0
    } else {
        total_rows_affected(results.drop_last()) + results.last().spec_rows_affected()
    }
}

/// The rowid the last of `results` that reported one reported.
pub open spec fn last_reported_rowid(results: Seq<QueryResult>) -> Option<i64>
    decreases results.len(),
{
    if results.len() == 0 {
        None
    } else {
        match results.last().spec_last_insert_rowid() {
            Some(rowid) => Some(rowid),
            None => last_reported_rowid(results.drop_last()),
        }
    }
}

/// `rowid`, unless `later` reports one of its own.
pub open spec fn rowid_after(rowid: Option<i64>, later: Option<i64>) -> Option<i64> {
    match later {
        Some(r) => Some(r),
        None => rowid,
    }
}

impl QueryResult {
    /// What D1 reports a statement did, from its `meta.changes` and
    /// `meta.last_row_id`: each a JavaScript number, by the bits of its
    /// encoding, when `meta` has it. Each is converted as `as` converts a
    /// number; no changes reported is 0.
    pub fn from_meta(changes: Option<u64>, last_row_id: Option<u64>) -> (r: Self)
        ensures
            r.spec_rows_affected() == match changes {
                Some(bits) => number_as_u64(bits),
                None => 0,
            },
            r.spec_last_insert_rowid() == match last_row_id {
                Some(bits) => Some(number_as_i64(bits)),
                None => None::<i64>,
            },
    {
        let rows_affected = match changes {
            Some(bits) => number_to_u64(bits),
            None => 0,
        };
        let last_insert_rowid = match last_row_id {
            Some(bits) => Some(number_to_i64(bits)),
            None => None,
        };
        QueryResult::new(rows_affected, last_insert_rowid)
    }

    /// Rows the statement inserted, updated or deleted.
    pub closed spec fn spec_rows_affected(&self) -> nat {
        self.rows_affected as nat
    }

    /// The rowid of the last row inserted, when the backend reports one.
    pub closed spec fn spec_last_insert_rowid(&self) -> Option<i64> {
        self.last_insert_rowid
    }

    /// A result reporting `rows_affected` and, when the backend knows one,
    /// `last_insert_rowid`.
    pub fn new(rows_affected: u64, last_insert_rowid: Option<i64>) -> (r: Self)
        ensures
            r.spec_rows_affected() == rows_affected,
            r.spec_last_insert_rowid() == last_insert_rowid,
    {
        QueryResult { rows_affected, last_insert_rowid }
    }

    /// Rows the statement inserted, updated or deleted.
    pub fn rows_affected(&self) -> (r: u64)
        ensures
            r == self.spec_rows_affected(),
    {
        self.rows_affected
    }

    /// The rowid of the last row inserted, when the backend reports one.
    pub fn last_insert_rowid(&self) -> (r: Option<i64>)
        ensures
            r == self.spec_last_insert_rowid(),
    {
        self.last_insert_rowid
    }

    /// Adds up what several statements did: the rows they changed, summed,
    /// and the rowid of the last one that reported one -- a trailing `SELECT`
    /// reporting none does not erase the `INSERT` before it.
    pub fn extend(&mut self, results: Vec<QueryResult>)
        requires
            old(self).spec_rows_affected() + total_rows_affected(results@) <= u64::MAX,
        ensures
            final(self).spec_rows_affected() == old(self).spec_rows_affected()
                + total_rows_affected(results@),
            final(self).spec_last_insert_rowid() == rowid_after(
                old(self).spec_last_insert_rowid(),
                last_reported_rowid(results@),
            ),
    {
        let ghost start = *self;
        let mut i: usize = 0;
        while i < results.len()
            invariant
                0 <= i <= results.len(),
                start.spec_rows_affected() + total_rows_affected(results@) <= u64::MAX,
                self.spec_rows_affected() == start.spec_rows_affected() + total_rows_affected(
                    results@.take(i as int),
                ),
                self.spec_last_insert_rowid() == rowid_after(
                    start.spec_last_insert_rowid(),
                    last_reported_rowid(results@.take(i as int)),
                ),
            decreases results.len() - i,
        {
            proof {
                assert(results@.take(i + 1).drop_last() =~= results@.take(i as int));
                lemma_total_prefix(results@, i as int + 1);
            }
            let result = &results[i];
            self.rows_affected = self.rows_affected + result.rows_affected;
            self.last_insert_rowid = match result.last_insert_rowid {
                Some(rowid) => Some(rowid),
                None => self.last_insert_rowid,
            };
            i = i + 1;
        }
        assert(results@.take(i as int) =~= results@);
    }
}

impl Default for QueryResult {
    /// Nothing changed, and no rowid.
    fn default() -> (r: Self)
        ensures
            r.spec_rows_affected() == 0,
            r.spec_last_insert_rowid() is None,
    {
        QueryResult { rows_affected: 0, last_insert_rowid: None }
    }
}

/// A prefix changed no more rows than the whole.
proof fn lemma_total_prefix(results: Seq<QueryResult>, n: int)
    requires
        0 <= n <= results.len(),
    ensures
        total_rows_affected(results.take(n)) <= total_rows_affected(results),
    decreases results.len(),
{
    if n < results.len() {
        assert(results.drop_last().take(n) =~= results.take(n));
        lemma_total_prefix(results.drop_last(), n);
    } else {
        assert(results.take(n) =~= results);
    }
}

/// Totals add up over a concatenation.
pub proof fn lemma_total_rows_affected_concat(a: Seq<QueryResult>, b: Seq<QueryResult>)
    ensures
        total_rows_affected(a + b) == total_rows_affected(a) + total_rows_affected(b),
    decreases b.len(),
{
    if b.len() == 0 {
        assert(a + b =~= a);
    } else {
        assert((a + b).drop_last() =~= a + b.drop_last());
        lemma_total_rows_affected_concat(a, b.drop_last());
    }
}

/// The last rowid reported over a concatenation is the second part's, if it
/// reports one, else the first part's.
pub proof fn lemma_last_reported_rowid_concat(a: Seq<QueryResult>, b: Seq<QueryResult>)
    ensures
        last_reported_rowid(a + b) == rowid_after(last_reported_rowid(a), last_reported_rowid(b)),
    decreases b.len(),
{
    if b.len() == 0 {
        assert(a + b =~= a);
    } else {
        assert((a + b).drop_last() =~= a + b.drop_last());
        lemma_last_reported_rowid_concat(a, b.drop_last());
    }
}

/// Extending by two batches one after the other is extending by both at
/// once: the rows changed add up the same, and the rowid kept is the same.
pub proof fn lemma_extend_twice(start: QueryResult, a: Seq<QueryResult>, b: Seq<QueryResult>)
    ensures
        start.spec_rows_affected() + total_rows_affected(a) + total_rows_affected(b)
            == start.spec_rows_affected() + total_rows_affected(a + b),
        rowid_after(
            rowid_after(start.spec_last_insert_rowid(), last_reported_rowid(a)),
            last_reported_rowid(b),
        ) == rowid_after(start.spec_last_insert_rowid(), last_reported_rowid(a + b)),
{
    lemma_total_rows_affected_concat(a, b);
    lemma_last_reported_rowid_concat(a, b);
}

/// The answer to a batch of `statements` statements that needs no call: a
/// batch of none has nothing to report -- and D1 rejects an empty batch
/// outright -- so its results, none, come without a round trip. Any other
/// batch has to be run.
pub fn answer_without_call<T>(statements: usize) -> (r: Option<Vec<T>>)
    ensures
        r is Some <==> statements == 0,
        r matches Some(results) ==> results@.len() == 0,
{
    if statements == 0 {
        Some(Vec::new())
    } else {
        None
    }
}

/// The rowid that extending a result by `results` keeps is the one the
/// latest of them to report a rowid reported, whatever its value -- an
/// `INSERT` into one table then another keeps the second's rowid -- and the
/// result's own when none of them reports one.
pub proof fn lemma_extend_keeps_the_latest_rowid(start: Option<i64>, results: Seq<QueryResult>)
    ensures
        (forall|i: int| 0 <= i < results.len() ==> (#[trigger] results[i]).spec_last_insert_rowid() is None)
            ==> rowid_after(start, last_reported_rowid(results)) == start,
        forall|k: int|
            0 <= k < results.len() && (#[trigger] results[k]).spec_last_insert_rowid() is Some && (
            forall|j: int| k < j < results.len() ==> (#[trigger] results[j]).spec_last_insert_rowid() is None)
                ==> rowid_after(start, last_reported_rowid(results))
                == results[k].spec_last_insert_rowid(),
    decreases results.len(),
{
    if results.len() > 0 {
        let front = results.drop_last();
        lemma_extend_keeps_the_latest_rowid(start, front);
        assert forall|i: int| 0 <= i < front.len() implies front[i] == results[i] by {}
        let n = results.len() - 1;
        assert forall|k: int|
            0 <= k < results.len() && (#[trigger] results[k]).spec_last_insert_rowid() is Some && (
            forall|j: int| k < j < results.len() ==> (#[trigger] results[j]).spec_last_insert_rowid() is None)
                implies rowid_after(start, last_reported_rowid(results))
                == results[k].spec_last_insert_rowid() by {
            if k < n {
                assert(results[n].spec_last_insert_rowid() is None);
                assert(front[k] == results[k]);
                assert forall|j: int| k < j < front.len() implies (#[trigger] front[j]).spec_last_insert_rowid() is None by {
                    assert(front[j] == results[j]);
                }
            }
        }
        if forall|i: int| 0 <= i < results.len() ==> (#[trigger] results[i]).spec_last_insert_rowid() is None {
            assert(results[n].spec_last_insert_rowid() is None);
            assert forall|i: int| 0 <= i < front.len() implies (#[trigger] front[i]).spec_last_insert_rowid() is None by {
                assert(front[i] == results[i]);
            }
        }
    }
}

} // verus!
