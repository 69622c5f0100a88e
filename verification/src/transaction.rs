//! Transactions on the two backends: neither holds one open across calls,
//! so sqlx's `begin()` is refused on both, and Durable Object storage runs a
//! transaction as a callback instead -- what that resolves to is decided
//! here.
use vstd::prelude::*;

use crate::error::{Error, ProtocolFailure, Unsupported};

verus! {

/// Why a callback transaction failed: the callback's own error, or the
/// storage's.
#[derive(Debug)]
pub enum TransactionError<E> {
    Callback(E),
    Storage(Error),
}

/// What a callback transaction resolves to, from whether storage committed
/// it and what the callback returned, if it ran.
///
/// The callback's error comes first, as it returned it: it is why the
/// transaction rolled back. Otherwise its value, if storage committed; else
/// the storage's failure.
pub fn transaction_outcome<T, E>(committed: Result<(), String>, outcome: Option<Result<T, E>>) -> (r:
    Result<T, TransactionError<E>>)
    ensures
        match (committed, outcome) {
            (_, Some(Err(e))) => r matches Err(TransactionError::Callback(x)) && x == e,
            (Ok(()), Some(Ok(v))) => r matches Ok(x) && x == v,
            (Err(why), _) => r matches Err(TransactionError::Storage(x)) && x == Error::Protocol(
                ProtocolFailure::TransactionFailed(why),
            ),
            (Ok(()), None) => r matches Err(TransactionError::Storage(x)) && x == Error::Protocol(
                ProtocolFailure::CallbackNeverRan,
            ),
        },
{
    match (committed, outcome) {
        (_, Some(Err(e))) => Err(TransactionError::Callback(e)),
        (Ok(()), Some(Ok(v))) => Ok(v),
        (Err(why), _) => Err(
            TransactionError::Storage(Error::Protocol(ProtocolFailure::TransactionFailed(why))),
        ),
        (Ok(()), None) => Err(
            TransactionError::Storage(Error::Protocol(ProtocolFailure::CallbackNeverRan)),
        ),
    }
}

/// sqlx's `begin()`, `commit()` and `rollback()` for Durable Object storage.
///
/// `sql.exec` rejects `BEGIN` and `SAVEPOINT`, so `begin()` fails and no
/// transaction is ever open on a connection: the atomic forms are the
/// transaction callback and the batch.
#[derive(Debug)]
pub struct DoTransactionManager;

impl DoTransactionManager {
    /// Always refused: with a custom `BEGIN` statement for what it is, and
    /// otherwise because storage runs no `BEGIN` at all.
    pub fn begin(has_statement: bool) -> (r: Result<(), Error>)
        ensures
            has_statement ==> r == Err::<(), Error>(Error::Unsupported(Unsupported::CustomBegin)),
            !has_statement ==> r == Err::<(), Error>(Error::Unsupported(Unsupported::DoBegin)),
    {
        if has_statement {
            Err(Error::Unsupported(Unsupported::CustomBegin))
        } else {
            Err(Error::Unsupported(Unsupported::DoBegin))
        }
    }

    /// Always refused: there is never an open transaction to commit.
    pub fn commit() -> (r: Result<(), Error>)
        ensures
            r == Err::<(), Error>(Error::Unsupported(Unsupported::NothingToCommit)),
    {
        Err(Error::Unsupported(Unsupported::NothingToCommit))
    }

    /// There is never an open transaction, so there is nothing to roll back:
    /// it succeeds.
    pub fn rollback() -> (r: Result<(), Error>)
        ensures
            r is Ok,
    {
        Ok(())
    }

    /// There is never an open transaction.
    pub fn get_transaction_depth() -> (r: usize)
        ensures
            r == 0,
    {
        0
    }
}

/// D1's transaction manager: it refuses every transaction.
///
/// D1 does not hold a transaction open across calls, so `BEGIN` cannot be
/// followed by anything but its own statement. Buffering writes until
/// `commit` would look like a transaction and not be one -- reads inside it
/// would see the database as it was before -- which is worse than an error.
/// So `begin()` fails, and the atomic multi-statement case goes through a
/// batch.
#[derive(Debug)]
pub struct D1TransactionManager;

impl D1TransactionManager {
    /// Always refused.
    pub fn begin() -> (r: Result<(), Error>)
        ensures
            r == Err::<(), Error>(Error::Unsupported(Unsupported::D1Transactions)),
    {
        Err(Error::Unsupported(Unsupported::D1Transactions))
    }

    /// Always refused: `begin` never succeeds, so there is never a
    /// transaction to end. It still answers rather than panic.
    pub fn commit() -> (r: Result<(), Error>)
        ensures
            r == Err::<(), Error>(Error::Unsupported(Unsupported::D1Transactions)),
    {
        Err(Error::Unsupported(Unsupported::D1Transactions))
    }

    /// Always refused, as [`commit`](Self::commit) is.
    pub fn rollback() -> (r: Result<(), Error>)
        ensures
            r == Err::<(), Error>(Error::Unsupported(Unsupported::D1Transactions)),
    {
        Err(Error::Unsupported(Unsupported::D1Transactions))
    }

    /// There is never a transaction to roll back.
    pub fn get_transaction_depth() -> (r: usize)
        ensures
            r == 0,
    {
        0
    }
}

} // verus!
