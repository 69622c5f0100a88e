use sqlx_cloudflare::error::{Error, ProtocolFailure, Unsupported};
use sqlx_cloudflare::transaction::{
    transaction_outcome, D1TransactionManager, DoTransactionManager, TransactionError,
};

#[test]
fn begin_fails_on_durable_object_storage() {
    assert_eq!(
        DoTransactionManager::begin(false),
        Err(Error::Unsupported(Unsupported::DoBegin))
    );
    assert_eq!(
        DoTransactionManager::begin(true),
        Err(Error::Unsupported(Unsupported::CustomBegin))
    );
    assert_eq!(
        DoTransactionManager::commit(),
        Err(Error::Unsupported(Unsupported::NothingToCommit))
    );
    assert_eq!(DoTransactionManager::rollback(), Ok(()));
    assert_eq!(DoTransactionManager::get_transaction_depth(), 0);
}

#[test]
fn the_callback_error_comes_first() {
    let r: Result<i32, TransactionError<&str>> =
        transaction_outcome(Err("storage".into()), Some(Err("callback")));
    assert!(matches!(r, Err(TransactionError::Callback("callback"))));

    let r: Result<i32, TransactionError<&str>> = transaction_outcome(Ok(()), Some(Ok(5)));
    assert!(matches!(r, Ok(5)));

    let r: Result<i32, TransactionError<&str>> = transaction_outcome(Err("storage".into()), Some(Ok(5)));
    match r {
        Err(TransactionError::Storage(e)) => assert_eq!(
            e,
            Error::Protocol(ProtocolFailure::TransactionFailed("storage".into()))
        ),
        other => panic!("{other:?}"),
    }

    let r: Result<i32, TransactionError<&str>> = transaction_outcome(Ok(()), None);
    match r {
        Err(TransactionError::Storage(e)) => assert_eq!(e, Error::Protocol(ProtocolFailure::CallbackNeverRan)),
        other => panic!("{other:?}"),
    }
}

#[test]
fn d1_refuses_every_transaction() {
    assert_eq!(D1TransactionManager::begin(), Err(Error::Unsupported(Unsupported::D1Transactions)));
    assert_eq!(D1TransactionManager::commit(), Err(Error::Unsupported(Unsupported::D1Transactions)));
    assert_eq!(D1TransactionManager::rollback(), Err(Error::Unsupported(Unsupported::D1Transactions)));
    assert_eq!(D1TransactionManager::get_transaction_depth(), 0);
}
