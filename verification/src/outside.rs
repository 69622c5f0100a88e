//! The outside types the library holds and passes on, declared so that
//! verified code can carry them; nothing inside them is read.
use vstd::prelude::*;
use worker::{D1Database, SqlStorage, Storage};

verus! {

/// `worker::Storage`: a Durable Object's storage, carried and handed back.
#[verifier::external_type_specification]
#[verifier::external_body]
pub struct ExStorage(Storage);

/// `worker::SqlStorage`: the SQL API of a Durable Object's storage.
#[verifier::external_type_specification]
#[verifier::external_body]
pub struct ExSqlStorage(SqlStorage);

/// `worker::D1Database`: a D1 binding.
#[verifier::external_type_specification]
#[verifier::external_body]
pub struct ExD1Database(D1Database);

/// `SqlStorage::clone`, as `worker` derives it: another handle on the same
/// SQL API. Nothing is claimed of it beyond that it returns.
pub assume_specification[ <SqlStorage as Clone>::clone ](sql: &SqlStorage) -> SqlStorage;

} // verus!
