//! Connections to the two backends, and the options types sqlx requires of
//! them.
use vstd::prelude::*;
use vstd::string::*;

use worker::{D1Database, SqlStorage, Storage};

use crate::error::{ConfigError, Error};
use crate::value::{same_value, value_type, TypeInfo, Value};

verus! {

/// What `Url::parse` makes of `input`, when it parses, read by `scheme()` and
/// `host_str()`: the scheme, lower-cased, and the host, if the URL has one.
pub uninterp spec fn parsed_url(input: Seq<char>) -> Option<(Seq<char>, Option<Seq<char>>)>;

/// `Url::parse`, then `scheme()` and `host_str()` of the URL.
///
/// Believed of it: it succeeds exactly when [`parsed_url`] has a value for
/// the input, and then returns what that says; on failure it returns the
/// parse error's message. Which inputs parse, and to what, is the `url`
/// crate's and is not stated here, nor is the message's text.
#[verifier::external_body]
fn parse_url(input: &str) -> (r: Result<(String, Option<String>), String>)
    ensures
        match parsed_url(input@) {
            Some((scheme, host)) => r matches Ok((s, h)) && s@ == scheme && match host {
                Some(name) => h matches Some(x) && x@ == name,
                None => h is None,
            },
            None => r is Err,
        },
{
    match sqlx_core::Url::parse(input) {
        Ok(url) => Ok((url.scheme().to_owned(), url.host_str().map(str::to_owned))),
        Err(error) => Err(error.to_string()),
    }
}

/// `Storage::sql`: the SQL API of a Durable Object's storage.
///
/// Nothing is stated of the handle it returns. `worker` binds the getter
/// without catching, and its source does not show whether the getter can
/// throw -- on a Durable Object that is not SQLite-backed, say; this is
/// called as the driver has always called it, once per connection.
#[verifier::external_body]
fn storage_sql(storage: &Storage) -> SqlStorage {
    storage.sql()
}

/// `r` refuses a URL for its scheme: `found`, where `expected` was wanted.
pub open spec fn is_wrong_scheme<T>(r: Result<T, Error>, expected: Seq<char>, found: Seq<char>) -> bool {
    r matches Err(Error::Configuration(ConfigError::WrongScheme { expected: e, found: f }))
        && e@ == expected && f@ == found
}

/// The Cloudflare D1 database driver: the type sqlx code names in
/// `Executor<'_, Database = D1>`, `sqlx::query_as::<D1, _>` and so on.
#[derive(Debug)]
pub struct D1;

impl D1 {
    /// The driver's name.
    pub const NAME: &'static str = "D1";
}

/// The Cloudflare Durable Object storage driver.
#[derive(Debug)]
pub struct Do;

impl Do {
    /// The driver's name.
    pub const NAME: &'static str = "Do";
}

/// A connection to a D1 database: a Workers D1 binding.
///
/// There is no socket behind it and nothing to pool. Build one per request
/// from the binding the Worker's environment holds, with [`D1Connection::new`].
pub struct D1Connection {
    db: D1Database,
}

impl D1Connection {
    pub closed spec fn spec_db(&self) -> D1Database {
        self.db
    }

    /// Wraps a D1 binding.
    pub fn new(db: D1Database) -> (r: Self)
        ensures
            r.spec_db() == db,
    {
        D1Connection { db }
    }

    /// The binding this connection runs queries through.
    pub fn db(&self) -> (r: &D1Database)
        ensures
            *r == self.spec_db(),
    {
        &self.db
    }

    /// The binding this connection wraps, for anything this library does not
    /// cover -- `dump`, `exec`, sessions.
    pub fn into_inner(self) -> (r: D1Database)
        ensures
            r == self.spec_db(),
    {
        self.db
    }
}

/// A connection to a Durable Object's SQL storage.
///
/// There is no socket behind it and nothing to pool: the database lives in
/// the Durable Object itself. Build one from the object's storage with
/// [`DoConnection::new`], in its constructor or per request.
pub struct DoConnection {
    /// For batches and callback transactions, which run through
    /// `Storage::transaction`.
    storage: Storage,
    /// `storage.sql()`, kept rather than fetched for every query.
    sql: SqlStorage,
}

impl DoConnection {
    pub closed spec fn spec_storage(&self) -> Storage {
        self.storage
    }

    pub closed spec fn spec_sql(&self) -> SqlStorage {
        self.sql
    }

    /// Wraps a Durable Object's storage: `state.storage()`.
    pub fn new(storage: Storage) -> (r: Self)
        ensures
            r.spec_storage() == storage,
    {
        let sql = storage_sql(&storage);
        DoConnection { storage, sql }
    }

    /// The storage this connection wraps, for anything this library does not
    /// cover -- the key-value API, alarms -- while keeping the connection.
    pub fn storage(&self) -> (r: &Storage)
        ensures
            *r == self.spec_storage(),
    {
        &self.storage
    }

    /// The SQL API this connection runs queries through.
    pub fn sql(&self) -> (r: &SqlStorage)
        ensures
            *r == self.spec_sql(),
    {
        &self.sql
    }

    /// The storage this connection wraps, giving up the connection.
    pub fn into_storage(self) -> (r: Storage)
        ensures
            r == self.spec_storage(),
    {
        self.storage
    }

    /// The executor a callback transaction hands its callback: a clone of
    /// the connection's SQL handle. That a clone reaches the same JavaScript
    /// object is not stated: the clone is believed to return, no more.
    pub fn transaction_handle(&self) -> (r: DoTransaction)
        ensures
            cloned(self.spec_sql(), r.spec_sql()),
    {
        DoTransaction { sql: self.sql.clone() }
    }
}

/// An open transaction: the executor a callback transaction hands its
/// callback. Every query run through it is part of the transaction.
pub struct DoTransaction {
    sql: SqlStorage,
}

impl DoTransaction {
    pub closed spec fn spec_sql(&self) -> SqlStorage {
        self.sql
    }

    /// The SQL API the transaction's queries run through.
    pub fn sql(&self) -> (r: &SqlStorage)
        ensures
            *r == self.spec_sql(),
    {
        &self.sql
    }
}

/// The options type sqlx requires of every D1 connection.
///
/// It parses `d1://<binding>` so the type is constructible, but a connection
/// cannot be opened from it: a D1 connection comes from a Workers binding,
/// which only the Worker's `Env` can hand out.
#[derive(Debug, Clone, PartialEq, Eq)]
pub struct D1ConnectOptions {
    binding: String,
}

impl D1ConnectOptions {
    pub closed spec fn spec_binding(&self) -> Seq<char> {
        self.binding@
    }

    /// The binding name from the URL.
    pub fn binding(&self) -> (r: &str)
        ensures
            r@ == self.spec_binding(),
    {
        self.binding.as_str()
    }

    /// The options a URL of this scheme and host stands for: `d1://<binding>`.
    ///
    /// # Errors
    ///
    /// For a scheme other than `d1`, and for a URL without a binding name.
    pub fn from_url(scheme: &str, host: Option<&str>) -> (r: Result<Self, Error>)
        ensures
            scheme@ != "d1"@ ==> is_wrong_scheme(r, "d1"@, scheme@),
            scheme@ == "d1"@ ==> match host {
                Some(h) => if h@.len() > 0 {
                    r matches Ok(o) && o.spec_binding() == h@
                } else {
                    r == Err::<Self, Error>(Error::Configuration(ConfigError::MissingBinding))
                },
                None => r == Err::<Self, Error>(Error::Configuration(ConfigError::MissingBinding)),
            },
    {
        if String::from_str(scheme) != String::from_str("d1") {
            return Err(
                Error::Configuration(
                    ConfigError::WrongScheme {
                        expected: String::from_str("d1"),
                        found: String::from_str(scheme),
                    },
                ),
            );
        }
        match host {
            Some(binding) => {
                if binding.unicode_len() > 0 {
                    Ok(D1ConnectOptions { binding: String::from_str(binding) })
                } else {
                    Err(Error::Configuration(ConfigError::MissingBinding))
                }
            },
            None => Err(Error::Configuration(ConfigError::MissingBinding)),
        }
    }

    /// The options a `d1://<binding>` URL stands for.
    ///
    /// # Errors
    ///
    /// When the URL does not parse, and as [`from_url`](Self::from_url) says.
    pub fn from_str(s: &str) -> (r: Result<Self, Error>)
        ensures
            match parsed_url(s@) {
                None => r matches Err(Error::Configuration(ConfigError::InvalidUrl(_))),
                Some((scheme, host)) => {
                    &&& scheme != "d1"@ ==> is_wrong_scheme(r, "d1"@, scheme)
                    &&& scheme == "d1"@ ==> match host {
                        Some(h) => if h.len() > 0 {
                            r matches Ok(o) && o.spec_binding() == h
                        } else {
                            r == Err::<Self, Error>(Error::Configuration(ConfigError::MissingBinding))
                        },
                        None => r == Err::<Self, Error>(
                            Error::Configuration(ConfigError::MissingBinding),
                        ),
                    }
                },
            },
    {
        match parse_url(s) {
            Ok((scheme, host)) => match host {
                Some(h) => D1ConnectOptions::from_url(scheme.as_str(), Some(h.as_str())),
                None => D1ConnectOptions::from_url(scheme.as_str(), None),
            },
            Err(why) => Err(Error::Configuration(ConfigError::InvalidUrl(why))),
        }
    }

    /// The URL these options stand for, as text: `d1://<binding>`.
    pub fn url(&self) -> (r: String)
        ensures
            r@ == "d1://"@ + self.spec_binding(),
    {
        String::from_str("d1://").concat(self.binding.as_str())
    }

    /// Why a connection cannot be opened from these options: the binding
    /// has to come from the Worker's environment.
    pub fn connect(&self) -> (r: Error)
        ensures
            r matches Error::Configuration(ConfigError::NotFromUrl { binding: Some(b) }) && b@
                == self.spec_binding(),
    {
        Error::Configuration(ConfigError::NotFromUrl { binding: Some(self.binding.clone()) })
    }
}

/// The options type sqlx requires of every Durable Object connection.
///
/// It parses `do://` so the type is constructible, but a connection cannot
/// be opened from it: a connection comes from a Durable Object's storage,
/// which only the object itself holds.
#[derive(Debug, Clone, PartialEq, Eq)]
pub struct DoConnectOptions {}

impl DoConnectOptions {
    /// The options a URL of this scheme stands for: `do://`.
    ///
    /// # Errors
    ///
    /// For a scheme other than `do`.
    pub fn from_url(scheme: &str) -> (r: Result<Self, Error>)
        ensures
            scheme@ == "do"@ ==> r is Ok,
            scheme@ != "do"@ ==> is_wrong_scheme(r, "do"@, scheme@),
    {
        if String::from_str(scheme) == String::from_str("do") {
            Ok(DoConnectOptions {})
        } else {
            Err(
                Error::Configuration(
                    ConfigError::WrongScheme {
                        expected: String::from_str("do"),
                        found: String::from_str(scheme),
                    },
                ),
            )
        }
    }

    /// The options a `do://` URL stands for.
    ///
    /// # Errors
    ///
    /// When the URL does not parse, and for a scheme other than `do`.
    pub fn from_str(s: &str) -> (r: Result<Self, Error>)
        ensures
            match parsed_url(s@) {
                None => r matches Err(Error::Configuration(ConfigError::InvalidUrl(_))),
                Some((scheme, _)) => {
                    &&& scheme == "do"@ ==> r is Ok
                    &&& scheme != "do"@ ==> is_wrong_scheme(r, "do"@, scheme)
                },
            },
    {
        match parse_url(s) {
            Ok((scheme, _)) => DoConnectOptions::from_url(scheme.as_str()),
            Err(why) => Err(Error::Configuration(ConfigError::InvalidUrl(why))),
        }
    }

    /// The URL these options stand for, as text.
    pub fn url(&self) -> (r: &'static str)
        ensures
            r@ == "do://"@,
    {
        "do://"
    }

    /// Why a connection cannot be opened from these options: it has to be
    /// built from the object's storage.
    pub fn connect(&self) -> (r: Error)
        ensures
            r == Error::Configuration(ConfigError::NotFromUrl { binding: None }),
    {
        Error::Configuration(ConfigError::NotFromUrl { binding: None })
    }
}

/// A value read out of a result, already converted from JavaScript.
#[derive(Debug, Clone, PartialEq)]
pub struct DoValue(pub Value);

/// D1's name for [`DoValue`].
pub type D1Value = DoValue;

/// A borrowed [`DoValue`], which is what decoding reads.
#[derive(Debug, Clone, Copy)]
pub struct DoValueRef<'r>(pub &'r Value);

/// D1's name for [`DoValueRef`].
pub type D1ValueRef<'r> = DoValueRef<'r>;

impl DoValue {
    /// A reference to the value.
    pub fn as_ref(&self) -> (r: DoValueRef<'_>)
        ensures
            *r.0 == self.0,
    {
        DoValueRef(&self.0)
    }

    /// The value's storage class.
    pub fn type_info(&self) -> (r: TypeInfo)
        ensures
            r == value_type(self.0),
    {
        self.0.type_info()
    }

    /// Whether the value is `NULL`.
    pub fn is_null(&self) -> (r: bool)
        ensures
            r == (self.0 is Null),
    {
        self.0.is_null()
    }
}

impl<'r> DoValueRef<'r> {
    /// The value the reference points at.
    pub fn as_value(&self) -> (r: &'r Value)
        ensures
            *r == *self.0,
    {
        self.0
    }

    /// An owned copy of the value.
    pub fn to_owned(&self) -> (r: DoValue)
        ensures
            same_value(r.0, *self.0),
    {
        let copy = match self.0 {
            Value::Null => Value::Null,
            Value::Integer(v) => Value::Integer(*v),
            Value::Real(bits) => Value::Real(*bits),
            Value::Text(s) => Value::Text(s.clone()),
            Value::Blob(b) => Value::Blob(b.clone()),
        };
        DoValue(copy)
    }

    /// The value's storage class.
    pub fn type_info(&self) -> (r: TypeInfo)
        ensures
            r == value_type(*self.0),
    {
        self.0.type_info()
    }

    /// Whether the value is `NULL`.
    pub fn is_null(&self) -> (r: bool)
        ensures
            r == (*self.0 is Null),
    {
        self.0.is_null()
    }
}

} // verus!
