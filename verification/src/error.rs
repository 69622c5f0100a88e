//! The errors the database returns, read from SQLite's message text.
use vstd::prelude::*;
use vstd::string::*;

use crate::value::{TypeInfo, ValueError};
use crate::types::RustType;
use crate::text::{
    chars_of, contains, contains_exec, last_occurrence, last_occurrence_exec,
    lemma_last_occurrence_from,
};

verus! {

/// The kind of error a message means, as sqlx classifies database errors.
#[derive(Debug, Clone, Copy, PartialEq, Eq, Structural)]
pub enum ErrorKind {
    UniqueViolation,
    ForeignKeyViolation,
    NotNullViolation,
    CheckViolation,
    Other,
}

/// A character of a result code's name: `A`–`Z`, `0`–`9` or `_`.
pub open spec fn is_code_char(c: char) -> bool {
    ('A' <= c && c <= 'Z') || ('0' <= c && c <= '9') || c == '_'
}

/// Where the run of code characters that starts at `i` ends.
pub open spec fn code_end(s: Seq<char>, i: int) -> int
    decreases s.len() - i,
{
    if 0 <= i < s.len() && is_code_char(s[i]) {
        code_end(s, i + 1)
    } else {
        i
    }
}

/// What precedes the extended result code in a message.
pub open spec fn extended_marker() -> Seq<char> {
    "(extended: "@
}

/// What every SQLite result code's name begins with.
pub open spec fn code_prefix() -> Seq<char> {
    "SQLITE_"@
}

/// Where the result code at the end of a message lies: the code after the
/// last `(extended: ` when one follows it, else the run of code characters
/// from the last `SQLITE_`.
pub open spec fn code_span(s: Seq<char>) -> Option<(int, int)> {
    let extended = match last_occurrence(s, extended_marker()) {
        Some(i) => {
            let start = i + extended_marker().len();
            if code_end(s, start) > start {
                Some((start, code_end(s, start)))
            } else {
                None
            }
        },
        None => None,
    };
    if extended is Some {
        extended
    } else {
        match last_occurrence(s, code_prefix()) {
            Some(i) => Some((i, code_end(s, i))),
            None => None,
        }
    }
}

/// The result code a message ends with, by name.
pub open spec fn message_code(s: Seq<char>) -> Option<Seq<char>> {
    match code_span(s) {
        Some((start, end)) => Some(s.subrange(start, end)),
        None => None,
    }
}

/// The kind an extended result code means, as sqlx-sqlite maps them.
pub open spec fn kind_of_code(code: Seq<char>) -> Option<ErrorKind> {
    if code == "SQLITE_CONSTRAINT_UNIQUE"@ || code == "SQLITE_CONSTRAINT_PRIMARYKEY"@ {
        Some(ErrorKind::UniqueViolation)
    } else if code == "SQLITE_CONSTRAINT_FOREIGNKEY"@ {
        Some(ErrorKind::ForeignKeyViolation)
    } else if code == "SQLITE_CONSTRAINT_NOTNULL"@ {
        Some(ErrorKind::NotNullViolation)
    } else if code == "SQLITE_CONSTRAINT_CHECK"@ {
        Some(ErrorKind::CheckViolation)
    } else {
        None
    }
}

/// The kind SQLite's constraint text means.
pub open spec fn kind_of_text(s: Seq<char>) -> ErrorKind {
    if contains(s, "UNIQUE constraint failed"@) {
        ErrorKind::UniqueViolation
    } else if contains(s, "FOREIGN KEY constraint failed"@) {
        ErrorKind::ForeignKeyViolation
    } else if contains(s, "NOT NULL constraint failed"@) {
        ErrorKind::NotNullViolation
    } else if contains(s, "CHECK constraint failed"@) {
        ErrorKind::CheckViolation
    } else {
        ErrorKind::Other
    }
}

/// The kind of error a message means: from its result code when that is a
/// constraint code sqlx-sqlite maps, else from the constraint text.
pub open spec fn message_kind(s: Seq<char>) -> ErrorKind {
    match message_code(s) {
        Some(code) => match kind_of_code(code) {
            Some(kind) => kind,
            None => kind_of_text(s),
        },
        None => kind_of_text(s),
    }
}

fn is_code_char_exec(c: char) -> (r: bool)
    ensures
        r == is_code_char(c),
{
    ('A' <= c && c <= 'Z') || ('0' <= c && c <= '9') || c == '_'
}

fn code_end_exec(s: &Vec<char>, i: usize) -> (r: usize)
    requires
        i <= s.len(),
    ensures
        r == code_end(s@, i as int),
        i <= r <= s.len(),
{
    let mut j = i;
    while j < s.len() && is_code_char_exec(s[j])
        invariant
            i <= j <= s.len(),
            code_end(s@, i as int) == code_end(s@, j as int),
        decreases s.len() - j,
    {
        j = j + 1;
    }
    j
}

fn code_span_exec(s: &Vec<char>) -> (r: Option<(usize, usize)>)
    ensures
        match code_span(s@) {
            Some((start, end)) => r == Some((start as usize, end as usize)) && 0 <= start <= end
                <= s.len(),
            None => r is None,
        },
{
    let marker = chars_of("(extended: ");
    proof {
        lemma_last_occurrence_from(s@, marker@, s@.len() - marker@.len());
    }
    if let Some(i) = last_occurrence_exec(s, &marker) {
        let start = i + marker.len();
        let end = code_end_exec(s, start);
        if end > start {
            return Some((start, end));
        }
    }
    let prefix = chars_of("SQLITE_");
    proof {
        lemma_last_occurrence_from(s@, prefix@, s@.len() - prefix@.len());
    }
    match last_occurrence_exec(s, &prefix) {
        Some(i) => Some((i, code_end_exec(s, i))),
        None => None,
    }
}

fn kind_of_code_exec(code: &String) -> (r: Option<ErrorKind>)
    ensures
        r == kind_of_code(code@),
{
    if *code == String::from_str("SQLITE_CONSTRAINT_UNIQUE") || *code == String::from_str(
        "SQLITE_CONSTRAINT_PRIMARYKEY",
    ) {
        Some(ErrorKind::UniqueViolation)
    } else if *code == String::from_str("SQLITE_CONSTRAINT_FOREIGNKEY") {
        Some(ErrorKind::ForeignKeyViolation)
    } else if *code == String::from_str("SQLITE_CONSTRAINT_NOTNULL") {
        Some(ErrorKind::NotNullViolation)
    } else if *code == String::from_str("SQLITE_CONSTRAINT_CHECK") {
        Some(ErrorKind::CheckViolation)
    } else {
        None
    }
}

fn kind_of_text_exec(s: &Vec<char>) -> (r: ErrorKind)
    ensures
        r == kind_of_text(s@),
{
    if contains_exec(s, &chars_of("UNIQUE constraint failed")) {
        ErrorKind::UniqueViolation
    } else if contains_exec(s, &chars_of("FOREIGN KEY constraint failed")) {
        ErrorKind::ForeignKeyViolation
    } else if contains_exec(s, &chars_of("NOT NULL constraint failed")) {
        ErrorKind::NotNullViolation
    } else if contains_exec(s, &chars_of("CHECK constraint failed")) {
        ErrorKind::CheckViolation
    } else {
        ErrorKind::Other
    }
}

/// The result code at the end of `message`, by name.
fn code_of(message: &str) -> (r: Option<String>)
    ensures
        match message_code(message@) {
            Some(code) => r matches Some(c) && c@ == code,
            None => r is None,
        },
{
    let chars = chars_of(message);
    match code_span_exec(&chars) {
        Some((start, end)) => Some(String::from_str(message.substring_char(start, end))),
        None => None,
    }
}

/// An error the database returned for a statement.
///
/// Neither D1 nor Durable Object storage reports a structured result code
/// across the binding, only SQLite's message as text, which ends with the code
/// by name: `NOT NULL constraint failed: users.email: SQLITE_CONSTRAINT
/// (extended: SQLITE_CONSTRAINT_NOTNULL)`. [`code`](Self::code) is that name,
/// and [`kind`](Self::kind) is read from it.
#[derive(Debug, Clone, PartialEq, Eq)]
pub struct DatabaseError {
    message: String,
}

/// D1's name for [`DatabaseError`].
pub type D1DatabaseError = DatabaseError;

impl DatabaseError {
    /// The message, as the backend reported it.
    pub closed spec fn spec_message(&self) -> Seq<char> {
        self.message@
    }

    /// The error for `message`, as the backend threw it.
    pub fn new(message: String) -> (r: Self)
        ensures
            r.spec_message() == message@,
    {
        DatabaseError { message }
    }

    /// The message, as the backend reported it.
    pub fn message(&self) -> (r: &str)
        ensures
            r@ == self.spec_message(),
    {
        self.message.as_str()
    }

    /// SQLite's result code by name -- the extended one when the message has
    /// it, as in `SQLITE_CONSTRAINT_UNIQUE`, else the primary one.
    pub fn code(&self) -> (r: Option<String>)
        ensures
            match message_code(self.spec_message()) {
                Some(code) => r matches Some(c) && c@ == code,
                None => r is None,
            },
    {
        code_of(self.message.as_str())
    }

    /// The kind of error the message means.
    ///
    /// From the extended result code when the message carries one, as
    /// sqlx-sqlite maps them. Failing that, from SQLite's constraint text.
    pub fn kind(&self) -> (r: ErrorKind)
        ensures
            r == message_kind(self.spec_message()),
    {
        let message = self.message.as_str();
        if let Some(code) = code_of(message) {
            if let Some(kind) = kind_of_code_exec(&code) {
                return kind;
            }
        }
        kind_of_text_exec(&chars_of(message))
    }
}

/// How a column was asked for: by position or by name.
#[derive(Debug, Clone, PartialEq, Eq)]
pub enum ColumnRef {
    Ordinal(usize),
    Name(String),
}

/// Why a connection option or URL was refused.
#[derive(Debug, Clone, PartialEq, Eq)]
pub enum ConfigError {
    /// The URL could not be parsed at all; the parser's words.
    InvalidUrl(String),
    /// A URL of another scheme than the backend's.
    WrongScheme { expected: String, found: String },
    /// A `d1://` URL without a binding name.
    MissingBinding,
    /// A connection cannot be opened from options: it comes from the Worker
    /// (D1, naming the binding) or from the Durable Object's storage.
    NotFromUrl { binding: Option<String> },
}

/// What sqlx asks of a driver that the backend cannot do.
#[derive(Debug, Clone, Copy, PartialEq, Eq, Structural)]
pub enum Unsupported {
    /// D1 holds no transaction open across calls.
    D1Transactions,
    /// `begin()` on Durable Object storage, whose `sql.exec` rejects `BEGIN`
    /// and `SAVEPOINT`.
    DoBegin,
    /// `begin()` with a statement of its own.
    CustomBegin,
    /// `commit()` with no transaction open.
    NothingToCommit,
    /// Describing a statement without running it.
    Describe,
}

/// The errors of this library, each standing for one of sqlx's.
#[derive(Debug, Clone, PartialEq)]
pub enum Error {
    /// A parameter that could not be bound.
    Encode(ValueError),
    /// A value that could not be read as a value of ours.
    Decode(DecodeFailure),
    /// A column's value that does not decode as the type asked for.
    ColumnDecode { index: ColumnRef, source: ValueError },
    /// A column's storage class that the type asked for is not compatible
    /// with.
    Incompatible { index: ColumnRef, target: RustType, found: TypeInfo },
    /// No column has this name.
    ColumnNotFound(String),
    /// No column has this position.
    ColumnIndexOutOfBounds { position: usize, len: usize },
    /// A row with another number of values than there are columns.
    RowWidth { values: usize, columns: usize },
    /// The backend answered something it should not have.
    Protocol(ProtocolFailure),
    /// Refused options or URL.
    Configuration(ConfigError),
    /// The database refused the statement.
    Database(DatabaseError),
    /// Something the backend cannot do.
    Unsupported(Unsupported),
}

/// A value the backend returned that is not one of ours.
#[derive(Debug, Clone, PartialEq, Eq)]
pub enum DecodeFailure {
    /// A JavaScript value of a type neither backend returns, as it prints.
    UnexpectedJsType(String),
    /// An element of a BLOB returned as an array that is not a byte.
    NotAByte,
    /// A count of changes that is negative.
    NegativeChanges(i64),
    /// A value of another storage class than the one the protocol promises.
    Value(ValueError),
}

/// An answer from the backend that breaks its protocol.
#[derive(Debug, Clone, PartialEq, Eq)]
pub enum ProtocolFailure {
    /// `SELECT changes(), last_insert_rowid()` returned no row.
    NoChangesRow,
    /// A storage transaction that failed, with the backend's words.
    TransactionFailed(String),
    /// A storage transaction that never ran its callback.
    CallbackNeverRan,
}

} // verus!
