//! The rows of a result: their columns, typed by what is in them, and reading
//! a value out of one.
use std::sync::Arc;

use vstd::prelude::*;
use vstd::string::*;

use crate::error::{ColumnRef, DecodeFailure, Error, ProtocolFailure};
use crate::query_result::{reports, QueryResult};
use crate::types::{decode, decode_error, decodes_as, is_compatible, Decoded, RustType};
use crate::value::{value_type, TypeInfo, Value, ValueError};

verus! {

/// `Arc::clone`: another pointer to the same allocation, so what it points
/// to is the same, as std documents.
#[verifier::external_body]
fn share<T>(arc: &Arc<T>) -> (r: Arc<T>)
    ensures
        *r == **arc,
{
    Arc::clone(arc)
}

/// A column of a result.
#[derive(Debug, Clone)]
pub struct DoColumn {
    name: String,
    ordinal: usize,
    /// The type of the column's first non-NULL value, or `Null` if it has
    /// none -- neither backend reports declared types.
    type_info: TypeInfo,
}

/// D1's name for [`DoColumn`]: a D1 result's columns are typed the same way.
pub type D1Column = DoColumn;

impl DoColumn {
    pub closed spec fn spec_name(&self) -> Seq<char> {
        self.name@
    }

    pub closed spec fn spec_ordinal(&self) -> nat {
        self.ordinal as nat
    }

    pub closed spec fn spec_type_info(&self) -> TypeInfo {
        self.type_info
    }

    /// The column's position, from 0.
    pub fn ordinal(&self) -> (r: usize)
        ensures
            r == self.spec_ordinal(),
    {
        self.ordinal
    }

    /// The column's name.
    pub fn name(&self) -> (r: &str)
        ensures
            r@ == self.spec_name(),
    {
        self.name.as_str()
    }

    /// The column's type: that of its first non-`NULL` value.
    pub fn type_info(&self) -> (r: TypeInfo)
        ensures
            r == self.spec_type_info(),
    {
        self.type_info
    }
}

/// A row of a result.
#[derive(Debug)]
pub struct DoRow {
    /// Shared by every row of one result.
    columns: Arc<Vec<DoColumn>>,
    values: Vec<Value>,
}

impl DoRow {
    /// One value per column.
    #[verifier::type_invariant]
    spec fn one_value_per_column(self) -> bool {
        self.values@.len() == self.columns@.len()
    }
}

/// D1's name for [`DoRow`].
pub type D1Row = DoRow;

/// The type of the first value at `ordinal` that is not `NULL`, among the
/// rows long enough to have one; `Null` if there is none.
pub open spec fn first_type(rows: Seq<Vec<Value>>, ordinal: int) -> TypeInfo
    decreases rows.len(),
{
    if rows.len() == 0 {
        TypeInfo::Null
    } else if 0 <= ordinal < rows[0]@.len() && !(rows[0]@[ordinal] is Null) {
        value_type(rows[0]@[ordinal])
    } else {
        first_type(rows.drop_first(), ordinal)
    }
}

/// Whether a row has a value that is not `NULL` at `ordinal`.
pub open spec fn has_value(row: Seq<Value>, ordinal: int) -> bool {
    0 <= ordinal < row.len() && !(row[ordinal] is Null)
}

/// A column is typed by the first value in it that is not `NULL`, and is
/// `NULL` only when it holds no other value.
pub proof fn lemma_column_typed_by_first_value(rows: Seq<Vec<Value>>, ordinal: int)
    ensures
        (first_type(rows, ordinal) == TypeInfo::Null) <==> (forall|i: int|
            0 <= i < rows.len() ==> !has_value(#[trigger] rows[i]@, ordinal)),
        first_type(rows, ordinal) != TypeInfo::Null ==> exists|i: int|
            {
                &&& 0 <= i < rows.len()
                &&& has_value(#[trigger] rows[i]@, ordinal)
                &&& value_type(rows[i]@[ordinal]) == first_type(rows, ordinal)
                &&& forall|j: int| 0 <= j < i ==> !has_value(#[trigger] rows[j]@, ordinal)
            },
    decreases rows.len(),
{
    if rows.len() > 0 {
        let rest = rows.drop_first();
        lemma_column_typed_by_first_value(rest, ordinal);
        assert forall|i: int| 0 <= i < rest.len() implies rest[i] == rows[i + 1] by {}
        if has_value(rows[0]@, ordinal) {
            assert(value_type(rows[0]@[ordinal]) != TypeInfo::Null);
            assert(has_value(rows[0]@, ordinal) && value_type(rows[0]@[ordinal]) == first_type(
                rows,
                ordinal,
            ));
        } else if first_type(rest, ordinal) != TypeInfo::Null {
            let k = choose|i: int|
                {
                    &&& 0 <= i < rest.len()
                    &&& has_value(#[trigger] rest[i]@, ordinal)
                    &&& value_type(rest[i]@[ordinal]) == first_type(rest, ordinal)
                    &&& forall|j: int| 0 <= j < i ==> !has_value(#[trigger] rest[j]@, ordinal)
                };
            assert(has_value(rows[k + 1]@, ordinal));
            assert forall|j: int| 0 <= j < k + 1 implies !has_value(#[trigger] rows[j]@, ordinal) by {
                if j > 0 {
                    assert(rows[j] == rest[j - 1]);
                }
            }
        } else {
            assert forall|i: int| 0 <= i < rows.len() implies !has_value(#[trigger] rows[i]@, ordinal) by {
                if i > 0 {
                    assert(rows[i] == rest[i - 1]);
                }
            }
        }
    }
}

/// The first row whose number of values is not `width`.
pub open spec fn first_misfit(rows: Seq<Vec<Value>>, width: int) -> Option<int>
    decreases rows.len(),
{
    if rows.len() == 0 {
        None
    } else if rows[0]@.len() != width {
        Some(0)
    } else {
        match first_misfit(rows.drop_first(), width) {
            Some(i) => Some(i + 1),
            None => None,
        }
    }
}

/// The row a width check refuses is the first row without one value per
/// column, and a check passes exactly when every row has one.
pub proof fn lemma_first_misfit_is_first(rows: Seq<Vec<Value>>, width: int)
    ensures
        match first_misfit(rows, width) {
            Some(k) => {
                &&& 0 <= k < rows.len()
                &&& rows[k]@.len() != width
                &&& forall|j: int| 0 <= j < k ==> (#[trigger] rows[j]@).len() == width
            },
            None => forall|j: int| 0 <= j < rows.len() ==> (#[trigger] rows[j]@).len() == width,
        },
    decreases rows.len(),
{
    if rows.len() > 0 && rows[0]@.len() == width {
        let rest = rows.drop_first();
        lemma_first_misfit_is_first(rest, width);
        assert forall|j: int| 0 < j < rows.len() implies rows[j] == rest[j - 1] by {}
    }
}

/// `column` is the column named `name` at `ordinal` of a result with these
/// rows.
pub open spec fn is_result_column(
    column: DoColumn,
    name: Seq<char>,
    ordinal: int,
    rows: Seq<Vec<Value>>,
) -> bool {
    &&& column.spec_name() == name
    &&& column.spec_ordinal() == ordinal
    &&& column.spec_type_info() == first_type(rows, ordinal)
}

/// The column whose name a lookup by name finds: the last one that has it.
pub open spec fn last_named(columns: Seq<DoColumn>, name: Seq<char>) -> Option<int>
    decreases columns.len(),
{
    if columns.len() == 0 {
        None
    } else if columns.last().spec_name() == name {
        Some(columns.len() - 1)
    } else {
        last_named(columns.drop_last(), name)
    }
}

/// A lookup by name finds the last column that has the name, and fails
/// exactly when no column has it.
pub proof fn lemma_name_finds_last_column(columns: Seq<DoColumn>, name: Seq<char>)
    ensures
        match last_named(columns, name) {
            Some(i) => {
                &&& 0 <= i < columns.len()
                &&& columns[i].spec_name() == name
                &&& forall|j: int| i < j < columns.len() ==> #[trigger] columns[j].spec_name() != name
            },
            None => forall|j: int| 0 <= j < columns.len() ==> #[trigger] columns[j].spec_name() != name,
        },
    decreases columns.len(),
{
    if columns.len() > 0 && columns.last().spec_name() != name {
        lemma_name_finds_last_column(columns.drop_last(), name);
        assert forall|j: int| 0 <= j < columns.len() - 1 implies columns[j] == columns.drop_last()[j] by {}
    }
}

/// Where a column lookup points: the position itself when the row has it,
/// or the last column with the name.
pub open spec fn column_position(columns: Seq<DoColumn>, index: ColumnRef) -> Result<int, Error> {
    match index {
        ColumnRef::Ordinal(i) => if i < columns.len() {
            Ok(i as int)
        } else {
            Err(Error::ColumnIndexOutOfBounds { position: i, len: columns.len() as usize })
        },
        ColumnRef::Name(name) => match last_named(columns, name@) {
            Some(i) => Ok(i),
            None => Err(Error::ColumnNotFound(name)),
        },
    }
}

/// `r` is what decoding `value`, read through `index`, as `target` gives.
pub open spec fn decoded_at(value: Value, index: ColumnRef, target: RustType, r: Result<
    Decoded,
    Error,
>) -> bool {
    match decode_error(value, target) {
        Some(e) => r == Err::<Decoded, Error>(Error::ColumnDecode { index, source: e }),
        None => r matches Ok(d) && decodes_as(value, target, d),
    }
}

fn copy_ref(index: &ColumnRef) -> (r: ColumnRef)
    ensures
        r == *index,
{
    match index {
        ColumnRef::Ordinal(i) => ColumnRef::Ordinal(*i),
        ColumnRef::Name(name) => ColumnRef::Name(name.clone()),
    }
}

proof fn lemma_first_type_skip(rows: Seq<Vec<Value>>, ordinal: int, j: int)
    requires
        0 <= j < rows.len(),
    ensures
        first_type(rows.skip(j), ordinal) == if 0 <= ordinal < rows[j]@.len() && !(
        rows[j]@[ordinal] is Null) {
            value_type(rows[j]@[ordinal])
        } else {
            first_type(rows.skip(j + 1), ordinal)
        },
{
    assert(rows.skip(j).drop_first() =~= rows.skip(j + 1));
}

proof fn lemma_first_misfit_skip(rows: Seq<Vec<Value>>, width: int, j: int)
    requires
        0 <= j < rows.len(),
        first_misfit(rows, width) == (match first_misfit(rows.skip(j), width) {
            Some(i) => Some(i + j),
            None => None::<int>,
        }),
    ensures
        rows[j]@.len() != width ==> first_misfit(rows, width) == Some(j),
        rows[j]@.len() == width ==> first_misfit(rows, width) == (match first_misfit(
            rows.skip(j + 1),
            width,
        ) {
            Some(i) => Some(i + j + 1),
            None => None::<int>,
        }),
{
    assert(rows.skip(j).drop_first() =~= rows.skip(j + 1));
}

/// The type of the first non-`NULL` value at `ordinal`.
fn column_type(rows: &Vec<Vec<Value>>, ordinal: usize) -> (r: TypeInfo)
    ensures
        r == first_type(rows@, ordinal as int),
{
    let mut j: usize = 0;
    proof {
        assert(rows@.skip(0) =~= rows@);
    }
    while j < rows.len()
        invariant
            j <= rows.len(),
            first_type(rows@, ordinal as int) == first_type(rows@.skip(j as int), ordinal as int),
        decreases rows.len() - j,
    {
        proof {
            lemma_first_type_skip(rows@, ordinal as int, j as int);
        }
        let row = &rows[j];
        if ordinal < row.len() && !row[ordinal].is_null() {
            return row[ordinal].type_info();
        }
        j = j + 1;
    }
    proof {
        assert(rows@.skip(j as int).len() == 0);
    }
    TypeInfo::Null
}

impl DoRow {
    pub closed spec fn spec_columns(&self) -> Seq<DoColumn> {
        self.columns@
    }

    pub closed spec fn spec_values(&self) -> Seq<Value> {
        self.values@
    }

    /// The rows of one result, from its column names and its rows of values.
    ///
    /// Each column is typed by its first non-`NULL` value, since neither
    /// backend reports declared types, and every row shares the one column
    /// list.
    ///
    /// # Errors
    ///
    /// When a row does not have one value per column: the first such row.
    pub fn from_result(names: Vec<String>, rows: Vec<Vec<Value>>) -> (r: Result<Vec<DoRow>, Error>)
        ensures
            match first_misfit(rows@, names@.len() as int) {
                Some(k) => r == Err::<Vec<DoRow>, Error>(
                    Error::RowWidth { values: rows@[k]@.len() as usize, columns: names@.len() as usize },
                ),
                None => r matches Ok(out) && out@.len() == rows@.len() && forall|k: int|
                    0 <= k < out@.len() ==> {
                        &&& #[trigger] out@[k].spec_values() == rows@[k]@
                        &&& out@[k].spec_columns().len() == names@.len()
                        &&& forall|i: int|
                            0 <= i < names@.len() ==> is_result_column(
                                #[trigger] out@[k].spec_columns()[i],
                                names@[i]@,
                                i,
                                rows@,
                            )
                    },
            },
    {
        let mut columns: Vec<DoColumn> = Vec::new();
        let mut ordinal: usize = 0;
        while ordinal < names.len()
            invariant
                ordinal <= names.len(),
                columns@.len() == ordinal,
                forall|i: int|
                    0 <= i < ordinal ==> is_result_column(
                        #[trigger] columns@[i],
                        names@[i]@,
                        i,
                        rows@,
                    ),
            decreases names.len() - ordinal,
        {
            let type_info = column_type(&rows, ordinal);
            columns.push(DoColumn { name: names[ordinal].clone(), ordinal, type_info });
            ordinal = ordinal + 1;
        }
        let width = columns.len();
        let ghost old_columns = columns;
        let columns = Arc::new(columns);
        let ghost all_rows = rows@;
        let mut out: Vec<DoRow> = Vec::new();
        proof {
            assert(all_rows.skip(0) =~= all_rows);
        }
        for values in it: rows.into_iter()
            invariant
                it.seq() == all_rows,
                width == names@.len(),
                *columns == old_columns,
                old_columns@.len() == width,
                forall|i: int|
                    0 <= i < width ==> is_result_column(
                        #[trigger] old_columns@[i],
                        names@[i]@,
                        i,
                        all_rows,
                    ),
                out@.len() == it.index(),
                forall|k: int|
                    0 <= k < it.index() ==> #[trigger] out@[k].spec_values() == all_rows[k]@
                        && out@[k].spec_columns() == old_columns@,
                first_misfit(all_rows, width as int) == (match first_misfit(
                    all_rows.skip(it.index() as int),
                    width as int,
                ) {
                    Some(i) => Some(i + it.index()),
                    None => None::<int>,
                }),
        {
            proof {
                lemma_first_misfit_skip(all_rows, width as int, out@.len() as int);
            }
            if values.len() != width {
                return Err(Error::RowWidth { values: values.len(), columns: width });
            }
            out.push(DoRow { columns: share(&columns), values });
        }
        proof {
            assert(out@.len() == all_rows.len());
            assert(all_rows.skip(all_rows.len() as int).len() == 0);
            assert(first_misfit(all_rows, width as int) is None);
            assert forall|k: int| 0 <= k < out@.len() implies {
                &&& #[trigger] out@[k].spec_values() == all_rows[k]@
                &&& out@[k].spec_columns().len() == names@.len()
                &&& forall|i: int|
                    0 <= i < names@.len() ==> is_result_column(
                        #[trigger] out@[k].spec_columns()[i],
                        names@[i]@,
                        i,
                        all_rows,
                    )
            } by {
                assert(out@[k].spec_values() == all_rows[k]@);
                assert(out@[k].spec_columns() == old_columns@);
            }
        }
        Ok(out)
    }

    /// Where `index` points in the row, as a column lookup resolves it: a
    /// position within the row, or the last column with the name.
    pub fn position(&self, index: &ColumnRef) -> (r: Result<usize, Error>)
        ensures
            match column_position(self.spec_columns(), *index) {
                Ok(i) => r == Ok::<usize, Error>(i as usize) && 0 <= i < self.spec_values().len(),
                Err(e) => r == Err::<usize, Error>(e),
            },
    {
        proof {
            use_type_invariant(self);
            if index is Name {
                lemma_name_finds_last_column(self.spec_columns(), index->Name_0@);
            }
        }
        let columns: &Vec<DoColumn> = &*self.columns;
        assert(columns@ == self.spec_columns());
        match index {
            ColumnRef::Ordinal(i) => {
                if *i >= columns.len() {
                    Err(Error::ColumnIndexOutOfBounds { position: *i, len: columns.len() })
                } else {
                    Ok(*i)
                }
            },
            ColumnRef::Name(name) => {
                let mut k = columns.len();
                assert(columns@.take(k as int) =~= columns@);
                while k > 0
                    invariant
                        k <= columns@.len(),
                        columns@ == self.spec_columns(),
                        self.spec_values().len() == columns@.len(),
                        *index == ColumnRef::Name(*name),
                        last_named(columns@, name@) == last_named(columns@.take(k as int), name@),
                    decreases k,
                {
                    proof {
                        assert(columns@.take(k as int).drop_last() =~= columns@.take(k - 1));
                    }
                    if columns[k - 1].name == *name {
                        assert(columns@.take(k as int).last() == columns@[k - 1]);
                        assert(last_named(columns@.take(k as int), name@) == Some(k - 1));
                        return Ok(k - 1);
                    }
                    k = k - 1;
                }
                Err(Error::ColumnNotFound(name.clone()))
            },
        }
    }

    /// The value `index` points at.
    pub fn try_get_raw(&self, index: &ColumnRef) -> (r: Result<&Value, Error>)
        ensures
            match column_position(self.spec_columns(), *index) {
                Ok(i) => r matches Ok(v) && *v == self.spec_values()[i],
                Err(e) => r == Err::<&Value, Error>(e),
            },
    {
        let i = self.position(index)?;
        assert(self.values@.len() == self.values.len());
        Ok(&self.values[i])
    }

    /// The value `index` points at, decoded as `target` without checking
    /// that the type is compatible first.
    pub fn try_get_unchecked(&self, index: &ColumnRef, target: RustType) -> (r: Result<
        Decoded,
        Error,
    >)
        ensures
            match column_position(self.spec_columns(), *index) {
                Ok(i) => decoded_at(self.spec_values()[i], *index, target, r),
                Err(e) => r == Err::<Decoded, Error>(e),
            },
    {
        let value = self.try_get_raw(index)?;
        match decode(value, target) {
            Ok(d) => Ok(d),
            Err(source) => Err(Error::ColumnDecode { index: copy_ref(index), source }),
        }
    }

    /// The value `index` points at, decoded as `target`: what a checked
    /// read of a type that is not an `Option` does.
    ///
    /// A value that is not `NULL`, of a storage class the type is not
    /// compatible with, is refused before decoding. `NULL` decodes as no type
    /// but an `Option`.
    pub fn try_get(&self, index: &ColumnRef, target: RustType) -> (r: Result<Decoded, Error>)
        ensures
            match column_position(self.spec_columns(), *index) {
                Ok(i) => {
                    let v = self.spec_values()[i];
                    if !(v is Null) && !is_compatible(target, value_type(v)) {
                        r == Err::<Decoded, Error>(
                            Error::Incompatible { index: *index, target, found: value_type(v) },
                        )
                    } else {
                        decoded_at(v, *index, target, r)
                    }
                },
                Err(e) => r == Err::<Decoded, Error>(e),
            },
    {
        let value = self.try_get_raw(index)?;
        if !value.is_null() {
            let ty = value.type_info();
            if !target.compatible(ty) {
                return Err(Error::Incompatible { index: copy_ref(index), target, found: ty });
            }
        }
        match decode(value, target) {
            Ok(d) => Ok(d),
            Err(source) => Err(Error::ColumnDecode { index: copy_ref(index), source }),
        }
    }

    /// The value `index` points at, decoded as an `Option` of `target`:
    /// `NULL` is `None`, anything else as [`try_get`](Self::try_get) reads it.
    pub fn try_get_optional(&self, index: &ColumnRef, target: RustType) -> (r: Result<
        Option<Decoded>,
        Error,
    >)
        ensures
            match column_position(self.spec_columns(), *index) {
                Ok(i) => {
                    let v = self.spec_values()[i];
                    if v is Null {
                        r == Ok::<Option<Decoded>, Error>(None)
                    } else if !is_compatible(target, value_type(v)) {
                        r == Err::<Option<Decoded>, Error>(
                            Error::Incompatible { index: *index, target, found: value_type(v) },
                        )
                    } else {
                        match decode_error(v, target) {
                            Some(e) => r == Err::<Option<Decoded>, Error>(
                                Error::ColumnDecode { index: *index, source: e },
                            ),
                            None => r matches Ok(Some(d)) && decodes_as(v, target, d),
                        }
                    }
                },
                Err(e) => r == Err::<Option<Decoded>, Error>(e),
            },
    {
        let value = self.try_get_raw(index)?;
        if value.is_null() {
            return Ok(None);
        }
        let ty = value.type_info();
        if !target.compatible(ty) {
            return Err(Error::Incompatible { index: copy_ref(index), target, found: ty });
        }
        match decode(value, target) {
            Ok(d) => Ok(Some(d)),
            Err(source) => Err(Error::ColumnDecode { index: copy_ref(index), source }),
        }
    }

    /// The row's columns.
    pub fn columns(&self) -> (r: &Vec<DoColumn>)
        ensures
            r@ == self.spec_columns(),
    {
        &*self.columns
    }

    /// The row's values, one per column.
    pub fn values(&self) -> (r: &Vec<Value>)
        ensures
            r@ == self.spec_values(),
    {
        &self.values
    }
}

/// What `SELECT changes(), last_insert_rowid()` says a statement did, read
/// from the rows it returned: the count of changes, which must not be
/// negative, and the rowid.
pub open spec fn changes_of(changes: Seq<DoRow>) -> Result<(u64, i64), Error> {
    if changes.len() == 0 {
        Err(Error::Protocol(ProtocolFailure::NoChangesRow))
    } else {
        let values = changes[0].spec_values();
        match (values[0], values[1]) {
            (Value::Integer(count), Value::Integer(rowid)) => if count < 0 {
                Err(Error::Decode(DecodeFailure::NegativeChanges(count)))
            } else {
                Ok((count as u64, rowid))
            },
            (Value::Integer(_), other) => Err(
                Error::Decode(
                    DecodeFailure::Value(
                        ValueError::Mismatch { expected: TypeInfo::Integer, found: value_type(other) },
                    ),
                ),
            ),
            (other, _) => Err(
                Error::Decode(
                    DecodeFailure::Value(
                        ValueError::Mismatch { expected: TypeInfo::Integer, found: value_type(other) },
                    ),
                ),
            ),
        }
    }
}

/// What a statement run for its effect did on Durable Object storage.
///
/// The cursor reports the rows a statement wrote, but neither count SQLite
/// keeps, so those come from `SELECT changes(), last_insert_rowid()` asked
/// right after -- and only after a statement that wrote: `changes()` keeps
/// the count of the last write, and a `SELECT` must not report the `INSERT`
/// before it. `changes` is what that query returned; it is not read when
/// nothing was written.
///
/// # Errors
///
/// When the query returned no row, a value that is not an `INTEGER`, or a
/// negative count.
pub fn run_result(rows_written: u64, changes: &Vec<DoRow>) -> (r: Result<QueryResult, Error>)
    requires
        rows_written > 0 && changes.len() > 0 ==> changes[0].spec_values().len() >= 2,
    ensures
        rows_written == 0 ==> reports(r, 0, None),
        rows_written > 0 ==> match changes_of(changes@) {
            Ok((count, rowid)) => reports(r, count as nat, Some(rowid)),
            Err(e) => r == Err::<QueryResult, Error>(e),
        },
{
    if rows_written == 0 {
        return Ok(QueryResult::new(0, None));
    }
    if changes.len() == 0 {
        return Err(Error::Protocol(ProtocolFailure::NoChangesRow));
    }
    let values = changes[0].values();
    let count = match values[0].integer() {
        Ok(count) => count,
        Err(e) => return Err(Error::Decode(DecodeFailure::Value(e))),
    };
    let rowid = match values[1].integer() {
        Ok(rowid) => rowid,
        Err(e) => return Err(Error::Decode(DecodeFailure::Value(e))),
    };
    if count < 0 {
        return Err(Error::Decode(DecodeFailure::NegativeChanges(count)));
    }
    Ok(QueryResult::new(count as u64, Some(rowid)))
}

/// Whether a row read off a cursor is kept, when `kept` rows already are:
/// while fewer than `limit` are, or always if there is no limit.
pub open spec fn keeps(kept: int, limit: Option<usize>) -> bool {
    match limit {
        Some(n) => kept < n,
        None => true,
    }
}

/// How many rows are kept once `read` rows have been read off a cursor,
/// each kept as [`keeps`] says.
pub open spec fn rows_kept(read: nat, limit: Option<usize>) -> nat
    decreases read,
{
    if read == 0 {
        0
    } else {
        let kept = rows_kept((read - 1) as nat, limit);
        if keeps(kept as int, limit) {
            kept + 1
        } else {
            kept
        }
    }
}

/// Reading a whole cursor row by row keeps its first `min(read, limit)`
/// rows -- all of them with no limit -- and no row after them: the rows past
/// the limit are read, and dropped.
pub proof fn lemma_rows_kept_are_the_first(read: nat, limit: Option<usize>)
    ensures
        rows_kept(read, limit) == match limit {
            Some(n) => if read < n {
                read
            } else {
                n as nat
            },
            None => read,
        },
        forall|i: nat|
            i < read ==> (keeps(#[trigger] rows_kept(i, limit) as int, limit) <==> i < rows_kept(
                read,
                limit,
            )),
    decreases read,
{
    if read > 0 {
        lemma_rows_kept_are_the_first((read - 1) as nat, limit);
        assert forall|i: nat| i < read implies (keeps(#[trigger] rows_kept(i, limit) as int, limit)
            <==> i < rows_kept(read, limit)) by {
            lemma_rows_kept_are_the_first(i, limit);
        }
    }
}

/// Whether a row read off a cursor is kept, when `kept` rows already are:
/// at most `limit` of them, all if there is no limit. The rows past the
/// limit are still read -- a statement like `INSERT ... RETURNING` only
/// finishes as its cursor is drained -- just not kept.
pub fn keeps_row(kept: usize, limit: Option<usize>) -> (r: bool)
    ensures
        r == keeps(kept as int, limit),
{
    match limit {
        Some(n) => kept < n,
        None => true,
    }
}

/// What `SELECT changes(), last_insert_rowid()` answers is read as a count
/// exactly when the count is not negative -- zero changes, after a
/// statement that wrote only the schema, is a count like any other -- and
/// then the count and the rowid are the ones it answered.
pub proof fn lemma_changes_are_any_count_not_negative(changes: Seq<DoRow>, count: i64, rowid: i64)
    requires
        changes.len() > 0,
        changes[0].spec_values().len() >= 2,
        changes[0].spec_values()[0] == Value::Integer(count),
        changes[0].spec_values()[1] == Value::Integer(rowid),
    ensures
        changes_of(changes) is Ok <==> count >= 0,
        changes_of(changes) matches Ok((n, id)) ==> n == count && id == rowid,
        count < 0 ==> changes_of(changes) == Err::<(u64, i64), Error>(
            Error::Decode(DecodeFailure::NegativeChanges(count)),
        ),
{
}

} // verus!
