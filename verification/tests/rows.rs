use sqlx_cloudflare::error::{ColumnRef, DecodeFailure, Error, ProtocolFailure};
use sqlx_cloudflare::query_result::QueryResult;
use sqlx_cloudflare::row::{keeps_row, run_result, DoRow};
use sqlx_cloudflare::types::{Decoded, RustType};
use sqlx_cloudflare::value::{TypeInfo, Value, ValueError};

fn names(names: &[&str]) -> Vec<String> {
    names.iter().map(|name| (*name).to_owned()).collect()
}

fn types(row: &DoRow) -> Vec<TypeInfo> {
    row.columns().iter().map(|column| column.type_info()).collect()
}

#[test]
fn row_a_column_is_typed_by_its_first_non_null_value() {
    let rows = DoRow::from_result(
        names(&["id", "name", "gone"]),
        vec![
            vec![Value::Integer(1), Value::Null, Value::Null],
            vec![Value::Integer(2), Value::Text("b".into()), Value::Null],
        ],
    )
    .unwrap();
    assert_eq!(types(&rows[0]), [TypeInfo::Integer, TypeInfo::Text, TypeInfo::Null]);

    let rows = DoRow::from_result(
        names(&["id", "name"]),
        vec![
            vec![Value::Integer(1), Value::Null],
            vec![Value::Integer(2), Value::Text("b".into())],
        ],
    )
    .unwrap();
    assert_eq!(types(&rows[0]), [TypeInfo::Integer, TypeInfo::Text]);
}

#[test]
fn a_short_row_is_an_error() {
    assert!(DoRow::from_result(names(&["a", "b"]), vec![vec![Value::Null]]).is_err());
}

#[test]
fn the_first_row_of_the_wrong_width_is_reported() {
    let result = DoRow::from_result(
        names(&["a"]),
        vec![vec![Value::Null], vec![Value::Null, Value::Null], vec![]],
    );
    assert_eq!(result.err(), Some(Error::RowWidth { values: 2, columns: 1 }));
}

#[test]
fn every_row_shares_the_columns_in_order() {
    let rows = DoRow::from_result(
        names(&["a", "b"]),
        vec![vec![Value::Null, Value::Integer(1)], vec![Value::Real(0.5_f64.to_bits()), Value::Null]],
    )
    .unwrap();
    assert_eq!(rows.len(), 2);
    for row in &rows {
        let columns = row.columns();
        assert_eq!(columns.len(), 2);
        assert_eq!(columns[0].name(), "a");
        assert_eq!(columns[0].ordinal(), 0);
        assert_eq!(columns[1].name(), "b");
        assert_eq!(columns[1].ordinal(), 1);
        assert_eq!(types(row), [TypeInfo::Real, TypeInfo::Integer]);
    }
    assert_eq!(rows[1].values(), &vec![Value::Real(0.5_f64.to_bits()), Value::Null]);
}

#[test]
fn no_rows_is_no_rows() {
    assert_eq!(DoRow::from_result(names(&["a"]), Vec::new()).unwrap().len(), 0);
}

#[test]
fn a_name_finds_the_last_column_that_has_it() {
    let rows = DoRow::from_result(
        names(&["id", "id"]),
        vec![vec![Value::Integer(1), Value::Integer(2)]],
    )
    .unwrap();

    let row = &rows[0];
    assert_eq!(
        row.try_get(&ColumnRef::Ordinal(0), RustType::I64).unwrap(),
        Decoded::Integer(1)
    );
    assert_eq!(
        row.try_get(&ColumnRef::Name("id".into()), RustType::I64).unwrap(),
        Decoded::Integer(2)
    );
    assert!(row.try_get_raw(&ColumnRef::Name("missing".into())).is_err());
}

#[test]
fn a_column_that_is_not_there_is_an_error() {
    let rows = DoRow::from_result(names(&["a"]), vec![vec![Value::Integer(1)]]).unwrap();
    assert_eq!(
        rows[0].try_get_raw(&ColumnRef::Name("b".into())).err(),
        Some(Error::ColumnNotFound("b".into()))
    );
    assert_eq!(
        rows[0].try_get_raw(&ColumnRef::Ordinal(1)).err(),
        Some(Error::ColumnIndexOutOfBounds { position: 1, len: 1 })
    );
    assert_eq!(rows[0].position(&ColumnRef::Name("a".into())), Ok(0));
}

#[test]
fn a_value_carries_its_own_type() {
    let rows = DoRow::from_result(
        names(&["n"]),
        vec![vec![Value::Integer(1)], vec![Value::Real(1.5_f64.to_bits())]],
    )
    .unwrap();

    // The column says INTEGER, from the first row; the second row's value
    // is still a REAL, and that is what decoding checks.
    assert_eq!(rows[1].try_get_raw(&ColumnRef::Ordinal(0)).unwrap().type_info().name(), "REAL");
    assert!(rows[1].try_get(&ColumnRef::Ordinal(0), RustType::I64).is_err());
    match rows[1].try_get(&ColumnRef::Ordinal(0), RustType::F64).unwrap() {
        Decoded::Real(bits) => assert!((f64::from_bits(bits) - 1.5).abs() < f64::EPSILON),
        other => panic!("{other:?}"),
    }
}

#[test]
fn an_incompatible_type_is_refused_before_decoding() {
    let rows = DoRow::from_result(names(&["t"]), vec![vec![Value::Text("x".into())]]).unwrap();
    let index = ColumnRef::Name("t".into());
    assert_eq!(
        rows[0].try_get(&index, RustType::I64),
        Err(Error::Incompatible { index: index.clone(), target: RustType::I64, found: TypeInfo::Text })
    );
    // Unchecked, it is decoding that refuses it.
    assert_eq!(
        rows[0].try_get_unchecked(&index, RustType::I64),
        Err(Error::ColumnDecode {
            index: index.clone(),
            source: ValueError::Mismatch { expected: TypeInfo::Integer, found: TypeInfo::Text },
        })
    );
    assert_eq!(
        rows[0].try_get_optional(&index, RustType::Str),
        Ok(Some(Decoded::Text("x".into())))
    );
}

fn changes_row(values: Vec<Value>) -> Vec<DoRow> {
    DoRow::from_result(names(&["changes()", "last_insert_rowid()"]), vec![values]).unwrap()
}

#[test]
fn a_statement_that_wrote_nothing_reports_nothing() {
    // Not even what the last write's `changes()` still says.
    let stale = changes_row(vec![Value::Integer(5), Value::Integer(9)]);
    assert_eq!(run_result(0, &stale), Ok(QueryResult::new(0, None)));
    assert_eq!(run_result(0, &Vec::new()), Ok(QueryResult::new(0, None)));
}

#[test]
fn a_statement_that_wrote_reports_changes_and_rowid() {
    let rows = changes_row(vec![Value::Integer(3), Value::Integer(42)]);
    assert_eq!(run_result(3, &rows), Ok(QueryResult::new(3, Some(42))));
}

#[test]
fn a_changes_answer_that_breaks_the_protocol_is_an_error() {
    assert_eq!(
        run_result(1, &Vec::new()),
        Err(Error::Protocol(ProtocolFailure::NoChangesRow))
    );
    assert_eq!(
        run_result(1, &changes_row(vec![Value::Integer(-1), Value::Integer(1)])),
        Err(Error::Decode(DecodeFailure::NegativeChanges(-1)))
    );
    assert_eq!(
        run_result(1, &changes_row(vec![Value::Null, Value::Integer(1)])),
        Err(Error::Decode(DecodeFailure::Value(ValueError::Mismatch {
            expected: TypeInfo::Integer,
            found: TypeInfo::Null,
        })))
    );
    assert_eq!(
        run_result(1, &changes_row(vec![Value::Integer(1), Value::Text("x".into())])),
        Err(Error::Decode(DecodeFailure::Value(ValueError::Mismatch {
            expected: TypeInfo::Integer,
            found: TypeInfo::Text,
        })))
    );
}

#[test]
fn at_most_limit_rows_are_kept() {
    assert!(keeps_row(0, Some(1)));
    assert!(!keeps_row(1, Some(1)));
    assert!(!keeps_row(0, Some(0)));
    assert!(keeps_row(usize::MAX, None));
}

#[test]
fn reading_a_cursor_keeps_its_first_rows() {
    for limit in [None, Some(0), Some(2), Some(10)] {
        let mut kept = 0_usize;
        let mut read = 0_usize;
        for _ in 0..5 {
            read += 1;
            if keeps_row(kept, limit) {
                kept += 1;
            }
        }
        assert_eq!(read, 5);
        assert_eq!(kept, limit.map_or(5, |n| n.min(5)));
    }
}
