use sqlx_cloudflare::query_result::{answer_without_call, QueryResult};

#[test]
fn query_result_extend_sums_changes_and_keeps_the_last_reported_rowid() {
    let mut result = QueryResult::default();

    result.extend(vec![
        QueryResult::new(2, Some(7)),
        QueryResult::new(1, Some(9)),
        QueryResult::new(0, None),
    ]);

    assert_eq!(result.rows_affected(), 3);
    assert_eq!(result.last_insert_rowid(), Some(9));
}

#[test]
fn extending_twice_is_extending_once_with_both() {
    let first = vec![QueryResult::new(1, Some(3)), QueryResult::new(4, None)];
    let second = vec![QueryResult::new(0, None), QueryResult::new(2, Some(5))];

    let mut twice = QueryResult::new(1, Some(1));
    twice.extend(first.clone());
    twice.extend(second.clone());

    let mut once = QueryResult::new(1, Some(1));
    once.extend(first.into_iter().chain(second).collect());

    assert_eq!(twice, once);
    assert_eq!(once.rows_affected(), 8);
    assert_eq!(once.last_insert_rowid(), Some(5));
}

#[test]
fn nothing_reported_keeps_what_was_there() {
    let mut result = QueryResult::new(3, Some(11));
    result.extend(vec![QueryResult::new(0, None)]);
    assert_eq!(result, QueryResult::new(3, Some(11)));
    result.extend(Vec::new());
    assert_eq!(result, QueryResult::new(3, Some(11)));
}

#[test]
fn d1_meta_numbers_become_counts() {
    let result = QueryResult::from_meta(Some(2.0_f64.to_bits()), Some(41.0_f64.to_bits()));
    assert_eq!(result, QueryResult::new(2, Some(41)));
    assert_eq!(QueryResult::from_meta(None, None), QueryResult::new(0, None));
    assert_eq!(
        QueryResult::from_meta(Some((-3.0_f64).to_bits()), Some((-7.9_f64).to_bits())),
        QueryResult::new(0, Some(-7))
    );
}

#[test]
fn an_empty_batch_is_answered_without_a_call() {
    assert_eq!(answer_without_call::<QueryResult>(0), Some(Vec::new()));
    assert_eq!(answer_without_call::<QueryResult>(2), None);
}
