use sqlite_exec::column_value::ColumnValue;
use sqlite_exec::error::Error;
use sqlite_exec::exec::Exec;
use sqlite_exec::exec::ExecApplesScan;
use sqlite_exec::exec::ExecDummy;
use sqlite_exec::exec::ExecProjection;
use sqlite_exec::exec::ExecScan;
use sqlite_exec::join::ExecJoinHash;
use sqlite_exec::join::JoinType;
use sqlite_exec::key::key_eq_exec;
use sqlite_exec::physical_expr::PhysicalExpr;
use sqlite_exec::record::DataRecord;
use sqlite_exec::record::Schema;
use sqlite_exec::record::SchemaColumn;
use sqlite_exec::record::StorageClass;

fn text(s: &str) -> ColumnValue {
    ColumnValue::Text(s.to_owned())
}

fn rec(values: Vec<ColumnValue>) -> DataRecord {
    DataRecord { values, rowid: None, num_header_bytes: 0 }
}

fn schema(cols: Vec<(&str, StorageClass)>) -> Schema {
    let columns = cols
        .into_iter()
        .map(|(name, column_type)| SchemaColumn { name: name.to_owned(), column_type })
        .collect();
    Schema { columns }
}

fn scan(rows: Vec<DataRecord>, cols: Vec<(&str, StorageClass)>) -> Box<Exec> {
    Box::new(Exec::Scan(ExecScan { rows, schema: schema(cols) }))
}

fn join(
    left: Box<Exec>,
    right: Box<Exec>,
    on: Vec<(usize, usize)>,
    join_type: JoinType,
) -> Exec {
    Exec::HashJoin(ExecJoinHash::try_new(left, right, on, &join_type).unwrap())
}

fn build_side() -> Box<Exec> {
    scan(
        vec![rec(vec![ColumnValue::int32(1), text("x")])],
        vec![("k", StorageClass::Integer), ("a", StorageClass::Text)],
    )
}

fn probe_side() -> Box<Exec> {
    scan(
        vec![
            rec(vec![ColumnValue::int32(1), text("y")]),
            rec(vec![ColumnValue::int32(2), text("z")]),
        ],
        vec![("k", StorageClass::Integer), ("b", StorageClass::Text)],
    )
}

#[test]
fn test_join_on_1_column_pair() {
    let tree = join(build_side(), probe_side(), vec![(0, 0)], JoinType::Inner);
    let out = tree.execute().unwrap();
    assert_eq!(out.len(), 1);
    assert_eq!(
        out[0],
        rec(vec![ColumnValue::int32(1), text("x"), ColumnValue::int32(1), text("y")])
    );
}

#[test]
fn test_left_join_emits_unmatched_build_row_once_with_nulls() {
    let build = scan(
        vec![
            rec(vec![ColumnValue::int32(1), text("x")]),
            rec(vec![ColumnValue::int32(9), text("lonely")]),
        ],
        vec![("k", StorageClass::Integer), ("a", StorageClass::Text)],
    );
    let tree = join(build, probe_side(), vec![(0, 0)], JoinType::Left);
    let out = tree.execute().unwrap();
    assert_eq!(out.len(), 2);
    assert_eq!(
        out[0],
        rec(vec![ColumnValue::int32(1), text("x"), ColumnValue::int32(1), text("y")])
    );
    assert_eq!(
        out[1],
        rec(vec![ColumnValue::int32(9), text("lonely"), ColumnValue::Null, ColumnValue::Null])
    );
}

#[test]
fn test_right_join_emits_unmatched_probe_rows_with_nulls() {
    let tree = join(build_side(), probe_side(), vec![(0, 0)], JoinType::Right);
    let out = tree.execute().unwrap();
    assert_eq!(out.len(), 2);
    assert_eq!(
        out[0],
        rec(vec![ColumnValue::int32(1), text("x"), ColumnValue::int32(1), text("y")])
    );
    assert_eq!(
        out[1],
        rec(vec![ColumnValue::Null, ColumnValue::Null, ColumnValue::int32(2), text("z")])
    );
}

#[test]
fn test_full_join_appends_unmatched_build_rows_after_probe_pass() {
    let build = scan(
        vec![
            rec(vec![ColumnValue::int32(9), text("lonely")]),
            rec(vec![ColumnValue::int32(1), text("x")]),
        ],
        vec![("k", StorageClass::Integer), ("a", StorageClass::Text)],
    );
    let tree = join(build, probe_side(), vec![(0, 0)], JoinType::Full);
    let out = tree.execute().unwrap();
    assert_eq!(out.len(), 3);
    // probe-row-major pass first
    assert_eq!(
        out[0],
        rec(vec![ColumnValue::int32(1), text("x"), ColumnValue::int32(1), text("y")])
    );
    assert_eq!(
        out[1],
        rec(vec![ColumnValue::Null, ColumnValue::Null, ColumnValue::int32(2), text("z")])
    );
    // unmatched build rows appended after, in build order
    assert_eq!(
        out[2],
        rec(vec![ColumnValue::int32(9), text("lonely"), ColumnValue::Null, ColumnValue::Null])
    );
}

#[test]
fn test_semi_join_emits_matched_build_rows_once() {
    let build = scan(
        vec![
            rec(vec![ColumnValue::int32(1), text("x")]),
            rec(vec![ColumnValue::int32(9), text("lonely")]),
        ],
        vec![("k", StorageClass::Integer), ("a", StorageClass::Text)],
    );
    // both probe rows match build row 0; it must still come out exactly once
    let probe = scan(
        vec![
            rec(vec![ColumnValue::int32(1), text("y")]),
            rec(vec![ColumnValue::int32(1), text("z")]),
        ],
        vec![("k", StorageClass::Integer), ("b", StorageClass::Text)],
    );
    let tree = join(build, probe, vec![(0, 0)], JoinType::Semi);
    let out = tree.execute().unwrap();
    assert_eq!(out.len(), 1);
    assert_eq!(out[0], rec(vec![ColumnValue::int32(1), text("x")]));
}

#[test]
fn test_anti_join_emits_never_matched_build_rows_once() {
    let build = scan(
        vec![
            rec(vec![ColumnValue::int32(1), text("x")]),
            rec(vec![ColumnValue::int32(9), text("lonely")]),
        ],
        vec![("k", StorageClass::Integer), ("a", StorageClass::Text)],
    );
    let tree = join(build, probe_side(), vec![(0, 0)], JoinType::Anti);
    let out = tree.execute().unwrap();
    assert_eq!(out.len(), 1);
    assert_eq!(out[0], rec(vec![ColumnValue::int32(9), text("lonely")]));
}

#[test]
fn test_inner_join_fans_out_every_match() {
    let build = scan(
        vec![
            rec(vec![ColumnValue::int32(1), text("x1")]),
            rec(vec![ColumnValue::int32(1), text("x2")]),
        ],
        vec![("k", StorageClass::Integer), ("a", StorageClass::Text)],
    );
    let probe = scan(
        vec![rec(vec![ColumnValue::int32(1), text("y")])],
        vec![("k", StorageClass::Integer), ("b", StorageClass::Text)],
    );
    let tree = join(build, probe, vec![(0, 0)], JoinType::Inner);
    let out = tree.execute().unwrap();
    // one probe row with two build matches yields two rows, in build order
    assert_eq!(out.len(), 2);
    assert_eq!(
        out[0],
        rec(vec![ColumnValue::int32(1), text("x1"), ColumnValue::int32(1), text("y")])
    );
    assert_eq!(
        out[1],
        rec(vec![ColumnValue::int32(1), text("x2"), ColumnValue::int32(1), text("y")])
    );
}

#[test]
fn test_null_keyed_rows_never_match_even_each_other() {
    let build = scan(
        vec![rec(vec![ColumnValue::Null, text("x")])],
        vec![("k", StorageClass::Integer), ("a", StorageClass::Text)],
    );
    let probe = scan(
        vec![rec(vec![ColumnValue::Null, text("y")])],
        vec![("k", StorageClass::Integer), ("b", StorageClass::Text)],
    );
    let tree = join(build, probe, vec![(0, 0)], JoinType::Inner);
    assert_eq!(tree.execute().unwrap().len(), 0);

    assert!(!key_eq_exec(&ColumnValue::Null, &ColumnValue::Null));
    assert!(!key_eq_exec(&ColumnValue::Null, &ColumnValue::int32(0)));
}

#[test]
fn test_join_keys_normalize_integer_widths() {
    assert!(key_eq_exec(&ColumnValue::int8(1), &ColumnValue::int64(1)));
    assert!(key_eq_exec(&ColumnValue::Zero, &ColumnValue::int32(0)));
    assert!(key_eq_exec(&ColumnValue::One, &ColumnValue::int8(1)));
    assert!(!key_eq_exec(&ColumnValue::int8(-1), &ColumnValue::int32(255)));
    assert!(!key_eq_exec(&text("1"), &ColumnValue::int32(1)));
    assert!(!key_eq_exec(&text("ab"), &ColumnValue::Blob(vec![b'a', b'b'])));
    assert!(key_eq_exec(&text("ab"), &text("ab")));

    // cross-width keys also match through the hash index
    let build = scan(
        vec![rec(vec![ColumnValue::int8(1), text("x")])],
        vec![("k", StorageClass::Integer), ("a", StorageClass::Text)],
    );
    let probe = scan(
        vec![rec(vec![ColumnValue::int64(1), text("y")])],
        vec![("k", StorageClass::Integer), ("b", StorageClass::Text)],
    );
    let tree = join(build, probe, vec![(0, 0)], JoinType::Inner);
    assert_eq!(tree.execute().unwrap().len(), 1);
}

#[test]
fn test_join_with_empty_on_fails_with_configuration_error() {
    let r = ExecJoinHash::try_new(build_side(), probe_side(), vec![], &JoinType::Inner);
    assert!(matches!(r, Err(Error::ConfigurationError)));
}

#[test]
fn test_join_on_incompatible_declared_types_fails_before_execution() {
    let left = scan(
        vec![rec(vec![text("a")])],
        vec![("t", StorageClass::Text)],
    );
    let right = scan(
        vec![rec(vec![ColumnValue::Blob(vec![1])])],
        vec![("b", StorageClass::Blob)],
    );
    let r = ExecJoinHash::try_new(left, right, vec![(0, 0)], &JoinType::Inner);
    assert!(matches!(r, Err(Error::TypeMismatch)));
}

#[test]
fn test_join_schema_is_left_then_right_or_left_only() {
    let j = ExecJoinHash::try_new(build_side(), probe_side(), vec![(0, 0)], &JoinType::Inner)
        .unwrap();
    let s = Exec::HashJoin(j).schema();
    let names: Vec<&str> = s.columns.iter().map(|c| c.name.as_str()).collect();
    assert_eq!(names, vec!["k", "a", "k", "b"]);

    let j = ExecJoinHash::try_new(build_side(), probe_side(), vec![(0, 0)], &JoinType::Semi)
        .unwrap();
    let s = Exec::HashJoin(j).schema();
    let names: Vec<&str> = s.columns.iter().map(|c| c.name.as_str()).collect();
    assert_eq!(names, vec!["k", "a"]);
}

#[test]
fn test_projection_preserves_row_count_and_order() {
    let tree = Exec::Projection(ExecProjection {
        input: Box::new(Exec::ApplesScan(ExecApplesScan {})),
        expressions: vec![PhysicalExpr::Column(1), PhysicalExpr::Column(0)],
    });
    let out = tree.execute().unwrap();
    assert_eq!(out.len(), 4);
    assert_eq!(out[0], rec(vec![text("Light Green"), text("Granny Smith")]));
    assert_eq!(out[3], rec(vec![text("Yellow"), text("Golden Delicious")]));
    // the row identifier is dropped and the header count reset
    assert_eq!(out[0].rowid, None);
    assert_eq!(out[0].num_header_bytes, 0);
}

#[test]
fn test_projection_with_zero_expressions_yields_zero_width_rows() {
    let tree = Exec::Projection(ExecProjection {
        input: Box::new(Exec::ApplesScan(ExecApplesScan {})),
        expressions: vec![],
    });
    let out = tree.execute().unwrap();
    assert_eq!(out.len(), 4);
    for row in &out {
        assert_eq!(row.values.len(), 0);
    }
}

#[test]
fn test_projection_literal_and_out_of_range_column() {
    let tree = Exec::Projection(ExecProjection {
        input: Box::new(Exec::ApplesScan(ExecApplesScan {})),
        expressions: vec![PhysicalExpr::Literal(ColumnValue::int32(7))],
    });
    let out = tree.execute().unwrap();
    assert_eq!(out.len(), 4);
    assert_eq!(out[2], rec(vec![ColumnValue::int32(7)]));

    let tree = Exec::Projection(ExecProjection {
        input: Box::new(Exec::ApplesScan(ExecApplesScan {})),
        expressions: vec![PhysicalExpr::Column(5)],
    });
    assert_eq!(tree.execute(), Err(Error::ColumnOutOfRange));
}

#[test]
fn test_apples_scan_fixture_rows() {
    let tree = Exec::ApplesScan(ExecApplesScan {});
    let out = tree.execute().unwrap();
    assert_eq!(out.len(), 4);
    assert_eq!(out[0].values, vec![text("Granny Smith"), text("Light Green")]);
    assert_eq!(out[0].rowid, Some(1));
    assert_eq!(out[3].rowid, Some(4));
    let s = tree.schema();
    assert_eq!(s.columns.len(), 2);
    assert_eq!(s.columns[0].name, "name");
    assert_eq!(s.columns[0].column_type, StorageClass::Text);
}

#[test]
fn test_dummy_operator_reports_unimplemented() {
    let tree = Exec::Dummy(ExecDummy {});
    assert_eq!(tree.execute(), Err(Error::Unimplemented));
}

#[test]
fn test_scan_returns_supplied_rows_in_order() {
    let rows = vec![
        rec(vec![ColumnValue::int32(3)]),
        rec(vec![ColumnValue::int32(1)]),
        rec(vec![ColumnValue::int32(2)]),
    ];
    let tree = Exec::Scan(ExecScan {
        rows: rows.iter().map(|r| rec(r.values.clone())).collect(),
        schema: schema(vec![("v", StorageClass::Integer)]),
    });
    let out = tree.execute().unwrap();
    assert_eq!(out, rows);
}
