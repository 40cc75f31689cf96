use batch_pipeline::batch::{Batch, Column};
use batch_pipeline::error::ErrorKind;
use batch_pipeline::schema::{DataType, Field, JoinKind, Schema};
use batch_pipeline::table::{process_batches, Plan, TableHandle};

fn field(name: &str, data_type: DataType) -> Field {
    Field::new(name.to_string(), data_type, true)
}

fn numbers(names: &[&str]) -> TableHandle {
    let schema = Schema::new(names.iter().map(|n| field(n, DataType::Int32)).collect());
    let columns = names.iter().map(|_| Column::Int32(vec![Some(1), Some(2)])).collect();
    TableHandle::build_literal(schema, columns).unwrap()
}

fn column_names(handle: &TableHandle) -> Vec<String> {
    let schema = handle.schema();
    (0..schema.len()).map(|i| schema.field(i).name.clone()).collect()
}

fn text(values: &[&str]) -> Vec<String> {
    values.iter().map(|v| v.to_string()).collect()
}

#[test]
fn build_literal_keeps_schema_and_holds_one_batch() {
    let handle = numbers(&["a", "b"]);
    assert_eq!(column_names(&handle), text(&["a", "b"]));
    match handle.plan() {
        Plan::Literal { batches, .. } => {
            assert_eq!(batches.len(), 1);
            assert_eq!(batches[0].num_rows(), 2);
        }
        other => panic!("not a literal plan: {other:?}"),
    }
}

#[test]
fn build_literal_refuses_columns_of_different_lengths() {
    let schema = Schema::new(vec![field("a", DataType::Int32), field("b", DataType::Int32)]);
    let columns = vec![Column::Int32(vec![Some(1)]), Column::Int32(vec![Some(1), Some(2)])];
    let e = TableHandle::build_literal(schema, columns).unwrap_err();
    assert_eq!(e.kind(), ErrorKind::SchemaMismatch);
}

#[test]
fn build_literal_refuses_a_column_of_another_type() {
    let schema = Schema::new(vec![field("a", DataType::Utf8)]);
    let e = TableHandle::build_literal(schema, vec![Column::Int32(vec![Some(1)])]).unwrap_err();
    assert_eq!(e.kind(), ErrorKind::SchemaMismatch);
}

#[test]
fn the_empty_table_has_no_columns_and_no_batches() {
    let handle = TableHandle::empty();
    assert_eq!(handle.schema().len(), 0);
    assert!(matches!(handle.plan(), Plan::Literal { batches, .. } if batches.is_empty()));
}

#[test]
fn rename_changes_the_named_column() {
    let handle = numbers(&["a", "b"]).with_column_renamed("a".to_string(), "z".to_string()).unwrap();
    assert_eq!(column_names(&handle), text(&["z", "b"]));
    assert!(matches!(handle.plan(), Plan::Renamed { from, to, .. } if from == "a" && to == "z"));
}

#[test]
fn rename_of_an_absent_column_changes_nothing() {
    let handle = numbers(&["a", "b"]).with_column_renamed("q".to_string(), "z".to_string()).unwrap();
    assert_eq!(column_names(&handle), text(&["a", "b"]));
}

#[test]
fn a_copy_of_a_handle_has_the_same_schema_and_plan() {
    let handle = numbers(&["a", "b"]).select_columns(text(&["b"])).unwrap();
    let copy = handle.clone();
    assert_eq!(column_names(&copy), text(&["b"]));
    assert!(matches!(copy.plan(), Plan::Selected { names, .. } if *names == text(&["b"])));
    let joined = handle.join(copy, JoinKind::Inner, text(&["b"]), text(&["b"])).unwrap();
    assert_eq!(column_names(&joined), text(&["b", "b"]));
}

#[test]
fn select_cuts_down_and_reorders() {
    let handle = numbers(&["a", "b", "c"]).select_columns(text(&["c", "a"])).unwrap();
    assert_eq!(column_names(&handle), text(&["c", "a"]));
}

#[test]
fn select_of_an_absent_column_is_column_not_found() {
    let e = numbers(&["a", "b"]).select_columns(text(&["a", "x", "y"])).unwrap_err();
    assert_eq!(e.kind(), ErrorKind::ColumnNotFound);
    assert_eq!(e.detail(), "x");
    assert_eq!(e.message(), "column not found: `x`");
}

#[test]
fn join_concatenates_the_schemas() {
    let joined = numbers(&["a", "b"])
        .join(numbers(&["c", "d"]), JoinKind::Inner, text(&["a"]), text(&["c"]))
        .unwrap();
    assert_eq!(column_names(&joined), text(&["a", "b", "c", "d"]));
    assert!(matches!(joined.plan(), Plan::Joined { kind: JoinKind::Inner, .. }));
}

#[test]
fn semi_and_anti_joins_keep_the_left_columns() {
    for kind in [JoinKind::Semi, JoinKind::Anti] {
        let joined = numbers(&["a", "b"]).join(numbers(&["c"]), kind, text(&["a"]), text(&["c"])).unwrap();
        assert_eq!(column_names(&joined), text(&["a", "b"]));
    }
}

#[test]
fn names_repeated_across_a_join_are_ambiguous_only_when_referred_to() {
    let joined = numbers(&["id", "a"])
        .join(numbers(&["id", "b"]), JoinKind::Inner, text(&["id"]), text(&["id"]))
        .unwrap();
    assert_eq!(column_names(&joined), text(&["id", "a", "id", "b"]));
    let e = joined.select_columns(text(&["a", "id"])).unwrap_err();
    assert_eq!(e.kind(), ErrorKind::AmbiguousColumn);
    assert_eq!(e.detail(), "id");
    let joined = numbers(&["id", "a"])
        .join(numbers(&["id", "b"]), JoinKind::Inner, text(&["id"]), text(&["id"]))
        .unwrap();
    let e = joined.with_column_renamed("id".to_string(), "k".to_string()).unwrap_err();
    assert_eq!(e.kind(), ErrorKind::AmbiguousColumn);
    let joined = numbers(&["id", "a"])
        .join(numbers(&["id", "b"]), JoinKind::Inner, text(&["id"]), text(&["id"]))
        .unwrap();
    assert_eq!(column_names(&joined.select_columns(text(&["b", "a"])).unwrap()), text(&["b", "a"]));
}

#[test]
fn join_refuses_key_lists_of_different_lengths() {
    let e = numbers(&["a", "b"])
        .join(numbers(&["c"]), JoinKind::Inner, text(&["a", "b"]), text(&["c"]))
        .unwrap_err();
    assert_eq!(e.kind(), ErrorKind::EngineError);
}

#[test]
fn join_reports_a_left_key_before_a_right_key() {
    let e = numbers(&["a"])
        .join(numbers(&["c"]), JoinKind::Inner, text(&["x"]), text(&["y"]))
        .unwrap_err();
    assert_eq!(e.kind(), ErrorKind::ColumnNotFound);
    assert_eq!(e.detail(), "x");
    let e = numbers(&["a"])
        .join(numbers(&["c"]), JoinKind::Inner, text(&["a"]), text(&["y"]))
        .unwrap_err();
    assert_eq!(e.kind(), ErrorKind::ColumnNotFound);
    assert_eq!(e.detail(), "y");
}

#[test]
fn join_reports_an_absent_key_before_an_ambiguous_one() {
    let twice = |names: &[&str]| {
        numbers(&["id", "a"])
            .join(numbers(&["id", "b"]), JoinKind::Inner, text(&["id"]), text(&["id"]))
            .unwrap()
            .join(numbers(&["c"]), JoinKind::Inner, text(&[names[0]]), text(&[names[1]]))
            .unwrap_err()
    };
    let e = twice(&["id", "missing"]);
    assert_eq!(e.kind(), ErrorKind::ColumnNotFound);
    assert_eq!(e.detail(), "missing");
    let e = twice(&["id", "c"]);
    assert_eq!(e.kind(), ErrorKind::AmbiguousColumn);
    assert_eq!(e.detail(), "id");
}

#[test]
fn join_refuses_keys_of_different_types() {
    let words = TableHandle::build_literal(
        Schema::new(vec![field("w", DataType::Utf8)]),
        vec![Column::Utf8(vec![Some("1".to_string())])],
    )
    .unwrap();
    let e = numbers(&["a"]).join(words, JoinKind::Inner, text(&["a"]), text(&["w"])).unwrap_err();
    assert_eq!(e.kind(), ErrorKind::EngineError);
}

fn batch(name: &str, values: Vec<Option<i32>>) -> Batch {
    Batch::try_new(Schema::new(vec![field(name, DataType::Int32)]), vec![Column::Int32(values)]).unwrap()
}

#[test]
fn process_batches_takes_the_schema_of_the_first() {
    let handle = process_batches(vec![batch("a", vec![Some(1)]), batch("a", vec![Some(2), None])]).unwrap();
    assert_eq!(column_names(&handle), text(&["a"]));
    assert!(matches!(handle.plan(), Plan::Literal { batches, .. } if batches.len() == 2));
}

#[test]
fn process_batches_of_nothing_is_the_empty_table() {
    let handle = process_batches(vec![]).unwrap();
    assert_eq!(handle.schema().len(), 0);
}

#[test]
fn process_batches_refuses_a_batch_of_another_schema() {
    let e = process_batches(vec![batch("a", vec![Some(1)]), batch("b", vec![Some(2)])]).unwrap_err();
    assert_eq!(e.kind(), ErrorKind::SchemaMismatch);
}
