use batch_pipeline::error::ErrorKind;
use batch_pipeline::schema::{DataType, Field, JoinKind, Resolution, Schema};

fn field(name: &str, data_type: DataType, nullable: bool) -> Field {
    Field::new(name.to_string(), data_type, nullable)
}

fn sample() -> Schema {
    Schema::new(vec![
        field("id", DataType::Int32, false),
        field("name", DataType::Utf8, true),
        field("id", DataType::Int32, true),
    ])
}

fn shape(schema: &Schema) -> Vec<(String, DataType, bool)> {
    (0..schema.len())
        .map(|i| {
            let f = schema.field(i);
            (f.name.clone(), f.data_type, f.nullable)
        })
        .collect()
}

#[test]
fn resolve_tells_missing_unique_and_ambiguous_apart() {
    let schema = sample();
    assert_eq!(schema.resolve(&"name".to_string()), Resolution::Unique(1));
    assert_eq!(schema.resolve(&"id".to_string()), Resolution::Ambiguous);
    assert_eq!(schema.resolve(&"data".to_string()), Resolution::Missing);
    assert_eq!(Schema::empty().resolve(&"id".to_string()), Resolution::Missing);
}

#[test]
fn resolve_is_case_sensitive() {
    assert_eq!(sample().resolve(&"Name".to_string()), Resolution::Missing);
}

#[test]
fn unique_names_are_told_from_repeated_ones() {
    assert!(!sample().has_unique_names());
    assert!(Schema::empty().has_unique_names());
    let distinct = Schema::new(vec![field("a", DataType::Int32, true), field("b", DataType::Int32, true)]);
    assert!(distinct.has_unique_names());
}

#[test]
fn same_as_compares_name_type_and_nullability() {
    let base = Schema::new(vec![field("a", DataType::Int32, true)]);
    assert!(base.same_as(&base.clone()));
    assert!(!base.same_as(&Schema::new(vec![field("a", DataType::Int32, false)])));
    assert!(!base.same_as(&Schema::new(vec![field("a", DataType::Utf8, true)])));
    assert!(!base.same_as(&Schema::new(vec![field("b", DataType::Int32, true)])));
    assert!(!base.same_as(&Schema::empty()));
}

#[test]
fn renamed_changes_one_name_only() {
    let out = sample().renamed(1, &"label".to_string());
    assert_eq!(
        shape(&out),
        vec![
            ("id".to_string(), DataType::Int32, false),
            ("label".to_string(), DataType::Utf8, true),
            ("id".to_string(), DataType::Int32, true),
        ]
    );
}

#[test]
fn pick_follows_the_order_of_the_positions() {
    let out = sample().pick(&vec![1, 0]);
    assert_eq!(
        shape(&out),
        vec![("name".to_string(), DataType::Utf8, true), ("id".to_string(), DataType::Int32, false)]
    );
}

#[test]
fn join_schema_depends_on_the_kind() {
    let left = Schema::new(vec![field("k", DataType::Int32, false)]);
    let right = Schema::new(vec![field("v", DataType::Utf8, false)]);
    let k = |nullable| ("k".to_string(), DataType::Int32, nullable);
    let v = |nullable| ("v".to_string(), DataType::Utf8, nullable);
    assert_eq!(shape(&left.joined_with(&right, JoinKind::Inner)), vec![k(false), v(false)]);
    assert_eq!(shape(&left.joined_with(&right, JoinKind::LeftOuter)), vec![k(false), v(true)]);
    assert_eq!(shape(&left.joined_with(&right, JoinKind::RightOuter)), vec![k(true), v(false)]);
    assert_eq!(shape(&left.joined_with(&right, JoinKind::FullOuter)), vec![k(true), v(true)]);
    assert_eq!(shape(&left.joined_with(&right, JoinKind::Semi)), vec![k(false)]);
    assert_eq!(shape(&left.joined_with(&right, JoinKind::Anti)), vec![k(false)]);
}

#[test]
fn resolve_all_gives_positions_in_the_order_asked() {
    let schema = Schema::new(vec![
        field("a", DataType::Int32, true),
        field("b", DataType::Int32, true),
        field("c", DataType::Int32, true),
    ]);
    let found = schema.resolve_all(&vec!["c".to_string(), "a".to_string()]).unwrap();
    assert_eq!(found, vec![2, 0]);
    assert_eq!(schema.resolve_all(&vec![]).unwrap(), Vec::<usize>::new());
}

#[test]
fn an_absent_name_is_reported_before_an_ambiguous_one() {
    let schema = sample();
    let names = vec!["name".to_string(), "id".to_string(), "data".to_string(), "x".to_string()];
    let e = schema.resolve_all(&names).unwrap_err();
    assert_eq!(e.kind(), ErrorKind::ColumnNotFound);
    assert_eq!(e.detail(), "data");
    assert_eq!(schema.first_absent(&names), Some(2));
    assert_eq!(schema.first_ambiguous(&names), Some(1));
}

#[test]
fn the_first_ambiguous_name_is_reported_where_none_is_absent() {
    let schema = sample();
    let names = vec!["name".to_string(), "id".to_string(), "id".to_string()];
    let e = schema.resolve_all(&names).unwrap_err();
    assert_eq!(e.kind(), ErrorKind::AmbiguousColumn);
    assert_eq!(e.detail(), "id");
    assert_eq!(schema.first_absent(&names), None);
    assert_eq!(schema.first_ambiguous(&vec!["name".to_string()]), None);
}
