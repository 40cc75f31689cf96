use batch_pipeline::batch::{Batch, Cell, Column};
use batch_pipeline::error::ErrorKind;
use batch_pipeline::schema::{DataType, Field, Schema};

fn field(name: &str, data_type: DataType, nullable: bool) -> Field {
    Field::new(name.to_string(), data_type, nullable)
}

fn pair() -> Schema {
    Schema::new(vec![field("id", DataType::Int32, false), field("name", DataType::Utf8, true)])
}

fn texts(values: &[Option<&str>]) -> Column {
    Column::Utf8(values.iter().map(|v| v.map(|t| t.to_string())).collect())
}

fn refused(schema: Schema, columns: Vec<Column>) -> String {
    let e = Batch::try_new(schema, columns).unwrap_err();
    assert_eq!(e.kind(), ErrorKind::SchemaMismatch);
    e.detail().clone()
}

#[test]
fn a_batch_holds_what_it_was_made_of() {
    let columns = vec![Column::Int32(vec![Some(1), Some(2)]), texts(&[Some("foo"), None])];
    let batch = Batch::try_new(pair(), columns).unwrap();
    assert_eq!(batch.num_rows(), 2);
    assert_eq!(batch.num_columns(), 2);
    assert!(batch.schema().same_as(&pair()));
    assert_eq!(batch.cell(0, 0), Cell::Int32(1));
    assert_eq!(batch.cell(0, 1), Cell::Int32(2));
    assert_eq!(batch.cell(1, 0), Cell::Utf8("foo".to_string()));
    assert_eq!(batch.cell(1, 1), Cell::Null);
}

#[test]
fn a_batch_may_have_no_rows() {
    let batch = Batch::try_new(pair(), vec![Column::Int32(vec![]), texts(&[])]).unwrap();
    assert_eq!(batch.num_rows(), 0);
}

#[test]
fn a_copy_of_a_batch_holds_the_same_values() {
    let columns = vec![Column::Int32(vec![Some(5)]), texts(&[Some("x")])];
    let copy = Batch::try_new(pair(), columns).unwrap().clone();
    assert_eq!(copy.cell(0, 0), Cell::Int32(5));
    assert_eq!(copy.cell(1, 0), Cell::Utf8("x".to_string()));
}

#[test]
fn columns_that_differ_in_number_from_the_schema_are_refused() {
    let detail = refused(pair(), vec![Column::Int32(vec![Some(1)])]);
    assert_eq!(detail, "the schema and the columns differ in number");
}

#[test]
fn no_columns_are_refused() {
    assert_eq!(refused(Schema::empty(), vec![]), "a batch has at least one column");
}

#[test]
fn a_repeated_column_name_is_refused() {
    let schema = Schema::new(vec![field("id", DataType::Int32, true), field("id", DataType::Int32, true)]);
    let columns = vec![Column::Int32(vec![Some(1)]), Column::Int32(vec![Some(2)])];
    assert_eq!(refused(schema, columns), "the schema names a column twice");
}

#[test]
fn a_column_of_another_type_is_refused() {
    let columns = vec![texts(&[Some("1")]), texts(&[Some("foo")])];
    assert_eq!(refused(pair(), columns), "a column is not of the type that the schema declares");
}

#[test]
fn columns_of_different_lengths_are_refused() {
    let columns = vec![Column::Int32(vec![Some(1), Some(2)]), texts(&[Some("foo")])];
    assert_eq!(refused(pair(), columns), "the columns differ in length");
}

#[test]
fn a_null_in_a_non_nullable_column_is_refused() {
    let columns = vec![Column::Int32(vec![Some(1), None]), texts(&[Some("foo"), Some("bar")])];
    assert_eq!(
        refused(pair(), columns),
        "a column that the schema declares non-nullable holds a null"
    );
}

#[test]
fn column_reports_length_type_and_nulls() {
    let numbers = Column::Int32(vec![Some(1), None, Some(3)]);
    assert_eq!(numbers.len(), 3);
    assert_eq!(numbers.data_type(), DataType::Int32);
    assert!(numbers.has_null());
    assert!(numbers.fits());
    let words = texts(&[Some("héllo"), Some("")]);
    assert_eq!(words.len(), 2);
    assert_eq!(words.data_type(), DataType::Utf8);
    assert!(!words.has_null());
    assert!(words.fits());
    assert_eq!(words.cell(0), Cell::Utf8("héllo".to_string()));
    assert_eq!(numbers.cell(1), Cell::Null);
}

#[test]
fn columns_of_truth_values_and_wide_numbers_report_their_cells() {
    let flags = Column::Boolean(vec![Some(true), None]);
    assert_eq!(flags.data_type(), DataType::Boolean);
    assert!(flags.has_null());
    assert_eq!(flags.cell(0), Cell::Boolean(true));
    assert_eq!(flags.cell(1), Cell::Null);
    let wide = Column::Int64(vec![Some(1 << 40)]);
    assert_eq!(wide.data_type(), DataType::Int64);
    assert!(!wide.has_null());
    assert_eq!(wide.len(), 1);
    assert_eq!(wide.cell(0), Cell::Int64(1 << 40));
    assert_eq!(wide.clone().cell(0), Cell::Int64(1 << 40));
}
