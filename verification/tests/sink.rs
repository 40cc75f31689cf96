use batch_pipeline::batch::{Batch, Column};
use batch_pipeline::error::{Error, ErrorKind};
use batch_pipeline::schema::{DataType, Field, Schema};
use batch_pipeline::sink::{
    write_batches_to_file, write_df_to_file, Progress, Sink, SinkState, StreamEvent,
};
use datafusion::arrow::array::{Array, BooleanArray, Int32Array, Int64Array, StringArray};
use datafusion::arrow::datatypes::DataType as ArrowType;
use parquet::arrow::arrow_reader::ParquetRecordBatchReaderBuilder;

fn schema() -> Schema {
    Schema::new(vec![
        Field::new("id".to_string(), DataType::Int32, false),
        Field::new("name".to_string(), DataType::Utf8, true),
    ])
}

fn batch(ids: &[i32], names: &[Option<&str>]) -> Batch {
    let ids = Column::Int32(ids.iter().map(|v| Some(*v)).collect());
    let names = Column::Utf8(names.iter().map(|v| v.map(|t| t.to_string())).collect());
    Batch::try_new(schema(), vec![ids, names]).unwrap()
}

fn other_batch() -> Batch {
    let schema = Schema::new(vec![Field::new("x".to_string(), DataType::Int32, true)]);
    Batch::try_new(schema, vec![Column::Int32(vec![Some(1)])]).unwrap()
}

fn read(bytes: Vec<u8>) -> (Vec<(String, String, bool)>, Vec<Vec<String>>) {
    let builder = ParquetRecordBatchReaderBuilder::try_new(bytes::Bytes::from(bytes)).unwrap();
    let fields = builder
        .schema()
        .fields()
        .iter()
        .map(|f| (f.name().clone(), format!("{:?}", f.data_type()), f.is_nullable()))
        .collect();
    let mut rows = Vec::new();
    for batch in builder.build().unwrap() {
        let batch = batch.unwrap();
        for row in 0..batch.num_rows() {
            let mut cells = Vec::new();
            for column in batch.columns() {
                cells.push(if column.is_null(row) {
                    "null".to_string()
                } else if *column.data_type() == ArrowType::Int32 {
                    column.as_any().downcast_ref::<Int32Array>().unwrap().value(row).to_string()
                } else if *column.data_type() == ArrowType::Int64 {
                    column.as_any().downcast_ref::<Int64Array>().unwrap().value(row).to_string()
                } else if *column.data_type() == ArrowType::Boolean {
                    column.as_any().downcast_ref::<BooleanArray>().unwrap().value(row).to_string()
                } else {
                    column.as_any().downcast_ref::<StringArray>().unwrap().value(row).to_string()
                });
            }
            rows.push(cells);
        }
    }
    (fields, rows)
}

fn expected_fields() -> Vec<(String, String, bool)> {
    vec![("id".to_string(), "Int32".to_string(), false), ("name".to_string(), "Utf8".to_string(), true)]
}

fn text(values: &[&str]) -> Vec<String> {
    values.iter().map(|v| v.to_string()).collect()
}

#[test]
fn a_new_sink_is_unopened_and_refuses_write_and_close() {
    let mut sink = Sink::new();
    assert_eq!(sink.state(), SinkState::Unopened);
    assert_eq!(sink.write(&batch(&[1], &[None])).unwrap_err().kind(), ErrorKind::InvalidState);
    assert_eq!(sink.close().unwrap_err().kind(), ErrorKind::InvalidState);
    assert_eq!(sink.state(), SinkState::Unopened);
}

#[test]
fn open_write_close_goes_through_the_states() {
    let mut sink = Sink::new();
    sink.open(&schema()).unwrap();
    assert_eq!(sink.state(), SinkState::Open);
    assert!(sink.schema().same_as(&schema()));
    sink.write(&batch(&[1, 2], &[Some("foo"), None])).unwrap();
    assert_eq!(sink.state(), SinkState::Open);
    let bytes = sink.close().unwrap();
    assert_eq!(sink.state(), SinkState::Closed);
    let (fields, rows) = read(bytes);
    assert_eq!(fields, expected_fields());
    assert_eq!(rows, vec![text(&["1", "foo"]), text(&["2", "null"])]);
}

#[test]
fn a_sink_cannot_be_opened_twice() {
    let mut sink = Sink::new();
    sink.open(&schema()).unwrap();
    assert_eq!(sink.open(&schema()).unwrap_err().kind(), ErrorKind::InvalidState);
    assert_eq!(sink.state(), SinkState::Open);
}

#[test]
fn a_closed_sink_refuses_everything() {
    let mut sink = Sink::new();
    sink.open(&schema()).unwrap();
    sink.close().unwrap();
    assert_eq!(sink.write(&batch(&[1], &[None])).unwrap_err().kind(), ErrorKind::InvalidState);
    assert_eq!(sink.close().unwrap_err().kind(), ErrorKind::InvalidState);
    assert_eq!(sink.open(&schema()).unwrap_err().kind(), ErrorKind::InvalidState);
    assert_eq!(sink.state(), SinkState::Closed);
}

#[test]
fn a_batch_of_another_schema_is_refused_and_the_sink_stays_open() {
    let mut sink = Sink::new();
    sink.open(&schema()).unwrap();
    sink.write(&batch(&[1], &[Some("a")])).unwrap();
    assert_eq!(sink.write(&other_batch()).unwrap_err().kind(), ErrorKind::SchemaMismatch);
    assert_eq!(sink.state(), SinkState::Open);
    sink.write(&batch(&[2], &[Some("b")])).unwrap();
    let (_, rows) = read(sink.close().unwrap());
    assert_eq!(rows, vec![text(&["1", "a"]), text(&["2", "b"])]);
}

#[test]
fn writing_a_batch_twice_doubles_its_rows() {
    let mut sink = Sink::new();
    sink.open(&schema()).unwrap();
    let once = batch(&[7], &[Some("x")]);
    sink.write(&once).unwrap();
    sink.write(&once).unwrap();
    let (_, rows) = read(sink.close().unwrap());
    assert_eq!(rows, vec![text(&["7", "x"]), text(&["7", "x"])]);
}

#[test]
fn a_sink_closed_without_batches_yields_a_file_without_rows() {
    let mut sink = Sink::new();
    sink.open(&schema()).unwrap();
    let (fields, rows) = read(sink.close().unwrap());
    assert_eq!(fields, expected_fields());
    assert!(rows.is_empty());
}

#[test]
fn an_abandoned_sink_is_closed() {
    let mut sink = Sink::new();
    sink.abandon();
    assert_eq!(sink.state(), SinkState::Unopened);
    sink.open(&schema()).unwrap();
    sink.abandon();
    assert_eq!(sink.state(), SinkState::Closed);
    assert_eq!(sink.close().unwrap_err().kind(), ErrorKind::InvalidState);
}

#[test]
fn feeding_batches_and_the_end_finishes_with_the_file() {
    let mut sink = Sink::new();
    sink.open(&schema()).unwrap();
    assert!(matches!(sink.feed(StreamEvent::Batch(batch(&[1], &[Some("a")]))), Progress::Continue));
    assert!(matches!(sink.feed(StreamEvent::Batch(batch(&[2, 3], &[None, Some("c")]))), Progress::Continue));
    match sink.feed(StreamEvent::End) {
        Progress::Finished(bytes) => {
            let (_, rows) = read(bytes);
            assert_eq!(rows, vec![text(&["1", "a"]), text(&["2", "null"]), text(&["3", "c"])]);
        }
        _ => panic!("the run did not finish"),
    }
    assert_eq!(sink.state(), SinkState::Closed);
}

#[test]
fn a_failure_of_the_stream_aborts_the_run_and_gives_the_sink_up() {
    let mut sink = Sink::new();
    sink.open(&schema()).unwrap();
    assert!(matches!(sink.feed(StreamEvent::Batch(batch(&[1], &[None]))), Progress::Continue));
    let broken = Error::new(ErrorKind::EngineError, "stream broke".to_string());
    match sink.feed(StreamEvent::Failed(broken)) {
        Progress::Aborted(e) => {
            assert_eq!(e.kind(), ErrorKind::EngineError);
            assert_eq!(e.detail(), "stream broke");
        }
        _ => panic!("the run was not aborted"),
    }
    assert_eq!(sink.state(), SinkState::Closed);
    match sink.feed(StreamEvent::End) {
        Progress::Aborted(e) => assert_eq!(e.kind(), ErrorKind::InvalidState),
        _ => panic!("a closed sink took an event"),
    }
}

#[test]
fn a_batch_of_another_schema_aborts_a_fed_run() {
    let mut sink = Sink::new();
    sink.open(&schema()).unwrap();
    match sink.feed(StreamEvent::Batch(other_batch())) {
        Progress::Aborted(e) => assert_eq!(e.kind(), ErrorKind::SchemaMismatch),
        _ => panic!("the run was not aborted"),
    }
    assert_eq!(sink.state(), SinkState::Closed);
}

#[test]
fn persisted_batches_load_with_the_same_schema_rows_and_values() {
    let batches = vec![batch(&[1, 2, 3], &[Some("foo"), Some("bar"), Some("baz")]), batch(&[4], &[None])];
    let (fields, rows) = read(write_batches_to_file(&batches).unwrap());
    assert_eq!(fields, expected_fields());
    assert_eq!(
        rows,
        vec![text(&["1", "foo"]), text(&["2", "bar"]), text(&["3", "baz"]), text(&["4", "null"])]
    );
}

#[test]
fn persisting_nothing_without_a_schema_fails() {
    let e = write_batches_to_file(&vec![]).unwrap_err();
    assert_eq!(e.kind(), ErrorKind::SchemaMismatch);
}

#[test]
fn persisting_nothing_under_a_schema_gives_a_loadable_file_without_rows() {
    let (fields, rows) = read(write_df_to_file(&schema(), &vec![]).unwrap());
    assert_eq!(fields, expected_fields());
    assert!(rows.is_empty());
}

#[test]
fn persisting_a_batch_of_another_schema_fails() {
    let e = write_batches_to_file(&vec![batch(&[1], &[None]), other_batch()]).unwrap_err();
    assert_eq!(e.kind(), ErrorKind::SchemaMismatch);
    let e = write_df_to_file(&schema(), &vec![other_batch()]).unwrap_err();
    assert_eq!(e.kind(), ErrorKind::SchemaMismatch);
}

#[test]
fn batches_without_rows_add_nothing_to_the_file() {
    let batches = vec![batch(&[], &[]), batch(&[9], &[Some("z")]), batch(&[], &[])];
    let (_, rows) = read(write_batches_to_file(&batches).unwrap());
    assert_eq!(rows, vec![text(&["9", "z"])]);
}

#[test]
fn the_same_batches_give_the_same_bytes() {
    let batches = vec![batch(&[1, 2], &[Some("a"), Some("a")]), batch(&[3], &[Some("b")])];
    let first = write_batches_to_file(&batches).unwrap();
    let second = write_df_to_file(&schema(), &batches).unwrap();
    assert!(!first.is_empty());
    assert_eq!(first, second);
}

#[test]
fn every_element_type_is_persisted_and_loaded() {
    let schema = Schema::new(vec![
        Field::new("flag".to_string(), DataType::Boolean, false),
        Field::new("big".to_string(), DataType::Int64, true),
    ]);
    let columns = vec![
        Column::Boolean(vec![Some(false), Some(true)]),
        Column::Int64(vec![Some(-5_000_000_000), None]),
    ];
    let batch = Batch::try_new(schema, columns).unwrap();
    let (fields, rows) = read(write_batches_to_file(&vec![batch]).unwrap());
    assert_eq!(
        fields,
        vec![
            ("flag".to_string(), "Boolean".to_string(), false),
            ("big".to_string(), "Int64".to_string(), true),
        ]
    );
    assert_eq!(rows, vec![text(&["false", "-5000000000"]), text(&["true", "null"])]);
}

#[test]
fn only_batches_without_rows_give_a_file_without_rows() {
    let batches = vec![batch(&[], &[]), batch(&[], &[])];
    let (fields, rows) = read(write_batches_to_file(&batches).unwrap());
    assert_eq!(fields, expected_fields());
    assert!(rows.is_empty());
    let (_, rows) = read(write_df_to_file(&schema(), &batches).unwrap());
    assert!(rows.is_empty());
}

#[test]
fn the_same_batch_written_twice_is_held_twice() {
    let once = batch(&[1, 2], &[Some("a"), None]);
    let (_, rows) = read(write_batches_to_file(&vec![once.clone(), once]).unwrap());
    assert_eq!(
        rows,
        vec![text(&["1", "a"]), text(&["2", "null"]), text(&["1", "a"]), text(&["2", "null"])]
    );
}
