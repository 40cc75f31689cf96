//! The streaming sink: batches of one schema are taken in one by one and
//! encoded into a columnar file, which is complete once the sink is
//! closed. The file is built in memory; putting it on disk is the caller's
//! part.
//!
//! What stands here about `parquet` is believed, not proved: each wrapper says in
//! its documentation which function of `parquet` it calls and what is claimed
//! of it.

use crate::batch::{Batch, BatchView, ColumnView};
use crate::columnar::{
    arrow_batch_columns, arrow_batch_fields, arrow_fields, arrow_schema, to_arrow, ArrowBatch,
};
use crate::error::Error;
use crate::schema::{FieldView, Schema};
use crate::table::batches_view;
use datafusion::arrow::datatypes::Schema as ArrowSchema;
use parquet::arrow::arrow_writer::ArrowWriter;
use parquet::errors::ParquetError;
use std::sync::Arc;
use vstd::prelude::*;

verus! {

/// A `parquet` writer that encodes into memory. Verus cannot take the type
/// itself, so it is held here and never looked into by verified code.
#[verifier::external_body]
pub struct ParquetWriter {
    inner: ArrowWriter<Vec<u8>>,
}

/// The columns of the schema that a writer was opened with.
pub uninterp spec fn writer_fields(writer: ParquetWriter) -> Seq<FieldView>;

/// The batches that a writer has taken in, in order, each as its columns.
/// Batches without rows leave no trace in a writer and are not among them.
pub uninterp spec fn writer_batches(writer: ParquetWriter) -> Seq<Seq<ColumnView>>;

/// The bytes of the file that `parquet`, with its default properties, makes of
/// the given batches under the given schema.
pub uninterp spec fn parquet_file(
    fields: Seq<FieldView>,
    batches: Seq<Seq<ColumnView>>,
) -> Seq<u8>;

/// Whether `parquet` opens a writer for a schema that lists `fields`.
pub uninterp spec fn writer_opens(fields: Seq<FieldView>) -> bool;

/// Whether a writer that was opened for `fields` and has taken in `batches`
/// takes in a further batch of these columns.
pub uninterp spec fn writer_takes(
    fields: Seq<FieldView>,
    batches: Seq<Seq<ColumnView>>,
    columns: Seq<ColumnView>,
) -> bool;

/// Whether a writer that was opened for `fields` and has taken in `batches`
/// completes its file.
pub uninterp spec fn writer_finishes(
    fields: Seq<FieldView>,
    batches: Seq<Seq<ColumnView>>,
) -> bool;

/// The number of rows of a batch given as its columns.
pub open spec fn rows_of(columns: Seq<ColumnView>) -> nat {
    if columns.len() == 0 {
        0
    } else {
        columns[0].len()
    }
}

/// What a writer holds after it took in one more batch: a batch without rows
/// changes nothing.
pub open spec fn taken_in(
    batches: Seq<Seq<ColumnView>>,
    columns: Seq<ColumnView>,
) -> Seq<Seq<ColumnView>> {
    if rows_of(columns) == 0 {
        batches
    } else {
        batches.push(columns)
    }
}

/// The batches that a writer holds after it took in each of `written`, in
/// order.
pub open spec fn kept(written: Seq<BatchView>) -> Seq<Seq<ColumnView>>
    decreases written.len(),
{
    if written.len() == 0 {
        Seq::empty()
    } else {
        taken_in(kept(written.drop_last()), written.last().columns)
    }
}

/// A sink that has accepted one more batch holds what it held and, after it,
/// that batch, unless the batch has no rows. So a batch written twice is held
/// twice.
pub proof fn lemma_kept_push(written: Seq<BatchView>, batch: BatchView)
    ensures
        kept(written.push(batch)) == taken_in(kept(written), batch.columns),
        kept(Seq::<BatchView>::empty()) == Seq::<Seq<ColumnView>>::empty(),
        rows_of(batch.columns) > 0 ==> kept(written.push(batch).push(batch)) == kept(written).push(
            batch.columns,
        ).push(batch.columns),
{
    let once = written.push(batch);
    let twice = once.push(batch);
    assert(once.drop_last() =~= written);
    assert(twice.drop_last() =~= once);
    assert(kept(once) == taken_in(kept(written), batch.columns));
    assert(kept(twice) == taken_in(kept(once), batch.columns));
}

/// A sink that has accepted only batches without rows holds nothing.
pub proof fn lemma_kept_without_rows(batches: Seq<BatchView>, n: int)
    requires
        0 <= n <= batches.len(),
        forall|i: int| 0 <= i < n ==> rows_of((#[trigger] batches[i]).columns) == 0,
    ensures
        kept(batches.take(n)) == Seq::<Seq<ColumnView>>::empty(),
    decreases n,
{
    if n > 0 {
        lemma_kept_without_rows(batches, n - 1);
        assert(batches.take(n).drop_last() =~= batches.take(n - 1));
        assert(batches.take(n).last() == batches[n - 1]);
    }
}

/// Calls `ArrowWriter::try_new` on an empty buffer, without properties.
///
/// Claimed: whether a writer comes back depends on the schema alone; one that
/// does is of the given schema and has taken in nothing.
#[verifier::external_body]
fn open_writer(schema: &Arc<ArrowSchema>) -> (out: Result<ParquetWriter, ParquetError>)
    ensures
        out is Ok <==> writer_opens(arrow_fields(**schema)),
        out matches Ok(writer) ==> writer_fields(writer) == arrow_fields(**schema)
            && writer_batches(writer) == Seq::<Seq<ColumnView>>::empty(),
{
    ArrowWriter::try_new(Vec::new(), schema.clone(), None).map(|inner| ParquetWriter { inner })
}

/// Calls `ArrowWriter::write`.
///
/// Claimed: the writer keeps its schema; whether the call succeeds depends on
/// the schema, on what the writer has taken in, and on the batch; a batch
/// without rows is always taken; where the call succeeds, the writer has
/// taken in the batch after those it held, and a batch without rows has
/// changed nothing. Left out: a batch of another schema than the writer's,
/// which `write` does not check for.
#[verifier::external_body]
fn write_batch(writer: &mut ParquetWriter, batch: &ArrowBatch) -> (out: Result<(), ParquetError>)
    requires
        arrow_batch_fields(*batch) == writer_fields(*old(writer)),
    ensures
        writer_fields(*final(writer)) == writer_fields(*old(writer)),
        out is Ok <==> writer_takes(
            writer_fields(*old(writer)),
            writer_batches(*old(writer)),
            arrow_batch_columns(*batch),
        ),
        rows_of(arrow_batch_columns(*batch)) == 0 ==> out is Ok,
        out is Ok ==> writer_batches(*final(writer)) == taken_in(
            writer_batches(*old(writer)),
            arrow_batch_columns(*batch),
        ),
{
    writer.inner.write(&batch.inner)
}

/// Calls `ArrowWriter::into_inner`, which flushes what is buffered, writes the
/// footer and hands back the buffer.
///
/// Claimed: whether bytes come back depends on the writer's schema and on
/// what it has taken in; bytes that do are the file of these batches under
/// this schema.
#[verifier::external_body]
fn finish_writer(writer: ParquetWriter) -> (out: Result<Vec<u8>, ParquetError>)
    ensures
        out is Ok <==> writer_finishes(writer_fields(writer), writer_batches(writer)),
        out matches Ok(bytes) ==> bytes@ == parquet_file(
            writer_fields(writer),
            writer_batches(writer),
        ),
{
    writer.inner.into_inner()
}

/// Where a sink stands in its life.
#[derive(Clone, Copy, Debug, PartialEq, Eq, Structural)]
pub enum SinkState {
    /// Not opened yet: it has no schema and takes no batches.
    Unopened,
    /// Open: it takes batches of its schema.
    Open,
    /// Closed, or abandoned after a failure: it takes nothing any more.
    Closed,
}

/// A sink as a mathematical value: its state, the schema it was opened with
/// (empty before), and the batches it has accepted, in order.
pub struct SinkView {
    pub state: SinkState,
    pub schema: Seq<FieldView>,
    pub written: Seq<BatchView>,
}

impl SinkView {
    /// Whether this sink accepts `batch`: it is open, the batch is of its
    /// schema, and the writer takes the batch after those accepted before.
    pub open spec fn accepts(self, batch: BatchView) -> bool {
        &&& self.state is Open
        &&& batch.schema == self.schema
        &&& writer_takes(self.schema, kept(self.written), batch.columns)
    }

    /// Whether this sink, when closed, yields a file: it is open, and the
    /// writer completes the file of what was accepted.
    pub open spec fn completes(self) -> bool {
        &&& self.state is Open
        &&& writer_finishes(self.schema, kept(self.written))
    }

    /// This sink given up: closed where it was open, else as it is.
    pub open spec fn abandoned(self) -> SinkView {
        SinkView {
            state: if self.state is Open {
                SinkState::Closed
            } else {
                self.state
            },
            ..self
        }
    }
}

/// A destination that takes in batches of one schema and, when closed, yields
/// the bytes of a columnar file that holds them.
pub struct Sink {
    state: SinkState,
    schema: Schema,
    writer: Option<ParquetWriter>,
    written: Ghost<Seq<BatchView>>,
}

impl View for Sink {
    type V = SinkView;

    closed spec fn view(&self) -> SinkView {
        SinkView { state: self.state, schema: self.schema@, written: self.written@ }
    }
}

/// One event of a stream of batches.
pub enum StreamEvent {
    /// The next batch.
    Batch(Batch),
    /// The stream broke off with a failure.
    Failed(Error),
    /// The stream has ended.
    End,
}

/// What a sink answers to an event of the stream that feeds it.
pub enum Progress {
    /// The batch is in; the next event may come.
    Continue,
    /// The stream has ended and the file is complete: these are its bytes.
    Finished(Vec<u8>),
    /// The run is over without a file: this is why.
    Aborted(Error),
}

impl Sink {
    /// Whether the sink is sound: it holds a writer exactly while it is open,
    /// and the writer then has the sink's schema and has taken in what the
    /// sink accepted; a sink that is not opened yet has accepted nothing.
    pub closed spec fn wf(&self) -> bool {
        &&& self.state is Open <==> self.writer is Some
        &&& self.state is Unopened ==> self.written@.len() == 0 && self.schema@.len() == 0
        &&& self.writer matches Some(writer) ==> writer_fields(writer) == self.schema@
            && writer_batches(writer) == kept(self.written@)
    }

    /// A sink that is not opened yet.
    pub fn new() -> (sink: Sink)
        ensures
            sink.wf(),
            sink@ == (SinkView {
                state: SinkState::Unopened,
                schema: Seq::<FieldView>::empty(),
                written: Seq::<BatchView>::empty(),
            }),
    {
        Sink {
            state: SinkState::Unopened,
            schema: Schema::empty(),
            writer: None,
            written: Ghost(Seq::empty()),
        }
    }

    /// The state of the sink.
    pub fn state(&self) -> (state: SinkState)
        ensures
            state == self@.state,
    {
        self.state
    }

    /// The schema that the sink was opened with; no columns before that.
    pub fn schema(&self) -> (schema: &Schema)
        ensures
            schema@ == self@.schema,
    {
        &self.schema
    }

    /// Opens the sink for batches of `schema`.
    ///
    /// A sink that is not `Unopened` refuses with `InvalidState`. One that is
    /// opens exactly where the file format opens a writer for the schema, and
    /// reports `IOError` where it does not. A sink that fails to open stays as
    /// it was.
    pub fn open(&mut self, schema: &Schema) -> (out: Result<(), Error>)
        requires
            old(self).wf(),
        ensures
            final(self).wf(),
            out is Ok <==> old(self)@.state is Unopened && writer_opens(schema@),
            out matches Err(e) ==> final(self)@ == old(self)@ && if old(self)@.state is Unopened {
                e is IOError
            } else {
                e is InvalidState
            },
            out is Ok ==> final(self)@ == (SinkView {
                state: SinkState::Open,
                schema: schema@,
                written: Seq::<BatchView>::empty(),
            }),
    {
        if self.state != SinkState::Unopened {
            return Err(Error::InvalidState("the sink has been opened before".to_string()));
        }
        let target = arrow_schema(schema);
        match open_writer(&target) {
            Ok(writer) => {
                assert(self.written@ =~= Seq::<BatchView>::empty());
                self.schema = schema.clone();
                self.writer = Some(writer);
                self.state = SinkState::Open;
                Ok(())
            },
            Err(e) => Err(Error::from_writer(&e)),
        }
    }

    /// Takes in one batch after those taken in before.
    ///
    /// A sink that is not `Open` refuses with `InvalidState`, and an open one
    /// refuses a batch of another schema than its own with `SchemaMismatch`;
    /// in both cases the sink stays as it was. A batch of the sink's schema is
    /// accepted exactly where the writer takes it after those accepted
    /// before, and always where it has no rows; where the writer does not take
    /// it, the sink reports `IOError` and is closed: what it held is lost.
    pub fn write(&mut self, batch: &Batch) -> (out: Result<(), Error>)
        requires
            old(self).wf(),
            batch.wf(),
        ensures
            final(self).wf(),
            out is Ok <==> old(self)@.accepts(batch@),
            old(self)@.state is Open && batch@.schema == old(self)@.schema && batch@.rows() == 0
                ==> out is Ok,
            out is Ok ==> final(self)@ == (SinkView {
                written: old(self)@.written.push(batch@),
                ..old(self)@
            }),
            out matches Err(e) ==> if !(old(self)@.state is Open) {
                e is InvalidState && final(self)@ == old(self)@
            } else if batch@.schema != old(self)@.schema {
                e is SchemaMismatch && final(self)@ == old(self)@
            } else {
                e is IOError && final(self)@ == (SinkView {
                    state: SinkState::Closed,
                    ..old(self)@
                })
            },
    {
        if self.state != SinkState::Open {
            return Err(Error::InvalidState("the sink is not open".to_string()));
        }
        if !batch.schema().same_as(&self.schema) {
            return Err(
                Error::SchemaMismatch("the batch is not of the schema of the sink".to_string()),
            );
        }
        let converted = match to_arrow(batch) {
            Ok(converted) => converted,
            Err(e) => {
                return Err(e);
            },
        };
        let mut writer = self.writer.take().unwrap();
        match write_batch(&mut writer, &converted) {
            Ok(()) => {
                self.writer = Some(writer);
                proof {
                    let log = self.written@.push(batch@);
                    assert(log.drop_last() =~= self.written@);
                    self.written@ = log;
                }
                Ok(())
            },
            Err(e) => {
                self.state = SinkState::Closed;
                Err(Error::from_writer(&e))
            },
        }
    }

    /// Completes the file and closes the sink.
    ///
    /// A sink that is not `Open` refuses with `InvalidState` and stays as it
    /// was. An open sink is closed in any case; where the writer completes
    /// the file, the sink yields its bytes, the file that holds the batches it
    /// accepted, in order, under its schema; where not, it reports `IOError`.
    pub fn close(&mut self) -> (out: Result<Vec<u8>, Error>)
        requires
            old(self).wf(),
        ensures
            final(self).wf(),
            !(old(self)@.state is Open) ==> (out matches Err(e) && e is InvalidState && final(
                self)@ == old(self)@),
            old(self)@.state is Open ==> final(self)@ == (SinkView {
                state: SinkState::Closed,
                ..old(self)@
            }),
            out is Ok <==> old(self)@.completes(),
            old(self)@.state is Open ==> match out {
                Ok(bytes) => bytes@ == parquet_file(old(self)@.schema, kept(old(self)@.written)),
                Err(e) => e is IOError,
            },
    {
        if self.state != SinkState::Open {
            return Err(Error::InvalidState("the sink is not open".to_string()));
        }
        let writer = self.writer.take().unwrap();
        self.state = SinkState::Closed;
        match finish_writer(writer) {
            Ok(bytes) => Ok(bytes),
            Err(e) => Err(Error::from_writer(&e)),
        }
    }

    /// Gives the sink up: an open sink is closed without a file, and what it
    /// held is lost. Any other sink stays as it was.
    pub fn abandon(&mut self)
        requires
            old(self).wf(),
        ensures
            final(self).wf(),
            final(self)@ == old(self)@.abandoned(),
    {
        if self.state == SinkState::Open {
            self.writer = None;
            self.state = SinkState::Closed;
        }
    }

    /// Answers one event of the stream that feeds the sink.
    ///
    /// A batch is written; the run continues exactly where the sink accepts
    /// the batch, else the sink is given up and the failure ends the run. A failure of the stream
    /// ends the run with that failure, and the sink is given up. The end of the
    /// stream closes the sink and finishes the run with the bytes of the file
    /// exactly where the sink completes it, else with the failure to do so. After a run has ended the sink is
    /// not open, so that a further batch or end of stream is answered with
    /// `InvalidState`.
    pub fn feed(&mut self, event: StreamEvent) -> (out: Progress)
        requires
            old(self).wf(),
            event matches StreamEvent::Batch(batch) ==> batch.wf(),
        ensures
            final(self).wf(),
            event matches StreamEvent::Batch(batch) && old(self)@.state is Open && batch@.schema
                == old(self)@.schema && batch@.rows() == 0 ==> out is Continue,
            match event {
                StreamEvent::Batch(batch) => match out {
                    Progress::Continue => {
                        &&& old(self)@.accepts(batch@)
                        &&& final(self)@ == (SinkView {
                            written: old(self)@.written.push(batch@),
                            ..old(self)@
                        })
                    },
                    Progress::Aborted(e) => {
                        &&& !old(self)@.accepts(batch@)
                        &&& final(self)@ == old(self)@.abandoned()
                        &&& if !(old(self)@.state is Open) {
                            e is InvalidState
                        } else if batch@.schema != old(self)@.schema {
                            e is SchemaMismatch
                        } else {
                            e is IOError
                        }
                    },
                    Progress::Finished(_) => false,
                },
                StreamEvent::Failed(e) => {
                    &&& out == Progress::Aborted(e)
                    &&& final(self)@ == old(self)@.abandoned()
                },
                StreamEvent::End => final(self)@ == old(self)@.abandoned() && match out {
                    Progress::Finished(bytes) => old(self)@.completes() && bytes@
                        == parquet_file(old(self)@.schema, kept(old(self)@.written)),
                    Progress::Aborted(e) => !old(self)@.completes() && if old(self)@.state is Open {
                        e is IOError
                    } else {
                        e is InvalidState
                    },
                    Progress::Continue => false,
                },
            },
    {
        match event {
            StreamEvent::Batch(batch) => match self.write(&batch) {
                Ok(()) => Progress::Continue,
                Err(e) => {
                    self.abandon();
                    Progress::Aborted(e)
                },
            },
            StreamEvent::Failed(e) => {
                self.abandon();
                Progress::Aborted(e)
            },
            StreamEvent::End => match self.close() {
                Ok(bytes) => Progress::Finished(bytes),
                Err(e) => Progress::Aborted(e),
            },
        }
    }
}

/// Whether each of `batches` is of schema `schema`.
pub open spec fn all_of_schema(batches: Seq<BatchView>, schema: Seq<FieldView>) -> bool {
    forall|i: int| 0 <= i < batches.len() ==> (#[trigger] batches[i]).schema == schema
}

/// Whether each of `batches` is without rows.
pub open spec fn without_rows(batches: Seq<BatchView>) -> bool {
    forall|i: int| 0 <= i < batches.len() ==> rows_of((#[trigger] batches[i]).columns) == 0
}

/// Whether a writer for `fields` takes each of `batches` after those before
/// it.
pub open spec fn takes_all(fields: Seq<FieldView>, batches: Seq<BatchView>) -> bool {
    forall|i: int|
        0 <= i < batches.len() ==> writer_takes(
            fields,
            kept(batches.take(i)),
            (#[trigger] batches[i]).columns,
        )
}

/// Whether the file format makes a file of `batches` under a schema that
/// lists `fields`: it opens a writer for the schema, the writer takes each
/// batch after those before it, and completes the file.
pub open spec fn encodes(fields: Seq<FieldView>, batches: Seq<BatchView>) -> bool {
    &&& writer_opens(fields)
    &&& takes_all(fields, batches)
    &&& writer_finishes(fields, kept(batches))
}

/// Whether each of `batches` is of schema `schema`.
fn check_schemas(batches: &Vec<Batch>, schema: &Schema) -> (same: bool)
    ensures
        same == all_of_schema(batches_view(batches@), schema@),
{
    let mut i: usize = 0;
    while i < batches.len()
        invariant
            i <= batches.len(),
            forall|k: int| 0 <= k < i ==> (#[trigger] batches_view(batches@)[k]).schema == schema@,
        decreases batches.len() - i,
    {
        if !batches[i].schema().same_as(schema) {
            assert(batches_view(batches@)[i as int].schema != schema@);
            return false;
        }
        i += 1;
    }
    true
}

/// Encodes a table of the given schema, whose rows come as the given batches,
/// into the bytes of a columnar file: the sink is opened with the schema, fed
/// the batches in order, and closed. No batches are no obstacle: the file
/// then holds the schema and no rows.
///
/// A batch of another schema is refused with `SchemaMismatch` before anything
/// is written. Batches that are all of the schema are written exactly where
/// the file format makes a file of them; the bytes are then the file of
/// exactly these batches, in this order, under this schema. Where it makes
/// none, the failure is an `IOError`. No batches, or only batches without
/// rows, are written wherever the file format opens a writer for the schema
/// and completes a file that holds nothing.
pub fn write_df_to_file(schema: &Schema, batches: &Vec<Batch>) -> (out: Result<Vec<u8>, Error>)
    requires
        forall|i: int| 0 <= i < batches@.len() ==> (#[trigger] batches@[i]).wf(),
    ensures
        out is Ok <==> all_of_schema(batches_view(batches@), schema@) && encodes(
            schema@,
            batches_view(batches@),
        ),
        all_of_schema(batches_view(batches@), schema@) && without_rows(batches_view(batches@))
            && writer_opens(schema@) && writer_finishes(schema@, Seq::<Seq<ColumnView>>::empty())
            ==> out is Ok,
        out matches Ok(bytes) ==> bytes@ == parquet_file(schema@, kept(batches_view(batches@))),
        out matches Err(e) ==> if all_of_schema(batches_view(batches@), schema@) {
            e is IOError
        } else {
            e is SchemaMismatch
        },
{
    if !check_schemas(batches, schema) {
        return Err(Error::SchemaMismatch("a batch is not of the schema of the table".to_string()));
    }
    let mut sink = Sink::new();
    match sink.open(schema) {
        Ok(()) => {},
        Err(e) => {
            return Err(e);
        },
    }
    let ghost all = batches_view(batches@);
    assert(all.take(0) =~= Seq::<BatchView>::empty());
    let mut i: usize = 0;
    while i < batches.len()
        invariant
            i <= batches.len(),
            all == batches_view(batches@),
            all_of_schema(all, schema@),
            writer_opens(schema@),
            forall|k: int|
                0 <= k < i ==> writer_takes(schema@, kept(all.take(k)), (#[trigger] all[k]).columns),
            forall|k: int| 0 <= k < batches@.len() ==> (#[trigger] batches@[k]).wf(),
            sink.wf(),
            sink@ == (SinkView {
                state: SinkState::Open,
                schema: schema@,
                written: all.take(i as int),
            }),
        decreases batches.len() - i,
    {
        let batch = batches[i].clone();
        assert(batch@ == all[i as int]);
        assert(batch.wf()) by {
            assert(batches@[i as int].wf());
        }
        match sink.feed(StreamEvent::Batch(batch)) {
            Progress::Continue => {
                assert(all.take(i as int).push(all[i as int]) =~= all.take(i as int + 1));
            },
            Progress::Aborted(e) => {
                assert(rows_of(all[i as int].columns) != 0);
                assert(!takes_all(schema@, all)) by {
                    assert(!writer_takes(schema@, kept(all.take(i as int)), all[i as int].columns));
                }
                return Err(e);
            },
            Progress::Finished(_) => {
                assert(false);
            },
        }
        i += 1;
    }
    assert(all.take(i as int) =~= all);
    proof {
        if without_rows(all) {
            lemma_kept_without_rows(all, all.len() as int);
        }
    }
    match sink.feed(StreamEvent::End) {
        Progress::Finished(bytes) => Ok(bytes),
        Progress::Aborted(e) => Err(e),
        Progress::Continue => {
            assert(false);
            Err(Error::InvalidState("the sink is still open".to_string()))
        },
    }
}

/// Encodes the given batches, under the schema of the first, into the bytes
/// of a columnar file.
///
/// No batches are refused with `SchemaMismatch`, there being no schema to go
/// by, and so is a batch of another schema than the first. One or more
/// batches, all of the schema of the first, are written exactly where the file
/// format makes a file of them, as for [`write_df_to_file`].
pub fn write_batches_to_file(batches: &Vec<Batch>) -> (out: Result<Vec<u8>, Error>)
    requires
        forall|i: int| 0 <= i < batches@.len() ==> (#[trigger] batches@[i]).wf(),
    ensures
        out is Ok <==> batches@.len() >= 1 && all_of_schema(
            batches_view(batches@),
            batches@[0]@.schema,
        ) && encodes(batches@[0]@.schema, batches_view(batches@)),
        out matches Ok(bytes) ==> bytes@ == parquet_file(
            batches@[0]@.schema,
            kept(batches_view(batches@)),
        ),
        out matches Err(e) ==> if batches@.len() >= 1 && all_of_schema(
            batches_view(batches@),
            batches@[0]@.schema,
        ) {
            e is IOError
        } else {
            e is SchemaMismatch
        },
{
    if batches.len() == 0 {
        return Err(Error::SchemaMismatch("no batch to take the schema from".to_string()));
    }
    write_df_to_file(batches[0].schema(), batches)
}

} // verus!
