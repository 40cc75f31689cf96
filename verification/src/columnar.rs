//! The bridge to the columnar crate: batches and schemas of this library are
//! turned into `arrow` record batches and schemas, which the query engine and
//! the file writer take.
//!
//! What stands here about `arrow` is believed, not proved: each wrapper says in
//! its documentation which function of `arrow` it calls and what is claimed
//! of it.

use crate::batch::{columns_view, Batch, Column, ColumnView};
use crate::error::Error;
use crate::schema::{DataType, FieldView, Schema};
use datafusion::arrow::array::{ArrayRef, BooleanArray, Int32Array, Int64Array, StringArray};
use datafusion::arrow::datatypes::{
    DataType as ArrowType, Field as ArrowField, Schema as ArrowSchema,
};
use datafusion::arrow::error::ArrowError;
use datafusion::arrow::record_batch::RecordBatch;
use std::sync::Arc;
use vstd::prelude::*;

verus! {

/// `arrow`'s schema type, carried through unopened.
#[verifier::external_type_specification]
#[verifier::external_body]
pub struct ExArrowSchema(ArrowSchema);

/// An `arrow` record batch. Verus cannot take the type itself, so it is held
/// here and never looked into by verified code.
#[verifier::external_body]
pub struct ArrowBatch {
    pub(crate) inner: RecordBatch,
}

/// The columns that an `arrow` schema lists: name, element type and
/// nullability of each, in order.
pub uninterp spec fn arrow_fields(schema: ArrowSchema) -> Seq<FieldView>;

/// The columns that the schema of an `arrow` record batch lists.
pub uninterp spec fn arrow_batch_fields(batch: ArrowBatch) -> Seq<FieldView>;

/// The values that an `arrow` record batch holds, column by column.
pub uninterp spec fn arrow_batch_columns(batch: ArrowBatch) -> Seq<ColumnView>;

/// Whether `arrow` makes a record batch of `columns` under a schema that
/// lists `fields`: there is at least one column, and one for each field, of
/// the field's element type; all are equally long; and a null occurs only
/// under a nullable field.
pub open spec fn arrow_accepts(fields: Seq<FieldView>, columns: Seq<ColumnView>) -> bool {
    &&& columns.len() == fields.len()
    &&& columns.len() >= 1
    &&& forall|i: int|
        0 <= i < columns.len() ==> {
            &&& (#[trigger] columns[i]).data_type() == fields[i].data_type
            &&& columns[i].len() == columns[0].len()
            &&& (columns[i].has_null() ==> fields[i].nullable)
        }
}

/// Calls `Field::new` for each column and `Schema::new` on the result.
///
/// Claimed: the schema lists the given columns, each with its name, the
/// element type of `arrow` of the same name, and its nullability, in order.
#[verifier::external_body]
pub(crate) fn arrow_schema(schema: &Schema) -> (out: Arc<ArrowSchema>)
    ensures
        arrow_fields(*out) == schema@,
{
    let fields = schema.fields.iter().map(|f| {
        let data_type = match f.data_type {
            DataType::Boolean => ArrowType::Boolean,
            DataType::Int32 => ArrowType::Int32,
            DataType::Int64 => ArrowType::Int64,
            DataType::Utf8 => ArrowType::Utf8,
        };
        ArrowField::new(f.name.as_str(), data_type, f.nullable)
    });
    Arc::new(ArrowSchema::new(fields.collect::<Vec<ArrowField>>()))
}

/// Calls `BooleanArray::from`, `Int32Array::from`, `Int64Array::from` or
/// `StringArray::from` on each column, as its values are, and
/// `RecordBatch::try_new` on the schema and the arrays.
///
/// Claimed: the call succeeds exactly where the columns pass the checks of
/// `RecordBatch::try_new`, which `arrow_accepts` lists; a batch that comes
/// back has the given schema and holds the given values. Left out: columns
/// whose texts exceed the capacity of a text array, on which
/// `StringArray::from` panics.
#[verifier::external_body]
pub(crate) fn arrow_batch(schema: &Arc<ArrowSchema>, columns: &Vec<Column>) -> (out: Result<
    ArrowBatch,
    ArrowError,
>)
    requires
        forall|i: int| 0 <= i < columns@.len() ==> (#[trigger] columns@[i])@.fits(),
    ensures
        out is Ok <==> arrow_accepts(arrow_fields(**schema), columns_view(columns@)),
        out matches Ok(batch) ==> arrow_batch_fields(batch) == arrow_fields(**schema)
            && arrow_batch_columns(batch) == columns_view(columns@),
{
    let arrays = columns.iter().map(|column| match column {
        Column::Boolean(values) => Arc::new(BooleanArray::from(values.clone())) as ArrayRef,
        Column::Int32(values) => Arc::new(Int32Array::from(values.clone())) as ArrayRef,
        Column::Int64(values) => Arc::new(Int64Array::from(values.clone())) as ArrayRef,
        Column::Utf8(values) => Arc::new(StringArray::from(values.clone())) as ArrayRef,
    });
    RecordBatch::try_new(schema.clone(), arrays.collect()).map(|inner| ArrowBatch { inner })
}

/// Turns a batch into an `arrow` record batch of the same schema and values.
/// A sound batch passes the checks of `arrow`, so this never fails.
pub(crate) fn to_arrow(batch: &Batch) -> (out: Result<ArrowBatch, Error>)
    requires
        batch.wf(),
    ensures
        out matches Ok(made) && arrow_batch_fields(made) == batch@.schema && arrow_batch_columns(
            made,
        ) == batch@.columns,
{
    let schema = arrow_schema(batch.schema());
    let columns = batch.columns();
    assert forall|i: int| 0 <= i < columns@.len() implies (#[trigger] columns@[i])@.fits() by {
        assert(columns_view(columns@)[i] == columns@[i]@);
    }
    match arrow_batch(&schema, columns) {
        Ok(made) => Ok(made),
        Err(e) => Err(Error::from_arrow(&e)),
    }
}

} // verus!
