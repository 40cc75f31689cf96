//! Lowering: a table handle is turned into a data frame of the query engine,
//! step by step as its plan says. Running the frame is the caller's part; it
//! needs the engine's asynchronous runtime.
//!
//! What stands here about `datafusion` is believed, not proved: each wrapper says in
//! its documentation which function of `datafusion` it calls and what is claimed
//! of it.

use crate::batch::{Batch, BatchView};
use crate::columnar::{arrow_batch_columns, arrow_batch_fields, to_arrow, ArrowBatch};
use crate::error::Error;
use crate::schema::{
    fields_view, lemma_position, names_view, picked, DataType, Field, FieldView, JoinKind,
    Resolution, Schema,
};
use crate::table::{batches_view, plan_ok, plan_schema, Plan, PlanView, TableHandle};
use datafusion::arrow::datatypes::DataType as ArrowType;
use datafusion::dataframe::DataFrame;
use datafusion::error::DataFusionError;
use datafusion::execution::context::SessionContext;
use datafusion::prelude::{JoinType, SessionConfig};
use vstd::prelude::*;

verus! {

/// `datafusion`'s data frame, carried through unopened.
#[verifier::external_type_specification]
#[verifier::external_body]
pub struct ExDataFrame(DataFrame);

/// `datafusion`'s session context, carried through unopened.
#[verifier::external_type_specification]
#[verifier::external_body]
pub struct ExSessionContext(SessionContext);

/// The table that a frame stands for: the data it reads and the steps taken
/// on it, as the engine was handed them.
pub uninterp spec fn frame_table(frame: DataFrame) -> PlanView;

/// The columns that the engine lists for a frame of the given table: name,
/// element type and nullability of each, in order, without the table
/// qualifiers; nothing where one is of an element type that this library does
/// not know.
pub uninterp spec fn table_fields(table: PlanView) -> Option<Seq<FieldView>>;

/// Whether the engine makes a frame that reads the given batches.
pub uninterp spec fn engine_reads(batches: Seq<BatchView>) -> bool;

/// The table that the engine makes of a table by renaming the column that it
/// reads `from` as to `to`; nothing where it refuses.
pub uninterp spec fn renamed_table(
    table: PlanView,
    from: Seq<char>,
    to: Seq<char>,
) -> Option<PlanView>;

/// Whether the engine cuts a table down to the named columns.
pub uninterp spec fn engine_selects(table: PlanView, names: Seq<Seq<char>>) -> bool;

/// Whether the engine joins two tables on the given keys.
pub uninterp spec fn engine_joins(
    left: PlanView,
    right: PlanView,
    kind: JoinKind,
    left_keys: Seq<Seq<char>>,
    right_keys: Seq<Seq<char>>,
) -> bool;

/// The number of partitions on which a plan is run. On one partition the
/// engine neither splits nor interleaves the rows of a table, so that a plan
/// yields its rows in the same order each time it is run.
pub const PARTITIONS: usize = 1;

/// The views of a run of `arrow` record batches, in order.
pub open spec fn arrow_views(batches: Seq<ArrowBatch>) -> Seq<BatchView> {
    batches.map_values(
        |b: ArrowBatch| BatchView { schema: arrow_batch_fields(b), columns: arrow_batch_columns(b) },
    )
}

/// The table of the given batches under the schema of the first, or without
/// columns where there are none.
pub open spec fn table_of(batches: Seq<BatchView>) -> PlanView {
    PlanView::Literal {
        schema: if batches.len() == 0 {
            Seq::empty()
        } else {
            batches[0].schema
        },
        batches,
    }
}

/// A name between double quotes, each double quote in it doubled: the form in
/// which the engine reads a name letter for letter.
pub open spec fn quoted(name: Seq<char>) -> Seq<char> {
    seq!['"'] + escaped(name) + seq!['"']
}

/// A name with each double quote in it doubled.
pub open spec fn escaped(name: Seq<char>) -> Seq<char>
    decreases name.len(),
{
    if name.len() == 0 {
        Seq::empty()
    } else if name.last() == '"' {
        escaped(name.drop_last()) + seq!['"', '"']
    } else {
        escaped(name.drop_last()).push(name.last())
    }
}

/// Each of `names` between double quotes.
pub open spec fn all_quoted(names: Seq<Seq<char>>) -> Seq<Seq<char>> {
    names.map_values(|n: Seq<char>| quoted(n))
}

/// The table that the engine makes of a plan, step by step. Meaningful where
/// the engine takes every step.
pub open spec fn made_table(plan: PlanView) -> PlanView
    decreases plan,
{
    match plan {
        PlanView::Literal { .. } => plan,
        PlanView::Renamed { input, from, to } => match renamed_table(
            made_table(*input),
            quoted(from),
            to,
        ) {
            Some(table) => table,
            None => plan,
        },
        PlanView::Selected { input, names } => PlanView::Selected {
            input: Box::new(made_table(*input)),
            names,
        },
        PlanView::Joined { left, right, kind, left_keys, right_keys } => PlanView::Joined {
            left: Box::new(made_table(*left)),
            right: Box::new(made_table(*right)),
            kind,
            left_keys: all_quoted(left_keys),
            right_keys: all_quoted(right_keys),
        },
    }
}

/// Whether the engine takes the last step of a plan, given the tables it made
/// of the steps before.
pub open spec fn step_taken(plan: PlanView) -> bool {
    match plan {
        PlanView::Literal { batches, .. } => engine_reads(batches),
        PlanView::Renamed { input, from, to } => renamed_table(
            made_table(*input),
            quoted(from),
            to,
        ) is Some,
        PlanView::Selected { input, names } => engine_selects(made_table(*input), names),
        PlanView::Joined { left, right, kind, left_keys, right_keys } => engine_joins(
            made_table(*left),
            made_table(*right),
            kind,
            all_quoted(left_keys),
            all_quoted(right_keys),
        ),
    }
}

/// Whether a plan is lowered: the engine takes every step, inner steps first,
/// the left side of a join before the right, and after each step lists the
/// columns that the step yields.
pub open spec fn lowers(plan: PlanView) -> bool
    decreases plan,
{
    &&& match plan {
        PlanView::Literal { .. } => true,
        PlanView::Renamed { input, .. } => lowers(*input),
        PlanView::Selected { input, .. } => lowers(*input),
        PlanView::Joined { left, right, .. } => lowers(*left) && lowers(*right),
    }
    &&& step_taken(plan)
    &&& table_fields(made_table(plan)) == Some(plan_schema(plan))
}

/// Calls `SessionConfig::new`, `SessionConfig::with_target_partitions` and
/// `SessionContext::new_with_config`. Nothing is claimed of the context. Left
/// out: a partition count of zero, on which `with_target_partitions` panics.
#[verifier::external_body]
fn new_context(partitions: usize) -> SessionContext
    requires
        partitions > 0,
{
    SessionContext::new_with_config(SessionConfig::new().with_target_partitions(partitions))
}

/// Calls `SessionContext::read_batches`.
///
/// Claimed: whether a frame comes back depends on the batches alone; one that
/// does stands for the table of these batches, in order, under the schema of
/// the first.
#[verifier::external_body]
fn frame_of_batches(context: &SessionContext, batches: Vec<ArrowBatch>) -> (out: Result<
    DataFrame,
    DataFusionError,
>)
    ensures
        out is Ok <==> engine_reads(arrow_views(batches@)),
        out matches Ok(frame) ==> frame_table(frame) == table_of(arrow_views(batches@)),
{
    context.read_batches(batches.into_iter().map(|batch| batch.inner))
}

/// Calls `DataFrame::with_column_renamed`.
///
/// Claimed: whether a frame comes back, and for which table, depends on the
/// table of the given frame and on the two names; the frame that comes back
/// stands for that table with the rename as one more step, or, where the
/// engine finds no column of the name, for that table itself.
#[verifier::external_body]
fn frame_renamed(frame: DataFrame, from: &String, to: &String) -> (out: Result<
    DataFrame,
    DataFusionError,
>)
    ensures
        out is Ok <==> renamed_table(frame_table(frame), from@, to@) is Some,
        out matches Ok(made) ==> renamed_table(frame_table(frame), from@, to@) == Some(
            frame_table(made),
        ) && (frame_table(made) == frame_table(frame) || frame_table(made) == (PlanView::Renamed {
            input: Box::new(frame_table(frame)),
            from: from@,
            to: to@,
        })),
{
    frame.with_column_renamed(from.as_str(), to.as_str())
}

/// Calls `DataFrame::select_columns`.
///
/// Claimed: whether a frame comes back depends on the table of the given
/// frame and on the names; one that does stands for that table with the
/// projection as one more step.
#[verifier::external_body]
fn frame_selected(frame: DataFrame, names: &Vec<String>) -> (out: Result<
    DataFrame,
    DataFusionError,
>)
    ensures
        out is Ok <==> engine_selects(frame_table(frame), names_view(names@)),
        out matches Ok(made) ==> frame_table(made) == (PlanView::Selected {
            input: Box::new(frame_table(frame)),
            names: names_view(names@),
        }),
{
    let names: Vec<&str> = names.iter().map(|name| name.as_str()).collect();
    frame.select_columns(&names)
}

/// Calls `DataFrame::join`, without a filter, with the engine's join type of
/// the same meaning.
///
/// Claimed: whether a frame comes back depends on the tables of the two
/// frames, the kind and the keys; one that does stands for the join of the
/// two tables as handed over.
#[verifier::external_body]
fn frame_joined(
    left: DataFrame,
    right: DataFrame,
    kind: JoinKind,
    left_keys: &Vec<String>,
    right_keys: &Vec<String>,
) -> (out: Result<DataFrame, DataFusionError>)
    ensures
        out is Ok <==> engine_joins(
            frame_table(left),
            frame_table(right),
            kind,
            names_view(left_keys@),
            names_view(right_keys@),
        ),
        out matches Ok(made) ==> frame_table(made) == (PlanView::Joined {
            left: Box::new(frame_table(left)),
            right: Box::new(frame_table(right)),
            kind,
            left_keys: names_view(left_keys@),
            right_keys: names_view(right_keys@),
        }),
{
    let left_keys: Vec<&str> = left_keys.iter().map(|key| key.as_str()).collect();
    let right_keys: Vec<&str> = right_keys.iter().map(|key| key.as_str()).collect();
    let join_type = match kind {
        JoinKind::Inner => JoinType::Inner,
        JoinKind::LeftOuter => JoinType::Left,
        JoinKind::RightOuter => JoinType::Right,
        JoinKind::FullOuter => JoinType::Full,
        JoinKind::Semi => JoinType::LeftSemi,
        JoinKind::Anti => JoinType::LeftAnti,
    };
    left.join(right, join_type, &left_keys, &right_keys, None)
}

/// Calls `DataFrame::schema` and reads name, element type and nullability off
/// each of its fields.
///
/// Claimed: what comes back depends on the table of the frame alone: where
/// every field is of an element type that this library knows, the fields as
/// the frame lists them; else nothing.
#[verifier::external_body]
fn read_frame_fields(frame: &DataFrame) -> (out: Option<Vec<Field>>)
    ensures
        out is Some <==> table_fields(frame_table(*frame)) is Some,
        out matches Some(fields) ==> table_fields(frame_table(*frame)) == Some(
            fields_view(fields@),
        ),
{
    let fields = frame.schema().fields().iter().map(|f| {
        let data_type = match f.data_type() {
            ArrowType::Boolean => Some(DataType::Boolean),
            ArrowType::Int32 => Some(DataType::Int32),
            ArrowType::Int64 => Some(DataType::Int64),
            ArrowType::Utf8 => Some(DataType::Utf8),
            _ => None,
        };
        data_type.map(|t| Field { name: f.name().clone(), data_type: t, nullable: f.is_nullable() })
    });
    fields.collect()
}

/// Passes a frame on where the engine lists for it exactly the columns that
/// are expected, and refuses it with `EngineError` where it lists others or
/// where its columns could not be read.
pub fn accept_frame(frame: DataFrame, observed: Option<Vec<Field>>, expected: &Schema) -> (out:
    Result<DataFrame, Error>)
    ensures
        out is Ok <==> (observed matches Some(fields) && fields_view(fields@) == expected@),
        out matches Ok(accepted) ==> accepted == frame,
        out matches Err(e) ==> e is EngineError,
{
    match observed {
        Some(fields) => {
            let schema = Schema::new(fields);
            if schema.same_as(expected) {
                Ok(frame)
            } else {
                Err(
                    Error::EngineError(
                        "the engine lists other columns than the plan yields".to_string(),
                    ),
                )
            }
        },
        None => Err(
            Error::EngineError("the engine lists a column of an unknown type".to_string()),
        ),
    }
}

/// The schema that the engine lists for a frame, or `EngineError` where it
/// lists a column of an element type that this library does not know.
fn frame_schema(frame: &DataFrame) -> (out: Result<Schema, Error>)
    ensures
        out is Ok <==> table_fields(frame_table(*frame)) is Some,
        out matches Ok(schema) ==> table_fields(frame_table(*frame)) == Some(schema@),
        out matches Err(e) ==> e is EngineError,
{
    match read_frame_fields(frame) {
        Some(fields) => Ok(Schema::new(fields)),
        None => Err(
            Error::EngineError("the engine lists a column of an unknown type".to_string()),
        ),
    }
}

/// Reads the columns that the engine lists for a frame and passes the frame on
/// exactly where they are the expected ones.
fn checked(frame: DataFrame, expected: &Schema) -> (out: Result<DataFrame, Error>)
    ensures
        out is Ok <==> table_fields(frame_table(frame)) == Some(expected@),
        out matches Ok(accepted) ==> accepted == frame,
        out matches Err(e) ==> e is EngineError,
{
    let observed = read_frame_fields(&frame);
    accept_frame(frame, observed, expected)
}

/// The name between double quotes, each double quote in it doubled.
pub fn quote(name: &String) -> (out: String)
    ensures
        out@ == quoted(name@),
{
    let text = name.as_str();
    let n = text.unicode_len();
    let mut out = String::from_str("\"");
    proof {
        reveal_strlit("\"");
        reveal_strlit("\"\"");
        assert(name@.take(0) =~= Seq::<char>::empty());
        assert(out@ =~= seq!['"'] + escaped(name@.take(0)));
    }
    let mut i: usize = 0;
    while i < n
        invariant
            i <= n,
            n == name@.len(),
            text@ == name@,
            "\""@ == seq!['"'],
            "\"\""@ == seq!['"', '"'],
            out@ == seq!['"'] + escaped(name@.take(i as int)),
        decreases n - i,
    {
        let c = text.get_char(i);
        proof {
            let next = name@.take(i as int + 1);
            assert(next.drop_last() =~= name@.take(i as int));
            assert(next.last() == c);
        }
        if c == '"' {
            out.append("\"\"");
            assert(out@ =~= seq!['"'] + escaped(name@.take(i as int + 1)));
        } else {
            let one = text.substring_char(i, i + 1);
            assert(one@ =~= seq![c]);
            out.append(one);
            assert(out@ =~= seq!['"'] + escaped(name@.take(i as int + 1)));
        }
        i += 1;
    }
    assert(name@.take(i as int) =~= name@);
    out.append("\"");
    assert(out@ =~= quoted(name@));
    out
}

/// Each of the names between double quotes, in order.
fn quote_all(names: &Vec<String>) -> (out: Vec<String>)
    ensures
        names_view(out@) == all_quoted(names_view(names@)),
{
    let mut out: Vec<String> = Vec::new();
    let mut i: usize = 0;
    while i < names.len()
        invariant
            i <= names.len(),
            out.len() == i,
            forall|k: int| 0 <= k < i ==> (#[trigger] out@[k])@ == quoted(names@[k]@),
        decreases names.len() - i,
    {
        out.push(quote(&names[i]));
        i += 1;
    }
    assert(names_view(out@) =~= all_quoted(names_view(names@)));
    out
}

/// Turns the batches of a literal table into `arrow` record batches of the
/// same schemas and values, in order.
fn lower_batches(batches: &Vec<Batch>) -> (out: Result<Vec<ArrowBatch>, Error>)
    requires
        forall|i: int| 0 <= i < batches@.len() ==> (#[trigger] batches@[i]).wf(),
    ensures
        out matches Ok(made) && arrow_views(made@) == batches_view(batches@),
{
    let mut made: Vec<ArrowBatch> = Vec::new();
    let mut i: usize = 0;
    while i < batches.len()
        invariant
            i <= batches.len(),
            made@.len() == i,
            forall|k: int| 0 <= k < batches@.len() ==> (#[trigger] batches@[k]).wf(),
            forall|k: int|
                0 <= k < i ==> arrow_batch_fields(#[trigger] made@[k]) == batches@[k]@.schema
                    && arrow_batch_columns(made@[k]) == batches@[k]@.columns,
        decreases batches.len() - i,
    {
        match to_arrow(&batches[i]) {
            Ok(batch) => made.push(batch),
            Err(e) => {
                return Err(e);
            },
        }
        i += 1;
    }
    assert(arrow_views(made@) =~= batches_view(batches@));
    Ok(made)
}

/// Builds the frame of a plan in the given context, step by step as the plan
/// has it, inner steps first, the left side of a join before the right. The
/// name of a column to rename and the keys of a join are handed over between
/// double quotes, so that the engine reads them letter for letter. After each
/// step the engine's frame must list the columns that the step yields, else
/// the plan is given up.
fn lower_plan(context: &SessionContext, plan: &Plan) -> (out: Result<DataFrame, Error>)
    requires
        plan_ok(plan@),
    ensures
        out is Ok <==> lowers(plan@),
        out matches Ok(frame) ==> frame_table(frame) == made_table(plan@),
        out matches Err(e) ==> e is EngineError,
    decreases plan,
{
    match plan {
        Plan::Literal { schema: listed, batches } => {
            assert forall|i: int| 0 <= i < batches@.len() implies (#[trigger] batches@[i]).wf() by {
                assert(batches_view(batches@)[i] == batches@[i]@);
            }
            let made = match lower_batches(batches) {
                Ok(made) => made,
                Err(e) => {
                    return Err(e);
                },
            };
            assert(table_of(arrow_views(made@)) == plan@) by {
                let views = batches_view(batches@);
                if views.len() > 0 {
                    assert(views[0].schema == listed@);
                } else {
                    assert(listed@ =~= Seq::<FieldView>::empty());
                }
            }
            match frame_of_batches(context, made) {
                Ok(frame) => checked(frame, listed),
                Err(e) => Err(Error::from_engine(&e)),
            }
        },
        Plan::Renamed { input, from, to } => {
            let frame = match lower_plan(context, input) {
                Ok(frame) => frame,
                Err(e) => {
                    return Err(e);
                },
            };
            let before = match frame_schema(&frame) {
                Ok(schema) => schema,
                Err(e) => {
                    return Err(e);
                },
            };
            let expected = match before.resolve(from) {
                Resolution::Unique(at) => {
                    proof {
                        lemma_position(before@, from@, at as int);
                    }
                    before.renamed(at, to)
                },
                _ => before,
            };
            match frame_renamed(frame, &quote(from), to) {
                Ok(frame) => checked(frame, &expected),
                Err(e) => Err(Error::from_engine(&e)),
            }
        },
        Plan::Selected { input, names } => {
            let frame = match lower_plan(context, input) {
                Ok(frame) => frame,
                Err(e) => {
                    return Err(e);
                },
            };
            let before = match frame_schema(&frame) {
                Ok(schema) => schema,
                Err(e) => {
                    return Err(e);
                },
            };
            let positions = match before.resolve_all(names) {
                Ok(positions) => positions,
                Err(e) => {
                    return Err(e);
                },
            };
            let expected = before.pick(&positions);
            assert(expected@ =~= picked(before@, names_view(names@)));
            match frame_selected(frame, names) {
                Ok(frame) => checked(frame, &expected),
                Err(e) => Err(Error::from_engine(&e)),
            }
        },
        Plan::Joined { left, right, kind, left_keys, right_keys } => {
            let left_frame = match lower_plan(context, left) {
                Ok(frame) => frame,
                Err(e) => {
                    return Err(e);
                },
            };
            let right_frame = match lower_plan(context, right) {
                Ok(frame) => frame,
                Err(e) => {
                    return Err(e);
                },
            };
            let left_schema = match frame_schema(&left_frame) {
                Ok(schema) => schema,
                Err(e) => {
                    return Err(e);
                },
            };
            let right_schema = match frame_schema(&right_frame) {
                Ok(schema) => schema,
                Err(e) => {
                    return Err(e);
                },
            };
            let expected = left_schema.joined_with(&right_schema, *kind);
            let left_quoted = quote_all(left_keys);
            let right_quoted = quote_all(right_keys);
            match frame_joined(left_frame, right_frame, *kind, &left_quoted, &right_quoted) {
                Ok(frame) => checked(frame, &expected),
                Err(e) => Err(Error::from_engine(&e)),
            }
        },
    }
}

/// Hands the plan of a table to the query engine, in a context of its own
/// that runs plans on one partition, and returns the engine's frame for it,
/// ready to be run.
///
/// The plan is lowered exactly where the engine takes every step of it and
/// lists after each the columns that the step yields. The frame that comes
/// back stands for the table that the engine made of the plan and lists
/// exactly the columns of the table's schema. A plan that is not lowered is
/// reported as `EngineError`.
pub fn lower(handle: &TableHandle) -> (out: Result<DataFrame, Error>)
    requires
        handle.wf(),
    ensures
        out is Ok <==> lowers(handle@),
        out matches Ok(frame) ==> frame_table(frame) == made_table(handle@) && table_fields(
            frame_table(frame),
        ) == Some(plan_schema(handle@)),
        out matches Err(e) ==> e is EngineError,
{
    let context = new_context(PARTITIONS);
    lower_plan(&context, handle.plan())
}

} // verus!
