//! Table handles: lazy references to a table, made from literal data and
//! composed by renaming, projecting and joining. A handle owns a plan and the
//! schema that the plan yields; nothing is computed until the plan is handed
//! to the query engine.

use crate::batch::{batch_valid, columns_view, Batch, BatchView, Column};
use crate::error::{Error, ErrorKind};
use crate::schema::{
    all_present, all_resolve, has_column, is_ambiguous, is_first_absent, is_first_ambiguous,
    is_only_match, join_schema, names_unique, names_view, none_ambiguous, picked, position,
    reference_refusal, resolves, with_name, FieldView, JoinKind, Resolution, Schema,
};
use vstd::prelude::*;

verus! {

/// How the rows of a table come about.
#[derive(Debug)]
pub enum Plan {
    /// The rows of the given batches, in order.
    Literal { schema: Schema, batches: Vec<Batch> },
    /// The rows of `input`, with column `from` called `to`.
    Renamed { input: Box<Plan>, from: String, to: String },
    /// The rows of `input`, cut down to the named columns, in that order.
    Selected { input: Box<Plan>, names: Vec<String> },
    /// The rows of `left` and `right`, joined on the pairwise equality of the
    /// key columns.
    Joined {
        left: Box<Plan>,
        right: Box<Plan>,
        kind: JoinKind,
        left_keys: Vec<String>,
        right_keys: Vec<String>,
    },
}

/// A plan as a mathematical value.
pub enum PlanView {
    Literal { schema: Seq<FieldView>, batches: Seq<BatchView> },
    Renamed { input: Box<PlanView>, from: Seq<char>, to: Seq<char> },
    Selected { input: Box<PlanView>, names: Seq<Seq<char>> },
    Joined {
        left: Box<PlanView>,
        right: Box<PlanView>,
        kind: JoinKind,
        left_keys: Seq<Seq<char>>,
        right_keys: Seq<Seq<char>>,
    },
}

/// The views of a run of batches, in order.
pub open spec fn batches_view(batches: Seq<Batch>) -> Seq<BatchView> {
    batches.map_values(|b: Batch| b@)
}

/// The view of a plan.
pub open spec fn plan_view(plan: Plan) -> PlanView
    decreases plan,
{
    match plan {
        Plan::Literal { schema, batches } => PlanView::Literal {
            schema: schema@,
            batches: batches_view(batches@),
        },
        Plan::Renamed { input, from, to } => PlanView::Renamed {
            input: Box::new(plan_view(*input)),
            from: from@,
            to: to@,
        },
        Plan::Selected { input, names } => PlanView::Selected {
            input: Box::new(plan_view(*input)),
            names: names_view(names@),
        },
        Plan::Joined { left, right, kind, left_keys, right_keys } => PlanView::Joined {
            left: Box::new(plan_view(*left)),
            right: Box::new(plan_view(*right)),
            kind,
            left_keys: names_view(left_keys@),
            right_keys: names_view(right_keys@),
        },
    }
}

impl View for Plan {
    type V = PlanView;

    open spec fn view(&self) -> PlanView {
        plan_view(*self)
    }
}

/// `schema` with the column called `from`, where there is one, called `to`.
pub open spec fn renamed_schema(
    schema: Seq<FieldView>,
    from: Seq<char>,
    to: Seq<char>,
) -> Seq<FieldView> {
    if has_column(schema, from) {
        with_name(schema, position(schema, from), to)
    } else {
        schema
    }
}

/// Whether the key columns of the two sides have pairwise the same element
/// type. Meaningful where every key resolves.
pub open spec fn keys_alike(
    left: Seq<FieldView>,
    right: Seq<FieldView>,
    left_keys: Seq<Seq<char>>,
    right_keys: Seq<Seq<char>>,
) -> bool {
    forall|k: int|
        0 <= k < left_keys.len() ==> left[position(left, #[trigger] left_keys[k])].data_type
            == right[position(right, right_keys[k])].data_type
}

/// The schema of the rows that a plan yields.
pub open spec fn plan_schema(plan: PlanView) -> Seq<FieldView>
    decreases plan,
{
    match plan {
        PlanView::Literal { schema, .. } => schema,
        PlanView::Renamed { input, from, to } => renamed_schema(plan_schema(*input), from, to),
        PlanView::Selected { input, names } => picked(plan_schema(*input), names),
        PlanView::Joined { left, right, kind, .. } => join_schema(
            plan_schema(*left),
            plan_schema(*right),
            kind,
        ),
    }
}

/// Whether a plan is sound: literal data is made of batches of the table's
/// schema, whose columns have distinct names, and a table without batches has
/// no columns; a rename does not name an ambiguous column; each selected name
/// and each join key resolves to exactly one column; and a join has as many
/// left keys as right keys, of pairwise the same element type.
pub open spec fn plan_ok(plan: PlanView) -> bool
    decreases plan,
{
    match plan {
        PlanView::Literal { schema, batches } => {
            &&& names_unique(schema)
            &&& batches.len() == 0 ==> schema.len() == 0
            &&& forall|i: int|
                0 <= i < batches.len() ==> (#[trigger] batches[i]).schema == schema && batch_valid(
                    batches[i].schema,
                    batches[i].columns,
                )
        },
        PlanView::Renamed { input, from, .. } => {
            &&& plan_ok(*input)
            &&& !is_ambiguous(plan_schema(*input), from)
        },
        PlanView::Selected { input, names } => {
            &&& plan_ok(*input)
            &&& all_resolve(plan_schema(*input), names)
        },
        PlanView::Joined { left, right, left_keys, right_keys, .. } => {
            &&& plan_ok(*left)
            &&& plan_ok(*right)
            &&& left_keys.len() == right_keys.len()
            &&& all_resolve(plan_schema(*left), left_keys)
            &&& all_resolve(plan_schema(*right), right_keys)
            &&& keys_alike(plan_schema(*left), plan_schema(*right), left_keys, right_keys)
        },
    }
}

/// A lazy, composable reference to a table.
#[derive(Debug)]
pub struct TableHandle {
    schema: Schema,
    plan: Plan,
}

impl View for TableHandle {
    type V = PlanView;

    closed spec fn view(&self) -> PlanView {
        self.plan@
    }
}

/// A copy of each of `names`, in order.
fn copy_names(names: &Vec<String>) -> (copy: Vec<String>)
    ensures
        names_view(copy@) == names_view(names@),
{
    let copy = names.clone();
    assert(copy@ =~= names@);
    copy
}

/// A copy of each of `batches`, in order.
fn copy_batches(batches: &Vec<Batch>) -> (copy: Vec<Batch>)
    ensures
        batches_view(copy@) == batches_view(batches@),
{
    let mut copy: Vec<Batch> = Vec::new();
    let mut i: usize = 0;
    while i < batches.len()
        invariant
            i <= batches.len(),
            copy.len() == i,
            forall|k: int| 0 <= k < i ==> (#[trigger] copy@[k])@ == batches@[k]@,
        decreases batches.len() - i,
    {
        copy.push(batches[i].clone());
        i += 1;
    }
    assert(batches_view(copy@) =~= batches_view(batches@));
    copy
}

impl Clone for Plan {
    fn clone(&self) -> (copy: Self)
        ensures
            copy@ == self@,
        decreases self,
    {
        match self {
            Plan::Literal { schema, batches } => Plan::Literal {
                schema: schema.clone(),
                batches: copy_batches(batches),
            },
            Plan::Renamed { input, from, to } => Plan::Renamed {
                input: Box::new((&**input).clone()),
                from: from.clone(),
                to: to.clone(),
            },
            Plan::Selected { input, names } => Plan::Selected {
                input: Box::new((&**input).clone()),
                names: copy_names(names),
            },
            Plan::Joined { left, right, kind, left_keys, right_keys } => Plan::Joined {
                left: Box::new((&**left).clone()),
                right: Box::new((&**right).clone()),
                kind: *kind,
                left_keys: copy_names(left_keys),
                right_keys: copy_names(right_keys),
            },
        }
    }
}

impl Clone for TableHandle {
    fn clone(&self) -> (copy: Self)
        ensures
            copy@ == self@,
            copy.spec_schema() == self.spec_schema(),
    {
        TableHandle { schema: self.schema.clone(), plan: self.plan.clone() }
    }
}

impl TableHandle {
    /// The schema that the handle carries.
    pub closed spec fn spec_schema(&self) -> Seq<FieldView> {
        self.schema@
    }

    /// Whether the handle is sound: its plan is, and the schema it carries is
    /// the one its plan yields.
    pub open spec fn wf(&self) -> bool {
        &&& plan_ok(self@)
        &&& self.spec_schema() == plan_schema(self@)
    }

    /// The schema of the table.
    pub fn schema(&self) -> (schema: &Schema)
        ensures
            schema@ == self.spec_schema(),
    {
        &self.schema
    }

    /// The plan of the table.
    pub fn plan(&self) -> (plan: &Plan)
        ensures
            plan@ == self@,
    {
        &self.plan
    }

    /// The table without columns and without rows.
    pub fn empty() -> (handle: TableHandle)
        ensures
            handle.wf(),
            handle@ == (PlanView::Literal {
                schema: Seq::<FieldView>::empty(),
                batches: Seq::<BatchView>::empty(),
            }),
    {
        let handle = TableHandle {
            schema: Schema::empty(),
            plan: Plan::Literal { schema: Schema::empty(), batches: Vec::new() },
        };
        assert(batches_view(Seq::<Batch>::empty()) =~= Seq::<BatchView>::empty());
        handle
    }

    /// The table of one batch, made of `columns` under `schema`; or
    /// `SchemaMismatch` where they are no batch: the schema names a column
    /// twice, the columns are none or not as many as the schema has, one is not
    /// of the declared element type, two differ in length, a column declared
    /// non-nullable holds a null, or the texts of one exceed its capacity.
    pub fn build_literal(schema: Schema, columns: Vec<Column>) -> (made: Result<TableHandle, Error>)
        ensures
            made is Ok <==> batch_valid(schema@, columns_view(columns@)),
            made matches Ok(handle) ==> handle.wf() && handle@ == (PlanView::Literal {
                schema: schema@,
                batches: seq![BatchView { schema: schema@, columns: columns_view(columns@) }],
            }),
            made matches Err(e) ==> e is SchemaMismatch,
    {
        let table_schema = schema.clone();
        let batch = match Batch::try_new(schema, columns) {
            Ok(batch) => batch,
            Err(e) => {
                return Err(e);
            },
        };
        let mut batches: Vec<Batch> = Vec::new();
        batches.push(batch);
        let handle = TableHandle {
            schema: table_schema.clone(),
            plan: Plan::Literal { schema: table_schema, batches },
        };
        assert(batches_view(batches@) =~= seq![batch@]);
        Ok(handle)
    }

    /// This table with column `from` called `to`. Where no column is called
    /// `from` the table is unchanged; where several are, the rename is refused
    /// with `AmbiguousColumn`.
    pub fn with_column_renamed(self, from: String, to: String) -> (made: Result<
        TableHandle,
        Error,
    >)
        requires
            self.wf(),
        ensures
            made is Ok <==> !is_ambiguous(plan_schema(self@), from@),
            made matches Ok(handle) ==> handle.wf() && handle@ == (PlanView::Renamed {
                input: Box::new(self@),
                from: from@,
                to: to@,
            }),
            made matches Err(e) ==> e.spec_kind() == ErrorKind::AmbiguousColumn && e.spec_detail()
                == from@,
    {
        let schema = match self.schema.resolve(&from) {
            Resolution::Ambiguous => {
                return Err(Error::AmbiguousColumn(from));
            },
            Resolution::Missing => self.schema.clone(),
            Resolution::Unique(at) => self.schema.renamed(at, &to),
        };
        Ok(TableHandle { schema, plan: Plan::Renamed { input: Box::new(self.plan), from, to } })
    }

    /// This table cut down to the columns that `names` name, in the order of
    /// `names`. Where a name names no column the projection is refused with
    /// `ColumnNotFound` and the first such name as detail; else, where a name
    /// names several columns, with `AmbiguousColumn` and the first such name.
    pub fn select_columns(self, names: Vec<String>) -> (made: Result<TableHandle, Error>)
        requires
            self.wf(),
        ensures
            made is Ok <==> all_resolve(plan_schema(self@), names_view(names@)),
            made matches Ok(handle) ==> handle.wf() && handle@ == (PlanView::Selected {
                input: Box::new(self@),
                names: names_view(names@),
            }),
            made matches Err(e) ==> reference_refusal(
                plan_schema(self@),
                names_view(names@),
                e.spec_kind(),
                e.spec_detail(),
            ),
    {
        let positions = match self.schema.resolve_all(&names) {
            Ok(positions) => positions,
            Err(e) => {
                return Err(e);
            },
        };
        let schema = self.schema.pick(&positions);
        assert(schema@ =~= picked(self.schema@, names_view(names@)));
        Ok(TableHandle { schema, plan: Plan::Selected { input: Box::new(self.plan), names } })
    }

    /// The join of this table, on the left, with `right`, on the equality of
    /// `left_keys[k]` and `right_keys[k]` for each `k`.
    ///
    /// Refused, in this order: with `EngineError` where the two key lists
    /// differ in length; with `ColumnNotFound` for the first left key, else
    /// the first right key, that names no column; with `AmbiguousColumn` for
    /// the first left key, else the first right key, that names several; with
    /// `EngineError` where a pair of key columns differs in element type.
    pub fn join(
        self,
        right: TableHandle,
        kind: JoinKind,
        left_keys: Vec<String>,
        right_keys: Vec<String>,
    ) -> (made: Result<TableHandle, Error>)
        requires
            self.wf(),
            right.wf(),
        ensures
            made is Ok <==> joinable(
                plan_schema(self@),
                plan_schema(right@),
                names_view(left_keys@),
                names_view(right_keys@),
            ),
            made matches Ok(handle) ==> handle.wf() && handle@ == (PlanView::Joined {
                left: Box::new(self@),
                right: Box::new(right@),
                kind,
                left_keys: names_view(left_keys@),
                right_keys: names_view(right_keys@),
            }),
            made matches Err(e) ==> join_refusal(
                plan_schema(self@),
                plan_schema(right@),
                names_view(left_keys@),
                names_view(right_keys@),
                e.spec_kind(),
                e.spec_detail(),
            ),
    {
        let ghost ls = plan_schema(self@);
        let ghost rs = plan_schema(right@);
        let ghost lk = names_view(left_keys@);
        let ghost rk = names_view(right_keys@);
        if left_keys.len() != right_keys.len() {
            return Err(
                Error::EngineError("the two sides have different numbers of keys".to_string()),
            );
        }
        if let Some(at) = self.schema.first_absent(&left_keys) {
            assert(left_keys@[at as int]@ == lk[at as int]);
            return Err(Error::ColumnNotFound(left_keys[at].clone()));
        }
        if let Some(at) = right.schema.first_absent(&right_keys) {
            assert(right_keys@[at as int]@ == rk[at as int]);
            return Err(Error::ColumnNotFound(right_keys[at].clone()));
        }
        if let Some(at) = self.schema.first_ambiguous(&left_keys) {
            assert(left_keys@[at as int]@ == lk[at as int]);
            return Err(Error::AmbiguousColumn(left_keys[at].clone()));
        }
        if let Some(at) = right.schema.first_ambiguous(&right_keys) {
            assert(right_keys@[at as int]@ == rk[at as int]);
            return Err(Error::AmbiguousColumn(right_keys[at].clone()));
        }
        let left_at = match self.schema.resolve_all(&left_keys) {
            Ok(positions) => positions,
            Err(e) => {
                return Err(e);
            },
        };
        let right_at = match right.schema.resolve_all(&right_keys) {
            Ok(positions) => positions,
            Err(e) => {
                return Err(e);
            },
        };
        let mut k: usize = 0;
        while k < left_keys.len()
            invariant
                k <= left_keys.len(),
                left_keys.len() == right_keys.len(),
                left_at@.len() == left_keys.len(),
                right_at@.len() == right_keys.len(),
                ls == self.schema@,
                rs == right.schema@,
                ls == plan_schema(self@),
                rs == plan_schema(right@),
                lk == names_view(left_keys@),
                rk == names_view(right_keys@),
                all_resolve(ls, lk),
                all_resolve(rs, rk),
                forall|j: int|
                    0 <= j < lk.len() ==> (#[trigger] left_at@[j]) == position(ls, lk[j])
                        && is_only_match(ls, lk[j], left_at@[j] as int),
                forall|j: int|
                    0 <= j < rk.len() ==> (#[trigger] right_at@[j]) == position(rs, rk[j])
                        && is_only_match(rs, rk[j], right_at@[j] as int),
                forall|j: int|
                    0 <= j < k ==> ls[position(ls, #[trigger] lk[j])].data_type
                        == rs[position(rs, rk[j])].data_type,
            decreases left_keys.len() - k,
        {
            let l = left_at[k];
            let r = right_at[k];
            assert(l == position(ls, lk[k as int]) && r == position(rs, rk[k as int]));
            if self.schema.field(l).data_type != right.schema.field(r).data_type {
                assert(ls[position(ls, lk[k as int])].data_type != rs[position(
                    rs,
                    rk[k as int],
                )].data_type);
                return Err(
                    Error::EngineError("a pair of key columns differs in element type".to_string()),
                );
            }
            k += 1;
        }
        let schema = self.schema.joined_with(&right.schema, kind);
        Ok(
            TableHandle {
                schema,
                plan: Plan::Joined {
                    left: Box::new(self.plan),
                    right: Box::new(right.plan),
                    kind,
                    left_keys,
                    right_keys,
                },
            },
        )
    }
}

/// Whether two tables of the given schemas can be joined on the given keys:
/// as many left keys as right keys, each resolving to exactly one column of
/// its side, the columns of each pair of the same element type.
pub open spec fn joinable(
    left: Seq<FieldView>,
    right: Seq<FieldView>,
    left_keys: Seq<Seq<char>>,
    right_keys: Seq<Seq<char>>,
) -> bool {
    &&& left_keys.len() == right_keys.len()
    &&& all_resolve(left, left_keys)
    &&& all_resolve(right, right_keys)
    &&& keys_alike(left, right, left_keys, right_keys)
}

/// Whether a failure of the given kind and detail is the one by which the
/// join of two tables of the given schemas on the given keys is refused.
pub open spec fn join_refusal(
    left: Seq<FieldView>,
    right: Seq<FieldView>,
    left_keys: Seq<Seq<char>>,
    right_keys: Seq<Seq<char>>,
    kind: ErrorKind,
    detail: Seq<char>,
) -> bool {
    if left_keys.len() != right_keys.len() {
        kind == ErrorKind::EngineError
    } else if !all_present(left, left_keys) {
        kind == ErrorKind::ColumnNotFound && exists|i: int|
            #[trigger] is_first_absent(left, left_keys, i) && detail == left_keys[i]
    } else if !all_present(right, right_keys) {
        kind == ErrorKind::ColumnNotFound && exists|i: int|
            #[trigger] is_first_absent(right, right_keys, i) && detail == right_keys[i]
    } else if !none_ambiguous(left, left_keys) {
        kind == ErrorKind::AmbiguousColumn && exists|i: int|
            #[trigger] is_first_ambiguous(left, left_keys, i) && detail == left_keys[i]
    } else if !none_ambiguous(right, right_keys) {
        kind == ErrorKind::AmbiguousColumn && exists|i: int|
            #[trigger] is_first_ambiguous(right, right_keys, i) && detail == right_keys[i]
    } else {
        kind == ErrorKind::EngineError && !keys_alike(left, right, left_keys, right_keys)
    }
}

/// Takes in batches that come from elsewhere: the table of these batches, in
/// order, under the schema of the first, ready to be shown or queried; or
/// `SchemaMismatch` where a batch is not of that schema. No batches give the
/// table without columns and rows.
pub fn process_batches(batches: Vec<Batch>) -> (made: Result<TableHandle, Error>)
    requires
        forall|i: int| 0 <= i < batches@.len() ==> (#[trigger] batches@[i]).wf(),
    ensures
        made is Ok <==> forall|i: int|
            0 <= i < batches@.len() ==> (#[trigger] batches@[i])@.schema == batches@[0]@.schema,
        made matches Ok(handle) ==> handle.wf() && handle@ == (PlanView::Literal {
            schema: if batches@.len() == 0 {
                Seq::<FieldView>::empty()
            } else {
                batches@[0]@.schema
            },
            batches: batches_view(batches@),
        }),
        made matches Err(e) ==> e is SchemaMismatch,
{
    if batches.len() == 0 {
        let handle = TableHandle {
            schema: Schema::empty(),
            plan: Plan::Literal { schema: Schema::empty(), batches },
        };
        return Ok(handle);
    }
    let schema = batches[0].schema().clone();
    let mut i: usize = 1;
    while i < batches.len()
        invariant
            1 <= i <= batches.len(),
            schema@ == batches@[0]@.schema,
            forall|k: int| 0 <= k < i ==> (#[trigger] batches@[k])@.schema == schema@,
        decreases batches.len() - i,
    {
        if !batches[i].schema().same_as(&schema) {
            return Err(
                Error::SchemaMismatch("a batch is not of the schema of the first".to_string()),
            );
        }
        i += 1;
    }
    let handle = TableHandle {
        schema: schema.clone(),
        plan: Plan::Literal { schema, batches },
    };
    assert(plan_ok(handle@)) by {
        let views = batches_view(batches@);
        assert forall|k: int| 0 <= k < views.len() implies (#[trigger] views[k]).schema
            == schema@ && batch_valid(views[k].schema, views[k].columns) by {
            assert(batches@[k].wf());
            assert(batches@[k]@.schema == schema@);
        }
        assert(batches@[0].wf());
    }
    Ok(handle)
}

/// A join on as many left keys as right keys, of which one names no column
/// of its side, is refused, and the refusal is `ColumnNotFound`.
pub proof fn lemma_join_refuses_absent_key(
    left: Seq<FieldView>,
    right: Seq<FieldView>,
    left_keys: Seq<Seq<char>>,
    right_keys: Seq<Seq<char>>,
    kind: ErrorKind,
    detail: Seq<char>,
)
    requires
        left_keys.len() == right_keys.len(),
        !all_present(left, left_keys) || !all_present(right, right_keys),
    ensures
        !joinable(left, right, left_keys, right_keys),
        join_refusal(left, right, left_keys, right_keys, kind, detail) ==> kind
            == ErrorKind::ColumnNotFound,
{
    if !all_present(left, left_keys) {
        let i = choose|i: int|
            0 <= i < left_keys.len() && !has_column(left, #[trigger] left_keys[i]);
        assert(!resolves(left, left_keys[i]));
    } else {
        let i = choose|i: int|
            0 <= i < right_keys.len() && !has_column(right, #[trigger] right_keys[i]);
        assert(!resolves(right, right_keys[i]));
    }
}

} // verus!
