//! The built-in tables, the choice among them by selector, and the canonical
//! join of the two.

use crate::batch::{batch_valid, columns_view, text_size, BatchView, Column, ColumnView};
use crate::error::Error;
use crate::schema::{
    all_resolve, is_ambiguous, is_only_match, lemma_position, names_view, picked, DataType, Field,
    FieldView, JoinKind, Schema,
};
use crate::table::{
    joinable, keys_alike, plan_ok, plan_schema, renamed_schema, PlanView, TableHandle,
};
use vstd::prelude::*;
use vstd::utf8::{is_ascii_chars, is_ascii_chars_encode_utf8};

verus! {

/// The schema of the first built-in table: a number `id` and a text `name`.
pub open spec fn schema_a() -> Seq<FieldView> {
    seq![
        FieldView { name: "id"@, data_type: DataType::Int32, nullable: false },
        FieldView { name: "name"@, data_type: DataType::Utf8, nullable: true },
    ]
}

/// The rows of the first built-in table: (1, foo), (2, bar), (3, baz).
pub open spec fn columns_a() -> Seq<ColumnView> {
    seq![
        ColumnView::Int32(seq![Some(1i32), Some(2i32), Some(3i32)]),
        ColumnView::Utf8(seq![Some("foo"@), Some("bar"@), Some("baz"@)]),
    ]
}

/// The schema of the second built-in table: a number `id` and a number
/// `data`.
pub open spec fn schema_b() -> Seq<FieldView> {
    seq![
        FieldView { name: "id"@, data_type: DataType::Int32, nullable: false },
        FieldView { name: "data"@, data_type: DataType::Int32, nullable: true },
    ]
}

/// The rows of the second built-in table: (1, 42), (2, 43), (3, 44).
pub open spec fn columns_b() -> Seq<ColumnView> {
    seq![
        ColumnView::Int32(seq![Some(1i32), Some(2i32), Some(3i32)]),
        ColumnView::Int32(seq![Some(42i32), Some(43i32), Some(44i32)]),
    ]
}

/// The plan of a table of one batch.
pub open spec fn one_batch(schema: Seq<FieldView>, columns: Seq<ColumnView>) -> PlanView {
    PlanView::Literal { schema, batches: seq![BatchView { schema, columns }] }
}

/// The plan of the table without columns and without rows.
pub open spec fn no_table() -> PlanView {
    PlanView::Literal { schema: Seq::<FieldView>::empty(), batches: Seq::<BatchView>::empty() }
}

/// The plan of the canonical join: the first table joined, on `id`, with the
/// second, whose `id` is called `id2`; of the result the columns `id`, `name`
/// and `data`.
pub open spec fn canonical_join() -> PlanView {
    PlanView::Selected {
        input: Box::new(
            PlanView::Joined {
                left: Box::new(one_batch(schema_a(), columns_a())),
                right: Box::new(
                    PlanView::Renamed {
                        input: Box::new(one_batch(schema_b(), columns_b())),
                        from: "id"@,
                        to: "id2"@,
                    },
                ),
                kind: JoinKind::Inner,
                left_keys: seq!["id"@],
                right_keys: seq!["id2"@],
            },
        ),
        names: seq!["id"@, "name"@, "data"@],
    }
}

/// The schema of the canonical join: `id`, `name` and `data`.
pub open spec fn canonical_schema() -> Seq<FieldView> {
    seq![
        FieldView { name: "id"@, data_type: DataType::Int32, nullable: false },
        FieldView { name: "name"@, data_type: DataType::Utf8, nullable: true },
        FieldView { name: "data"@, data_type: DataType::Int32, nullable: true },
    ]
}

/// The four column names of the built-in tables are pairwise distinct.
pub proof fn lemma_names_differ()
    ensures
        "id"@ != "name"@,
        "id"@ != "data"@,
        "id"@ != "id2"@,
        "name"@ != "data"@,
        "name"@ != "id2"@,
        "data"@ != "id2"@,
{
    reveal_strlit("id");
    reveal_strlit("name");
    reveal_strlit("data");
    reveal_strlit("id2");
    assert("name"@[0] != "data"@[0]);
    assert("id"@.len() == 2 && "id2"@.len() == 3);
}

/// The texts of the first table take up nine bytes.
proof fn lemma_texts_fit()
    ensures
        text_size(seq![Some("foo"@), Some("bar"@), Some("baz"@)]) == 9,
{
    reveal_strlit("foo");
    reveal_strlit("bar");
    reveal_strlit("baz");
    let texts = seq![Some("foo"@), Some("bar"@), Some("baz"@)];
    assert(is_ascii_chars("foo"@));
    assert(is_ascii_chars("bar"@));
    assert(is_ascii_chars("baz"@));
    is_ascii_chars_encode_utf8("foo"@);
    is_ascii_chars_encode_utf8("bar"@);
    is_ascii_chars_encode_utf8("baz"@);
    let two = texts.drop_last();
    let one = two.drop_last();
    assert(two == seq![Some("foo"@), Some("bar"@)]);
    assert(one == seq![Some("foo"@)]);
    assert(one.drop_last() == Seq::<Option<Seq<char>>>::empty());
    assert(text_size(one.drop_last()) == 0);
    assert(text_size(one) == 3);
    assert(text_size(two) == 6);
}

/// The two built-in tables are batches of their schemas.
pub proof fn lemma_datasets_valid()
    ensures
        batch_valid(schema_a(), columns_a()),
        batch_valid(schema_b(), columns_b()),
{
    lemma_names_differ();
    lemma_texts_fit();
    assert(!columns_a()[0].has_null());
    assert(!columns_b()[0].has_null());
}

/// The second schema with its `id` called `id2`.
pub open spec fn schema_b_renamed() -> Seq<FieldView> {
    seq![
        FieldView { name: "id2"@, data_type: DataType::Int32, nullable: false },
        FieldView { name: "data"@, data_type: DataType::Int32, nullable: true },
    ]
}

/// The columns of the canonical join before the projection: `id`, `name`,
/// `id2` and `data`.
pub open spec fn schema_joined() -> Seq<FieldView> {
    schema_a() + schema_b_renamed()
}

/// Every step of the canonical join is sound, and its columns are `id`,
/// `name` and `data`.
pub proof fn lemma_canonical_join()
    ensures
        !is_ambiguous(schema_b(), "id"@),
        renamed_schema(schema_b(), "id"@, "id2"@) == schema_b_renamed(),
        joinable(schema_a(), schema_b_renamed(), seq!["id"@], seq!["id2"@]),
        all_resolve(schema_joined(), seq!["id"@, "name"@, "data"@]),
        plan_ok(canonical_join()),
        plan_schema(canonical_join()) == canonical_schema(),
{
    lemma_names_differ();
    lemma_datasets_valid();
    let sa = schema_a();
    let sb = schema_b();
    let sr = schema_b_renamed();
    let sj = schema_joined();
    assert(is_only_match(sb, "id"@, 0));
    lemma_position(sb, "id"@, 0);
    assert(renamed_schema(sb, "id"@, "id2"@) =~= sr);
    assert(is_only_match(sa, "id"@, 0));
    lemma_position(sa, "id"@, 0);
    assert(is_only_match(sr, "id2"@, 0));
    lemma_position(sr, "id2"@, 0);
    let lk = seq!["id"@];
    let rk = seq!["id2"@];
    assert(all_resolve(sa, lk));
    assert(all_resolve(sr, rk));
    assert(keys_alike(sa, sr, lk, rk));
    assert(sj.len() == 4);
    assert(sj[0] == sa[0] && sj[1] == sa[1] && sj[2] == sr[0] && sj[3] == sr[1]);
    assert(is_only_match(sj, "id"@, 0));
    lemma_position(sj, "id"@, 0);
    assert(is_only_match(sj, "name"@, 1));
    lemma_position(sj, "name"@, 1);
    assert(is_only_match(sj, "data"@, 3));
    lemma_position(sj, "data"@, 3);
    let names = seq!["id"@, "name"@, "data"@];
    assert(all_resolve(sj, names));
    assert(picked(sj, names) =~= canonical_schema());
    let right = PlanView::Renamed {
        input: Box::new(one_batch(sb, columns_b())),
        from: "id"@,
        to: "id2"@,
    };
    assert(plan_schema(one_batch(sb, columns_b())) == sb);
    assert(plan_schema(one_batch(sa, columns_a())) == sa);
    assert(plan_ok(one_batch(sb, columns_b())));
    assert(plan_ok(one_batch(sa, columns_a())));
    assert(plan_schema(right) == sr);
    assert(plan_ok(right));
    let joined = PlanView::Joined {
        left: Box::new(one_batch(sa, columns_a())),
        right: Box::new(right),
        kind: JoinKind::Inner,
        left_keys: lk,
        right_keys: rk,
    };
    assert(plan_schema(joined) == sj);
    assert(plan_ok(joined));
    assert(canonical_join() == PlanView::Selected { input: Box::new(joined), names });
}

/// The first built-in table.
pub fn get_df1() -> (made: Result<TableHandle, Error>)
    ensures
        made matches Ok(handle) && handle.wf() && handle@ == one_batch(schema_a(), columns_a()),
{
    let mut fields: Vec<Field> = Vec::new();
    fields.push(Field::new("id".to_string(), DataType::Int32, false));
    fields.push(Field::new("name".to_string(), DataType::Utf8, true));
    let schema = Schema::new(fields);
    let mut ids: Vec<Option<i32>> = Vec::new();
    ids.push(Some(1));
    ids.push(Some(2));
    ids.push(Some(3));
    let mut names: Vec<Option<String>> = Vec::new();
    names.push(Some("foo".to_string()));
    names.push(Some("bar".to_string()));
    names.push(Some("baz".to_string()));
    let mut columns: Vec<Column> = Vec::new();
    columns.push(Column::Int32(ids));
    columns.push(Column::Utf8(names));
    proof {
        assert(schema@ =~= schema_a());
        assert(columns@[1]@ =~= columns_a()[1]) by {
            assert(columns@[1]@ is Utf8);
            assert(columns@[1]@->Utf8_0 =~= seq![Some("foo"@), Some("bar"@), Some("baz"@)]);
        }
        assert(columns@[0]@ =~= columns_a()[0]) by {
            assert(columns@[0]@->Int32_0 =~= seq![Some(1i32), Some(2i32), Some(3i32)]);
        }
        assert(columns_view(columns@) =~= columns_a());
        lemma_datasets_valid();
    }
    TableHandle::build_literal(schema, columns)
}

/// The second built-in table.
pub fn get_df2() -> (made: Result<TableHandle, Error>)
    ensures
        made matches Ok(handle) && handle.wf() && handle@ == one_batch(schema_b(), columns_b()),
{
    let mut fields: Vec<Field> = Vec::new();
    fields.push(Field::new("id".to_string(), DataType::Int32, false));
    fields.push(Field::new("data".to_string(), DataType::Int32, true));
    let schema = Schema::new(fields);
    let mut ids: Vec<Option<i32>> = Vec::new();
    ids.push(Some(1));
    ids.push(Some(2));
    ids.push(Some(3));
    let mut data: Vec<Option<i32>> = Vec::new();
    data.push(Some(42));
    data.push(Some(43));
    data.push(Some(44));
    let mut columns: Vec<Column> = Vec::new();
    columns.push(Column::Int32(ids));
    columns.push(Column::Int32(data));
    proof {
        assert(schema@ =~= schema_b());
        assert(columns@[0]@ =~= columns_b()[0]) by {
            assert(columns@[0]@->Int32_0 =~= seq![Some(1i32), Some(2i32), Some(3i32)]);
        }
        assert(columns@[1]@ =~= columns_b()[1]) by {
            assert(columns@[1]@->Int32_0 =~= seq![Some(42i32), Some(43i32), Some(44i32)]);
        }
        assert(columns_view(columns@) =~= columns_b());
        lemma_datasets_valid();
    }
    TableHandle::build_literal(schema, columns)
}

/// The built-in tables that a selector can name.
#[derive(Clone, Copy, Debug, PartialEq, Eq, Structural)]
pub enum Dataset {
    /// The first built-in table, selector 1.
    A,
    /// The second built-in table, selector 2.
    B,
    /// No table: a selector that names none. It stands for the table without
    /// columns and rows.
    Unknown(i32),
}

impl Dataset {
    /// The table that a dataset stands for, as a plan.
    pub open spec fn spec_plan(self) -> PlanView {
        match self {
            Dataset::A => one_batch(schema_a(), columns_a()),
            Dataset::B => one_batch(schema_b(), columns_b()),
            Dataset::Unknown(_) => no_table(),
        }
    }

    /// The dataset that a selector names.
    pub open spec fn spec_from_selector(selector: i32) -> Dataset {
        if selector == 1 {
            Dataset::A
        } else if selector == 2 {
            Dataset::B
        } else {
            Dataset::Unknown(selector)
        }
    }

    /// The dataset that a selector names: 1 the first, 2 the second, any other
    /// none.
    pub fn from_selector(selector: i32) -> (dataset: Dataset)
        ensures
            dataset == Dataset::spec_from_selector(selector),
    {
        match selector {
            1 => Dataset::A,
            2 => Dataset::B,
            _ => Dataset::Unknown(selector),
        }
    }

    /// The table that the dataset stands for. An unknown dataset is no
    /// failure: it yields the table without columns and rows.
    pub fn materialize(self) -> (made: Result<TableHandle, Error>)
        ensures
            made matches Ok(handle) && handle.wf() && handle@ == self.spec_plan(),
    {
        match self {
            Dataset::A => get_df1(),
            Dataset::B => get_df2(),
            Dataset::Unknown(_) => Ok(TableHandle::empty()),
        }
    }
}

/// The table that a selector names: 1 the first built-in table, 2 the second,
/// any other the table without columns and rows.
pub fn get_data(input: i32) -> (made: Result<TableHandle, Error>)
    ensures
        made matches Ok(handle) && handle.wf() && handle@ == Dataset::spec_from_selector(
            input,
        ).spec_plan(),
{
    Dataset::from_selector(input).materialize()
}

/// The canonical join: the first built-in table joined, on `id`, with the
/// second, whose `id` is called `id2` for the purpose; of the result the
/// columns `id`, `name` and `data`.
pub fn run() -> (made: Result<TableHandle, Error>)
    ensures
        made matches Ok(handle) && handle.wf() && handle@ == canonical_join() && plan_schema(
            handle@,
        ) == canonical_schema(),
{
    proof {
        lemma_canonical_join();
    }
    let left = match get_df1() {
        Ok(handle) => handle,
        Err(e) => {
            return Err(e);
        },
    };
    let right = match get_df2() {
        Ok(handle) => handle,
        Err(e) => {
            return Err(e);
        },
    };
    let right = match right.with_column_renamed("id".to_string(), "id2".to_string()) {
        Ok(handle) => handle,
        Err(e) => {
            return Err(e);
        },
    };
    let mut left_keys: Vec<String> = Vec::new();
    left_keys.push("id".to_string());
    let mut right_keys: Vec<String> = Vec::new();
    right_keys.push("id2".to_string());
    let mut names: Vec<String> = Vec::new();
    names.push("id".to_string());
    names.push("name".to_string());
    names.push("data".to_string());
    proof {
        assert(names_view(left_keys@) =~= seq!["id"@]);
        assert(names_view(right_keys@) =~= seq!["id2"@]);
        assert(names_view(names@) =~= seq!["id"@, "name"@, "data"@]);
    }
    let joined = match left.join(right, JoinKind::Inner, left_keys, right_keys) {
        Ok(handle) => handle,
        Err(e) => {
            return Err(e);
        },
    };
    joined.select_columns(names)
}

} // verus!
