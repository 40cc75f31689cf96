//! Batches: chunks of rows held column by column, each column an array of one
//! element type, all columns of one batch equally long.

use crate::error::Error;
use crate::schema::{names_unique, DataType, FieldView, Schema};
use vstd::prelude::*;
use vstd::utf8::encode_utf8;

verus! {

/// The number of text bytes that one column can hold: its offsets are signed
/// 32-bit integers.
pub const TEXT_LIMIT: usize = 2147483647;

/// The values of one column, `None` standing for a null.
#[derive(Debug)]
pub enum Column {
    Boolean(Vec<Option<bool>>),
    Int32(Vec<Option<i32>>),
    Int64(Vec<Option<i64>>),
    Utf8(Vec<Option<String>>),
}

/// One value of a table.
#[derive(Debug, PartialEq, Eq)]
pub enum Cell {
    Null,
    Boolean(bool),
    Int32(i32),
    Int64(i64),
    Utf8(String),
}

/// One value of a table as a mathematical value.
pub enum CellView {
    Null,
    Boolean(bool),
    Int32(i32),
    Int64(i64),
    Utf8(Seq<char>),
}

impl View for Cell {
    type V = CellView;

    open spec fn view(&self) -> CellView {
        match self {
            Cell::Null => CellView::Null,
            Cell::Boolean(b) => CellView::Boolean(*b),
            Cell::Int32(n) => CellView::Int32(*n),
            Cell::Int64(n) => CellView::Int64(*n),
            Cell::Utf8(t) => CellView::Utf8(t@),
        }
    }
}

/// The values of one column as a mathematical value.
pub enum ColumnView {
    Boolean(Seq<Option<bool>>),
    Int32(Seq<Option<i32>>),
    Int64(Seq<Option<i64>>),
    Utf8(Seq<Option<Seq<char>>>),
}

/// The view of one text value.
pub open spec fn text_view(text: Option<String>) -> Option<Seq<char>> {
    match text {
        Some(t) => Some(t@),
        None => None,
    }
}

/// The views of a run of text values, in order.
pub open spec fn texts_view(texts: Seq<Option<String>>) -> Seq<Option<Seq<char>>> {
    texts.map_values(|t: Option<String>| text_view(t))
}

/// Whether a null is among `values`.
pub open spec fn holds_null<T>(values: Seq<Option<T>>) -> bool {
    exists|i: int| 0 <= i < values.len() && (#[trigger] values[i]) is None
}

/// The number of bytes that the texts of a column take up, nulls counting
/// for nothing.
pub open spec fn text_size(texts: Seq<Option<Seq<char>>>) -> nat
    decreases texts.len(),
{
    if texts.len() == 0 {
        0
    } else {
        text_size(texts.drop_last()) + match texts.last() {
            Some(t) => encode_utf8(t).len(),
            None => 0,
        }
    }
}

impl ColumnView {
    /// The number of values.
    pub open spec fn len(self) -> nat {
        match self {
            ColumnView::Boolean(v) => v.len(),
            ColumnView::Int32(v) => v.len(),
            ColumnView::Int64(v) => v.len(),
            ColumnView::Utf8(v) => v.len(),
        }
    }

    /// The element type.
    pub open spec fn data_type(self) -> DataType {
        match self {
            ColumnView::Boolean(_) => DataType::Boolean,
            ColumnView::Int32(_) => DataType::Int32,
            ColumnView::Int64(_) => DataType::Int64,
            ColumnView::Utf8(_) => DataType::Utf8,
        }
    }

    /// Whether a null is among the values.
    pub open spec fn has_null(self) -> bool {
        match self {
            ColumnView::Boolean(v) => holds_null(v),
            ColumnView::Int32(v) => holds_null(v),
            ColumnView::Int64(v) => holds_null(v),
            ColumnView::Utf8(v) => holds_null(v),
        }
    }

    /// Whether the texts of the column fit in it. Always so for a column that
    /// holds no texts.
    pub open spec fn fits(self) -> bool {
        match self {
            ColumnView::Utf8(v) => text_size(v) <= TEXT_LIMIT,
            _ => true,
        }
    }

    /// The value in row `row`.
    pub open spec fn cell(self, row: int) -> CellView {
        match self {
            ColumnView::Boolean(v) => match v[row] {
                Some(b) => CellView::Boolean(b),
                None => CellView::Null,
            },
            ColumnView::Int32(v) => match v[row] {
                Some(n) => CellView::Int32(n),
                None => CellView::Null,
            },
            ColumnView::Int64(v) => match v[row] {
                Some(n) => CellView::Int64(n),
                None => CellView::Null,
            },
            ColumnView::Utf8(v) => match v[row] {
                Some(t) => CellView::Utf8(t),
                None => CellView::Null,
            },
        }
    }
}

impl View for Column {
    type V = ColumnView;

    open spec fn view(&self) -> ColumnView {
        match self {
            Column::Boolean(v) => ColumnView::Boolean(v@),
            Column::Int32(v) => ColumnView::Int32(v@),
            Column::Int64(v) => ColumnView::Int64(v@),
            Column::Utf8(v) => ColumnView::Utf8(texts_view(v@)),
        }
    }
}

/// The views of a run of columns, in order.
pub open spec fn columns_view(columns: Seq<Column>) -> Seq<ColumnView> {
    columns.map_values(|c: Column| c@)
}

/// The text sizes of a prefix and of the whole differ by what the rest holds,
/// so a prefix is never larger than the whole.
pub proof fn lemma_text_size_prefix(texts: Seq<Option<Seq<char>>>, n: int)
    requires
        0 <= n <= texts.len(),
    ensures
        text_size(texts.take(n)) <= text_size(texts),
    decreases texts.len() - n,
{
    if n == texts.len() {
        assert(texts.take(n) == texts);
    } else {
        lemma_text_size_prefix(texts, n + 1);
        assert(texts.take(n + 1).drop_last() == texts.take(n));
    }
}

/// Whether a null is among `values`.
fn any_null<T>(values: &Vec<Option<T>>) -> (found: bool)
    ensures
        found == holds_null(values@),
{
    let mut i: usize = 0;
    while i < values.len()
        invariant
            i <= values.len(),
            forall|k: int| 0 <= k < i ==> (#[trigger] values@[k]) is Some,
        decreases values.len() - i,
    {
        if values[i].is_none() {
            assert(values@[i as int] is None);
            return true;
        }
        i += 1;
    }
    false
}

/// Whether the given texts take up no more bytes than a column can hold.
fn texts_fit(values: &Vec<Option<String>>) -> (ok: bool)
    ensures
        ok == (text_size(texts_view(values@)) <= TEXT_LIMIT),
{
    let ghost texts = texts_view(values@);
    let mut total: usize = 0;
    let mut i: usize = 0;
    while i < values.len()
        invariant
            i <= values.len(),
            texts == texts_view(values@),
            total == text_size(texts.take(i as int)),
            total <= TEXT_LIMIT,
        decreases values.len() - i,
    {
        let size: usize = match &values[i] {
            Some(t) => t.as_str().as_bytes().len(),
            None => 0,
        };
        proof {
            assert(texts.take(i as int + 1).drop_last() == texts.take(i as int));
            assert(texts.take(i as int + 1).last() == text_view(values@[i as int]));
            lemma_text_size_prefix(texts, i as int + 1);
        }
        if size > TEXT_LIMIT - total {
            return false;
        }
        total = total + size;
        i += 1;
    }
    assert(texts.take(i as int) == texts);
    true
}

/// A copy of each of `values`, in order.
fn copy_texts(values: &Vec<Option<String>>) -> (copy: Vec<Option<String>>)
    ensures
        copy@ == values@,
{
    let mut copy: Vec<Option<String>> = Vec::new();
    let mut i: usize = 0;
    while i < values.len()
        invariant
            i <= values.len(),
            copy@ == values@.take(i as int),
        decreases values.len() - i,
    {
        let text = match &values[i] {
            Some(t) => Some(t.clone()),
            None => None,
        };
        copy.push(text);
        assert(values@.take(i as int + 1) == values@.take(i as int).push(values@[i as int]));
        i += 1;
    }
    assert(values@.take(i as int) == values@);
    copy
}

impl Column {
    /// The number of values.
    pub fn len(&self) -> (n: usize)
        ensures
            n == self@.len(),
    {
        match self {
            Column::Boolean(v) => v.len(),
            Column::Int32(v) => v.len(),
            Column::Int64(v) => v.len(),
            Column::Utf8(v) => v.len(),
        }
    }

    /// The element type.
    pub fn data_type(&self) -> (t: DataType)
        ensures
            t == self@.data_type(),
    {
        match self {
            Column::Boolean(_) => DataType::Boolean,
            Column::Int32(_) => DataType::Int32,
            Column::Int64(_) => DataType::Int64,
            Column::Utf8(_) => DataType::Utf8,
        }
    }

    /// Whether a null is among the values.
    pub fn has_null(&self) -> (found: bool)
        ensures
            found == self@.has_null(),
    {
        match self {
            Column::Boolean(v) => any_null(v),
            Column::Int32(v) => any_null(v),
            Column::Int64(v) => any_null(v),
            Column::Utf8(v) => {
                let found = any_null(v);
                proof {
                    let texts = texts_view(v@);
                    if holds_null(v@) {
                        let i = choose|i: int| 0 <= i < v@.len() && (#[trigger] v@[i]) is None;
                        assert(texts[i] is None);
                    }
                    if holds_null(texts) {
                        let i = choose|i: int| 0 <= i < texts.len() && (#[trigger] texts[i]) is None;
                        assert(v@[i] is None);
                    }
                }
                found
            },
        }
    }

    /// Whether the texts of the column fit in it.
    pub fn fits(&self) -> (ok: bool)
        ensures
            ok == self@.fits(),
    {
        match self {
            Column::Utf8(v) => texts_fit(v),
            _ => true,
        }
    }

    /// The value in row `row`.
    pub fn cell(&self, row: usize) -> (value: Cell)
        requires
            row < self@.len(),
        ensures
            value@ == self@.cell(row as int),
    {
        match self {
            Column::Boolean(v) => match v[row] {
                Some(b) => Cell::Boolean(b),
                None => Cell::Null,
            },
            Column::Int32(v) => match v[row] {
                Some(n) => Cell::Int32(n),
                None => Cell::Null,
            },
            Column::Int64(v) => match v[row] {
                Some(n) => Cell::Int64(n),
                None => Cell::Null,
            },
            Column::Utf8(v) => match &v[row] {
                Some(t) => Cell::Utf8(t.clone()),
                None => Cell::Null,
            },
        }
    }
}

impl Clone for Column {
    fn clone(&self) -> (copy: Self)
        ensures
            copy@ == self@,
    {
        match self {
            Column::Boolean(v) => {
                let copy = v.clone();
                assert(copy@ =~= v@);
                Column::Boolean(copy)
            },
            Column::Int32(v) => {
                let copy = v.clone();
                assert(copy@ =~= v@);
                Column::Int32(copy)
            },
            Column::Int64(v) => {
                let copy = v.clone();
                assert(copy@ =~= v@);
                Column::Int64(copy)
            },
            Column::Utf8(v) => Column::Utf8(copy_texts(v)),
        }
    }
}

/// A batch as a mathematical value: its schema and its columns.
pub struct BatchView {
    pub schema: Seq<FieldView>,
    pub columns: Seq<ColumnView>,
}

/// Whether `columns` are a batch of `schema`: the schema names no column
/// twice; there is at least one column, and one for each column of the schema,
/// of the declared element type; all are equally long; nulls occur only where
/// the schema allows them; and the texts of each fit in it.
pub open spec fn batch_valid(schema: Seq<FieldView>, columns: Seq<ColumnView>) -> bool {
    &&& names_unique(schema)
    &&& columns.len() == schema.len()
    &&& columns.len() >= 1
    &&& forall|i: int|
        0 <= i < columns.len() ==> {
            &&& (#[trigger] columns[i]).data_type() == schema[i].data_type
            &&& columns[i].len() == columns[0].len()
            &&& (columns[i].has_null() ==> schema[i].nullable)
            &&& columns[i].fits()
        }
}

impl BatchView {
    /// The number of rows.
    pub open spec fn rows(self) -> nat {
        self.columns[0].len()
    }

    /// The value in row `row` of column `column`.
    pub open spec fn cell(self, column: int, row: int) -> CellView {
        self.columns[column].cell(row)
    }
}

/// A chunk of rows of one schema, held column by column.
#[derive(Debug)]
pub struct Batch {
    schema: Schema,
    columns: Vec<Column>,
}

impl View for Batch {
    type V = BatchView;

    closed spec fn view(&self) -> BatchView {
        BatchView { schema: self.schema@, columns: columns_view(self.columns@) }
    }
}

impl Batch {
    /// Whether the batch is one: its columns are a batch of its schema.
    pub open spec fn wf(&self) -> bool {
        batch_valid(self@.schema, self@.columns)
    }

    /// Makes a batch of `schema` from `columns`, or reports why they are none.
    pub fn try_new(schema: Schema, columns: Vec<Column>) -> (made: Result<Batch, Error>)
        ensures
            made is Ok <==> batch_valid(schema@, columns_view(columns@)),
            made matches Ok(batch) ==> batch.wf() && batch@ == (BatchView {
                schema: schema@,
                columns: columns_view(columns@),
            }),
            made matches Err(e) ==> e is SchemaMismatch,
    {
        let ghost cols = columns_view(columns@);
        if !schema.has_unique_names() {
            return Err(Error::SchemaMismatch("the schema names a column twice".to_string()));
        }
        if columns.len() != schema.len() {
            return Err(
                Error::SchemaMismatch("the schema and the columns differ in number".to_string()),
            );
        }
        if columns.len() == 0 {
            return Err(Error::SchemaMismatch("a batch has at least one column".to_string()));
        }
        let rows = columns[0].len();
        let mut i: usize = 0;
        while i < columns.len()
            invariant
                i <= columns.len(),
                columns.len() == schema@.len(),
                columns.len() >= 1,
                cols == columns_view(columns@),
                rows == cols[0].len(),
                forall|k: int|
                    0 <= k < i ==> {
                        &&& (#[trigger] cols[k]).data_type() == schema@[k].data_type
                        &&& cols[k].len() == cols[0].len()
                        &&& (cols[k].has_null() ==> schema@[k].nullable)
                        &&& cols[k].fits()
                    },
            decreases columns.len() - i,
        {
            let column = &columns[i];
            let field = schema.field(i);
            assert(column@ == cols[i as int]);
            if column.data_type() != field.data_type {
                return Err(
                    Error::SchemaMismatch(
                        "a column is not of the type that the schema declares".to_string(),
                    ),
                );
            }
            if column.len() != rows {
                return Err(Error::SchemaMismatch("the columns differ in length".to_string()));
            }
            if !field.nullable && column.has_null() {
                return Err(
                    Error::SchemaMismatch(
                        "a column that the schema declares non-nullable holds a null".to_string(),
                    ),
                );
            }
            if !column.fits() {
                return Err(
                    Error::SchemaMismatch("the texts of a column exceed its capacity".to_string()),
                );
            }
            i += 1;
        }
        Ok(Batch { schema, columns })
    }

    /// The schema of the batch.
    pub fn schema(&self) -> (schema: &Schema)
        ensures
            schema@ == self@.schema,
    {
        &self.schema
    }

    /// The columns of the batch, in the order of the schema.
    pub fn columns(&self) -> (columns: &Vec<Column>)
        ensures
            columns_view(columns@) == self@.columns,
    {
        &self.columns
    }

    /// The number of columns.
    pub fn num_columns(&self) -> (n: usize)
        ensures
            n == self@.columns.len(),
    {
        self.columns.len()
    }

    /// The number of rows.
    pub fn num_rows(&self) -> (n: usize)
        requires
            self.wf(),
        ensures
            n == self@.rows(),
    {
        assert(self.columns@[0]@ == self@.columns[0]);
        self.columns[0].len()
    }

    /// The value in row `row` of column `column`.
    pub fn cell(&self, column: usize, row: usize) -> (value: Cell)
        requires
            self.wf(),
            column < self@.columns.len(),
            row < self@.rows(),
        ensures
            value@ == self@.cell(column as int, row as int),
    {
        assert(self.columns@[column as int]@ == self@.columns[column as int]);
        self.columns[column].cell(row)
    }
}

impl Clone for Batch {
    fn clone(&self) -> (copy: Self)
        ensures
            copy@ == self@,
    {
        let mut columns: Vec<Column> = Vec::new();
        let mut i: usize = 0;
        while i < self.columns.len()
            invariant
                i <= self.columns.len(),
                columns.len() == i,
                forall|k: int| 0 <= k < i ==> (#[trigger] columns@[k])@ == self.columns@[k]@,
            decreases self.columns.len() - i,
        {
            columns.push(self.columns[i].clone());
            i += 1;
        }
        assert(columns_view(columns@) =~= columns_view(self.columns@));
        Batch { schema: self.schema.clone(), columns }
    }
}

} // verus!
