//! Schemas: ordered lists of named, typed, nullable-or-not columns, and the
//! rules by which a name is resolved against one.

use crate::error::{Error, ErrorKind};
use vstd::prelude::*;

verus! {

/// The element type of a column.
#[derive(Clone, Copy, Debug, PartialEq, Eq, Structural)]
pub enum DataType {
    /// Truth values.
    Boolean,
    /// Signed 32-bit integers.
    Int32,
    /// Signed 64-bit integers.
    Int64,
    /// Text.
    Utf8,
}

/// One column of a schema.
#[derive(Debug)]
pub struct Field {
    pub name: String,
    pub data_type: DataType,
    pub nullable: bool,
}

/// A column of a schema as a mathematical value.
pub struct FieldView {
    pub name: Seq<char>,
    pub data_type: DataType,
    pub nullable: bool,
}

impl View for Field {
    type V = FieldView;

    open spec fn view(&self) -> FieldView {
        FieldView { name: self.name@, data_type: self.data_type, nullable: self.nullable }
    }
}

impl Clone for Field {
    fn clone(&self) -> (copy: Self)
        ensures
            copy == *self,
    {
        Field { name: self.name.clone(), data_type: self.data_type, nullable: self.nullable }
    }
}

impl Field {
    /// A column with the given name, element type and nullability.
    pub fn new(name: String, data_type: DataType, nullable: bool) -> (field: Field)
        ensures
            field@ == (FieldView { name: name@, data_type, nullable }),
    {
        Field { name, data_type, nullable }
    }

    /// Whether the two columns agree in name, element type and nullability.
    pub fn same_as(&self, other: &Field) -> (same: bool)
        ensures
            same == (self@ == other@),
    {
        self.name == other.name && self.data_type == other.data_type && self.nullable
            == other.nullable
    }
}

/// The views of a run of columns, in order.
pub open spec fn fields_view(fields: Seq<Field>) -> Seq<FieldView> {
    fields.map_values(|f: Field| f@)
}

/// The views of a run of names, in order.
pub open spec fn names_view(names: Seq<String>) -> Seq<Seq<char>> {
    names.map_values(|n: String| n@)
}

/// How a name resolves against a schema.
#[derive(Clone, Copy, Debug, PartialEq, Eq, Structural)]
pub enum Resolution {
    /// No column has the name.
    Missing,
    /// Exactly one column has the name: the one at this position.
    Unique(usize),
    /// Two or more columns have the name.
    Ambiguous,
}

/// Whether some column of `schema` is called `name`.
pub open spec fn has_column(schema: Seq<FieldView>, name: Seq<char>) -> bool {
    exists|i: int| 0 <= i < schema.len() && (#[trigger] schema[i]).name == name
}

/// Whether two or more columns of `schema` are called `name`.
pub open spec fn is_ambiguous(schema: Seq<FieldView>, name: Seq<char>) -> bool {
    exists|i: int, j: int|
        0 <= i < j < schema.len() && (#[trigger] schema[i]).name == name && (
        #[trigger] schema[j]).name == name
}

/// Whether position `i` holds the one column of `schema` called `name`.
pub open spec fn is_only_match(schema: Seq<FieldView>, name: Seq<char>, i: int) -> bool {
    &&& 0 <= i < schema.len()
    &&& schema[i].name == name
    &&& forall|j: int| 0 <= j < schema.len() && j != i ==> (#[trigger] schema[j]).name != name
}

/// The position of the one column of `schema` called `name`. Meaningful where
/// the name resolves uniquely.
pub open spec fn position(schema: Seq<FieldView>, name: Seq<char>) -> int {
    choose|i: int| is_only_match(schema, name, i)
}

/// Whether no two columns of `schema` share a name.
pub open spec fn names_unique(schema: Seq<FieldView>) -> bool {
    forall|i: int, j: int|
        0 <= i < j < schema.len() ==> (#[trigger] schema[i]).name != (#[trigger] schema[j]).name
}

/// Whether `name` resolves to exactly one column of `schema`.
pub open spec fn resolves(schema: Seq<FieldView>, name: Seq<char>) -> bool {
    has_column(schema, name) && !is_ambiguous(schema, name)
}

/// Whether each of `names` resolves to exactly one column of `schema`.
pub open spec fn all_resolve(schema: Seq<FieldView>, names: Seq<Seq<char>>) -> bool {
    forall|i: int| 0 <= i < names.len() ==> resolves(schema, #[trigger] names[i])
}

/// Whether each of `names` names some column of `schema`.
pub open spec fn all_present(schema: Seq<FieldView>, names: Seq<Seq<char>>) -> bool {
    forall|i: int| 0 <= i < names.len() ==> has_column(schema, #[trigger] names[i])
}

/// Whether none of `names` names two or more columns of `schema`.
pub open spec fn none_ambiguous(schema: Seq<FieldView>, names: Seq<Seq<char>>) -> bool {
    forall|i: int| 0 <= i < names.len() ==> !is_ambiguous(schema, #[trigger] names[i])
}

/// Whether `names[i]` is the first of `names` that names no column of
/// `schema`.
pub open spec fn is_first_absent(schema: Seq<FieldView>, names: Seq<Seq<char>>, i: int) -> bool {
    &&& 0 <= i < names.len()
    &&& !has_column(schema, names[i])
    &&& forall|j: int| 0 <= j < i ==> has_column(schema, #[trigger] names[j])
}

/// Whether `names[i]` is the first of `names` that names two or more columns
/// of `schema`.
pub open spec fn is_first_ambiguous(
    schema: Seq<FieldView>,
    names: Seq<Seq<char>>,
    i: int,
) -> bool {
    &&& 0 <= i < names.len()
    &&& is_ambiguous(schema, names[i])
    &&& forall|j: int| 0 <= j < i ==> !is_ambiguous(schema, #[trigger] names[j])
}

/// Whether a failure of the given kind and detail is the one by which `names`
/// are refused as references to columns of `schema`: where a name names no
/// column, `ColumnNotFound` with the first such name; else `AmbiguousColumn`
/// with the first name that names several.
pub open spec fn reference_refusal(
    schema: Seq<FieldView>,
    names: Seq<Seq<char>>,
    kind: ErrorKind,
    detail: Seq<char>,
) -> bool {
    if !all_present(schema, names) {
        kind == ErrorKind::ColumnNotFound && exists|i: int|
            #[trigger] is_first_absent(schema, names, i) && detail == names[i]
    } else {
        kind == ErrorKind::AmbiguousColumn && exists|i: int|
            #[trigger] is_first_ambiguous(schema, names, i) && detail == names[i]
    }
}

/// How a join combines the rows of its two sides.
#[derive(Clone, Copy, Debug, PartialEq, Eq, Structural)]
pub enum JoinKind {
    /// Matching pairs only.
    Inner,
    /// Matching pairs, and each left row without a match, padded with nulls.
    LeftOuter,
    /// Matching pairs, and each right row without a match, padded with nulls.
    RightOuter,
    /// Matching pairs, and each row of either side without a match, padded
    /// with nulls.
    FullOuter,
    /// The left rows that have a match; no right columns.
    Semi,
    /// The left rows that have no match; no right columns.
    Anti,
}

/// `schema` with every column marked nullable.
pub open spec fn all_nullable(schema: Seq<FieldView>) -> Seq<FieldView> {
    schema.map_values(|f: FieldView| FieldView { nullable: true, ..f })
}

/// `schema` with the column at `at` renamed to `to`.
pub open spec fn with_name(schema: Seq<FieldView>, at: int, to: Seq<char>) -> Seq<FieldView> {
    schema.update(at, FieldView { name: to, ..schema[at] })
}

/// The columns of `schema` that `names` pick, in the order of `names`.
pub open spec fn picked(schema: Seq<FieldView>, names: Seq<Seq<char>>) -> Seq<FieldView> {
    names.map_values(|n: Seq<char>| schema[position(schema, n)])
}

/// The schema of a join: the left columns, then the right columns; a side
/// that the join pads with nulls has all its columns nullable; a semi or anti
/// join keeps the left columns only.
pub open spec fn join_schema(
    left: Seq<FieldView>,
    right: Seq<FieldView>,
    kind: JoinKind,
) -> Seq<FieldView> {
    match kind {
        JoinKind::Inner => left + right,
        JoinKind::LeftOuter => left + all_nullable(right),
        JoinKind::RightOuter => all_nullable(left) + right,
        JoinKind::FullOuter => all_nullable(left) + all_nullable(right),
        JoinKind::Semi => left,
        JoinKind::Anti => left,
    }
}

/// The position that a uniquely resolving name has is the only one that
/// matches it.
pub proof fn lemma_position(schema: Seq<FieldView>, name: Seq<char>, i: int)
    requires
        is_only_match(schema, name, i),
    ensures
        position(schema, name) == i,
        has_column(schema, name),
        !is_ambiguous(schema, name),
{
    let p = position(schema, name);
    assert(is_only_match(schema, name, p));
    if p != i {
        assert(schema[p].name != name);
    }
    assert(schema[i].name == name);
    if is_ambiguous(schema, name) {
        let (a, b) = choose|a: int, b: int|
            0 <= a < b < schema.len() && (#[trigger] schema[a]).name == name && (
            #[trigger] schema[b]).name == name;
        if a != i {
            assert(schema[a].name != name);
        } else {
            assert(schema[b].name != name);
        }
    }
}

/// A projection on names that each resolve to one column yields one column
/// for each name, called by that name; where the names are pairwise distinct,
/// so are the names of the columns it yields.
pub proof fn lemma_projection_names(schema: Seq<FieldView>, names: Seq<Seq<char>>)
    requires
        all_resolve(schema, names),
    ensures
        picked(schema, names).len() == names.len(),
        forall|k: int|
            0 <= k < names.len() ==> (#[trigger] picked(schema, names)[k]).name == names[k],
        (forall|i: int, j: int| 0 <= i < j < names.len() ==> names[i] != names[j]) ==> names_unique(
            picked(schema, names),
        ),
{
    let out = picked(schema, names);
    assert forall|k: int| 0 <= k < names.len() implies (#[trigger] out[k]).name == names[k] by {
        assert(resolves(schema, names[k]));
        lemma_resolves(schema, names[k]);
    }
}

/// A name that resolves has a position, which holds the one column of that
/// name.
pub proof fn lemma_resolves(schema: Seq<FieldView>, name: Seq<char>)
    requires
        resolves(schema, name),
    ensures
        is_only_match(schema, name, position(schema, name)),
{
    let w = choose|w: int| 0 <= w < schema.len() && (#[trigger] schema[w]).name == name;
    assert forall|j: int| 0 <= j < schema.len() && j != w implies (#[trigger] schema[j]).name
        != name by {
        if schema[j].name == name {
            if j < w {
                assert(schema[j].name == name && schema[w].name == name);
            } else {
                assert(schema[w].name == name && schema[j].name == name);
            }
            assert(is_ambiguous(schema, name));
        }
    }
    assert(is_only_match(schema, name, w));
}

/// An ordered list of columns.
#[derive(Debug)]
pub struct Schema {
    pub fields: Vec<Field>,
}

impl View for Schema {
    type V = Seq<FieldView>;

    open spec fn view(&self) -> Seq<FieldView> {
        fields_view(self.fields@)
    }
}

impl Clone for Schema {
    fn clone(&self) -> (copy: Self)
        ensures
            copy@ == self@,
    {
        let mut fields: Vec<Field> = Vec::new();
        let mut i: usize = 0;
        while i < self.fields.len()
            invariant
                i <= self.fields.len(),
                fields@ == self.fields@.take(i as int),
            decreases self.fields.len() - i,
        {
            fields.push(self.fields[i].clone());
            assert(self.fields@.take(i as int + 1) == self.fields@.take(i as int).push(
                self.fields@[i as int],
            ));
            i += 1;
        }
        assert(self.fields@.take(i as int) == self.fields@);
        Schema { fields }
    }
}

impl Schema {
    /// The schema with the given columns, in the given order.
    pub fn new(fields: Vec<Field>) -> (schema: Schema)
        ensures
            schema@ == fields_view(fields@),
            schema.fields == fields,
    {
        Schema { fields }
    }

    /// The schema without columns.
    pub fn empty() -> (schema: Schema)
        ensures
            schema@ == Seq::<FieldView>::empty(),
    {
        let schema = Schema { fields: Vec::new() };
        assert(schema@ =~= Seq::<FieldView>::empty());
        schema
    }

    /// The number of columns.
    pub fn len(&self) -> (n: usize)
        ensures
            n == self@.len(),
    {
        self.fields.len()
    }

    /// The column at position `i`.
    pub fn field(&self, i: usize) -> (field: &Field)
        requires
            i < self@.len(),
        ensures
            field@ == self@[i as int],
    {
        &self.fields[i]
    }

    /// Resolves `name` against the columns.
    pub fn resolve(&self, name: &String) -> (found: Resolution)
        ensures
            found is Missing <==> !has_column(self@, name@),
            found is Ambiguous <==> is_ambiguous(self@, name@),
            found matches Resolution::Unique(i) ==> is_only_match(self@, name@, i as int)
                && position(self@, name@) == i,
    {
        let mut found = Resolution::Missing;
        let mut i: usize = 0;
        while i < self.fields.len()
            invariant
                i <= self.fields.len(),
                found is Missing <==> !has_column(self@.take(i as int), name@),
                found is Ambiguous <==> is_ambiguous(self@.take(i as int), name@),
                found matches Resolution::Unique(k) ==> k < i && is_only_match(
                    self@.take(i as int),
                    name@,
                    k as int,
                ),
            decreases self.fields.len() - i,
        {
            let ghost before = self@.take(i as int);
            let ghost after = self@.take(i as int + 1);
            assert(forall|k: int| 0 <= k < i ==> before[k] == #[trigger] after[k]);
            assert(after[i as int] == self@[i as int]);
            let hit = self.fields[i].name == *name;
            let ghost earlier = found;
            if hit {
                found =
                match found {
                    Resolution::Missing => Resolution::Unique(i),
                    _ => Resolution::Ambiguous,
                };
            }
            proof {
                if earlier is Ambiguous {
                    let (a, b) = choose|a: int, b: int|
                        0 <= a < b < before.len() && (#[trigger] before[a]).name == name@ && (
                        #[trigger] before[b]).name == name@;
                    assert(after[a].name == name@ && after[b].name == name@);
                } else if hit {
                    match earlier {
                        Resolution::Unique(k) => {
                            assert(after[k as int].name == name@ && after[i as int].name == name@);
                        },
                        _ => {
                            assert forall|j: int| 0 <= j < after.len() && j != i implies (
                            #[trigger] after[j]).name != name@ by {
                                assert(before[j] == after[j]);
                            }
                            lemma_position(after, name@, i as int);
                        },
                    }
                } else {
                    match earlier {
                        Resolution::Unique(k) => {
                            assert(before[k as int] == after[k as int]);
                            assert forall|j: int| 0 <= j < after.len() && j != k implies (
                            #[trigger] after[j]).name != name@ by {
                                if j < i {
                                    assert(before[j] == after[j]);
                                }
                            }
                            lemma_position(after, name@, k as int);
                        },
                        _ => {
                            if has_column(after, name@) {
                                let w = choose|w: int|
                                    0 <= w < after.len() && (#[trigger] after[w]).name == name@;
                                assert(before[w].name == name@);
                            }
                            if is_ambiguous(after, name@) {
                                let (a, b) = choose|a: int, b: int|
                                    0 <= a < b < after.len() && (#[trigger] after[a]).name == name@
                                        && (#[trigger] after[b]).name == name@;
                                assert(before[a].name == name@ && before[b].name == name@);
                            }
                        },
                    }
                }
            }
            i += 1;
        }
        assert(self@.take(i as int) == self@);
        proof {
            if let Resolution::Unique(k) = found {
                lemma_position(self@, name@, k as int);
            }
        }
        found
    }

    /// Whether no two columns share a name.
    pub fn has_unique_names(&self) -> (unique: bool)
        ensures
            unique == names_unique(self@),
    {
        let mut i: usize = 0;
        while i < self.fields.len()
            invariant
                i <= self.fields.len(),
                forall|a: int, b: int|
                    0 <= a < b < self@.len() && a < i ==> (#[trigger] self@[a]).name != (
                    #[trigger] self@[b]).name,
            decreases self.fields.len() - i,
        {
            let mut j: usize = i + 1;
            while j < self.fields.len()
                invariant
                    i < j <= self.fields.len(),
                    forall|a: int, b: int|
                        0 <= a < b < self@.len() && a < i ==> (#[trigger] self@[a]).name != (
                        #[trigger] self@[b]).name,
                    forall|b: int| i < b < j ==> self@[i as int].name != (#[trigger] self@[b]).name,
                decreases self.fields.len() - j,
            {
                if self.fields[i].name == self.fields[j].name {
                    assert(self@[i as int].name == self@[j as int].name);
                    return false;
                }
                j += 1;
            }
            i += 1;
        }
        true
    }

    /// This schema with the column at `at` renamed to `to`.
    pub fn renamed(&self, at: usize, to: &String) -> (out: Schema)
        requires
            at < self@.len(),
        ensures
            out@ == with_name(self@, at as int, to@),
    {
        let mut fields: Vec<Field> = Vec::new();
        let mut i: usize = 0;
        while i < self.fields.len()
            invariant
                i <= self.fields.len(),
                at < self.fields.len(),
                fields.len() == i,
                forall|k: int|
                    0 <= k < i ==> (#[trigger] fields@[k])@ == with_name(self@, at as int, to@)[k],
            decreases self.fields.len() - i,
        {
            let field = &self.fields[i];
            if i == at {
                fields.push(Field::new(to.clone(), field.data_type, field.nullable));
            } else {
                fields.push(field.clone());
            }
            i += 1;
        }
        let out = Schema { fields };
        assert(out@ =~= with_name(self@, at as int, to@));
        out
    }

    /// The columns at `positions`, in that order.
    pub fn pick(&self, positions: &Vec<usize>) -> (out: Schema)
        requires
            forall|k: int| 0 <= k < positions@.len() ==> (#[trigger] positions@[k]) < self@.len(),
        ensures
            out@.len() == positions@.len(),
            forall|k: int| 0 <= k < positions@.len() ==> out@[k] == self@[positions@[k] as int],
    {
        let mut fields: Vec<Field> = Vec::new();
        let mut i: usize = 0;
        while i < positions.len()
            invariant
                i <= positions.len(),
                fields.len() == i,
                forall|k: int|
                    0 <= k < positions@.len() ==> (#[trigger] positions@[k]) < self@.len(),
                forall|k: int|
                    0 <= k < i ==> (#[trigger] fields@[k])@ == self@[positions@[k] as int],
            decreases positions.len() - i,
        {
            let at = positions[i];
            fields.push(self.fields[at].clone());
            i += 1;
        }
        Schema { fields }
    }

    /// This schema with every column marked nullable.
    pub fn nullified(&self) -> (out: Schema)
        ensures
            out@ == all_nullable(self@),
    {
        let mut fields: Vec<Field> = Vec::new();
        let mut i: usize = 0;
        while i < self.fields.len()
            invariant
                i <= self.fields.len(),
                fields.len() == i,
                forall|k: int| 0 <= k < i ==> (#[trigger] fields@[k])@ == all_nullable(self@)[k],
            decreases self.fields.len() - i,
        {
            let field = &self.fields[i];
            fields.push(Field::new(field.name.clone(), field.data_type, true));
            i += 1;
        }
        let out = Schema { fields };
        assert(out@ =~= all_nullable(self@));
        out
    }

    /// The columns of this schema followed by those of `other`.
    pub fn followed_by(&self, other: &Schema) -> (out: Schema)
        ensures
            out@ == self@ + other@,
    {
        let mut fields: Vec<Field> = Vec::new();
        let mut i: usize = 0;
        while i < self.fields.len()
            invariant
                i <= self.fields.len(),
                fields.len() == i,
                forall|k: int| 0 <= k < i ==> (#[trigger] fields@[k])@ == self@[k],
            decreases self.fields.len() - i,
        {
            fields.push(self.fields[i].clone());
            i += 1;
        }
        let mut j: usize = 0;
        while j < other.fields.len()
            invariant
                j <= other.fields.len(),
                fields.len() == self.fields.len() + j,
                forall|k: int| 0 <= k < self@.len() ==> (#[trigger] fields@[k])@ == self@[k],
                forall|k: int|
                    0 <= k < j ==> (#[trigger] fields@[self@.len() + k])@ == other@[k],
            decreases other.fields.len() - j,
        {
            fields.push(other.fields[j].clone());
            j += 1;
        }
        let out = Schema { fields };
        assert(out@ =~= self@ + other@) by {
            assert(out@.len() == self@.len() + other@.len());
            assert forall|k: int| 0 <= k < out@.len() implies out@[k] == (self@ + other@)[k] by {
                if k >= self@.len() {
                    let at = k - self@.len();
                    assert(out.fields@[self@.len() + at]@ == other@[at]);
                }
            }
        }
        out
    }

    /// The schema of the join of a table of this schema, on the left, with one
    /// of schema `right`.
    pub fn joined_with(&self, right: &Schema, kind: JoinKind) -> (out: Schema)
        ensures
            out@ == join_schema(self@, right@, kind),
    {
        match kind {
            JoinKind::Inner => self.followed_by(right),
            JoinKind::LeftOuter => self.followed_by(&right.nullified()),
            JoinKind::RightOuter => self.nullified().followed_by(right),
            JoinKind::FullOuter => self.nullified().followed_by(&right.nullified()),
            JoinKind::Semi => self.clone(),
            JoinKind::Anti => self.clone(),
        }
    }

    /// The position in `names` of the first name that names no column, if
    /// there is one.
    pub fn first_absent(&self, names: &Vec<String>) -> (found: Option<usize>)
        ensures
            found is None <==> all_present(self@, names_view(names@)),
            found matches Some(i) ==> is_first_absent(self@, names_view(names@), i as int),
    {
        let ghost wanted = names_view(names@);
        let mut i: usize = 0;
        while i < names.len()
            invariant
                i <= names.len(),
                wanted == names_view(names@),
                forall|k: int| 0 <= k < i ==> has_column(self@, #[trigger] wanted[k]),
            decreases names.len() - i,
        {
            assert(names@[i as int]@ == wanted[i as int]);
            if let Resolution::Missing = self.resolve(&names[i]) {
                assert(is_first_absent(self@, wanted, i as int));
                return Some(i);
            }
            i += 1;
        }
        None
    }

    /// The position in `names` of the first name that names two or more
    /// columns, if there is one.
    pub fn first_ambiguous(&self, names: &Vec<String>) -> (found: Option<usize>)
        ensures
            found is None <==> none_ambiguous(self@, names_view(names@)),
            found matches Some(i) ==> is_first_ambiguous(self@, names_view(names@), i as int),
    {
        let ghost wanted = names_view(names@);
        let mut i: usize = 0;
        while i < names.len()
            invariant
                i <= names.len(),
                wanted == names_view(names@),
                forall|k: int| 0 <= k < i ==> !is_ambiguous(self@, #[trigger] wanted[k]),
            decreases names.len() - i,
        {
            assert(names@[i as int]@ == wanted[i as int]);
            if let Resolution::Ambiguous = self.resolve(&names[i]) {
                assert(is_first_ambiguous(self@, wanted, i as int));
                return Some(i);
            }
            i += 1;
        }
        None
    }

    /// The positions of the columns that `names` name, in the order of
    /// `names`. Where a name names no column the names are refused with
    /// `ColumnNotFound` and the first such name as detail; else, where a name
    /// names several columns, with `AmbiguousColumn` and the first such name.
    pub fn resolve_all(&self, names: &Vec<String>) -> (found: Result<Vec<usize>, Error>)
        ensures
            found is Ok <==> all_resolve(self@, names_view(names@)),
            found matches Ok(positions) ==> positions@.len() == names@.len() && forall|k: int|
                0 <= k < names@.len() ==> (#[trigger] positions@[k]) == position(
                    self@,
                    names_view(names@)[k],
                ) && is_only_match(self@, names_view(names@)[k], positions@[k] as int),
            found matches Err(e) ==> reference_refusal(
                self@,
                names_view(names@),
                e.spec_kind(),
                e.spec_detail(),
            ),
    {
        let ghost wanted = names_view(names@);
        if let Some(at) = self.first_absent(names) {
            assert(names@[at as int]@ == wanted[at as int]);
            assert(!resolves(self@, wanted[at as int]));
            return Err(Error::ColumnNotFound(names[at].clone()));
        }
        if let Some(at) = self.first_ambiguous(names) {
            assert(names@[at as int]@ == wanted[at as int]);
            assert(!resolves(self@, wanted[at as int]));
            return Err(Error::AmbiguousColumn(names[at].clone()));
        }
        let mut positions: Vec<usize> = Vec::new();
        let mut i: usize = 0;
        while i < names.len()
            invariant
                i <= names.len(),
                wanted == names_view(names@),
                all_present(self@, wanted),
                none_ambiguous(self@, wanted),
                positions.len() == i,
                forall|k: int|
                    0 <= k < i ==> (#[trigger] positions@[k]) == position(self@, wanted[k])
                        && is_only_match(self@, wanted[k], positions@[k] as int),
            decreases names.len() - i,
        {
            assert(names@[i as int]@ == wanted[i as int]);
            assert(resolves(self@, wanted[i as int]));
            match self.resolve(&names[i]) {
                Resolution::Unique(at) => {
                    positions.push(at);
                },
                Resolution::Missing => {
                    return Err(Error::ColumnNotFound(names[i].clone()));
                },
                Resolution::Ambiguous => {
                    return Err(Error::AmbiguousColumn(names[i].clone()));
                },
            }
            i += 1;
        }
        assert(all_resolve(self@, wanted)) by {
            assert forall|k: int| 0 <= k < wanted.len() implies resolves(
                self@,
                #[trigger] wanted[k],
            ) by {}
        }
        Ok(positions)
    }

    /// Whether the two schemas list the same columns in the same order.
    pub fn same_as(&self, other: &Schema) -> (same: bool)
        ensures
            same == (self@ == other@),
    {
        if self.fields.len() != other.fields.len() {
            assert(self@.len() != other@.len());
            return false;
        }
        let mut i: usize = 0;
        while i < self.fields.len()
            invariant
                i <= self.fields.len(),
                self.fields.len() == other.fields.len(),
                forall|k: int| 0 <= k < i ==> self@[k] == other@[k],
            decreases self.fields.len() - i,
        {
            if !self.fields[i].same_as(&other.fields[i]) {
                assert(self@[i as int] != other@[i as int]);
                return false;
            }
            i += 1;
        }
        assert(self@ =~= other@);
        true
    }
}

} // verus!
