//! The columnar data model: element types, fields, schemas, column data and
//! record batches.
//!
//! A [`RecordBatch`] is a fixed-schema, columnar chunk of rows; its internal
//! consistency (one column per field, matching element types, equal lengths)
//! is a type invariant, so every batch a caller can hold is well formed.

use vstd::prelude::*;

use crate::error::{Error, ErrorModel};

verus! {

/// The element type of a column.
#[derive(Debug, Clone, Copy, PartialEq, Eq, Structural)]
pub enum DataType {
    Utf8,
    Int64,
    Boolean,
}

/// Mathematical model of a [`Field`].
pub struct FieldModel {
    pub name: Seq<char>,
    pub data_type: DataType,
    pub nullable: bool,
}

/// A named, typed schema column, with its nullability.
#[derive(Debug, PartialEq, Eq)]
pub struct Field {
    pub name: String,
    pub data_type: DataType,
    pub nullable: bool,
}

impl View for Field {
    type V = FieldModel;

    open spec fn view(&self) -> FieldModel {
        FieldModel { name: self.name@, data_type: self.data_type, nullable: self.nullable }
    }
}

impl Field {
    /// Builds a field from its parts.
    pub fn new(name: String, data_type: DataType, nullable: bool) -> (r: Field)
        ensures
            r@ == (FieldModel { name: name@, data_type, nullable }),
    {
        Field { name, data_type, nullable }
    }

    /// Returns a field equal to this one.
    pub fn duplicate(&self) -> (r: Field)
        ensures
            r@ == self@,
    {
        Field { name: self.name.clone(), data_type: self.data_type, nullable: self.nullable }
    }
}

/// The index of the first field named `name`, or `-1` if there is none.
pub open spec fn spec_field_index(fields: Seq<FieldModel>, name: Seq<char>) -> int
    decreases fields.len(),
{
    if fields.len() == 0 {
        -1
    } else if fields[0].name == name {
        0
    } else {
        let rest = spec_field_index(fields.drop_first(), name);
        if rest < 0 {
            -1
        } else {
            rest + 1
        }
    }
}

/// Whether some field of `fields` is named `name`.
pub open spec fn spec_has_field(fields: Seq<FieldModel>, name: Seq<char>) -> bool {
    spec_field_index(fields, name) >= 0
}

/// `spec_field_index` finds exactly the first match: a nonnegative result is
/// a match with no earlier match, and a negative result means no match at all.
pub proof fn lemma_field_index_characterization(fields: Seq<FieldModel>, name: Seq<char>)
    ensures
        spec_field_index(fields, name) >= -1,
        spec_field_index(fields, name) >= 0 ==> {
            &&& spec_field_index(fields, name) < fields.len()
            &&& fields[spec_field_index(fields, name)].name == name
            &&& forall|j: int|
                0 <= j < spec_field_index(fields, name) ==> fields[j].name != name
        },
        spec_field_index(fields, name) < 0 ==> forall|j: int|
            0 <= j < fields.len() ==> fields[j].name != name,
    decreases fields.len(),
{
    if fields.len() != 0 && fields[0].name != name {
        lemma_field_index_characterization(fields.drop_first(), name);
        let rest = spec_field_index(fields.drop_first(), name);
        if rest >= 0 {
            assert(forall|j: int|
                1 <= j < rest + 1 ==> fields[j].name == fields.drop_first()[j - 1].name);
        } else {
            assert(forall|j: int|
                1 <= j < fields.len() ==> fields[j].name == fields.drop_first()[j - 1].name);
        }
    }
}

/// Relies on str's `PartialEq`: two string slices are equal exactly when
/// their character sequences are.
#[verifier::external_body]
pub(crate) fn str_eq(a: &str, b: &str) -> (r: bool)
    ensures
        r == (a@ == b@),
{
    a == b
}

/// An ordered list of fields.
#[derive(Debug, PartialEq, Eq)]
pub struct Schema {
    pub fields: Vec<Field>,
}

impl View for Schema {
    type V = Seq<FieldModel>;

    open spec fn view(&self) -> Seq<FieldModel> {
        self.fields@.map_values(|f: Field| f@)
    }
}

impl Schema {
    /// Builds a schema from its fields.
    pub fn new(fields: Vec<Field>) -> (r: Schema)
        ensures
            r@ == fields@.map_values(|f: Field| f@),
    {
        Schema { fields }
    }

    /// The number of fields.
    pub fn len(&self) -> (r: usize)
        ensures
            r == self@.len(),
    {
        self.fields.len()
    }

    /// The index of the first field named `name`, if any.
    pub fn field_index(&self, name: &str) -> (r: Option<usize>)
        ensures
            match r {
                Some(i) => i == spec_field_index(self@, name@),
                None => spec_field_index(self@, name@) == -1,
            },
    {
        let n = self.fields.len();
        let mut i: usize = 0;
        while i < n
            invariant
                n == self@.len(),
                0 <= i <= n,
                forall|j: int| 0 <= j < i ==> self@[j].name != name@,
            decreases n - i,
        {
            if str_eq(self.fields[i].name.as_str(), name) {
                proof {
                    assert(self@[i as int] == self.fields@[i as int]@);
                    lemma_field_index_characterization(self@, name@);
                }
                return Some(i);
            }
            i = i + 1;
        }
        proof {
            lemma_field_index_characterization(self@, name@);
        }
        None
    }

    /// Returns a schema equal to this one.
    pub fn duplicate(&self) -> (r: Schema)
        ensures
            r@ == self@,
    {
        let n = self.fields.len();
        let mut fields: Vec<Field> = Vec::new();
        let mut i: usize = 0;
        while i < n
            invariant
                n == self.fields@.len(),
                0 <= i <= n,
                fields@.len() == i,
                forall|j: int| 0 <= j < i ==> fields@[j]@ == self@[j],
            decreases n - i,
        {
            fields.push(self.fields[i].duplicate());
            i = i + 1;
        }
        let r = Schema { fields };
        proof {
            assert(r@ =~= self@);
        }
        r
    }
}

/// Mathematical model of a column's data.
pub enum ColumnModel {
    Utf8(Seq<Option<Seq<char>>>),
    Int64(Seq<Option<i64>>),
    Boolean(Seq<Option<bool>>),
}

impl ColumnModel {
    /// The number of rows.
    pub open spec fn len(&self) -> nat {
        match self {
            ColumnModel::Utf8(v) => v.len(),
            ColumnModel::Int64(v) => v.len(),
            ColumnModel::Boolean(v) => v.len(),
        }
    }

    /// The element type.
    pub open spec fn data_type(&self) -> DataType {
        match self {
            ColumnModel::Utf8(_) => DataType::Utf8,
            ColumnModel::Int64(_) => DataType::Int64,
            ColumnModel::Boolean(_) => DataType::Boolean,
        }
    }
}

/// One column's values; an absent element is a null.
#[derive(Debug, PartialEq, Eq)]
pub enum ColumnData {
    Utf8(Vec<Option<String>>),
    Int64(Vec<Option<i64>>),
    Boolean(Vec<Option<bool>>),
}

impl View for ColumnData {
    type V = ColumnModel;

    open spec fn view(&self) -> ColumnModel {
        match self {
            ColumnData::Utf8(v) => ColumnModel::Utf8(
                v@.map_values(
                    |o: Option<String>|
                        match o {
                            Some(s) => Some(s@),
                            None => None,
                        },
                ),
            ),
            ColumnData::Int64(v) => ColumnModel::Int64(v@),
            ColumnData::Boolean(v) => ColumnModel::Boolean(v@),
        }
    }
}

impl ColumnData {
    /// The number of rows.
    pub fn len(&self) -> (r: usize)
        ensures
            r == self@.len(),
    {
        match self {
            ColumnData::Utf8(v) => v.len(),
            ColumnData::Int64(v) => v.len(),
            ColumnData::Boolean(v) => v.len(),
        }
    }

    /// The element type.
    pub fn data_type(&self) -> (r: DataType)
        ensures
            r == self@.data_type(),
    {
        match self {
            ColumnData::Utf8(_) => DataType::Utf8,
            ColumnData::Int64(_) => DataType::Int64,
            ColumnData::Boolean(_) => DataType::Boolean,
        }
    }
}

/// Mathematical model of a [`RecordBatch`].
pub struct BatchModel {
    pub fields: Seq<FieldModel>,
    pub columns: Seq<ColumnModel>,
}

impl BatchModel {
    /// The number of rows: the length shared by every column.
    pub open spec fn num_rows(&self) -> nat {
        if self.columns.len() == 0 {
            0
        } else {
            self.columns[0].len()
        }
    }

    /// Internal consistency: one column per field, matching element types,
    /// all columns of one length.
    pub open spec fn wf(&self) -> bool {
        &&& self.fields.len() == self.columns.len()
        &&& forall|i: int|
            0 <= i < self.columns.len() ==> (#[trigger] self.columns[i]).data_type()
                == self.fields[i].data_type
        &&& forall|i: int|
            0 <= i < self.columns.len() ==> (#[trigger] self.columns[i]).len() == self.num_rows()
    }
}

/// A fixed-schema, columnar chunk of rows.
#[derive(Debug, PartialEq, Eq)]
pub struct RecordBatch {
    schema: Schema,
    columns: Vec<ColumnData>,
}

impl View for RecordBatch {
    type V = BatchModel;

    closed spec fn view(&self) -> BatchModel {
        BatchModel {
            fields: self.schema@,
            columns: self.columns@.map_values(|c: ColumnData| c@),
        }
    }
}

impl RecordBatch {
    #[verifier::type_invariant]
    spec fn type_inv(self) -> bool {
        self@.wf()
    }

    /// Builds a batch, checking that the columns fit the schema: one column
    /// per field, matching element types, all columns of one length.
    pub fn try_new(schema: Schema, columns: Vec<ColumnData>) -> (r: Result<RecordBatch, Error>)
        ensures
            ({
                let m = BatchModel {
                    fields: schema@,
                    columns: columns@.map_values(|c: ColumnData| c@),
                };
                match r {
                    Ok(b) => m.wf() && b@ == m,
                    Err(e) => !m.wf() && e@ == ErrorModel::InvalidBatch,
                }
            }),
    {
        let ghost m = BatchModel {
            fields: schema@,
            columns: columns@.map_values(|c: ColumnData| c@),
        };
        if schema.fields.len() != columns.len() {
            return Err(Error::InvalidBatch);
        }
        let rows: usize = if columns.len() == 0 {
            0
        } else {
            columns[0].len()
        };
        assert(rows == m.num_rows());
        let n = columns.len();
        let mut i: usize = 0;
        while i < n
            invariant
                n == columns@.len(),
                0 <= i <= n,
                m == (BatchModel {
                    fields: schema@,
                    columns: columns@.map_values(|c: ColumnData| c@),
                }),
                m.fields.len() == m.columns.len(),
                rows == m.num_rows(),
                forall|j: int|
                    0 <= j < i ==> (#[trigger] m.columns[j]).data_type() == m.fields[j].data_type
                        && m.columns[j].len() == m.num_rows(),
            decreases n - i,
        {
            proof {
                assert(m.columns[i as int] == columns@[i as int]@);
                assert(m.fields[i as int] == schema.fields@[i as int]@);
            }
            if columns[i].data_type() != schema.fields[i].data_type {
                return Err(Error::InvalidBatch);
            }
            if columns[i].len() != rows {
                return Err(Error::InvalidBatch);
            }
            i = i + 1;
        }
        let b = RecordBatch { schema, columns };
        proof {
            assert(b@ == m);
        }
        Ok(b)
    }

    /// The batch's schema.
    pub fn schema(&self) -> (r: &Schema)
        ensures
            r@ == self@.fields,
    {
        &self.schema
    }

    /// The number of rows.
    pub fn num_rows(&self) -> (r: usize)
        ensures
            r == self@.num_rows(),
    {
        if self.columns.len() == 0 {
            0
        } else {
            self.columns[0].len()
        }
    }

    /// The number of columns.
    pub fn num_columns(&self) -> (r: usize)
        ensures
            r == self@.columns.len(),
    {
        self.columns.len()
    }

    /// The field at index `i`.
    pub fn field(&self, i: usize) -> (r: &Field)
        requires
            i < self@.fields.len(),
        ensures
            r@ == self@.fields[i as int],
    {
        &self.schema.fields[i]
    }

    /// The column at index `i`; the batch holds one column per field.
    pub fn column(&self, i: usize) -> (r: &ColumnData)
        requires
            i < self@.fields.len() || i < self@.columns.len(),
        ensures
            r@ == self@.columns[i as int],
    {
        proof {
            use_type_invariant(self);
        }
        &self.columns[i]
    }

    /// The column under the first field named `name`, if any.
    pub fn column_by_name(&self, name: &str) -> (r: Option<&ColumnData>)
        ensures
            match r {
                Some(c) => spec_has_field(self@.fields, name@) && c@ == self@.columns[
                    spec_field_index(self@.fields, name@)
                ],
                None => !spec_has_field(self@.fields, name@),
            },
    {
        proof {
            use_type_invariant(self);
            lemma_field_index_characterization(self@.fields, name@);
        }
        match self.schema.field_index(name) {
            Some(i) => Some(&self.columns[i]),
            None => None,
        }
    }

    /// Consumes the batch and appends one column under a new trailing field,
    /// checking that the column's length is the batch's row count and its
    /// element type is the field's.
    pub fn with_column(self, field: Field, column: ColumnData) -> (r: Result<RecordBatch, Error>)
        ensures
            ({
                let fits = column@.len() == self@.num_rows() && column@.data_type()
                    == field@.data_type;
                match r {
                    Ok(b) => fits && b@ == (BatchModel {
                        fields: self@.fields.push(field@),
                        columns: self@.columns.push(column@),
                    }),
                    Err(e) => !fits && e@ == ErrorModel::InvalidEmbedding,
                }
            }),
    {
        proof {
            use_type_invariant(&self);
        }
        if column.len() != self.num_rows() || column.data_type() != field.data_type {
            return Err(Error::InvalidEmbedding);
        }
        let ghost old_model = self@;
        let RecordBatch { mut schema, mut columns } = self;
        schema.fields.push(field);
        columns.push(column);
        proof {
            let new_m = BatchModel {
                fields: schema@,
                columns: columns@.map_values(|c: ColumnData| c@),
            };
            assert(new_m.fields =~= old_model.fields.push(field@));
            assert(new_m.columns =~= old_model.columns.push(column@));
            if old_model.columns.len() == 0 {
                assert(new_m.columns[0] == column@);
            } else {
                assert(new_m.columns[0] == old_model.columns[0]);
            }
            assert(new_m.num_rows() == old_model.num_rows());
            assert forall|i: int| 0 <= i < new_m.columns.len() implies (
            #[trigger] new_m.columns[i]).data_type() == new_m.fields[i].data_type
                && new_m.columns[i].len() == new_m.num_rows() by {
                if i < old_model.columns.len() {
                    assert(new_m.columns[i] == old_model.columns[i]);
                    assert(new_m.fields[i] == old_model.fields[i]);
                } else {
                    assert(new_m.columns[i] == column@);
                    assert(new_m.fields[i] == field@);
                }
            }
            assert(new_m.wf());
        }
        let b = RecordBatch { schema, columns };
        Ok(b)
    }
}

} // verus!
