//! Embedding definitions, the embedding-function capability interface, and
//! the streaming augmentation decorator.

use vstd::prelude::*;
use vstd::string::StringExecFns;

use std::sync::Arc;

use crate::error::{Error, ErrorModel};
use crate::registry::EmbeddingRegistry;
use crate::schema::{
    lemma_field_index_characterization, spec_field_index, BatchModel, ColumnData, ColumnModel,
    DataType, Field, FieldModel, RecordBatch, Schema,
};
use crate::source::{batch_result_model, BatchSource};
use crate::table::{
    spec_first_embedding, ColumnDefinition, ColumnKind, ColumnKindModel, TableDefinition,
    TableDefinitionModel,
};

verus! {

/// Mathematical model of an [`EmbeddingDefinition`].
pub struct EmbeddingDefinitionModel {
    pub source_column: Seq<char>,
    pub dest_column: Option<Seq<char>>,
    pub embedding_name: Seq<char>,
}

/// The destination column name: the declared one, or the source column with
/// `_embedding` appended.
pub open spec fn spec_dest_column(def: EmbeddingDefinitionModel) -> Seq<char> {
    match def.dest_column {
        Some(d) => d,
        None => def.source_column + "_embedding"@,
    }
}

/// Declares an embedding: which column to read, which column to produce, and
/// the registered function that computes it.
#[derive(Debug, PartialEq, Eq)]
pub struct EmbeddingDefinition {
    /// The name of the column in the input data.
    pub source_column: String,
    /// The name of the embedding column; defaults to the source column with
    /// `_embedding` appended.
    pub dest_column: Option<String>,
    /// The name of the embedding function to apply.
    pub embedding_name: String,
}

impl View for EmbeddingDefinition {
    type V = EmbeddingDefinitionModel;

    open spec fn view(&self) -> EmbeddingDefinitionModel {
        EmbeddingDefinitionModel {
            source_column: self.source_column@,
            dest_column: match &self.dest_column {
                Some(d) => Some(d@),
                None => None,
            },
            embedding_name: self.embedding_name@,
        }
    }
}

impl EmbeddingDefinition {
    /// Builds a definition from the source column, the registered function's
    /// name and an optional destination column.
    pub fn new(source_column: String, embedding_name: String, dest: Option<String>) -> (r:
        EmbeddingDefinition)
        ensures
            r@ == (EmbeddingDefinitionModel {
                source_column: source_column@,
                dest_column: match dest {
                    Some(d) => Some(d@),
                    None => None,
                },
                embedding_name: embedding_name@,
            }),
    {
        EmbeddingDefinition { source_column, dest_column: dest, embedding_name }
    }

    /// The destination column name, defaulted when not declared.
    pub fn dest_column(&self) -> (r: String)
        ensures
            r@ == spec_dest_column(self@),
    {
        match &self.dest_column {
            Some(d) => d.clone(),
            None => {
                let mut s = self.source_column.clone();
                s.append("_embedding");
                s
            },
        }
    }

    /// Returns a definition equal to this one.
    pub fn duplicate(&self) -> (r: EmbeddingDefinition)
        ensures
            r@ == self@,
    {
        EmbeddingDefinition {
            source_column: self.source_column.clone(),
            dest_column: match &self.dest_column {
                Some(d) => Some(d.clone()),
                None => None,
            },
            embedding_name: self.embedding_name.clone(),
        }
    }
}

/// Mathematical model of an `embed` outcome.
pub open spec fn column_result_model(r: Result<ColumnData, Error>) -> Result<
    ColumnModel,
    ErrorModel,
> {
    match r {
        Ok(c) => Ok(c@),
        Err(e) => Err(e@),
    }
}

/// A named transform from one column's values to a derived column's values.
///
/// Implementations are supplied by the host application; the decorator only
/// depends on this interface. `spec_embed` models `embed` as a pure
/// transform of the source column; an implementation that does not override
/// the model functions gets an unspecified, fixed model.
pub trait EmbeddingFunction: Sized {
    /// The function's registered name.
    open spec fn spec_name(&self) -> Seq<char> {
        arbitrary()
    }

    /// The element type `embed` expects.
    open spec fn spec_source_type(&self) -> DataType {
        arbitrary()
    }

    /// The element type `embed` produces.
    open spec fn spec_dest_type(&self) -> DataType {
        arbitrary()
    }

    /// Model of `embed`.
    open spec fn spec_embed(&self, source: ColumnModel) -> Result<ColumnModel, ErrorModel> {
        arbitrary()
    }

    /// The function's registered name.
    fn name(&self) -> (r: String)
        ensures
            r@ == self.spec_name(),
    ;

    /// The element type `embed` expects.
    fn source_type(&self) -> (r: DataType)
        ensures
            r == self.spec_source_type(),
    ;

    /// The element type `embed` produces.
    fn dest_type(&self) -> (r: DataType)
        ensures
            r == self.spec_dest_type(),
    ;

    /// Computes the derived column from the source column.
    fn embed(&self, source: &ColumnData) -> (r: Result<ColumnData, Error>)
        ensures
            column_result_model(r) == self.spec_embed(source@),
    ;
}

/// The derived destination field: named by `spec_dest_column`, typed by the
/// function's destination type, inheriting the source field's nullability.
pub open spec fn spec_derived_field(
    fields: Seq<FieldModel>,
    def: EmbeddingDefinitionModel,
    dest_type: DataType,
) -> FieldModel {
    FieldModel {
        name: spec_dest_column(def),
        data_type: dest_type,
        nullable: {
            let i = spec_field_index(fields, def.source_column);
            if i >= 0 {
                fields[i].nullable
            } else {
                true
            }
        },
    }
}

/// The augmented schema: the original fields, in order, with the derived
/// destination field appended.
pub open spec fn spec_derived_fields(
    fields: Seq<FieldModel>,
    def: EmbeddingDefinitionModel,
    dest_type: DataType,
) -> Seq<FieldModel> {
    fields.push(spec_derived_field(fields, def, dest_type))
}

/// The augmented table definition: the augmented schema, every original
/// column coerced to physical, and one trailing embedding column.
pub open spec fn spec_derive_table_definition(
    fields: Seq<FieldModel>,
    def: EmbeddingDefinitionModel,
    dest_type: DataType,
) -> TableDefinitionModel {
    TableDefinitionModel {
        fields: spec_derived_fields(fields, def, dest_type),
        column_definitions: Seq::new(fields.len(), |i: int| ColumnKindModel::Physical).push(
            ColumnKindModel::Embedding(def),
        ),
    }
}

/// The augmented form of one batch: the source column located by name, the
/// embedding computed on it, and the result appended under the derived
/// field; or the error that step yields.
pub open spec fn spec_augment_batch<F: EmbeddingFunction>(
    b: BatchModel,
    def: EmbeddingDefinitionModel,
    dest_type: DataType,
    func: F,
) -> Result<BatchModel, ErrorModel> {
    let i = spec_field_index(b.fields, def.source_column);
    if i < 0 {
        Err(ErrorModel::SourceColumnMissing)
    } else {
        match func.spec_embed(b.columns[i]) {
            Err(e) => Err(e),
            Ok(c) => if c.len() == b.num_rows() && c.data_type() == dest_type {
                Ok(
                    BatchModel {
                        fields: spec_derived_fields(b.fields, def, dest_type),
                        columns: b.columns.push(c),
                    },
                )
            } else {
                Err(ErrorModel::InvalidEmbedding)
            },
        }
    }
}

/// The augmented form of one pulled result: an upstream error propagates
/// unchanged, an upstream batch is augmented.
pub open spec fn spec_augment_result<F: EmbeddingFunction>(
    r: Result<BatchModel, ErrorModel>,
    def: EmbeddingDefinitionModel,
    dest_type: DataType,
    func: F,
) -> Result<BatchModel, ErrorModel> {
    match r {
        Ok(b) => spec_augment_batch(b, def, dest_type, func),
        Err(e) => Err(e),
    }
}

/// The augmented form of a whole stream, result by result, in order.
pub open spec fn spec_augment_stream<F: EmbeddingFunction>(
    results: Seq<Result<BatchModel, ErrorModel>>,
    def: EmbeddingDefinitionModel,
    dest_type: DataType,
    func: F,
) -> Seq<Result<BatchModel, ErrorModel>> {
    results.map_values(
        |r: Result<BatchModel, ErrorModel>| spec_augment_result(r, def, dest_type, func),
    )
}

/// A batch source that appends a computed embedding column to every batch
/// pulled from the source it wraps.
#[derive(Debug)]
pub struct WithEmbeddings<R: BatchSource, F: EmbeddingFunction> {
    inner: R,
    embedding_func: Arc<F>,
    embedding_def: EmbeddingDefinition,
    base_schema: Schema,
    dest_type: DataType,
}

impl<R: BatchSource, F: EmbeddingFunction> WithEmbeddings<R, F> {
    /// The wrapped source.
    pub closed spec fn spec_inner(&self) -> R {
        self.inner
    }

    /// The resolved embedding function.
    pub closed spec fn spec_func(&self) -> F {
        *self.embedding_func
    }

    /// The embedding definition in force.
    pub closed spec fn spec_def(&self) -> EmbeddingDefinitionModel {
        self.embedding_def@
    }

    /// The function's destination type, fixed at construction.
    pub closed spec fn spec_dest_type(&self) -> DataType {
        self.dest_type
    }

    /// The wrapped source's schema, fixed at construction.
    pub closed spec fn spec_base_schema(&self) -> Seq<FieldModel> {
        self.base_schema@
    }

    /// Wraps `inner`, resolving the destination type and base schema once.
    /// The declared source column must exist in the source's schema; callers
    /// that cannot guarantee it construct through `MaybeEmbedded::try_new`,
    /// which reports its absence instead.
    pub fn new(inner: R, embedding_func: Arc<F>, embedding_def: EmbeddingDefinition) -> (r:
        WithEmbeddings<R, F>)
        requires
            crate::schema::spec_has_field(inner.spec_schema(), embedding_def@.source_column),
        ensures
            r.spec_inner() == inner,
            r.spec_func() == *embedding_func,
            r.spec_def() == embedding_def@,
            r.spec_dest_type() == embedding_func.spec_dest_type(),
            r.spec_base_schema() == inner.spec_schema(),
    {
        let base_schema = inner.schema();
        let dest_type = embedding_func.dest_type();
        WithEmbeddings { inner, embedding_func, embedding_def, base_schema, dest_type }
    }

    /// The derived destination field, with the given nullability.
    fn dest_field(&self, nullable: bool) -> (r: Field)
        ensures
            r@ == (FieldModel {
                name: spec_dest_column(self.spec_def()),
                data_type: self.spec_dest_type(),
                nullable,
            }),
    {
        Field { name: self.embedding_def.dest_column(), data_type: self.dest_type, nullable }
    }

    /// The nullability the derived field inherits from the source field of
    /// the base schema.
    fn source_nullable(&self) -> (r: bool)
        ensures
            r == spec_derived_field(
                self.spec_base_schema(),
                self.spec_def(),
                self.spec_dest_type(),
            ).nullable,
    {
        match self.base_schema.field_index(self.embedding_def.source_column.as_str()) {
            Some(i) => {
                proof {
                    lemma_field_index_characterization(
                        self.spec_base_schema(),
                        self.embedding_def.source_column@,
                    );
                    assert(self.base_schema@[i as int] == self.base_schema.fields@[i as int]@);
                }
                self.base_schema.fields[i].nullable
            },
            None => true,
        }
    }

    /// The augmented table definition this decorator writes under: the base
    /// schema plus the derived field, all base columns physical, and one
    /// trailing embedding column.
    pub fn table_definition(&self) -> (r: TableDefinition)
        ensures
            r@ == spec_derive_table_definition(
                self.spec_base_schema(),
                self.spec_def(),
                self.spec_dest_type(),
            ),
    {
        let nullable = self.source_nullable();
        let field = self.dest_field(nullable);
        let n = self.base_schema.fields.len();
        let mut column_definitions: Vec<ColumnDefinition> = Vec::new();
        let mut i: usize = 0;
        while i < n
            invariant
                0 <= i <= n,
                column_definitions@.len() == i,
                forall|j: int|
                    0 <= j < i ==> (#[trigger] column_definitions@[j])@
                        == ColumnKindModel::Physical,
            decreases n - i,
        {
            column_definitions.push(ColumnDefinition { kind: ColumnKind::Physical });
            i = i + 1;
        }
        column_definitions.push(
            ColumnDefinition { kind: ColumnKind::Embedding(self.embedding_def.duplicate()) },
        );
        let mut schema = self.base_schema.duplicate();
        schema.fields.push(field);
        let r = TableDefinition { schema, column_definitions };
        proof {
            let target = spec_derive_table_definition(
                self.spec_base_schema(),
                self.spec_def(),
                self.spec_dest_type(),
            );
            assert(r@.fields =~= target.fields);
            assert(r@.column_definitions =~= target.column_definitions);
        }
        r
    }

    /// Appends the computed embedding column to one batch, or reports why it
    /// cannot: the source column is missing, the function failed, or the
    /// function's output does not fit.
    fn augment(&self, batch: RecordBatch) -> (r: Result<RecordBatch, Error>)
        ensures
            batch_result_model(r) == spec_augment_batch(
                batch@,
                self.spec_def(),
                self.spec_dest_type(),
                self.spec_func(),
            ),
    {
        proof {
            lemma_field_index_characterization(batch@.fields, self.embedding_def.source_column@);
        }
        let idx = match batch.schema().field_index(self.embedding_def.source_column.as_str()) {
            Some(i) => i,
            None => {
                return Err(Error::SourceColumnMissing);
            },
        };
        let src = batch.column(idx);
        let embedded = match self.embedding_func.embed(src) {
            Ok(c) => c,
            Err(e) => {
                return Err(e);
            },
        };
        let nullable = batch.field(idx).nullable;
        let field = self.dest_field(nullable);
        batch.with_column(field, embedded)
    }
}

impl<R: BatchSource, F: EmbeddingFunction> BatchSource for WithEmbeddings<R, F> {
    open spec fn spec_schema(&self) -> Seq<FieldModel> {
        spec_derived_fields(self.spec_base_schema(), self.spec_def(), self.spec_dest_type())
    }

    open spec fn spec_remaining(&self) -> Seq<Result<BatchModel, ErrorModel>> {
        spec_augment_stream(
            self.spec_inner().spec_remaining(),
            self.spec_def(),
            self.spec_dest_type(),
            self.spec_func(),
        )
    }

    fn schema(&self) -> (s: Schema) {
        let nullable = self.source_nullable();
        let field = self.dest_field(nullable);
        let mut s = self.base_schema.duplicate();
        s.fields.push(field);
        proof {
            assert(s@ =~= self.spec_schema());
        }
        s
    }

    fn next_batch(&mut self) -> (r: Option<Result<RecordBatch, Error>>) {
        let ghost old_inner_remaining = self.inner.spec_remaining();
        let pulled = self.inner.next_batch();
        match pulled {
            None => None,
            Some(x) => {
                proof {
                    assert(self.spec_remaining() =~= old(self).spec_remaining().drop_first());
                    assert(old(self).spec_remaining()[0] == spec_augment_result(
                        old_inner_remaining[0],
                        self.spec_def(),
                        self.spec_dest_type(),
                        self.spec_func(),
                    ));
                }
                let out = match x {
                    Ok(b) => self.augment(b),
                    Err(e) => Err(e),
                };
                Some(out)
            },
        }
    }
}

/// A batch source that may or may not be augmenting: the state is selected
/// once at construction and fixed for the decorator's lifetime.
#[derive(Debug)]
pub enum MaybeEmbedded<R: BatchSource, F: EmbeddingFunction> {
    /// Batches gain the computed embedding column.
    Yes(WithEmbeddings<R, F>),
    /// Batches pass through unchanged.
    No(R),
}

impl<R: BatchSource, F: EmbeddingFunction> MaybeEmbedded<R, F> {
    /// Wraps `inner`, augmenting exactly when a registry is supplied, the
    /// table definition declares an embedding column, and the declared
    /// function is registered; a declared but unregistered function is
    /// reported rather than tolerated.
    pub fn try_new<Reg: EmbeddingRegistry<F>>(
        inner: R,
        table_definition: TableDefinition,
        registry: Option<&Reg>,
    ) -> (r: Result<MaybeEmbedded<R, F>, Error>)
        requires
            match registry {
                Some(reg) => reg.inv(),
                None => true,
            },
        ensures
            ({
                let emb = spec_first_embedding(table_definition@.column_definitions);
                match registry {
                    None => r == Ok::<MaybeEmbedded<R, F>, Error>(MaybeEmbedded::No(inner)),
                    Some(reg) => match emb {
                        None => r == Ok::<MaybeEmbedded<R, F>, Error>(MaybeEmbedded::No(inner)),
                        Some(d) => if !reg.spec_functions().contains_key(d.embedding_name) {
                            r == Err::<MaybeEmbedded<R, F>, Error>(Error::FunctionNotFound)
                        } else if !crate::schema::spec_has_field(
                            inner.spec_schema(),
                            d.source_column,
                        ) {
                            r == Err::<MaybeEmbedded<R, F>, Error>(Error::SourceColumnMissing)
                        } else {
                            match r {
                                Ok(m) => match m {
                                    MaybeEmbedded::Yes(w) => {
                                        &&& w.spec_inner() == inner
                                        &&& w.spec_def() == d
                                        &&& w.spec_func() == reg.spec_functions()[d.embedding_name]
                                        &&& w.spec_dest_type()
                                            == reg.spec_functions()[d.embedding_name].spec_dest_type()
                                        &&& w.spec_base_schema() == inner.spec_schema()
                                    },
                                    MaybeEmbedded::No(_) => false,
                                },
                                Err(_) => false,
                            }
                        },
                    },
                }
            }),
    {
        let reg = match registry {
            None => {
                return Ok(MaybeEmbedded::No(inner));
            },
            Some(reg) => reg,
        };
        let def = match table_definition.first_embedding() {
            None => {
                return Ok(MaybeEmbedded::No(inner));
            },
            Some(d) => d.duplicate(),
        };
        match reg.get(def.embedding_name.as_str()) {
            None => Err(Error::FunctionNotFound),
            Some(func) => {
                let base = inner.schema();
                match base.field_index(def.source_column.as_str()) {
                    None => Err(Error::SourceColumnMissing),
                    Some(_) => {
                        proof {
                            lemma_field_index_characterization(
                                inner.spec_schema(),
                                def.source_column@,
                            );
                        }
                        Ok(MaybeEmbedded::Yes(WithEmbeddings::new(inner, func, def)))
                    },
                }
            },
        }
    }
}

impl<R: BatchSource, F: EmbeddingFunction> BatchSource for MaybeEmbedded<R, F> {
    open spec fn spec_schema(&self) -> Seq<FieldModel> {
        match self {
            MaybeEmbedded::Yes(w) => w.spec_schema(),
            MaybeEmbedded::No(r) => r.spec_schema(),
        }
    }

    open spec fn spec_remaining(&self) -> Seq<Result<BatchModel, ErrorModel>> {
        match self {
            MaybeEmbedded::Yes(w) => w.spec_remaining(),
            MaybeEmbedded::No(r) => r.spec_remaining(),
        }
    }

    fn schema(&self) -> (s: Schema) {
        match self {
            MaybeEmbedded::Yes(w) => w.schema(),
            MaybeEmbedded::No(r) => r.schema(),
        }
    }

    fn next_batch(&mut self) -> (r: Option<Result<RecordBatch, Error>>) {
        match self {
            MaybeEmbedded::Yes(w) => w.next_batch(),
            MaybeEmbedded::No(r) => r.next_batch(),
        }
    }
}

/// A decorator in the pass-through state yields its source's stream and
/// schema unchanged.
pub proof fn lemma_pass_through<R: BatchSource, F: EmbeddingFunction>(
    m: MaybeEmbedded<R, F>,
    inner: R,
)
    requires
        m == MaybeEmbedded::<R, F>::No(inner),
    ensures
        m.spec_schema() == inner.spec_schema(),
        m.spec_remaining() == inner.spec_remaining(),
{
}

/// Every successfully augmented batch keeps the original columns, unchanged
/// and in order, and gains exactly one trailing column: named by
/// `spec_dest_column`, of the function's destination type, with one value
/// per row of the batch; and a well-formed batch stays well formed.
pub proof fn lemma_augmented_batch_shape<F: EmbeddingFunction>(
    b: BatchModel,
    def: EmbeddingDefinitionModel,
    dest_type: DataType,
    func: F,
)
    requires
        spec_augment_batch(b, def, dest_type, func) is Ok,
    ensures
        ({
            let out = spec_augment_batch(b, def, dest_type, func)->Ok_0;
            &&& out.fields.len() == b.fields.len() + 1
            &&& out.columns.len() == b.columns.len() + 1
            &&& out.fields.drop_last() == b.fields
            &&& out.columns.drop_last() == b.columns
            &&& out.fields.last().name == spec_dest_column(def)
            &&& out.fields.last().data_type == dest_type
            &&& out.columns.last().len() == b.num_rows()
            &&& out.columns.last().data_type() == dest_type
            &&& out.num_rows() == b.num_rows()
            &&& b.wf() ==> out.wf()
        }),
{
    let out = spec_augment_batch(b, def, dest_type, func)->Ok_0;
    assert(out.fields.drop_last() =~= b.fields);
    assert(out.columns.drop_last() =~= b.columns);
    if b.columns.len() == 0 {
        assert(out.columns[0] == out.columns.last());
    } else {
        assert(out.columns[0] == b.columns[0]);
    }
    if b.wf() {
        assert forall|i: int| 0 <= i < out.columns.len() implies (
        #[trigger] out.columns[i]).data_type() == out.fields[i].data_type && out.columns[i].len()
            == out.num_rows() by {
            if i < b.columns.len() {
                assert(out.columns[i] == b.columns[i]);
                assert(out.fields[i] == b.fields[i]);
            } else {
                assert(out.columns[i] == out.columns.last());
                assert(out.fields[i] == out.fields.last());
            }
        }
    }
}

/// Every batch the augmenting decorator yields successfully conforms to its
/// fixed derived schema, provided the wrapped source's pending batches carry
/// that source's schema and the decorator was built from it, as
/// `WithEmbeddings::new` ensures.
pub proof fn lemma_schema_conformity<R: BatchSource, F: EmbeddingFunction>(
    w: WithEmbeddings<R, F>,
)
    requires
        w.spec_base_schema() == w.spec_inner().spec_schema(),
        forall|i: int|
            0 <= i < w.spec_inner().spec_remaining().len() && (#[trigger] w.spec_inner()
                .spec_remaining()[i]) is Ok ==> w.spec_inner().spec_remaining()[i]->Ok_0.fields
                == w.spec_inner().spec_schema(),
    ensures
        forall|i: int|
            0 <= i < w.spec_remaining().len() && (#[trigger] w.spec_remaining()[i]) is Ok
                ==> w.spec_remaining()[i]->Ok_0.fields == w.spec_schema(),
{
    let rem = w.spec_inner().spec_remaining();
    assert forall|i: int|
        0 <= i < w.spec_remaining().len() && (#[trigger] w.spec_remaining()[i]) is Ok implies w
        .spec_remaining()[i]->Ok_0.fields == w.spec_schema() by {
        assert(w.spec_remaining()[i] == spec_augment_result(
            rem[i],
            w.spec_def(),
            w.spec_dest_type(),
            w.spec_func(),
        ));
        match rem[i] {
            Err(_) => {},
            Ok(b) => {
                assert(b.fields == w.spec_base_schema());
            },
        }
    }
}

/// Deriving the augmented table definition twice from the same inputs yields
/// identical schemas and identical column-definition lists.
pub proof fn lemma_derivation_idempotent(
    fields: Seq<FieldModel>,
    def: EmbeddingDefinitionModel,
    dest_type: DataType,
    first: TableDefinitionModel,
    second: TableDefinitionModel,
)
    requires
        first == spec_derive_table_definition(fields, def, dest_type),
        second == spec_derive_table_definition(fields, def, dest_type),
    ensures
        first.fields == second.fields,
        first.column_definitions == second.column_definitions,
{
}

/// An upstream error leaves the augmented stream's length unchanged and
/// passes through at its own position, untransformed, while every upstream
/// batch, before or after it, is augmented at its own position.
pub proof fn lemma_error_propagation<F: EmbeddingFunction>(
    results: Seq<Result<BatchModel, ErrorModel>>,
    def: EmbeddingDefinitionModel,
    dest_type: DataType,
    func: F,
    k: int,
)
    requires
        0 <= k < results.len(),
        results[k] is Err,
    ensures
        spec_augment_stream(results, def, dest_type, func).len() == results.len(),
        spec_augment_stream(results, def, dest_type, func)[k] == results[k],
        forall|j: int|
            0 <= j < results.len() && (#[trigger] results[j]) is Ok ==> spec_augment_stream(
                results,
                def,
                dest_type,
                func,
            )[j] == spec_augment_batch(results[j]->Ok_0, def, dest_type, func),
{
}

} // verus!
