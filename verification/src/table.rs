//! Table definitions: a schema paired with per-column metadata that
//! distinguishes physical columns from declared embedding columns.

use vstd::prelude::*;

use crate::embeddings::{EmbeddingDefinition, EmbeddingDefinitionModel};
use crate::schema::{FieldModel, Schema};

verus! {

/// Mathematical model of a [`ColumnKind`].
pub enum ColumnKindModel {
    Physical,
    Embedding(EmbeddingDefinitionModel),
}

/// The tag on a column: supplied by the writer, or derived by an embedding
/// function.
#[derive(Debug, PartialEq, Eq)]
pub enum ColumnKind {
    Physical,
    Embedding(EmbeddingDefinition),
}

impl View for ColumnKind {
    type V = ColumnKindModel;

    open spec fn view(&self) -> ColumnKindModel {
        match self {
            ColumnKind::Physical => ColumnKindModel::Physical,
            ColumnKind::Embedding(d) => ColumnKindModel::Embedding(d@),
        }
    }
}

/// Per-column metadata: its kind.
#[derive(Debug, PartialEq, Eq)]
pub struct ColumnDefinition {
    pub kind: ColumnKind,
}

impl View for ColumnDefinition {
    type V = ColumnKindModel;

    open spec fn view(&self) -> ColumnKindModel {
        self.kind@
    }
}

/// Mathematical model of a [`TableDefinition`].
pub struct TableDefinitionModel {
    pub fields: Seq<FieldModel>,
    pub column_definitions: Seq<ColumnKindModel>,
}

/// The first declared embedding definition among `kinds`, if any.
pub open spec fn spec_first_embedding(kinds: Seq<ColumnKindModel>) -> Option<
    EmbeddingDefinitionModel,
>
    decreases kinds.len(),
{
    if kinds.len() == 0 {
        None
    } else {
        match kinds[0] {
            ColumnKindModel::Embedding(d) => Some(d),
            ColumnKindModel::Physical => spec_first_embedding(kinds.drop_first()),
        }
    }
}

/// A schema plus one [`ColumnDefinition`] per field, in the same order.
#[derive(Debug, PartialEq, Eq)]
pub struct TableDefinition {
    pub schema: Schema,
    pub column_definitions: Vec<ColumnDefinition>,
}

impl View for TableDefinition {
    type V = TableDefinitionModel;

    open spec fn view(&self) -> TableDefinitionModel {
        TableDefinitionModel {
            fields: self.schema@,
            column_definitions: self.column_definitions@.map_values(|c: ColumnDefinition| c@),
        }
    }
}

impl TableDefinition {
    /// Pairs a schema with its column definitions: one definition per field,
    /// in the same order.
    pub fn new(schema: Schema, column_definitions: Vec<ColumnDefinition>) -> (r: TableDefinition)
        requires
            column_definitions@.len() == schema@.len(),
        ensures
            r@.fields == schema@,
            r@.column_definitions == column_definitions@.map_values(|c: ColumnDefinition| c@),
    {
        TableDefinition { schema, column_definitions }
    }

    /// The first declared embedding definition, if any.
    pub fn first_embedding(&self) -> (r: Option<&EmbeddingDefinition>)
        ensures
            match r {
                Some(d) => spec_first_embedding(self@.column_definitions) == Some(d@),
                None => spec_first_embedding(self@.column_definitions) is None,
            },
    {
        proof {
            lemma_first_embedding_characterization(self@.column_definitions);
        }
        let n = self.column_definitions.len();
        let mut i: usize = 0;
        while i < n
            invariant
                n == self@.column_definitions.len(),
                n == self.column_definitions@.len(),
                0 <= i <= n,
                forall|j: int|
                    0 <= j < i ==> self@.column_definitions[j] is Physical,
            decreases n - i,
        {
            proof {
                assert(self@.column_definitions[i as int] == self.column_definitions@[i as int]@);
            }
            match &self.column_definitions[i].kind {
                ColumnKind::Embedding(d) => {
                    proof {
                        lemma_first_embedding_characterization(self@.column_definitions);
                    }
                    return Some(d);
                },
                ColumnKind::Physical => {},
            }
            i = i + 1;
        }
        proof {
            lemma_first_embedding_characterization(self@.column_definitions);
        }
        None
    }
}

/// `spec_first_embedding` yields exactly the first embedding tag: a `Some`
/// result is the definition at the first non-physical index, and a `None`
/// result means every column is physical.
pub proof fn lemma_first_embedding_characterization(kinds: Seq<ColumnKindModel>)
    ensures
        (spec_first_embedding(kinds) is None) <==> (forall|j: int|
            0 <= j < kinds.len() ==> kinds[j] is Physical),
        (spec_first_embedding(kinds) is Some) ==> exists|j: int|
            {
                &&& 0 <= j < kinds.len()
                &&& #[trigger] kinds[j] == ColumnKindModel::Embedding(
                    spec_first_embedding(kinds).unwrap(),
                )
                &&& forall|k: int| 0 <= k < j ==> kinds[k] is Physical
            },
    decreases kinds.len(),
{
    if kinds.len() != 0 {
        match kinds[0] {
            ColumnKindModel::Embedding(_) => {},
            ColumnKindModel::Physical => {
                lemma_first_embedding_characterization(kinds.drop_first());
                if spec_first_embedding(kinds) is Some {
                    let j0 = choose|j: int|
                        {
                            &&& 0 <= j < kinds.drop_first().len()
                            &&& #[trigger] kinds.drop_first()[j] == ColumnKindModel::Embedding(
                                spec_first_embedding(kinds.drop_first()).unwrap(),
                            )
                            &&& forall|k: int|
                                0 <= k < j ==> kinds.drop_first()[k] is Physical
                        };
                    assert(kinds[j0 + 1] == kinds.drop_first()[j0]);
                    assert(forall|k: int|
                        1 <= k < j0 + 1 ==> kinds[k] == kinds.drop_first()[k - 1]);
                } else {
                    assert(forall|k: int|
                        1 <= k < kinds.len() ==> kinds[k] == kinds.drop_first()[k - 1]);
                }
            },
        }
    }
}

} // verus!
