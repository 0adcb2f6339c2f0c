//! The pull-based batch source contract: a fixed schema queryable before
//! iteration, and a finite, single-pass, forward-only sequence of
//! batch-or-error results.

use vstd::prelude::*;

use crate::error::{Error, ErrorModel};
use crate::schema::{BatchModel, FieldModel, RecordBatch, Schema};

verus! {

/// Mathematical model of one pulled result: a batch or an error.
pub open spec fn batch_result_model(r: Result<RecordBatch, Error>) -> Result<
    BatchModel,
    ErrorModel,
> {
    match r {
        Ok(b) => Ok(b@),
        Err(e) => Err(e@),
    }
}

/// A pull-based source of record batches.
///
/// `spec_schema` is the source's fixed schema and `spec_remaining` the
/// results it has yet to yield, in order; `next_batch` steps through that
/// sequence, and `schema` may be queried at any point without affecting it.
/// The trait does not oblige the yielded batches to carry `spec_schema`;
/// for sources whose batches do, the augmenting decorator's output conforms
/// to its derived schema (`crate::embeddings::lemma_schema_conformity`).
pub trait BatchSource: Sized {
    /// The fixed schema of the batches this source yields.
    spec fn spec_schema(&self) -> Seq<FieldModel>;

    /// The batch-or-error results still to be yielded, in order.
    spec fn spec_remaining(&self) -> Seq<Result<BatchModel, ErrorModel>>;

    /// The source's schema.
    fn schema(&self) -> (s: Schema)
        ensures
            s@ == self.spec_schema(),
    ;

    /// Pulls the next result: the head of `spec_remaining`, or `None` once
    /// the sequence is exhausted.
    fn next_batch(&mut self) -> (r: Option<Result<RecordBatch, Error>>)
        ensures
            final(self).spec_schema() == old(self).spec_schema(),
            old(self).spec_remaining().len() == 0 ==> r is None && final(self).spec_remaining()
                == old(self).spec_remaining(),
            old(self).spec_remaining().len() > 0 ==> {
                &&& final(self).spec_remaining() == old(self).spec_remaining().drop_first()
                &&& match r {
                    Some(x) => batch_result_model(x) == old(self).spec_remaining()[0],
                    None => false,
                }
            },
    ;
}

/// A batch source over a vector of results, yielded front to back.
#[derive(Debug)]
pub struct VecSource {
    schema: Schema,
    batches: Vec<Result<RecordBatch, Error>>,
}

impl VecSource {
    /// Builds a source that yields `batches` in order under `schema`.
    pub fn new(schema: Schema, batches: Vec<Result<RecordBatch, Error>>) -> (r: VecSource)
        ensures
            r.spec_schema() == schema@,
            r.spec_remaining() == batches@.map_values(
                |b: Result<RecordBatch, Error>| batch_result_model(b),
            ),
    {
        VecSource { schema, batches }
    }
}

impl BatchSource for VecSource {
    closed spec fn spec_schema(&self) -> Seq<FieldModel> {
        self.schema@
    }

    closed spec fn spec_remaining(&self) -> Seq<Result<BatchModel, ErrorModel>> {
        self.batches@.map_values(|b: Result<RecordBatch, Error>| batch_result_model(b))
    }

    fn schema(&self) -> (s: Schema) {
        self.schema.duplicate()
    }

    fn next_batch(&mut self) -> (r: Option<Result<RecordBatch, Error>>) {
        if self.batches.len() == 0 {
            None
        } else {
            let head = self.batches.remove(0);
            proof {
                assert(self.batches@ =~= old(self).batches@.drop_first());
                assert(self.spec_remaining() =~= old(self).spec_remaining().drop_first());
            }
            Some(head)
        }
    }
}

} // verus!
