//! Error kinds for the augmentation layer.

use vstd::prelude::*;

verus! {

/// Mathematical model of an [`Error`] value.
pub enum ErrorModel {
    /// A declared source column is absent from a schema or a batch.
    SourceColumnMissing,
    /// The embedding function named by a definition is not registered.
    FunctionNotFound,
    /// An embedding function returned a column of the wrong length or type.
    InvalidEmbedding,
    /// Columns that do not fit a schema: wrong count, type or lengths.
    InvalidBatch,
    /// A failure reported by an external collaborator, with its message.
    Runtime { message: Seq<char> },
}

/// The error type of the augmentation layer.
///
/// Configuration errors (`SourceColumnMissing`, `FunctionNotFound`) are
/// surfaced as recoverable values at construction time and per batch;
/// `InvalidEmbedding` reports an embedding function that broke its length or
/// type obligation; `Runtime` carries a collaborator's failure message.
#[derive(Debug, PartialEq, Eq)]
pub enum Error {
    SourceColumnMissing,
    FunctionNotFound,
    InvalidEmbedding,
    InvalidBatch,
    Runtime { message: String },
}

impl View for Error {
    type V = ErrorModel;

    open spec fn view(&self) -> ErrorModel {
        match self {
            Error::SourceColumnMissing => ErrorModel::SourceColumnMissing,
            Error::FunctionNotFound => ErrorModel::FunctionNotFound,
            Error::InvalidEmbedding => ErrorModel::InvalidEmbedding,
            Error::InvalidBatch => ErrorModel::InvalidBatch,
            Error::Runtime { message } => ErrorModel::Runtime { message: message@ },
        }
    }
}

} // verus!
