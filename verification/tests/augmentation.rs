//! Tests of the embedding registry, schema derivation and the streaming
//! augmentation decorator.

use std::sync::Arc;

use lancedb::embeddings::{EmbeddingDefinition, EmbeddingFunction, MaybeEmbedded, WithEmbeddings};
use lancedb::registry::{EmbeddingRegistry, MemoryRegistry};
use lancedb::schema::{ColumnData, DataType, Field, RecordBatch, Schema};
use lancedb::source::{BatchSource, VecSource};
use lancedb::table::{ColumnDefinition, ColumnKind, TableDefinition};
use lancedb::Error;

#[derive(Debug)]
struct UpperFn;

impl EmbeddingFunction for UpperFn {
    fn name(&self) -> String {
        "upper".to_string()
    }
    fn source_type(&self) -> DataType {
        DataType::Utf8
    }
    fn dest_type(&self) -> DataType {
        DataType::Utf8
    }
    fn embed(&self, source: &ColumnData) -> Result<ColumnData, Error> {
        match source {
            ColumnData::Utf8(v) => Ok(ColumnData::Utf8(
                v.iter()
                    .map(|o| o.as_ref().map(|s| s.to_uppercase()))
                    .collect(),
            )),
            _ => Err(Error::Runtime {
                message: "expected strings".to_string(),
            }),
        }
    }
}

/// Appends a fixed tag to every value; two tags make two implementations.
#[derive(Debug)]
struct TagFn {
    tag: String,
}

impl EmbeddingFunction for TagFn {
    fn name(&self) -> String {
        "tag".to_string()
    }
    fn source_type(&self) -> DataType {
        DataType::Utf8
    }
    fn dest_type(&self) -> DataType {
        DataType::Utf8
    }
    fn embed(&self, source: &ColumnData) -> Result<ColumnData, Error> {
        match source {
            ColumnData::Utf8(v) => Ok(ColumnData::Utf8(
                v.iter()
                    .map(|o| o.as_ref().map(|s| format!("{}{}", s, self.tag)))
                    .collect(),
            )),
            _ => Err(Error::Runtime {
                message: "expected strings".to_string(),
            }),
        }
    }
}

/// Returns a column one row short, whatever the input.
#[derive(Debug)]
struct ShortFn;

impl EmbeddingFunction for ShortFn {
    fn name(&self) -> String {
        "short".to_string()
    }
    fn source_type(&self) -> DataType {
        DataType::Utf8
    }
    fn dest_type(&self) -> DataType {
        DataType::Utf8
    }
    fn embed(&self, _source: &ColumnData) -> Result<ColumnData, Error> {
        Ok(ColumnData::Utf8(Vec::new()))
    }
}

/// Always fails.
#[derive(Debug)]
struct FailFn;

impl EmbeddingFunction for FailFn {
    fn name(&self) -> String {
        "fail".to_string()
    }
    fn source_type(&self) -> DataType {
        DataType::Utf8
    }
    fn dest_type(&self) -> DataType {
        DataType::Utf8
    }
    fn embed(&self, _source: &ColumnData) -> Result<ColumnData, Error> {
        Err(Error::Runtime {
            message: "model offline".to_string(),
        })
    }
}

fn text_schema() -> Schema {
    Schema::new(vec![Field::new("text".to_string(), DataType::Utf8, false)])
}

fn text_batch(values: &[&str]) -> RecordBatch {
    RecordBatch::try_new(
        text_schema(),
        vec![ColumnData::Utf8(
            values.iter().map(|v| Some(v.to_string())).collect(),
        )],
    )
    .unwrap()
}

fn embedding_table_definition() -> TableDefinition {
    TableDefinition::new(
        text_schema(),
        vec![ColumnDefinition {
            kind: ColumnKind::Embedding(EmbeddingDefinition::new(
                "text".to_string(),
                "upper".to_string(),
                None,
            )),
        }],
    )
}

fn physical_table_definition() -> TableDefinition {
    TableDefinition::new(
        text_schema(),
        vec![ColumnDefinition {
            kind: ColumnKind::Physical,
        }],
    )
}

fn upper_registry() -> MemoryRegistry<UpperFn> {
    let mut reg = MemoryRegistry::new();
    reg.register("upper", Arc::new(UpperFn)).unwrap();
    reg
}

#[test]
fn dest_column_defaults_to_source_with_suffix() {
    let def = EmbeddingDefinition::new("text".to_string(), "upper".to_string(), None);
    assert_eq!(def.dest_column(), "text_embedding");
}

#[test]
fn dest_column_uses_declared_name() {
    let def = EmbeddingDefinition::new(
        "text".to_string(),
        "upper".to_string(),
        Some("vector".to_string()),
    );
    assert_eq!(def.dest_column(), "vector");
}

#[test]
fn pass_through_without_registry() {
    let batches = vec![Ok(text_batch(&["a"])), Ok(text_batch(&["b"]))];
    let source = VecSource::new(text_schema(), batches);
    let mut m = MaybeEmbedded::<VecSource, UpperFn>::try_new(
        source,
        physical_table_definition(),
        None::<&MemoryRegistry<UpperFn>>,
    )
    .unwrap();
    assert!(matches!(m, MaybeEmbedded::No(_)));
    assert_eq!(m.schema(), text_schema());
    assert_eq!(m.next_batch().unwrap().unwrap(), text_batch(&["a"]));
    assert_eq!(m.next_batch().unwrap().unwrap(), text_batch(&["b"]));
    assert!(m.next_batch().is_none());
}

#[test]
fn pass_through_without_embedding_column() {
    let reg = upper_registry();
    let batches = vec![Ok(text_batch(&["a"]))];
    let source = VecSource::new(text_schema(), batches);
    let mut m =
        MaybeEmbedded::try_new(source, physical_table_definition(), Some(&reg)).unwrap();
    assert!(matches!(m, MaybeEmbedded::No(_)));
    assert_eq!(m.schema(), text_schema());
    assert_eq!(m.next_batch().unwrap().unwrap(), text_batch(&["a"]));
    assert!(m.next_batch().is_none());
}

#[test]
fn try_new_reports_unregistered_function() {
    let reg: MemoryRegistry<UpperFn> = MemoryRegistry::new();
    let source = VecSource::new(text_schema(), Vec::new());
    let r = MaybeEmbedded::try_new(source, embedding_table_definition(), Some(&reg));
    assert_eq!(r.unwrap_err(), Error::FunctionNotFound);
}

#[test]
fn registry_overwrite_keeps_one_entry_bound_to_latest() {
    let mut reg: MemoryRegistry<TagFn> = MemoryRegistry::new();
    reg.register(
        "f",
        Arc::new(TagFn {
            tag: "-one".to_string(),
        }),
    )
    .unwrap();
    reg.register(
        "f",
        Arc::new(TagFn {
            tag: "-two".to_string(),
        }),
    )
    .unwrap();
    let names = reg.functions();
    assert_eq!(names, vec!["f".to_string()]);
    let f = reg.get("f").unwrap();
    let out = f
        .embed(&ColumnData::Utf8(vec![Some("x".to_string())]))
        .unwrap();
    assert_eq!(out, ColumnData::Utf8(vec![Some("x-two".to_string())]));
}

#[test]
fn registry_lists_every_registered_name() {
    let mut reg: MemoryRegistry<TagFn> = MemoryRegistry::new();
    reg.register(
        "a",
        Arc::new(TagFn {
            tag: "1".to_string(),
        }),
    )
    .unwrap();
    reg.register(
        "b",
        Arc::new(TagFn {
            tag: "2".to_string(),
        }),
    )
    .unwrap();
    let names = reg.functions();
    assert_eq!(names.len(), 2);
    assert!(names.contains(&"a".to_string()));
    assert!(names.contains(&"b".to_string()));
}

#[test]
fn registry_registration_never_fails() {
    let mut reg: MemoryRegistry<UpperFn> = MemoryRegistry::new();
    assert!(reg.register("upper", Arc::new(UpperFn)).is_ok());
    assert!(reg.register("upper", Arc::new(UpperFn)).is_ok());
}

#[test]
fn registry_get_missing_name_is_none() {
    let reg: MemoryRegistry<UpperFn> = MemoryRegistry::new();
    assert!(reg.get("upper").is_none());
}

#[test]
fn end_to_end_socks_upper() {
    let reg = upper_registry();
    let source = VecSource::new(text_schema(), vec![Ok(text_batch(&["socks"]))]);
    let mut m =
        MaybeEmbedded::try_new(source, embedding_table_definition(), Some(&reg)).unwrap();
    assert!(matches!(m, MaybeEmbedded::Yes(_)));

    let schema = m.schema();
    assert_eq!(schema.fields.len(), 2);
    assert_eq!(schema.fields[0], Field::new("text".to_string(), DataType::Utf8, false));
    assert_eq!(
        schema.fields[1],
        Field::new("text_embedding".to_string(), DataType::Utf8, false)
    );

    let out = m.next_batch().unwrap().unwrap();
    assert_eq!(out.schema(), &schema);
    assert_eq!(out.num_rows(), 1);
    assert_eq!(out.num_columns(), 2);
    assert_eq!(
        out.column(0),
        &ColumnData::Utf8(vec![Some("socks".to_string())])
    );
    assert_eq!(
        out.column(1),
        &ColumnData::Utf8(vec![Some("SOCKS".to_string())])
    );
    assert!(m.next_batch().is_none());
}

#[test]
fn augmented_batches_keep_original_columns_and_append_one() {
    let reg = upper_registry();
    let source = VecSource::new(
        text_schema(),
        vec![
            Ok(text_batch(&["a", "b"])),
            Ok(text_batch(&["c"])),
        ],
    );
    let mut m =
        MaybeEmbedded::try_new(source, embedding_table_definition(), Some(&reg)).unwrap();
    let first = m.next_batch().unwrap().unwrap();
    assert_eq!(
        first.column(0),
        &ColumnData::Utf8(vec![Some("a".to_string()), Some("b".to_string())])
    );
    assert_eq!(
        first.column(1),
        &ColumnData::Utf8(vec![Some("A".to_string()), Some("B".to_string())])
    );
    assert_eq!(first.num_rows(), 2);
    let second = m.next_batch().unwrap().unwrap();
    assert_eq!(second.num_rows(), 1);
    assert_eq!(
        second.column(1),
        &ColumnData::Utf8(vec![Some("C".to_string())])
    );
}

#[test]
fn upstream_error_propagates_untransformed_and_iteration_continues() {
    let reg = upper_registry();
    let source = VecSource::new(
        text_schema(),
        vec![
            Ok(text_batch(&["one"])),
            Ok(text_batch(&["two"])),
            Err(Error::Runtime {
                message: "disk gone".to_string(),
            }),
            Ok(text_batch(&["four"])),
            Ok(text_batch(&["five"])),
        ],
    );
    let mut m =
        MaybeEmbedded::try_new(source, embedding_table_definition(), Some(&reg)).unwrap();
    let b1 = m.next_batch().unwrap().unwrap();
    assert_eq!(b1.column(1), &ColumnData::Utf8(vec![Some("ONE".to_string())]));
    let b2 = m.next_batch().unwrap().unwrap();
    assert_eq!(b2.column(1), &ColumnData::Utf8(vec![Some("TWO".to_string())]));
    let e = m.next_batch().unwrap().unwrap_err();
    assert_eq!(
        e,
        Error::Runtime {
            message: "disk gone".to_string()
        }
    );
    let b4 = m.next_batch().unwrap().unwrap();
    assert_eq!(b4.column(1), &ColumnData::Utf8(vec![Some("FOUR".to_string())]));
    let b5 = m.next_batch().unwrap().unwrap();
    assert_eq!(b5.column(1), &ColumnData::Utf8(vec![Some("FIVE".to_string())]));
    assert!(m.next_batch().is_none());
}

#[test]
fn table_definition_derivation_is_idempotent() {
    let source = VecSource::new(text_schema(), Vec::new());
    let def = EmbeddingDefinition::new("text".to_string(), "upper".to_string(), None);
    let w = WithEmbeddings::new(source, Arc::new(UpperFn), def);
    let first = w.table_definition();
    let second = w.table_definition();
    assert_eq!(first, second);
}

#[test]
fn table_definition_appends_derived_field_and_embedding_kind() {
    let source = VecSource::new(text_schema(), Vec::new());
    let def = EmbeddingDefinition::new("text".to_string(), "upper".to_string(), None);
    let w = WithEmbeddings::new(source, Arc::new(UpperFn), def.duplicate());
    let td = w.table_definition();
    assert_eq!(td.schema.fields.len(), 2);
    assert_eq!(td.schema.fields[0], Field::new("text".to_string(), DataType::Utf8, false));
    assert_eq!(
        td.schema.fields[1],
        Field::new("text_embedding".to_string(), DataType::Utf8, false)
    );
    assert_eq!(td.column_definitions.len(), 2);
    assert_eq!(
        td.column_definitions[0],
        ColumnDefinition {
            kind: ColumnKind::Physical
        }
    );
    assert_eq!(
        td.column_definitions[1],
        ColumnDefinition {
            kind: ColumnKind::Embedding(def)
        }
    );
}

#[test]
fn missing_source_column_is_reported_per_batch() {
    let other_schema = Schema::new(vec![Field::new("body".to_string(), DataType::Utf8, false)]);
    let other_batch = RecordBatch::try_new(
        other_schema,
        vec![ColumnData::Utf8(vec![Some("x".to_string())])],
    )
    .unwrap();
    let source = VecSource::new(text_schema(), vec![Ok(other_batch)]);
    let def = EmbeddingDefinition::new("text".to_string(), "upper".to_string(), None);
    let mut w = WithEmbeddings::new(source, Arc::new(UpperFn), def);
    let e = w.next_batch().unwrap().unwrap_err();
    assert_eq!(e, Error::SourceColumnMissing);
}

#[test]
fn missing_source_column_is_reported_at_construction() {
    let reg = upper_registry();
    let other_schema = Schema::new(vec![Field::new("body".to_string(), DataType::Utf8, false)]);
    let source = VecSource::new(other_schema, Vec::new());
    let r = MaybeEmbedded::try_new(source, embedding_table_definition(), Some(&reg));
    assert_eq!(r.unwrap_err(), Error::SourceColumnMissing);
}

#[test]
fn short_embedding_output_is_rejected() {
    let source = VecSource::new(text_schema(), vec![Ok(text_batch(&["a"]))]);
    let def = EmbeddingDefinition::new("text".to_string(), "short".to_string(), None);
    let mut w = WithEmbeddings::new(source, Arc::new(ShortFn), def);
    let e = w.next_batch().unwrap().unwrap_err();
    assert_eq!(e, Error::InvalidEmbedding);
}

#[test]
fn failing_embedding_function_error_is_surfaced() {
    let source = VecSource::new(text_schema(), vec![Ok(text_batch(&["a"]))]);
    let def = EmbeddingDefinition::new("text".to_string(), "fail".to_string(), None);
    let mut w = WithEmbeddings::new(source, Arc::new(FailFn), def);
    let e = w.next_batch().unwrap().unwrap_err();
    assert_eq!(
        e,
        Error::Runtime {
            message: "model offline".to_string()
        }
    );
}

#[test]
fn record_batch_rejects_mismatched_columns() {
    let wrong_count = RecordBatch::try_new(text_schema(), Vec::new());
    assert_eq!(wrong_count.unwrap_err(), Error::InvalidBatch);

    let wrong_type = RecordBatch::try_new(text_schema(), vec![ColumnData::Int64(vec![Some(1)])]);
    assert_eq!(wrong_type.unwrap_err(), Error::InvalidBatch);

    let two_fields = Schema::new(vec![
        Field::new("a".to_string(), DataType::Utf8, false),
        Field::new("b".to_string(), DataType::Utf8, false),
    ]);
    let ragged = RecordBatch::try_new(
        two_fields,
        vec![
            ColumnData::Utf8(vec![Some("x".to_string())]),
            ColumnData::Utf8(Vec::new()),
        ],
    );
    assert_eq!(ragged.unwrap_err(), Error::InvalidBatch);
}

#[test]
fn schema_field_index_finds_first_match() {
    let schema = Schema::new(vec![
        Field::new("a".to_string(), DataType::Utf8, false),
        Field::new("b".to_string(), DataType::Int64, true),
        Field::new("a".to_string(), DataType::Boolean, true),
    ]);
    assert_eq!(schema.field_index("a"), Some(0));
    assert_eq!(schema.field_index("b"), Some(1));
    assert_eq!(schema.field_index("c"), None);
}

#[test]
fn nullable_source_yields_nullable_destination() {
    let schema = Schema::new(vec![Field::new("text".to_string(), DataType::Utf8, true)]);
    let source = VecSource::new(schema, Vec::new());
    let def = EmbeddingDefinition::new("text".to_string(), "upper".to_string(), None);
    let w = WithEmbeddings::new(source, Arc::new(UpperFn), def);
    let td = w.table_definition();
    assert!(td.schema.fields[1].nullable);
}
