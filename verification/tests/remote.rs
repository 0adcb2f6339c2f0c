//! Tests of the remote table boundary: request paths, request bodies and
//! response interpretation.

use lancedb::remote::{
    count_rows_from_response, count_rows_request_body, interpret_response, json_escape,
    GetTableInfoResponse, RemoteTable, TableStats,
};
use lancedb::schema::{DataType, Field, Schema};
use lancedb::Error;

#[test]
fn remote_table_keeps_its_name() {
    let t = RemoteTable::new("orders".to_string());
    assert_eq!(t.name(), "orders");
}

#[test]
fn describe_path_names_the_table() {
    let t = RemoteTable::new("orders".to_string());
    assert_eq!(t.describe_path(), "/v1/table/orders/describe/");
}

#[test]
fn count_rows_path_names_the_table() {
    let t = RemoteTable::new("orders".to_string());
    assert_eq!(t.count_rows_path(), "/v1/table/orders/count_rows/");
}

#[test]
fn count_rows_body_without_filter_is_null_predicate() {
    assert_eq!(count_rows_request_body(None), "{\"predicate\":null}");
}

#[test]
fn count_rows_body_carries_the_filter() {
    assert_eq!(
        count_rows_request_body(Some("id > 7".to_string())),
        "{\"predicate\":\"id > 7\"}"
    );
}

#[test]
fn count_rows_body_escapes_the_filter() {
    assert_eq!(
        count_rows_request_body(Some("name = \"a\\b\"".to_string())),
        "{\"predicate\":\"name = \\\"a\\\\b\\\"\"}"
    );
}

#[test]
fn json_escape_handles_quotes_backslashes_and_controls() {
    assert_eq!(json_escape("plain"), "plain");
    assert_eq!(json_escape("a\"b"), "a\\\"b");
    assert_eq!(json_escape("a\\b"), "a\\\\b");
    assert_eq!(json_escape("a\nb\tc\rd"), "a\\nb\\tc\\rd");
    assert_eq!(json_escape("a\u{8}b\u{c}c"), "a\\bb\\fc");
    assert_eq!(json_escape("a\u{1}b"), "a\\u0001b");
    assert_eq!(json_escape("\u{0}\u{1f}"), "\\u0000\\u001f");
    assert_eq!(json_escape(""), "");
}

#[test]
fn interpret_response_passes_success_body_through() {
    assert_eq!(
        interpret_response(true, "{}".to_string()).unwrap(),
        "{}".to_string()
    );
}

#[test]
fn interpret_response_wraps_failure_body_as_service_error() {
    assert_eq!(
        interpret_response(false, "table not found".to_string()).unwrap_err(),
        Error::Runtime {
            message: "table not found".to_string()
        }
    );
}

#[test]
fn count_rows_response_parses_a_count() {
    assert_eq!(count_rows_from_response(true, "42".to_string()).unwrap(), 42);
    assert_eq!(count_rows_from_response(true, "0".to_string()).unwrap(), 0);
}

#[test]
fn count_rows_response_rejects_bad_bodies() {
    assert_eq!(
        count_rows_from_response(true, "".to_string()).unwrap_err(),
        Error::Runtime {
            message: "".to_string()
        }
    );
    assert_eq!(
        count_rows_from_response(true, "12a".to_string()).unwrap_err(),
        Error::Runtime {
            message: "12a".to_string()
        }
    );
    assert_eq!(
        count_rows_from_response(true, "99999999999999999999999".to_string()).unwrap_err(),
        Error::Runtime {
            message: "99999999999999999999999".to_string()
        }
    );
}

#[test]
fn count_rows_response_wraps_failure_body() {
    assert_eq!(
        count_rows_from_response(false, "busy".to_string()).unwrap_err(),
        Error::Runtime {
            message: "busy".to_string()
        }
    );
}

#[test]
fn table_info_holds_what_the_service_reports() {
    let info = GetTableInfoResponse {
        table: "orders".to_string(),
        version: 9,
        schema: Schema::new(vec![Field::new("id".to_string(), DataType::Int64, false)]),
        stats: TableStats {
            num_deleted_rows: 3,
            num_fragments: 2,
        },
    };
    assert_eq!(info.table, "orders");
    assert_eq!(info.version, 9);
    assert_eq!(info.schema.fields.len(), 1);
    assert_eq!(info.stats, TableStats { num_deleted_rows: 3, num_fragments: 2 });
}
