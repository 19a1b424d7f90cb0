//! The errors that the tools answer with.

use mdya::get::GetError;
use mdya::ingest::error::MetadataKey;
use mdya::introspect::IntrospectError;
use mdya::mcp::error::{Detail, DetailValue};
use mdya::mcp::{McpErrorCode, McpToolError};
use mdya::search::SearchError;

fn text(key: &'static str, value: &str) -> Detail {
    Detail { key, value: DetailValue::Text(value.to_string()) }
}

fn number(key: &'static str, value: u64) -> Detail {
    Detail { key, value: DetailValue::Number(value) }
}

#[test]
fn empty_query_maps_to_code_without_details() {
    let err = McpToolError::from_search(SearchError::EmptyQuery);
    assert_eq!(err.code, McpErrorCode::EmptyQuery);
    assert_eq!(err.message, "query must be non-empty");
    assert!(err.details.is_none());
}

#[test]
fn invalid_limit_maps_to_code_without_details() {
    let err = McpToolError::from_search(SearchError::InvalidLimit);
    assert_eq!(err.code, McpErrorCode::InvalidLimit);
    assert!(err.details.is_none());
}

#[test]
fn unknown_collection_carries_collection_in_details() {
    let err = McpToolError::from_search(SearchError::UnknownCollection {
        name: "ghost".to_string(),
    });
    assert_eq!(err.code, McpErrorCode::UnknownCollection);
    assert_eq!(err.details, Some(vec![text("collection", "ghost")]));
}

#[test]
fn schema_metadata_missing_carries_absent_keys_in_details() {
    let err = McpToolError::from_search(SearchError::SchemaMetadataMissing {
        absent_keys: vec![MetadataKey::EmbeddingModel],
    });
    assert_eq!(err.code, McpErrorCode::SchemaMetadataMissing);
    assert_eq!(
        err.details,
        Some(vec![Detail {
            key: "absent_keys",
            value: DetailValue::Keys(vec![MetadataKey::EmbeddingModel]),
        }])
    );
    assert_eq!(MetadataKey::EmbeddingModel.name(), "embedding_model");
}

#[test]
fn get_not_found_carries_locator_in_details() {
    let err = McpToolError::from_get(GetError::NotFound {
        collection: "notes".to_string(),
        path: "ghost.md".to_string(),
    });
    assert_eq!(err.code, McpErrorCode::NotFound);
    assert_eq!(
        err.details,
        Some(vec![text("collection", "notes"), text("path", "ghost.md")])
    );
}

#[test]
fn get_unknown_collection_carries_collection_in_details() {
    let err = McpToolError::from_get(GetError::UnknownCollection {
        name: "ghost".to_string(),
    });
    assert_eq!(err.code, McpErrorCode::UnknownCollection);
    assert_eq!(err.details, Some(vec![text("collection", "ghost")]));
}

#[test]
fn get_chunk_not_found_carries_locator_and_sequence_in_details() {
    let err = McpToolError::from_get(GetError::ChunkNotFound {
        collection: "notes".to_string(),
        path: "release.md".to_string(),
        chunk_sequence: 7,
    });
    assert_eq!(err.code, McpErrorCode::NotFound);
    assert_eq!(
        err.details,
        Some(vec![
            text("collection", "notes"),
            text("path", "release.md"),
            number("chunk_sequence", 7),
        ])
    );
    assert_eq!(err.message, "chunk 7 not found in notes/release.md");
}

#[test]
fn get_document_too_large_maps_to_payload_too_large_with_byte_details() {
    let err = McpToolError::from_get(GetError::DocumentTooLarge {
        size_bytes: 2_621_440,
        limit_bytes: 1_048_576,
    });
    assert_eq!(err.code, McpErrorCode::PayloadTooLarge);
    assert_eq!(
        err.details,
        Some(vec![
            number("size_bytes", 2_621_440),
            number("limit_bytes", 1_048_576),
        ])
    );
    assert_eq!(
        err.message,
        "document too large: 2621440 bytes exceeds the 1048576-byte limit"
    );
}

#[test]
fn payload_too_large_serialises_as_snake_case_token() {
    assert_eq!(McpErrorCode::PayloadTooLarge.token(), "payload_too_large");
}

#[test]
fn code_serialises_as_snake_case_token() {
    assert_eq!(
        McpErrorCode::SchemaMetadataMissing.token(),
        "schema_metadata_missing"
    );
}

#[test]
fn every_code_has_its_own_token() {
    assert_eq!(McpErrorCode::EmptyQuery.token(), "empty_query");
    assert_eq!(McpErrorCode::InvalidLimit.token(), "invalid_limit");
    assert_eq!(McpErrorCode::UnknownCollection.token(), "unknown_collection");
    assert_eq!(McpErrorCode::NotFound.token(), "not_found");
    assert_eq!(McpErrorCode::Internal.token(), "internal");
}

#[test]
fn error_without_details_omits_the_field() {
    let err = McpToolError::from_search(SearchError::EmptyQuery);
    assert_eq!(err.details, None);
}

#[test]
fn introspect_schema_metadata_missing_carries_absent_keys_in_details() {
    let err = McpToolError::from_introspect(IntrospectError::SchemaMetadataMissing {
        absent_keys: vec![MetadataKey::VectorDim],
    });
    assert_eq!(err.code, McpErrorCode::SchemaMetadataMissing);
    assert_eq!(
        err.details,
        Some(vec![Detail {
            key: "absent_keys",
            value: DetailValue::Keys(vec![MetadataKey::VectorDim]),
        }])
    );
    assert_eq!(MetadataKey::VectorDim.name(), "vector_dim");
}

#[test]
fn introspect_operational_failure_maps_to_internal() {
    let err = McpToolError::from_introspect(IntrospectError::MalformedVectorDimPin {
        value: "xyz".to_string(),
    });
    assert_eq!(err.code, McpErrorCode::Internal);
    assert!(err.details.is_none());
    assert_eq!(
        err.message,
        "chunks table vector_dim pin is not an integer: \"xyz\""
    );
}
