use meili_core::error::{Code, ErrorCode, ResponseError};

#[test]
fn index_not_found_is_a_404() {
    let code = Code::IndexNotFound;
    assert_eq!(code.http(), 404);
    assert_eq!(code.name(), "index_not_found");
    assert_eq!(code.type_(), "invalid_request");
    assert_eq!(code.url(), "https://docs.meilisearch.com/errors#index_not_found");
}

#[test]
fn response_error_carries_its_code() {
    let e = ResponseError::from_msg("nope".to_string(), Code::InvalidToken);
    assert_eq!(e.http_status(), 403);
    assert_eq!(e.error_type(), "auth");
    assert_eq!(e.error_name(), "invalid_api_key");
    assert_eq!(e.error_url(), "https://docs.meilisearch.com/errors#invalid_api_key");
}

#[test]
fn every_code_has_its_status_name_and_type() {
    let table = [
        (Code::CreateIndex, 500, "index_creation_failed", "internal"),
        (Code::IndexAlreadyExists, 409, "index_already_exists", "invalid_request"),
        (Code::IndexNotFound, 404, "index_not_found", "invalid_request"),
        (Code::InvalidIndexUid, 400, "invalid_index_uid", "invalid_request"),
        (Code::InvalidState, 500, "invalid_state", "internal"),
        (Code::MissingPrimaryKey, 400, "primary_key_inference_failed", "invalid_request"),
        (Code::PrimaryKeyAlreadyPresent, 409, "index_primary_key_already_exists", "invalid_request"),
        (Code::MaxFieldsLimitExceeded, 400, "max_fields_limit_exceeded", "invalid_request"),
        (Code::MissingDocumentId, 400, "missing_document_id", "invalid_request"),
        (Code::InvalidDocumentId, 400, "invalid_document_id", "invalid_request"),
        (Code::Filter, 400, "invalid_filter", "invalid_request"),
        (Code::Sort, 400, "invalid_sort", "invalid_request"),
        (Code::BadParameter, 400, "bad_parameter", "invalid_request"),
        (Code::BadRequest, 400, "bad_request", "invalid_request"),
        (Code::DatabaseSizeLimitReached, 500, "database_size_limit_reached", "internal"),
        (Code::DocumentNotFound, 404, "document_not_found", "invalid_request"),
        (Code::Internal, 500, "internal", "internal"),
        (Code::InvalidGeoField, 400, "invalid_geo_field", "invalid_request"),
        (Code::InvalidRankingRule, 400, "invalid_ranking_rule", "invalid_request"),
        (Code::InvalidStore, 500, "invalid_store_file", "internal"),
        (Code::InvalidToken, 403, "invalid_api_key", "auth"),
        (Code::MissingAuthorizationHeader, 401, "missing_authorization_header", "auth"),
        (Code::NoSpaceLeftOnDevice, 500, "no_space_left_on_device", "internal"),
        (Code::DumpNotFound, 404, "dump_not_found", "invalid_request"),
        (Code::TaskNotFound, 404, "task_not_found", "invalid_request"),
        (Code::PayloadTooLarge, 413, "payload_too_large", "invalid_request"),
        (Code::RetrieveDocument, 400, "unretrievable_document", "internal"),
        (Code::SearchDocuments, 400, "search_error", "internal"),
        (Code::UnsupportedMediaType, 415, "unsupported_media_type", "invalid_request"),
        (Code::DumpAlreadyInProgress, 409, "dump_already_processing", "invalid_request"),
        (Code::DumpProcessFailed, 500, "dump_process_failed", "internal"),
        (Code::InvalidContentType, 415, "invalid_content_type", "invalid_request"),
        (Code::MissingContentType, 415, "missing_content_type", "invalid_request"),
        (Code::MalformedPayload, 400, "malformed_payload", "invalid_request"),
        (Code::MissingPayload, 400, "missing_payload", "invalid_request"),
        (Code::InvalidDocumentCsvDelimiter, 400, "invalid_document_csv_delimiter", "invalid_request"),
        (Code::InvalidDocumentFilter, 400, "invalid_document_filter", "invalid_request"),
        (Code::InvalidTaskCancellation, 400, "invalid_task_cancellation", "invalid_request"),
        (Code::TaskCancelled, 400, "task_cancelled", "invalid_request"),
    ];
    let mut names = std::collections::BTreeSet::new();
    for (code, status, name, type_) in table {
        assert_eq!(code.http(), status);
        assert_eq!(code.name(), name);
        assert_eq!(code.type_(), type_);
        assert_eq!(code.url(), format!("https://docs.meilisearch.com/errors#{}", name));
        let parts = code.err_code();
        assert_eq!(parts.status_code, status);
        assert_eq!(parts.error_name, name);
        assert_eq!(parts.error_type.to_string(), type_);
        assert!(names.insert(name));
    }
}

#[test]
fn an_empty_filter_is_an_invalid_filter() {
    let error = meili_core::documents::payload::MeilisearchHttpError::EmptyFilter;
    assert_eq!(error.error_code(), Code::InvalidDocumentFilter);
    assert_eq!(error.http_status(), 400);
}
