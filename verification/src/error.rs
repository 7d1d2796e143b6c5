//! The closed list of error codes, each with its HTTP status, its stable
//! name, its category and the address of its documentation.

use vstd::prelude::*;
use vstd::string::*;

verus! {

/// The category of an error code.
#[allow(clippy::enum_variant_names)]
#[derive(Clone, Copy, Debug, PartialEq, Eq, Structural)]
pub enum ErrorType {
    InternalError,
    InvalidRequestError,
    AuthenticationError,
}

impl ErrorType {
    /// The category as it is written in an error envelope.
    pub open spec fn spec_text(self) -> Seq<char> {
        match self {
            ErrorType::InternalError => "internal"@,
            ErrorType::InvalidRequestError => "invalid_request"@,
            ErrorType::AuthenticationError => "auth"@,
        }
    }

    /// The category as it is written in an error envelope.
    pub fn to_string(&self) -> (s: String)
        ensures
            s@ == self.spec_text(),
    {
        match self {
            ErrorType::InternalError => String::from_str("internal"),
            ErrorType::InvalidRequestError => String::from_str("invalid_request"),
            ErrorType::AuthenticationError => String::from_str("auth"),
        }
    }
}

/// An error code.
#[derive(Clone, Copy, Debug, PartialEq, Eq, Structural)]
pub enum Code {
    // index related errors
    CreateIndex,
    IndexAlreadyExists,
    IndexNotFound,
    InvalidIndexUid,
    // invalid state errors
    InvalidState,
    MissingPrimaryKey,
    PrimaryKeyAlreadyPresent,
    // invalid documents
    MaxFieldsLimitExceeded,
    MissingDocumentId,
    InvalidDocumentId,
    // filters and sorts
    Filter,
    Sort,

    BadParameter,
    BadRequest,
    DatabaseSizeLimitReached,
    DocumentNotFound,
    Internal,
    InvalidGeoField,
    InvalidRankingRule,
    InvalidStore,
    InvalidToken,
    MissingAuthorizationHeader,
    NoSpaceLeftOnDevice,
    DumpNotFound,
    TaskNotFound,
    PayloadTooLarge,
    RetrieveDocument,
    SearchDocuments,
    UnsupportedMediaType,
    // dumps
    DumpAlreadyInProgress,
    DumpProcessFailed,
    // payloads
    InvalidContentType,
    MissingContentType,
    MalformedPayload,
    MissingPayload,
    // document routes
    InvalidDocumentCsvDelimiter,
    InvalidDocumentFilter,
    // tasks
    InvalidTaskCancellation,
    TaskCancelled,
}

/// The prefix of every documentation address.
pub open spec fn spec_url_prefix() -> Seq<char> {
    "https://docs.meilisearch.com/errors#"@
}

impl Code {
    /// The HTTP status that answers a request failing with this code.
    pub open spec fn spec_status(self) -> u16 {
        match self {
            Code::CreateIndex => 500,
            Code::IndexAlreadyExists => 409,
            Code::IndexNotFound => 404,
            Code::InvalidIndexUid => 400,
            Code::InvalidState => 500,
            Code::MissingPrimaryKey => 400,
            Code::PrimaryKeyAlreadyPresent => 409,
            Code::MaxFieldsLimitExceeded => 400,
            Code::MissingDocumentId => 400,
            Code::InvalidDocumentId => 400,
            Code::Filter => 400,
            Code::Sort => 400,
            Code::BadParameter => 400,
            Code::BadRequest => 400,
            Code::DatabaseSizeLimitReached => 500,
            Code::DocumentNotFound => 404,
            Code::Internal => 500,
            Code::InvalidGeoField => 400,
            Code::InvalidRankingRule => 400,
            Code::InvalidStore => 500,
            Code::InvalidToken => 403,
            Code::MissingAuthorizationHeader => 401,
            Code::NoSpaceLeftOnDevice => 500,
            Code::DumpNotFound => 404,
            Code::TaskNotFound => 404,
            Code::PayloadTooLarge => 413,
            Code::RetrieveDocument => 400,
            Code::SearchDocuments => 400,
            Code::UnsupportedMediaType => 415,
            Code::DumpAlreadyInProgress => 409,
            Code::DumpProcessFailed => 500,
            Code::InvalidContentType => 415,
            Code::MissingContentType => 415,
            Code::MalformedPayload => 400,
            Code::MissingPayload => 400,
            Code::InvalidDocumentCsvDelimiter => 400,
            Code::InvalidDocumentFilter => 400,
            Code::InvalidTaskCancellation => 400,
            Code::TaskCancelled => 400,
        }
    }

    /// The category of this code.
    pub open spec fn spec_type(self) -> ErrorType {
        match self {
            Code::CreateIndex => ErrorType::InternalError,
            Code::IndexAlreadyExists => ErrorType::InvalidRequestError,
            Code::IndexNotFound => ErrorType::InvalidRequestError,
            Code::InvalidIndexUid => ErrorType::InvalidRequestError,
            Code::InvalidState => ErrorType::InternalError,
            Code::MissingPrimaryKey => ErrorType::InvalidRequestError,
            Code::PrimaryKeyAlreadyPresent => ErrorType::InvalidRequestError,
            Code::MaxFieldsLimitExceeded => ErrorType::InvalidRequestError,
            Code::MissingDocumentId => ErrorType::InvalidRequestError,
            Code::InvalidDocumentId => ErrorType::InvalidRequestError,
            Code::Filter => ErrorType::InvalidRequestError,
            Code::Sort => ErrorType::InvalidRequestError,
            Code::BadParameter => ErrorType::InvalidRequestError,
            Code::BadRequest => ErrorType::InvalidRequestError,
            Code::DatabaseSizeLimitReached => ErrorType::InternalError,
            Code::DocumentNotFound => ErrorType::InvalidRequestError,
            Code::Internal => ErrorType::InternalError,
            Code::InvalidGeoField => ErrorType::InvalidRequestError,
            Code::InvalidRankingRule => ErrorType::InvalidRequestError,
            Code::InvalidStore => ErrorType::InternalError,
            Code::InvalidToken => ErrorType::AuthenticationError,
            Code::MissingAuthorizationHeader => ErrorType::AuthenticationError,
            Code::NoSpaceLeftOnDevice => ErrorType::InternalError,
            Code::DumpNotFound => ErrorType::InvalidRequestError,
            Code::TaskNotFound => ErrorType::InvalidRequestError,
            Code::PayloadTooLarge => ErrorType::InvalidRequestError,
            Code::RetrieveDocument => ErrorType::InternalError,
            Code::SearchDocuments => ErrorType::InternalError,
            Code::UnsupportedMediaType => ErrorType::InvalidRequestError,
            Code::DumpAlreadyInProgress => ErrorType::InvalidRequestError,
            Code::DumpProcessFailed => ErrorType::InternalError,
            Code::InvalidContentType => ErrorType::InvalidRequestError,
            Code::MissingContentType => ErrorType::InvalidRequestError,
            Code::MalformedPayload => ErrorType::InvalidRequestError,
            Code::MissingPayload => ErrorType::InvalidRequestError,
            Code::InvalidDocumentCsvDelimiter => ErrorType::InvalidRequestError,
            Code::InvalidDocumentFilter => ErrorType::InvalidRequestError,
            Code::InvalidTaskCancellation => ErrorType::InvalidRequestError,
            Code::TaskCancelled => ErrorType::InvalidRequestError,
        }
    }

    /// The stable name of this code.
    pub open spec fn spec_name(self) -> Seq<char> {
        match self {
            Code::CreateIndex => "index_creation_failed"@,
            Code::IndexAlreadyExists => "index_already_exists"@,
            Code::IndexNotFound => "index_not_found"@,
            Code::InvalidIndexUid => "invalid_index_uid"@,
            Code::InvalidState => "invalid_state"@,
            Code::MissingPrimaryKey => "primary_key_inference_failed"@,
            Code::PrimaryKeyAlreadyPresent => "index_primary_key_already_exists"@,
            Code::MaxFieldsLimitExceeded => "max_fields_limit_exceeded"@,
            Code::MissingDocumentId => "missing_document_id"@,
            Code::InvalidDocumentId => "invalid_document_id"@,
            Code::Filter => "invalid_filter"@,
            Code::Sort => "invalid_sort"@,
            Code::BadParameter => "bad_parameter"@,
            Code::BadRequest => "bad_request"@,
            Code::DatabaseSizeLimitReached => "database_size_limit_reached"@,
            Code::DocumentNotFound => "document_not_found"@,
            Code::Internal => "internal"@,
            Code::InvalidGeoField => "invalid_geo_field"@,
            Code::InvalidRankingRule => "invalid_ranking_rule"@,
            Code::InvalidStore => "invalid_store_file"@,
            Code::InvalidToken => "invalid_api_key"@,
            Code::MissingAuthorizationHeader => "missing_authorization_header"@,
            Code::NoSpaceLeftOnDevice => "no_space_left_on_device"@,
            Code::DumpNotFound => "dump_not_found"@,
            Code::TaskNotFound => "task_not_found"@,
            Code::PayloadTooLarge => "payload_too_large"@,
            Code::RetrieveDocument => "unretrievable_document"@,
            Code::SearchDocuments => "search_error"@,
            Code::UnsupportedMediaType => "unsupported_media_type"@,
            Code::DumpAlreadyInProgress => "dump_already_processing"@,
            Code::DumpProcessFailed => "dump_process_failed"@,
            Code::InvalidContentType => "invalid_content_type"@,
            Code::MissingContentType => "missing_content_type"@,
            Code::MalformedPayload => "malformed_payload"@,
            Code::MissingPayload => "missing_payload"@,
            Code::InvalidDocumentCsvDelimiter => "invalid_document_csv_delimiter"@,
            Code::InvalidDocumentFilter => "invalid_document_filter"@,
            Code::InvalidTaskCancellation => "invalid_task_cancellation"@,
            Code::TaskCancelled => "task_cancelled"@,
        }
    }

    /// The documentation address of this code: the prefix, then the name.
    pub open spec fn spec_url(self) -> Seq<char> {
        spec_url_prefix() + self.spec_name()
    }

    /// Associates a `Code` with its status, category and name.
    pub fn err_code(&self) -> (e: ErrCode)
        ensures
            e.status_code == self.spec_status(),
            e.error_type == self.spec_type(),
            e.error_name@ == self.spec_name(),
    {
        match self {
            // index related errors
            // thrown on an internal error while creating an index
            Code::CreateIndex => ErrCode::internal("index_creation_failed", 500),
            Code::IndexAlreadyExists => ErrCode::invalid("index_already_exists", 409),
            // thrown when requesting an unexisting index
            Code::IndexNotFound => ErrCode::invalid("index_not_found", 404),
            Code::InvalidIndexUid => ErrCode::invalid("invalid_index_uid", 400),
            // invalid state errors
            Code::InvalidState => ErrCode::internal("invalid_state", 500),
            // thrown when no primary key has been set
            Code::MissingPrimaryKey => ErrCode::invalid("primary_key_inference_failed", 400),
            // thrown when trying to set an already existing primary key
            Code::PrimaryKeyAlreadyPresent => ErrCode::invalid("index_primary_key_already_exists", 409),
            // invalid documents
            Code::MaxFieldsLimitExceeded => ErrCode::invalid("max_fields_limit_exceeded", 400),
            Code::MissingDocumentId => ErrCode::invalid("missing_document_id", 400),
            Code::InvalidDocumentId => ErrCode::invalid("invalid_document_id", 400),
            // filters and sorts
            Code::Filter => ErrCode::invalid("invalid_filter", 400),
            Code::Sort => ErrCode::invalid("invalid_sort", 400),
            Code::BadParameter => ErrCode::invalid("bad_parameter", 400),
            Code::BadRequest => ErrCode::invalid("bad_request", 400),
            Code::DatabaseSizeLimitReached => ErrCode::internal("database_size_limit_reached", 500),
            Code::DocumentNotFound => ErrCode::invalid("document_not_found", 404),
            Code::Internal => ErrCode::internal("internal", 500),
            Code::InvalidGeoField => ErrCode::invalid("invalid_geo_field", 400),
            Code::InvalidRankingRule => ErrCode::invalid("invalid_ranking_rule", 400),
            Code::InvalidStore => ErrCode::internal("invalid_store_file", 500),
            Code::InvalidToken => ErrCode::authentication("invalid_api_key", 403),
            Code::MissingAuthorizationHeader => ErrCode::authentication("missing_authorization_header", 401),
            Code::NoSpaceLeftOnDevice => ErrCode::internal("no_space_left_on_device", 500),
            Code::DumpNotFound => ErrCode::invalid("dump_not_found", 404),
            Code::TaskNotFound => ErrCode::invalid("task_not_found", 404),
            Code::PayloadTooLarge => ErrCode::invalid("payload_too_large", 413),
            Code::RetrieveDocument => ErrCode::internal("unretrievable_document", 400),
            Code::SearchDocuments => ErrCode::internal("search_error", 400),
            Code::UnsupportedMediaType => ErrCode::invalid("unsupported_media_type", 415),
            // dumps
            Code::DumpAlreadyInProgress => ErrCode::invalid("dump_already_processing", 409),
            Code::DumpProcessFailed => ErrCode::internal("dump_process_failed", 500),
            // payloads
            Code::InvalidContentType => ErrCode::invalid("invalid_content_type", 415),
            Code::MissingContentType => ErrCode::invalid("missing_content_type", 415),
            Code::MalformedPayload => ErrCode::invalid("malformed_payload", 400),
            Code::MissingPayload => ErrCode::invalid("missing_payload", 400),
            // document routes
            Code::InvalidDocumentCsvDelimiter => ErrCode::invalid("invalid_document_csv_delimiter", 400),
            Code::InvalidDocumentFilter => ErrCode::invalid("invalid_document_filter", 400),
            // tasks
            Code::InvalidTaskCancellation => ErrCode::invalid("invalid_task_cancellation", 400),
            Code::TaskCancelled => ErrCode::invalid("task_cancelled", 400),
        }
    }

    /// The HTTP status associated with the code.
    pub fn http(&self) -> (status: u16)
        ensures
            status == self.spec_status(),
            100 <= status < 600,
    {
        self.err_code().status_code
    }

    /// The error name, used as the error code in an envelope.
    pub fn name(&self) -> (s: String)
        ensures
            s@ == self.spec_name(),
    {
        String::from_str(self.err_code().error_name)
    }

    /// The error type as it is written in an envelope.
    pub fn type_(&self) -> (s: String)
        ensures
            s@ == self.spec_type().spec_text(),
    {
        self.err_code().error_type.to_string()
    }

    /// The documentation address associated with the error.
    pub fn url(&self) -> (s: String)
        ensures
            s@ == self.spec_url(),
    {
        let mut s = String::from_str("https://docs.meilisearch.com/errors#");
        let name = self.name();
        s.append(name.as_str());
        s
    }
}

/// The three facts that a code stands for.
pub struct ErrCode {
    pub status_code: u16,
    pub error_type: ErrorType,
    pub error_name: &'static str,
}

impl ErrCode {
    pub fn authentication(error_name: &'static str, status_code: u16) -> (e: ErrCode)
        ensures
            e.status_code == status_code,
            e.error_name == error_name,
            e.error_type == ErrorType::AuthenticationError,
    {
        ErrCode { status_code, error_name, error_type: ErrorType::AuthenticationError }
    }

    pub fn internal(error_name: &'static str, status_code: u16) -> (e: ErrCode)
        ensures
            e.status_code == status_code,
            e.error_name == error_name,
            e.error_type == ErrorType::InternalError,
    {
        ErrCode { status_code, error_name, error_type: ErrorType::InternalError }
    }

    pub fn invalid(error_name: &'static str, status_code: u16) -> (e: ErrCode)
        ensures
            e.status_code == status_code,
            e.error_name == error_name,
            e.error_type == ErrorType::InvalidRequestError,
    {
        ErrCode { status_code, error_name, error_type: ErrorType::InvalidRequestError }
    }
}

/// What every error of the engine can tell about itself.
pub trait ErrorCode {
    /// The code of this error.
    spec fn spec_error_code(&self) -> Code;

    fn error_code(&self) -> (code: Code)
        ensures
            code == self.spec_error_code(),
    ;

    /// The HTTP status associated with the error.
    fn http_status(&self) -> (status: u16)
        ensures
            status == self.spec_error_code().spec_status(),
    {
        self.error_code().http()
    }

    /// The documentation address associated with the error.
    fn error_url(&self) -> (s: String)
        ensures
            s@ == self.spec_error_code().spec_url(),
    {
        self.error_code().url()
    }

    /// The error name, used as the error code in an envelope.
    fn error_name(&self) -> (s: String)
        ensures
            s@ == self.spec_error_code().spec_name(),
    {
        self.error_code().name()
    }

    /// The error type as it is written in an envelope.
    fn error_type(&self) -> (s: String)
        ensures
            s@ == self.spec_error_code().spec_type().spec_text(),
    {
        self.error_code().type_()
    }
}

/// An error as it is shown to a caller: `{ message, code, type, link }`.
#[derive(Clone, Debug)]
pub struct ResponseError {
    pub message: String,
    pub code: Code,
}

impl ResponseError {
    pub fn from_msg(message: String, code: Code) -> (e: ResponseError)
        ensures
            e.message == message,
            e.code == code,
    {
        ResponseError { message, code }
    }
}

impl ErrorCode for ResponseError {
    open spec fn spec_error_code(&self) -> Code {
        self.code
    }

    fn error_code(&self) -> (code: Code) {
        self.code
    }
}

/// Every code answers with the status of an error: of the client or of
/// the server.
pub proof fn lemma_status_is_an_error(code: Code)
    ensures
        400 <= code.spec_status() < 600,
{
}

/// The documentation address of a code ends with its name, so that the
/// link of an envelope is the prefix followed by the envelope's code.
pub proof fn lemma_url_ends_with_name(code: Code)
    ensures
        code.spec_url().len() == spec_url_prefix().len() + code.spec_name().len(),
        code.spec_url().subrange(spec_url_prefix().len() as int, code.spec_url().len() as int)
            == code.spec_name(),
        spec_url_prefix().is_prefix_of(code.spec_url()),
{
    let p = spec_url_prefix();
    let n = code.spec_name();
    assert((p + n).subrange(p.len() as int, (p + n).len() as int) =~= n);
    assert((p + n).subrange(0, p.len() as int) =~= p);
}

} // verus!
