//! The kind of payload that a request to add documents carries, read from
//! its content type and its csv delimiter.

use vstd::prelude::*;
use vstd::string::*;
use crate::error::{Code, ErrorCode, ResponseError};
use crate::text::{str_eq, string_from_chars};

verus! {

/// The two parts of a content type, as in `text/csv`.
#[derive(Debug, Clone, PartialEq, Eq)]
pub struct Mime {
    pub type_: String,
    pub subtype: String,
}

/// The delimiter of a csv payload that names none: a comma.
pub const DEFAULT_CSV_DELIMITER: u8 = 0x2c;

/// The format of a payload of documents.
#[derive(Debug, Clone, Copy, PartialEq, Eq, Structural)]
pub enum PayloadType {
    Ndjson,
    Json,
    Csv { delimiter: u8 },
}

/// How the documents of a payload meet those that the index holds.
#[derive(Debug, Clone, Copy, PartialEq, Eq, Structural)]
pub enum IndexDocumentsMethod {
    /// A document replaces the one with the same id.
    ReplaceDocuments,
    /// A document is merged into the one with the same id.
    UpdateDocuments,
}

/// What a request can be refused for before a task is made of it.
#[derive(Debug)]
pub enum MeilisearchHttpError {
    /// No content type was given; the list is that of the accepted ones.
    MissingContentType(Vec<String>),
    /// The content type is none of the accepted ones: the media type is
    /// not supported.
    InvalidContentType(String, Vec<String>),
    /// A csv delimiter came with a content type that is not csv.
    CsvDelimiterWithWrongContentType(String),
    /// The body is missing or empty.
    MissingPayload(PayloadType),
    /// The body could not be received; the text says why.
    Payload(String),
    /// No document has this id.
    DocumentNotFound(String),
    /// The filter is empty.
    EmptyFilter,
}

/// What a [`MeilisearchHttpError`] stands for.
pub enum HttpErrorView {
    MissingContentType(Seq<Seq<char>>),
    InvalidContentType(Seq<char>, Seq<Seq<char>>),
    CsvDelimiterWithWrongContentType(Seq<char>),
    MissingPayload(PayloadType),
    Payload(Seq<char>),
    DocumentNotFound(Seq<char>),
    EmptyFilter,
}

/// The character sequences of a list of strings.
pub open spec fn strings_view(list: Seq<String>) -> Seq<Seq<char>> {
    Seq::new(list.len(), |i: int| list[i]@)
}

impl View for MeilisearchHttpError {
    type V = HttpErrorView;

    open spec fn view(&self) -> HttpErrorView {
        match self {
            MeilisearchHttpError::MissingContentType(accepted) => HttpErrorView::MissingContentType(
                strings_view(accepted@),
            ),
            MeilisearchHttpError::InvalidContentType(given, accepted) => {
                HttpErrorView::InvalidContentType(given@, strings_view(accepted@))
            },
            MeilisearchHttpError::CsvDelimiterWithWrongContentType(given) => {
                HttpErrorView::CsvDelimiterWithWrongContentType(given@)
            },
            MeilisearchHttpError::MissingPayload(format) => HttpErrorView::MissingPayload(*format),
            MeilisearchHttpError::Payload(why) => HttpErrorView::Payload(why@),
            MeilisearchHttpError::DocumentNotFound(id) => HttpErrorView::DocumentNotFound(id@),
            MeilisearchHttpError::EmptyFilter => HttpErrorView::EmptyFilter,
        }
    }
}

impl ErrorCode for MeilisearchHttpError {
    open spec fn spec_error_code(&self) -> Code {
        match self {
            MeilisearchHttpError::MissingContentType(_) => Code::MissingContentType,
            MeilisearchHttpError::InvalidContentType(_, _) => Code::UnsupportedMediaType,
            MeilisearchHttpError::CsvDelimiterWithWrongContentType(_) => Code::InvalidContentType,
            MeilisearchHttpError::MissingPayload(_) => Code::MissingPayload,
            MeilisearchHttpError::Payload(_) => Code::Internal,
            MeilisearchHttpError::DocumentNotFound(_) => Code::DocumentNotFound,
            MeilisearchHttpError::EmptyFilter => Code::InvalidDocumentFilter,
        }
    }

    fn error_code(&self) -> (code: Code) {
        match self {
            MeilisearchHttpError::MissingContentType(_) => Code::MissingContentType,
            MeilisearchHttpError::InvalidContentType(_, _) => Code::UnsupportedMediaType,
            MeilisearchHttpError::CsvDelimiterWithWrongContentType(_) => Code::InvalidContentType,
            MeilisearchHttpError::MissingPayload(_) => Code::MissingPayload,
            MeilisearchHttpError::Payload(_) => Code::Internal,
            MeilisearchHttpError::DocumentNotFound(_) => Code::DocumentNotFound,
            MeilisearchHttpError::EmptyFilter => Code::InvalidDocumentFilter,
        }
    }
}

/// The content types that documents are accepted in.
pub open spec fn spec_accepted_content_type() -> Seq<Seq<char>> {
    seq!["application/json"@, "application/x-ndjson"@, "text/csv"@]
}

/// The content types that documents are accepted in.
pub fn accepted_content_type() -> (list: Vec<String>)
    ensures
        strings_view(list@) == spec_accepted_content_type(),
{
    let mut list: Vec<String> = Vec::new();
    list.push(String::from_str("application/json"));
    list.push(String::from_str("application/x-ndjson"));
    list.push(String::from_str("text/csv"));
    assert(strings_view(list@) =~= spec_accepted_content_type());
    list
}

/// What reading the content type of a request has given.
#[derive(Debug)]
pub enum MimeReading {
    /// The header is there and well formed.
    Parsed(Mime),
    /// There is no header.
    Absent,
    /// The header cannot be read as a content type; the field holds its
    /// text where there is a header at all.
    Unreadable(Option<String>),
}

/// Extracts the content type and refuses a header that cannot be read.
pub fn extract_mime_type(reading: MimeReading) -> (r: Result<Option<Mime>, MeilisearchHttpError>)
    ensures
        match reading {
            MimeReading::Parsed(mime) => r == Ok::<Option<Mime>, MeilisearchHttpError>(Some(mime)),
            MimeReading::Absent => r == Ok::<Option<Mime>, MeilisearchHttpError>(None),
            MimeReading::Unreadable(Some(given)) => r is Err && r->Err_0@
                == HttpErrorView::InvalidContentType(given@, spec_accepted_content_type()),
            MimeReading::Unreadable(None) => r is Err && r->Err_0@
                == HttpErrorView::MissingContentType(spec_accepted_content_type()),
        },
{
    match reading {
        MimeReading::Parsed(mime) => Ok(Some(mime)),
        MimeReading::Absent => Ok(None),
        MimeReading::Unreadable(Some(given)) => Err(
            MeilisearchHttpError::InvalidContentType(given, accepted_content_type()),
        ),
        MimeReading::Unreadable(None) => Err(
            MeilisearchHttpError::MissingContentType(accepted_content_type()),
        ),
    }
}

/// The format of the payload of a request with this content type and this
/// csv delimiter, or why the request is refused.
pub open spec fn spec_payload_type(mime: Option<(Seq<char>, Seq<char>)>, csv_delimiter: Option<u8>)
    -> Result<PayloadType, HttpErrorView> {
    match mime {
        None => Err(HttpErrorView::MissingContentType(spec_accepted_content_type())),
        Some((type_, subtype)) => {
            if type_ == "application"@ && subtype == "json"@ {
                if csv_delimiter is None {
                    Ok(PayloadType::Json)
                } else {
                    Err(HttpErrorView::CsvDelimiterWithWrongContentType("application/json"@))
                }
            } else if type_ == "application"@ && subtype == "x-ndjson"@ {
                if csv_delimiter is None {
                    Ok(PayloadType::Ndjson)
                } else {
                    Err(HttpErrorView::CsvDelimiterWithWrongContentType("application/x-ndjson"@))
                }
            } else if type_ == "text"@ && subtype == "csv"@ {
                match csv_delimiter {
                    None => Ok(PayloadType::Csv { delimiter: DEFAULT_CSV_DELIMITER }),
                    Some(delimiter) => Ok(PayloadType::Csv { delimiter }),
                }
            } else {
                Err(
                    HttpErrorView::InvalidContentType(
                        type_ + "/"@ + subtype,
                        spec_accepted_content_type(),
                    ),
                )
            }
        },
    }
}

/// The two parts of an optional content type.
pub open spec fn mime_view(mime: Option<&Mime>) -> Option<(Seq<char>, Seq<char>)> {
    match mime {
        Some(m) => Some((m.type_@, m.subtype@)),
        None => None,
    }
}

/// Reads the format of a payload from the content type and the csv
/// delimiter of its request. Without a delimiter a csv payload is parted by
/// commas; a delimiter with another format is refused.
pub fn payload_type(mime: Option<&Mime>, csv_delimiter: Option<u8>) -> (r: Result<
    PayloadType,
    MeilisearchHttpError,
>)
    ensures
        match r {
            Ok(format) => spec_payload_type(mime_view(mime), csv_delimiter) == Ok::<
                PayloadType,
                HttpErrorView,
            >(format),
            Err(e) => spec_payload_type(mime_view(mime), csv_delimiter) == Err::<
                PayloadType,
                HttpErrorView,
            >(e@),
        },
{
    let mime = match mime {
        Some(mime) => mime,
        None => {
            return Err(MeilisearchHttpError::MissingContentType(accepted_content_type()));
        },
    };
    let type_ = mime.type_.as_str();
    let subtype = mime.subtype.as_str();
    if str_eq(type_, "application") && str_eq(subtype, "json") {
        match csv_delimiter {
            None => Ok(PayloadType::Json),
            Some(_) => Err(
                MeilisearchHttpError::CsvDelimiterWithWrongContentType(
                    String::from_str("application/json"),
                ),
            ),
        }
    } else if str_eq(type_, "application") && str_eq(subtype, "x-ndjson") {
        match csv_delimiter {
            None => Ok(PayloadType::Ndjson),
            Some(_) => Err(
                MeilisearchHttpError::CsvDelimiterWithWrongContentType(
                    String::from_str("application/x-ndjson"),
                ),
            ),
        }
    } else if str_eq(type_, "text") && str_eq(subtype, "csv") {
        match csv_delimiter {
            None => Ok(PayloadType::Csv { delimiter: DEFAULT_CSV_DELIMITER }),
            Some(delimiter) => Ok(PayloadType::Csv { delimiter }),
        }
    } else {
        let mut given = String::from_str(type_);
        given.append("/");
        given.append(subtype);
        Err(MeilisearchHttpError::InvalidContentType(given, accepted_content_type()))
    }
}

/// The message that refuses a csv delimiter.
pub open spec fn spec_csv_delimiter_message(c: char) -> Seq<char> {
    "csv delimiter must be an ascii character. Found: `"@ + seq![c] + "`"@
}

/// Reads a csv delimiter from a character: an ASCII character is its byte,
/// any other is refused with the code `InvalidDocumentCsvDelimiter`.
pub fn from_char_csv_delimiter(c: char) -> (r: Result<Option<u8>, ResponseError>)
    ensures
        match r {
            Ok(delimiter) => c as u32 <= 0x7f && delimiter == Some(c as u8),
            Err(e) => c as u32 > 0x7f && e.code == Code::InvalidDocumentCsvDelimiter && e.message@
                == spec_csv_delimiter_message(c),
        },
{
    if c as u32 <= 0x7f {
        Ok(Some(c as u8))
    } else {
        let mut message = String::from_str("csv delimiter must be an ascii character. Found: `");
        let mut found: Vec<char> = Vec::new();
        found.push(c);
        let found = string_from_chars(found.as_slice());
        assert(found@ =~= seq![c]);
        message.append(found.as_str());
        message.append("`");
        Err(ResponseError::from_msg(message, Code::InvalidDocumentCsvDelimiter))
    }
}

} // verus!
