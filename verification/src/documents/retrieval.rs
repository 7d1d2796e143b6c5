//! What a retrieved document looks like: the page of a listing, the
//! attributes that are kept and what becomes of the `_vectors` field.

use vstd::prelude::*;
use vstd::string::*;
use crate::bitmap::{bitmap_len, bitmap_select, bitmap_values};
use crate::documents::payload::{HttpErrorView, MeilisearchHttpError};
use crate::error::{Code, ResponseError};
use crate::json::{json_text_value, json_to_string, json_value_text, parse_json, Json, JsonView};

verus! {

/// The number of documents of a page where the request names none.
pub const PAGINATION_DEFAULT_LIMIT: usize = 20;

/// Nothing, everything, or a list.
#[derive(Debug)]
pub enum OptionStarOrList<T> {
    Absent,
    Star,
    List(Vec<T>),
}

impl<T> OptionStarOrList<T> {
    /// The star selects as much as nothing does: everything.
    pub fn merge_star_and_none(self) -> (r: Option<Vec<T>>)
        ensures
            match self {
                OptionStarOrList::List(list) => r == Some(list),
                _ => r is None,
            },
    {
        match self {
            OptionStarOrList::Absent | OptionStarOrList::Star => None,
            OptionStarOrList::List(list) => Some(list),
        }
    }
}

/// The path of a document route.
#[derive(Debug)]
pub struct DocumentParam {
    pub index_uid: String,
    pub document_id: String,
}

/// The parameters of the retrieval of one document.
#[derive(Debug)]
pub struct GetDocument {
    pub fields: OptionStarOrList<String>,
    pub retrieve_vectors: bool,
}

/// The parameters of a listing of documents as a query string holds them.
#[derive(Debug)]
pub struct BrowseQueryGet {
    pub offset: usize,
    pub limit: usize,
    pub fields: OptionStarOrList<String>,
    pub retrieve_vectors: bool,
    pub filter: Option<String>,
}

/// The parameters of a listing of documents.
#[derive(Debug)]
pub struct BrowseQuery {
    pub offset: usize,
    pub limit: usize,
    pub fields: Option<Vec<String>>,
    pub retrieve_vectors: bool,
    pub filter: Option<Json>,
}

/// The parameters of an addition of documents.
#[derive(Debug)]
pub struct UpdateDocumentsQuery {
    pub primary_key: Option<String>,
    pub csv_delimiter: Option<u8>,
}

/// The body of a deletion of documents by filter.
#[derive(Debug)]
pub struct DocumentDeletionByFilter {
    pub filter: Json,
}

/// The filter of a query string: the JSON value that the text stands for,
/// or the text itself where it is no JSON.
pub open spec fn spec_query_filter(filter: Seq<char>) -> JsonView {
    match json_text_value(filter) {
        Some(value) => value,
        None => JsonView::String(filter),
    }
}

/// The filter of a query string: the JSON value that the text stands for,
/// or the text itself where it is no JSON.
pub fn query_filter(filter: String) -> (value: Json)
    ensures
        value@ == spec_query_filter(filter@),
{
    match parse_json(filter.as_str()) {
        Ok(value) => value,
        Err(_) => Json::String(filter),
    }
}

/// The parameters of a listing, read from those of its query string: the
/// star selects every field, and the filter is read as [`query_filter`] says.
pub fn get_documents(params: BrowseQueryGet) -> (query: BrowseQuery)
    ensures
        query.offset == params.offset,
        query.limit == params.limit,
        query.retrieve_vectors == params.retrieve_vectors,
        match params.fields {
            OptionStarOrList::List(list) => query.fields == Some(list),
            _ => query.fields is None,
        },
        match params.filter {
            Some(text) => query.filter is Some && query.filter->Some_0@ == spec_query_filter(
                text@,
            ),
            None => query.filter is None,
        },
{
    let BrowseQueryGet { limit, offset, fields, retrieve_vectors, filter } = params;
    let filter = match filter {
        Some(f) => Some(query_filter(f)),
        None => None,
    };
    BrowseQuery { offset, limit, fields: fields.merge_star_and_none(), retrieve_vectors, filter }
}

/// The code of an error of the filter of a request for documents: an
/// invalid filter is an invalid filter of documents, any other error keeps
/// its code.
pub open spec fn spec_document_filter_code(code: Code) -> Code {
    match code {
        Code::Filter => Code::InvalidDocumentFilter,
        other => other,
    }
}

/// The code of an error of the filter of a request for documents.
pub fn document_filter_code(code: Code) -> (r: Code)
    ensures
        r == spec_document_filter_code(code),
{
    match code {
        Code::Filter => Code::InvalidDocumentFilter,
        other => other,
    }
}

/// The page of a list: what is left after `offset` items, up to `limit` items.
pub open spec fn spec_page(ids: Seq<u32>, offset: nat, limit: nat) -> Seq<u32> {
    let from = if offset < ids.len() {
        offset
    } else {
        ids.len()
    };
    let to = if from + limit < ids.len() {
        from + limit
    } else {
        ids.len()
    };
    ids.subrange(from as int, to as int)
}

/// The documents of a page among the candidates, in the order of their ids,
/// and the number of all the candidates.
pub fn retrieve_documents(candidates: &roaring::RoaringBitmap, offset: usize, limit: usize) -> (r:
    (u64, Vec<u32>))
    ensures
        r.0 == bitmap_values(*candidates).len(),
        r.1@ == spec_page(bitmap_values(*candidates), offset as nat, limit as nat),
{
    let number_of_documents = bitmap_len(candidates);
    let ghost ids = bitmap_values(*candidates);
    let from: u64 = if (offset as u64) < number_of_documents {
        offset as u64
    } else {
        number_of_documents
    };
    let to: u64 = if (limit as u64) < number_of_documents - from {
        from + limit as u64
    } else {
        number_of_documents
    };
    let mut page: Vec<u32> = Vec::new();
    let mut i: u64 = from;
    // only the documents of the page are looked up
    while i < to
        invariant
            ids == bitmap_values(*candidates),
            from <= i <= to <= ids.len() <= 0x1_0000_0000,
            page@ == ids.subrange(from as int, i as int),
        decreases to - i,
    {
        match bitmap_select(candidates, i as u32) {
            Some(id) => {
                page.push(id);
            },
            None => {},
        }
        i += 1;
        assert(page@ =~= ids.subrange(from as int, i as int));
    }
    (number_of_documents, page)
}

/// The ids of the documents to delete, read from the values of a request:
/// a string is the id it holds, any other value the id that is its JSON text.
pub open spec fn spec_document_id(value: JsonView) -> Seq<char> {
    match value {
        JsonView::String(id) => id,
        _ => json_value_text(value),
    }
}

/// The ids of the documents to delete, read from the values of a request.
pub fn delete_documents_batch(body: &Vec<Json>) -> (ids: Vec<String>)
    ensures
        ids@.len() == body@.len(),
        forall|i: int| 0 <= i < ids@.len() ==> (#[trigger] ids@[i])@ == spec_document_id(body@[i]@),
{
    let mut ids: Vec<String> = Vec::new();
    let mut i: usize = 0;
    while i < body.len()
        invariant
            i <= body.len(),
            ids@.len() == i,
            forall|k: int| 0 <= k < i ==> (#[trigger] ids@[k])@ == spec_document_id(body@[k]@),
        decreases body.len() - i,
    {
        let id = match &body[i] {
            Json::String(id) => id.clone(),
            value => json_to_string(value),
        };
        ids.push(id);
        i += 1;
    }
    ids
}

/// What the parsing of a filter has given.
#[derive(Debug)]
pub enum ParsedFilter {
    /// The filter is well formed and selects something.
    Filter,
    /// The filter is well formed and empty.
    Empty,
    /// The filter is refused; the text says why.
    Refused(String),
}

/// The message of the refusal of an empty filter.
pub open spec fn spec_empty_filter_message() -> Seq<char> {
    "Sending an empty filter is forbidden."@
}

/// Checks the filter of a deletion before the task is made: whatever the
/// filter is refused for, the code of the error is `InvalidDocumentFilter`.
pub fn delete_documents_by_filter(parsed: ParsedFilter) -> (r: Result<(), ResponseError>)
    ensures
        match parsed {
            ParsedFilter::Filter => r is Ok,
            ParsedFilter::Empty => r is Err && r->Err_0.code == Code::InvalidDocumentFilter
                && r->Err_0.message@ == spec_empty_filter_message(),
            ParsedFilter::Refused(why) => r is Err && r->Err_0.code
                == Code::InvalidDocumentFilter && r->Err_0.message == why,
        },
{
    match parsed {
        ParsedFilter::Filter => Ok(()),
        ParsedFilter::Empty => Err(
            ResponseError::from_msg(
                String::from_str("Sending an empty filter is forbidden."),
                Code::InvalidDocumentFilter,
            ),
        ),
        ParsedFilter::Refused(why) => Err(
            ResponseError::from_msg(why, Code::InvalidDocumentFilter),
        ),
    }
}

/// The internal id of the document to retrieve, or the error that says
/// that no document has the external id.
pub fn retrieve_document(doc_id: &str, internal_id: Option<u32>) -> (r: Result<
    u32,
    MeilisearchHttpError,
>)
    ensures
        match internal_id {
            Some(id) => r == Ok::<u32, MeilisearchHttpError>(id),
            None => r is Err && r->Err_0@ == HttpErrorView::DocumentNotFound(doc_id@),
        },
{
    match internal_id {
        Some(id) => Ok(id),
        None => Err(MeilisearchHttpError::DocumentNotFound(String::from_str(doc_id))),
    }
}

} // verus!
