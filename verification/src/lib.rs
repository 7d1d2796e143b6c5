//! The verified core of a document search engine: error codes, tasks and
//! their store, the document codec, field selection, tokenization and the
//! extraction cache.

pub mod text;
pub mod error;
pub mod json;
pub mod extract;
pub mod fields_ids_map;
pub mod localized_attributes;
pub mod documents;
pub mod compat;
pub mod tasks;
pub mod snapshot;
pub mod codec;
pub mod prompt;
pub mod bitmap;
pub mod del_add;
pub mod cache;
pub mod merge;
