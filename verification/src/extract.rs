//! Extraction of what is indexed from a document: the selected leaves, the
//! facets and the positioned words.

pub mod error;
pub mod faceted;
pub mod field_words;
pub mod perm_json_p;
pub mod searchable;
pub mod tokenize_document;
pub mod tokenizer_builder;
pub mod tokens;
