//! The settings of the tokenizer of an index.

use vstd::prelude::*;
use crate::extract::perm_json_p::{opt_strs, strs};

verus! {

#[verifier::external_type_specification]
#[verifier::external_body]
#[verifier::reject_recursive_types(A)]
pub struct ExTokenizerBuilder<'tb, A>(charabia::TokenizerBuilder<'tb, A>);

#[verifier::external_type_specification]
#[verifier::external_body]
#[verifier::reject_recursive_types(D)]
pub struct ExFstSet<D>(fst::Set<D>);

/// What a builder of tokenizers was told.
pub struct BuilderSettings {
    /// The bytes of the set of the stop words.
    pub stop_words: Option<Seq<u8>>,
    /// The words that are never cut.
    pub words_dict: Option<Seq<Seq<char>>>,
    /// The separators that take the place of the usual ones.
    pub separators: Option<Seq<Seq<char>>>,
}

/// The bytes that a set of words is held in.
pub uninterp spec fn fst_set_bytes(set: &fst::Set<&[u8]>) -> Seq<u8>;

/// What a builder was told so far.
pub uninterp spec fn builder_settings(builder: charabia::TokenizerBuilder<&[u8]>)
    -> BuilderSettings;

/// Calls `TokenizerBuilder::new`, which makes a builder with the default
/// settings: no stop words, no dictionary, the usual separators.
#[verifier::external_body]
pub(crate) fn builder_new<'a>() -> (builder: charabia::TokenizerBuilder<'a, &'a [u8]>)
    ensures
        builder_settings(builder) == (BuilderSettings {
            stop_words: None,
            words_dict: None,
            separators: None,
        }),
{
    charabia::TokenizerBuilder::new()
}

/// Calls `TokenizerBuilder::stop_words`, which sets the words that are
/// classified as stop words.
#[verifier::external_body]
pub(crate) fn builder_stop_words<'a>(
    builder: &mut charabia::TokenizerBuilder<'a, &'a [u8]>,
    stop_words: &'a fst::Set<&'a [u8]>,
)
    ensures
        builder_settings(*final(builder)) == (BuilderSettings {
            stop_words: Some(fst_set_bytes(stop_words)),
            ..builder_settings(*old(builder))
        }),
{
    builder.stop_words(stop_words);
}

/// Calls `TokenizerBuilder::words_dict`, which sets the words that are
/// segmented before any other segmentation.
#[verifier::external_body]
pub(crate) fn builder_words_dict<'a>(
    builder: &mut charabia::TokenizerBuilder<'a, &'a [u8]>,
    words: &'a [&'a str],
)
    ensures
        builder_settings(*final(builder)) == (BuilderSettings {
            words_dict: Some(strs(words@)),
            ..builder_settings(*old(builder))
        }),
{
    builder.words_dict(words);
}

/// Calls `TokenizerBuilder::separators`, which sets the words that
/// separate words.
#[verifier::external_body]
pub(crate) fn builder_separators<'a>(
    builder: &mut charabia::TokenizerBuilder<'a, &'a [u8]>,
    separators: &'a [&'a str],
)
    ensures
        builder_settings(*final(builder)) == (BuilderSettings {
            separators: Some(strs(separators@)),
            ..builder_settings(*old(builder))
        }),
{
    builder.separators(separators);
}

/// The bytes of an optional set of stop words.
pub open spec fn opt_set_bytes(stop_words: Option<&fst::Set<&[u8]>>) -> Option<Seq<u8>> {
    match stop_words {
        Some(set) => Some(fst_set_bytes(set)),
        None => None,
    }
}

/// A builder of tokenizers that was told the stop words, the separators and
/// the dictionary of an index, as far as the index has them.
pub fn tokenizer_builder<'a>(
    stop_words: Option<&'a fst::Set<&'a [u8]>>,
    allowed_separators: Option<&'a [&'a str]>,
    dictionary: Option<&'a [&'a str]>,
) -> (builder: charabia::TokenizerBuilder<'a, &'a [u8]>)
    ensures
        builder_settings(builder) == (BuilderSettings {
            stop_words: opt_set_bytes(stop_words),
            words_dict: opt_strs(dictionary),
            separators: opt_strs(allowed_separators),
        }),
{
    let mut tokenizer_builder = builder_new();
    if let Some(stop_words) = stop_words {
        builder_stop_words(&mut tokenizer_builder, stop_words);
    }
    if let Some(dictionary) = dictionary {
        builder_words_dict(&mut tokenizer_builder, dictionary);
    }
    if let Some(separators) = allowed_separators {
        builder_separators(&mut tokenizer_builder, separators);
    }
    tokenizer_builder
}

} // verus!
