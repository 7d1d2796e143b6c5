//! The words of a document held as a key-value block of field ids and JSON bytes.

pub mod perm_json_p;

use std::collections::HashMap;
use vstd::prelude::*;
use crate::codec::{
    kv_entry_views, kv_reader_bytes, kv_reader_entries, obkv_entries, KvEntryView,
};
use crate::extract::error::{ExtractError, Failure};
use crate::extract::field_words::{leaf_words, tokenize_leaf, word_views, Progress, WordPosition, WordView};
use crate::extract::perm_json_p::{
    contained_in, leaves_of_value, opt_strs, spec_contained_in, strs, views, walk_value,
};
use crate::fields_ids_map::{spec_id, FieldId, FieldsIdsMap};
use crate::json::{json_bytes_value, parse_json_slice, Member, MemberView};
use crate::localized_attributes::{locales_of, spec_locales, LocalizedAttributesRule};

verus! {

/// How far the reading of a document has come, and what stopped it, if
/// anything did.
pub struct Reading {
    pub progress: Progress,
    pub failure: Option<Failure>,
}

/// Reads the words of stored documents.
pub struct DocumentTokenizer<'a> {
    pub tokenizer: &'a charabia::Tokenizer<'a>,
    pub searchable_attributes: Option<&'a [&'a str]>,
    pub localized_attributes_rules: &'a [LocalizedAttributesRule],
    pub max_positions_per_attributes: u32,
}

/// Whether a stored field is read: there is no list of searchable
/// attributes, or one of them is the field or lies below it.
pub open spec fn spec_is_searchable(name: Seq<char>, searchable: Option<Seq<Seq<char>>>) -> bool {
    match searchable {
        None => true,
        Some(list) => spec_any_contained(list, name),
    }
}

/// Whether one of the selectors is the field or lies below it.
pub open spec fn spec_any_contained(selectors: Seq<Seq<char>>, name: Seq<char>) -> bool {
    exists|i: int| 0 <= i < selectors.len() && spec_contained_in(#[trigger] selectors[i], name)
}

impl<'a> DocumentTokenizer<'a> {
    /// The reading after one leaf of the field `top`. The key of the leaf
    /// must be a field that the map names.
    pub open spec fn spec_leaf(
        &self,
        names: Seq<Seq<char>>,
        top: Seq<char>,
        leaf: MemberView,
        before: Progress,
    ) -> Reading {
        match spec_id(names, leaf.key) {
            None => Reading { progress: before, failure: Some(Failure::UnknownField) },
            Some(field_id) => Reading {
                progress: leaf_words(
                    self.tokenizer,
                    spec_locales(self.localized_attributes_rules@, top),
                    self.max_positions_per_attributes,
                    field_id,
                    leaf,
                    before,
                ),
                failure: None,
            },
        }
    }

    /// The reading after the leaves from index `from` on, up to the first
    /// that fails.
    pub open spec fn spec_leaves(
        &self,
        names: Seq<Seq<char>>,
        top: Seq<char>,
        leaves: Seq<MemberView>,
        from: nat,
        before: Progress,
    ) -> Reading
        decreases leaves.len() - from,
    {
        if from >= leaves.len() {
            Reading { progress: before, failure: None }
        } else {
            let next = self.spec_leaf(names, top, leaves[from as int], before);
            if next.failure is Some {
                next
            } else {
                self.spec_leaves(names, top, leaves, from + 1, next.progress)
            }
        }
    }

    /// The reading after one entry of the block. Its id must be that of a
    /// field that the map names. A field that is not searchable is not even
    /// parsed; a searchable one must hold JSON bytes, and its leaves that
    /// the searchable attributes relate to are read in the order of the walk.
    pub open spec fn spec_entry(&self, names: Seq<Seq<char>>, entry: KvEntryView, before: Progress)
        -> Reading {
        if entry.key >= names.len() {
            Reading { progress: before, failure: Some(Failure::UnknownField) }
        } else {
            let name = names[entry.key as int];
            let searchable = opt_strs(self.searchable_attributes);
            if spec_is_searchable(name, searchable) {
                match json_bytes_value(entry.value) {
                    None => Reading { progress: before, failure: Some(Failure::InvalidJson) },
                    Some(value) => self.spec_leaves(
                        names,
                        name,
                        leaves_of_value(value, searchable, Seq::empty(), name, false),
                        0,
                        before,
                    ),
                }
            } else {
                Reading { progress: before, failure: None }
            }
        }
    }

    /// The reading after the entries from index `from` on, up to the first
    /// that fails.
    pub open spec fn spec_entries(
        &self,
        names: Seq<Seq<char>>,
        entries: Seq<KvEntryView>,
        from: nat,
        before: Progress,
    ) -> Reading
        decreases entries.len() - from,
    {
        if from >= entries.len() {
            Reading { progress: before, failure: None }
        } else {
            let next = self.spec_entry(names, entries[from as int], before);
            if next.failure is Some {
                next
            } else {
                self.spec_entries(names, entries, from + 1, next.progress)
            }
        }
    }

    /// The reading of a whole document.
    pub open spec fn spec_tokenize_document(&self, bytes: Seq<u8>, names: Seq<Seq<char>>)
        -> Reading {
        self.spec_entries(
            names,
            obkv_entries(bytes),
            0,
            Progress { positions: Map::empty(), words: Seq::empty() },
        )
    }

    fn is_searchable(&self, name: &str) -> (r: bool)
        ensures
            r == spec_is_searchable(name@, opt_strs(self.searchable_attributes)),
    {
        match self.searchable_attributes {
            None => true,
            Some(list) => {
                let mut i: usize = 0;
                while i < list.len()
                    invariant
                        i <= list.len(),
                        self.searchable_attributes == Some(list),
                        forall|k: int|
                            0 <= k < i ==> !spec_contained_in(#[trigger] strs(list@)[k], name@),
                    decreases list.len() - i,
                {
                    if contained_in(list[i], name) {
                        assert(spec_contained_in(strs(list@)[i as int], name@));
                        return true;
                    }
                    i += 1;
                }
                false
            },
        }
    }

    fn tokenize_leaves(
        &self,
        top: &str,
        leaves: &Vec<Member>,
        field_id_map: &FieldsIdsMap,
        positions: &mut HashMap<FieldId, u32>,
        words: &mut Vec<WordPosition>,
    ) -> (r: Result<(), ExtractError>)
        ensures
            ({
                let after = self.spec_leaves(
                    field_id_map@,
                    top@,
                    views(leaves@),
                    0,
                    Progress { positions: old(positions)@, words: word_views(old(words)@) },
                );
                match r {
                    Ok(()) => {
                        &&& after.failure is None
                        &&& final(positions)@ == after.progress.positions
                        &&& word_views(final(words)@) == after.progress.words
                    },
                    Err(e) => after.failure == Some(e.spec_failure()),
                }
            }),
    {
        let ghost start = Progress { positions: positions@, words: word_views(words@) };
        let locales = locales_of(self.localized_attributes_rules, top);
        let mut i: usize = 0;
        while i < leaves.len()
            invariant
                i <= leaves.len(),
                start == (Progress { positions: old(positions)@, words: word_views(old(words)@) }),
                crate::extract::tokens::languages(locales) == spec_locales(
                    self.localized_attributes_rules@,
                    top@,
                ),
                self.spec_leaves(
                    field_id_map@,
                    top@,
                    views(leaves@),
                    i as nat,
                    Progress { positions: positions@, words: word_views(words@) },
                ) == self.spec_leaves(field_id_map@, top@, views(leaves@), 0, start),
            decreases leaves.len() - i,
        {
            assert(views(leaves@)[i as int] == leaves[i as int]@);
            let ghost reached = Progress { positions: positions@, words: word_views(words@) };
            let ghost next = self.spec_leaf(field_id_map@, top@, leaves[i as int]@, reached);
            assert(self.spec_leaves(field_id_map@, top@, views(leaves@), i as nat, reached)
                == if next.failure is Some {
                next
            } else {
                self.spec_leaves(
                    field_id_map@,
                    top@,
                    views(leaves@),
                    (i + 1) as nat,
                    next.progress,
                )
            });
            let field_id = match field_id_map.id(leaves[i].key.as_str()) {
                Some(field_id) => field_id,
                None => {
                    return Err(ExtractError::UnknownField);
                },
            };
            tokenize_leaf(
                self.tokenizer,
                locales,
                self.max_positions_per_attributes,
                field_id,
                &leaves[i],
                positions,
                words,
            );
            i += 1;
        }
        Ok(())
    }

    /// Reads the words of a stored document, entry by entry and leaf by
    /// leaf, and returns them in the order in which they stand.
    ///
    /// Fails with `UnknownField` where the block holds a field id, or a
    /// leaf a key, that the map does not name, and with `SerdeJson` where a
    /// searchable field holds no JSON bytes.
    pub fn tokenize_document(&self, obkv: &obkv::KvReaderU16, field_id_map: &FieldsIdsMap) -> (r:
        Result<Vec<WordPosition>, ExtractError>)
        ensures
            ({
                let after = self.spec_tokenize_document(kv_reader_bytes(*obkv), field_id_map@);
                match r {
                    Ok(words) => after.failure is None && word_views(words@)
                        == after.progress.words,
                    Err(e) => after.failure == Some(e.spec_failure()),
                }
            }),
    {
        let entries = kv_reader_entries(obkv);
        let ghost all = kv_entry_views(entries@);
        let ghost start = Progress { positions: Map::empty(), words: Seq::empty() };
        let mut positions: HashMap<FieldId, u32> = HashMap::new();
        let mut words: Vec<WordPosition> = Vec::new();
        assert(word_views(words@) =~= Seq::<WordView>::empty());
        let mut i: usize = 0;
        while i < entries.len()
            invariant
                i <= entries.len(),
                all == kv_entry_views(entries@),
                all == obkv_entries(kv_reader_bytes(*obkv)),
                start == (Progress { positions: Map::empty(), words: Seq::empty() }),
                self.spec_entries(
                    field_id_map@,
                    all,
                    i as nat,
                    Progress { positions: positions@, words: word_views(words@) },
                ) == self.spec_entries(field_id_map@, all, 0, start),
            decreases entries.len() - i,
        {
            let entry = &entries[i];
            assert(all[i as int] == entry@);
            let ghost reached = Progress { positions: positions@, words: word_views(words@) };
            let ghost next = self.spec_entry(field_id_map@, entry@, reached);
            assert(self.spec_entries(field_id_map@, all, i as nat, reached) == if next.failure
                is Some {
                next
            } else {
                self.spec_entries(field_id_map@, all, (i + 1) as nat, next.progress)
            });
            let field_name = match field_id_map.name(entry.key) {
                Some(name) => name,
                None => {
                    return Err(ExtractError::UnknownField);
                },
            };
            // a field is read when it is searchable or holds a searchable attribute
            if self.is_searchable(field_name) {
                let value = match parse_json_slice(entry.value) {
                    Ok(value) => value,
                    Err(e) => {
                        return Err(ExtractError::SerdeJson(e));
                    },
                };
                let none: Vec<&str> = Vec::new();
                assert(strs(none@) =~= Seq::<Seq<char>>::empty());
                let mut leaves: Vec<Member> = Vec::new();
                assert(views(leaves@) =~= Seq::<MemberView>::empty());
                walk_value(
                    &value,
                    self.searchable_attributes,
                    none.as_slice(),
                    field_name,
                    false,
                    &mut leaves,
                );
                assert(views(leaves@) =~= leaves_of_value(
                    value@,
                    opt_strs(self.searchable_attributes),
                    Seq::empty(),
                    field_name@,
                    false,
                ));
                match self.tokenize_leaves(
                    field_name,
                    &leaves,
                    field_id_map,
                    &mut positions,
                    &mut words,
                ) {
                    Ok(()) => {},
                    Err(e) => {
                        return Err(e);
                    },
                }
            }
            i += 1;
        }
        Ok(words)
    }
}

} // verus!
