//! The words of a document held as named top-level fields of JSON text.

use std::collections::HashMap;
use vstd::prelude::*;
use crate::extract::error::{ExtractError, Failure};
use crate::extract::field_words::{leaf_words, tokenize_leaf, word_views, Progress, WordPosition, WordView};
use crate::extract::perm_json_p::{
    leaves_of_value, opt_strs, select_field, spec_select_field, strs, views, walk_value,
};
use crate::fields_ids_map::{
    spec_id_after_insert, spec_names_after_insert, FieldId, FieldsIdsMap,
};
use crate::json::{json_text_value, parse_json, Member, MemberView};
use crate::localized_attributes::{locales_of, spec_locales, LocalizedAttributesRule};

verus! {

/// A top-level field of a document: its name and its value as JSON text.
#[derive(Debug, Clone, PartialEq, Eq)]
pub struct TopLevelField {
    pub name: String,
    pub value: String,
}

/// What a [`TopLevelField`] stands for.
pub struct FieldView {
    pub name: Seq<char>,
    pub value: Seq<char>,
}

impl View for TopLevelField {
    type V = FieldView;

    open spec fn view(&self) -> FieldView {
        FieldView { name: self.name@, value: self.value@ }
    }
}

/// The views of the fields of a document.
pub open spec fn field_views(fields: Seq<TopLevelField>) -> Seq<FieldView> {
    Seq::new(fields.len(), |i: int| fields[i]@)
}

/// How far the extraction has come: the names of the fields, the reading,
/// and what stopped it, if anything did.
pub struct Extraction {
    pub names: Seq<Seq<char>>,
    pub progress: Progress,
    pub failure: Option<Failure>,
}

/// Reads the words of documents.
pub struct DocumentTokenizer<'a> {
    pub tokenizer: &'a charabia::Tokenizer<'a>,
    pub attribute_to_extract: Option<&'a [&'a str]>,
    pub attribute_to_skip: &'a [&'a str],
    pub localized_attributes_rules: &'a [LocalizedAttributesRule],
    pub max_positions_per_attributes: u32,
}

impl<'a> DocumentTokenizer<'a> {
    /// The extraction after one leaf of the top-level field `top`. The leaf's
    /// key is given a field id, which fails where every id is taken; its
    /// words are then read with the languages of the first rule that speaks
    /// of `top`.
    pub open spec fn spec_leaf(&self, top: Seq<char>, leaf: MemberView, before: Extraction)
        -> Extraction {
        match spec_id_after_insert(before.names, leaf.key) {
            None => Extraction {
                names: before.names,
                progress: before.progress,
                failure: Some(Failure::AttributeLimitReached),
            },
            Some(field_id) => Extraction {
                names: spec_names_after_insert(before.names, leaf.key),
                progress: leaf_words(
                    self.tokenizer,
                    spec_locales(self.localized_attributes_rules@, top),
                    self.max_positions_per_attributes,
                    field_id,
                    leaf,
                    before.progress,
                ),
                failure: None,
            },
        }
    }

    /// The extraction after the leaves from index `from` on, up to the first
    /// that fails.
    pub open spec fn spec_leaves(
        &self,
        top: Seq<char>,
        leaves: Seq<MemberView>,
        from: nat,
        before: Extraction,
    ) -> Extraction
        decreases leaves.len() - from,
    {
        if from >= leaves.len() {
            before
        } else {
            let next = self.spec_leaf(top, leaves[from as int], before);
            if next.failure is Some {
                next
            } else {
                self.spec_leaves(top, leaves, from + 1, next)
            }
        }
    }

    /// The extraction after one top-level field. A field that is not
    /// selected is not even parsed. A selected one must be JSON text; its
    /// selected leaves are read in the order of the walk.
    pub open spec fn spec_field(&self, field: FieldView, before: Extraction) -> Extraction {
        let selectors = opt_strs(self.attribute_to_extract);
        let skip = strs(self.attribute_to_skip@);
        if spec_select_field(field.name, selectors, skip) {
            match json_text_value(field.value) {
                None => Extraction {
                    names: before.names,
                    progress: before.progress,
                    failure: Some(Failure::InvalidJson),
                },
                Some(value) => self.spec_leaves(
                    field.name,
                    leaves_of_value(value, selectors, skip, field.name, true),
                    0,
                    before,
                ),
            }
        } else {
            before
        }
    }

    /// The extraction after the fields from index `from` on, up to the first
    /// that fails.
    pub open spec fn spec_fields(&self, fields: Seq<FieldView>, from: nat, before: Extraction)
        -> Extraction
        decreases fields.len() - from,
    {
        if from >= fields.len() {
            before
        } else {
            let next = self.spec_field(fields[from as int], before);
            if next.failure is Some {
                next
            } else {
                self.spec_fields(fields, from + 1, next)
            }
        }
    }

    /// The extraction of a whole document, begun with the field names `names`.
    pub open spec fn spec_tokenize_document(&self, fields: Seq<FieldView>, names: Seq<Seq<char>>)
        -> Extraction {
        self.spec_fields(
            fields,
            0,
            Extraction {
                names,
                progress: Progress { positions: Map::empty(), words: Seq::empty() },
                failure: None,
            },
        )
    }

    /// Reads the leaves from index 0 on into `words`.
    fn tokenize_leaves(
        &self,
        top: &str,
        leaves: &Vec<Member>,
        field_id_map: &mut FieldsIdsMap,
        positions: &mut HashMap<FieldId, u32>,
        words: &mut Vec<WordPosition>,
    ) -> (r: Result<(), ExtractError>)
        ensures
            ({
                let after = self.spec_leaves(
                    top@,
                    views(leaves@),
                    0,
                    Extraction {
                        names: old(field_id_map)@,
                        progress: Progress {
                            positions: old(positions)@,
                            words: word_views(old(words)@),
                        },
                        failure: None,
                    },
                );
                &&& final(field_id_map)@ == after.names
                &&& match r {
                    Ok(()) => {
                        &&& after.failure is None
                        &&& final(positions)@ == after.progress.positions
                        &&& word_views(final(words)@) == after.progress.words
                    },
                    Err(e) => after.failure == Some(e.spec_failure()),
                }
            }),
    {
        let ghost start = Extraction {
            names: field_id_map@,
            progress: Progress { positions: positions@, words: word_views(words@) },
            failure: None,
        };
        let locales = locales_of(self.localized_attributes_rules, top);
        let mut i: usize = 0;
        while i < leaves.len()
            invariant
                i <= leaves.len(),
                start == (Extraction {
                    names: old(field_id_map)@,
                    progress: Progress {
                        positions: old(positions)@,
                        words: word_views(old(words)@),
                    },
                    failure: None,
                }),
                crate::extract::tokens::languages(locales) == spec_locales(
                    self.localized_attributes_rules@,
                    top@,
                ),
                self.spec_leaves(
                    top@,
                    views(leaves@),
                    i as nat,
                    Extraction {
                        names: field_id_map@,
                        progress: Progress { positions: positions@, words: word_views(words@) },
                        failure: None,
                    },
                ) == self.spec_leaves(top@, views(leaves@), 0, start),
            decreases leaves.len() - i,
        {
            assert(views(leaves@)[i as int] == leaves[i as int]@);
            let ghost reached = Extraction {
                names: field_id_map@,
                progress: Progress { positions: positions@, words: word_views(words@) },
                failure: None,
            };
            let ghost next = self.spec_leaf(top@, leaves[i as int]@, reached);
            assert(self.spec_leaves(top@, views(leaves@), i as nat, reached) == if next.failure
                is Some {
                next
            } else {
                self.spec_leaves(top@, views(leaves@), (i + 1) as nat, next)
            });
            let field_id = match field_id_map.id_or_insert(leaves[i].key.as_str()) {
                Some(field_id) => field_id,
                None => {
                    return Err(ExtractError::AttributeLimitReached);
                },
            };
            tokenize_leaf(
                self.tokenizer,
                locales,
                self.max_positions_per_attributes,
                field_id,
                &leaves[i],
                positions,
                words,
            );
            i += 1;
        }
        Ok(())
    }

    /// Reads the words of a document, field by field and leaf by leaf, and
    /// returns them in the order in which they stand. Names that the map
    /// does not know are given the next field ids.
    ///
    /// Fails with `AttributeLimitReached` where a leaf would need a field id
    /// and none is left, and with `SerdeJson` where a selected field is no
    /// JSON text; the map then holds the names given out before.
    pub fn tokenize_document(&self, document: &Vec<TopLevelField>, field_id_map: &mut FieldsIdsMap)
        -> (r: Result<Vec<WordPosition>, ExtractError>)
        ensures
            ({
                let after = self.spec_tokenize_document(
                    field_views(document@),
                    old(field_id_map)@,
                );
                &&& final(field_id_map)@ == after.names
                &&& match r {
                    Ok(words) => after.failure is None && word_views(words@)
                        == after.progress.words,
                    Err(e) => after.failure == Some(e.spec_failure()),
                }
            }),
    {
        let ghost fields = field_views(document@);
        let ghost start = Extraction {
            names: field_id_map@,
            progress: Progress { positions: Map::empty(), words: Seq::empty() },
            failure: None,
        };
        let mut positions: HashMap<FieldId, u32> = HashMap::new();
        let mut words: Vec<WordPosition> = Vec::new();
        assert(word_views(words@) =~= Seq::<WordView>::empty());
        let mut i: usize = 0;
        while i < document.len()
            invariant
                i <= document.len(),
                fields == field_views(document@),
                start == (Extraction {
                    names: old(field_id_map)@,
                    progress: Progress { positions: Map::empty(), words: Seq::empty() },
                    failure: None,
                }),
                self.spec_fields(
                    fields,
                    i as nat,
                    Extraction {
                        names: field_id_map@,
                        progress: Progress { positions: positions@, words: word_views(words@) },
                        failure: None,
                    },
                ) == self.spec_fields(fields, 0, start),
            decreases document.len() - i,
        {
            let field = &document[i];
            assert(fields[i as int] == field@);
            let ghost reached = Extraction {
                names: field_id_map@,
                progress: Progress { positions: positions@, words: word_views(words@) },
                failure: None,
            };
            let ghost next = self.spec_field(field@, reached);
            assert(self.spec_fields(fields, i as nat, reached) == if next.failure is Some {
                next
            } else {
                self.spec_fields(fields, (i + 1) as nat, next)
            });
            // a field is read when it is searchable or holds a searchable attribute
            if select_field(
                field.name.as_str(),
                self.attribute_to_extract,
                self.attribute_to_skip,
            ) {
                let value = match parse_json(field.value.as_str()) {
                    Ok(value) => value,
                    Err(e) => {
                        return Err(ExtractError::SerdeJson(e));
                    },
                };
                let mut leaves: Vec<Member> = Vec::new();
                assert(views(leaves@) =~= Seq::<MemberView>::empty());
                walk_value(
                    &value,
                    self.attribute_to_extract,
                    self.attribute_to_skip,
                    field.name.as_str(),
                    true,
                    &mut leaves,
                );
                assert(views(leaves@) =~= leaves_of_value(
                    value@,
                    opt_strs(self.attribute_to_extract),
                    strs(self.attribute_to_skip@),
                    field.name@,
                    true,
                ));
                match self.tokenize_leaves(
                    field.name.as_str(),
                    &leaves,
                    field_id_map,
                    &mut positions,
                    &mut words,
                ) {
                    Ok(()) => {},
                    Err(e) => {
                        return Err(e);
                    },
                }
            }
            i += 1;
        }
        Ok(words)
    }
}

} // verus!
