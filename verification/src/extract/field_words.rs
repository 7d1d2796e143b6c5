//! The words of one leaf of a document, with their positions in its field.

use std::collections::HashMap;
use vstd::prelude::*;
use vstd::string::*;
use vstd::utf8::encode_utf8;
use crate::extract::tokens::{
    charabia_tokens, languages, positioned_views, process_tokens, saturating_add,
    spec_process_tokens, spec_saturating_add, spec_trim, tokenize_with_allow_list, trim,
    PositionedView, MAX_DISTANCE, MAX_WORD_LENGTH,
};
use crate::fields_ids_map::FieldId;
use crate::json::{Json, JsonView, Member, MemberView};

verus! {

/// A word of a document: the leaf it was read in, the id of that leaf's
/// field, its position in the field and its text.
#[derive(Debug, PartialEq, Eq)]
pub struct WordPosition {
    pub field_name: String,
    pub field_id: FieldId,
    pub position: u16,
    pub word: String,
}

/// What a [`WordPosition`] stands for.
pub struct WordView {
    pub field_name: Seq<char>,
    pub field_id: FieldId,
    pub position: u16,
    pub word: Seq<char>,
}

impl View for WordPosition {
    type V = WordView;

    open spec fn view(&self) -> WordView {
        WordView {
            field_name: self.field_name@,
            field_id: self.field_id,
            position: self.position,
            word: self.word@,
        }
    }
}

/// The views of a list of words.
pub open spec fn word_views(words: Seq<WordPosition>) -> Seq<WordView> {
    Seq::new(words.len(), |i: int| words[i]@)
}

/// The position at which the next leaf of a field begins: 0 for the first
/// leaf of the field, else [`MAX_DISTANCE`] after the position that the
/// field has reached.
pub open spec fn leaf_position(positions: Map<FieldId, u32>, field_id: FieldId) -> u32 {
    if positions.contains_key(field_id) {
        spec_saturating_add(positions[field_id], MAX_DISTANCE)
    } else {
        0
    }
}

/// Whether a trimmed lemma is kept as a word: it is not empty and no longer
/// than [`MAX_WORD_LENGTH`] bytes.
pub open spec fn is_kept(word: Seq<char>) -> bool {
    word.len() > 0 && encode_utf8(word).len() <= MAX_WORD_LENGTH
}

/// The words kept of a text, and the position of the last of them.
pub struct Kept {
    pub last: u32,
    pub words: Seq<WordView>,
}

/// The words kept among the positioned words from index `from` on. The
/// reading ends at the first word whose position is not below `max`; a kept
/// word is given out where its position fits in 16 bits; `last` is the
/// position of the last kept word, or the one given where none is kept.
pub open spec fn kept_words(
    positioned: Seq<PositionedView>,
    from: nat,
    max: u32,
    last: u32,
    field_name: Seq<char>,
    field_id: FieldId,
) -> Kept
    decreases positioned.len() - from,
{
    if from >= positioned.len() || positioned[from as int].position >= max {
        Kept { last, words: Seq::empty() }
    } else {
        let position = positioned[from as int].position;
        let word = spec_trim(positioned[from as int].lemma);
        if is_kept(word) {
            let rest = kept_words(positioned, from + 1, max, position, field_name, field_id);
            Kept {
                last: rest.last,
                words: (if position <= u16::MAX {
                    seq![WordView { field_name, field_id, position: position as u16, word }]
                } else {
                    Seq::empty()
                }) + rest.words,
            }
        } else {
            kept_words(positioned, from + 1, max, last, field_name, field_id)
        }
    }
}

/// What the reading of a document has reached: the position of each field
/// and the words found.
pub struct Progress {
    pub positions: Map<FieldId, u32>,
    pub words: Seq<WordView>,
}

/// The reading after one leaf of the field `field_id`.
///
/// The leaf begins at [`leaf_position`]. Where that is not below `max`,
/// nothing is read. A number is one word, its decimal text, at that
/// position. A string is cut into tokens, its words are positioned from
/// there on and kept as [`kept_words`] says, and the field's position then
/// is that of the last word kept. Any other value gives no word.
pub open spec fn leaf_words(
    tokenizer: &charabia::Tokenizer,
    locales: Option<Seq<charabia::Language>>,
    max: u32,
    field_id: FieldId,
    leaf: MemberView,
    before: Progress,
) -> Progress {
    let position = leaf_position(before.positions, field_id);
    let positions = before.positions.insert(field_id, position);
    if position >= max {
        Progress { positions, words: before.words }
    } else {
        match leaf.value {
            JsonView::Number(number) => Progress {
                positions,
                words: if position <= u16::MAX {
                    before.words.push(
                        WordView {
                            field_name: leaf.key,
                            field_id,
                            position: position as u16,
                            word: number,
                        },
                    )
                } else {
                    before.words
                },
            },
            JsonView::String(text) => {
                let kept = kept_words(
                    spec_process_tokens(position, charabia_tokens(tokenizer, text, locales)),
                    0,
                    max,
                    position,
                    leaf.key,
                    field_id,
                );
                Progress {
                    positions: before.positions.insert(field_id, kept.last),
                    words: before.words + kept.words,
                }
            },
            _ => Progress { positions, words: before.words },
        }
    }
}

proof fn lemma_word_views_push(words: Seq<WordPosition>, word: WordPosition)
    ensures
        word_views(words.push(word)) == word_views(words).push(word@),
{
    assert(word_views(words.push(word)) =~= word_views(words).push(word@));
}

/// Reads one leaf of the field `field_id`: moves the field's position and
/// adds the words of the leaf to `words`.
pub fn tokenize_leaf(
    tokenizer: &charabia::Tokenizer,
    locales: Option<&[charabia::Language]>,
    max: u32,
    field_id: FieldId,
    leaf: &Member,
    positions: &mut HashMap<FieldId, u32>,
    words: &mut Vec<WordPosition>,
)
    ensures
        ({
            let after = leaf_words(
                tokenizer,
                languages(locales),
                max,
                field_id,
                leaf@,
                Progress { positions: old(positions)@, words: word_views(old(words)@) },
            );
            &&& final(positions)@ == after.positions
            &&& word_views(final(words)@) == after.words
        }),
{
    let ghost before = Progress { positions: positions@, words: word_views(words@) };
    let position: u32 = match positions.get(&field_id) {
        Some(reached) => saturating_add(*reached, MAX_DISTANCE),
        None => 0,
    };
    assert(position == leaf_position(before.positions, field_id));
    positions.insert(field_id, position);
    if position >= max {
        return ;
    }
    match &leaf.value {
        Json::Number(number) => {
            if position <= u16::MAX as u32 {
                let word = WordPosition {
                    field_name: leaf.key.clone(),
                    field_id,
                    position: position as u16,
                    word: number.clone(),
                };
                proof {
                    lemma_word_views_push(words@, word);
                }
                words.push(word);
            }
        },
        Json::String(text) => {
            let tokens = tokenize_with_allow_list(tokenizer, text.as_str(), locales);
            let positioned = process_tokens(position, &tokens);
            let ghost all = positioned_views(positioned@);
            let mut last: u32 = position;
            let mut i: usize = 0;
            proof {
                assert(word_views(words@) + kept_words(
                    all,
                    0,
                    max,
                    position,
                    leaf.key@,
                    field_id,
                ).words == before.words + kept_words(
                    all,
                    0,
                    max,
                    position,
                    leaf.key@,
                    field_id,
                ).words);
            }
            while i < positioned.len() && positioned[i].position < max
                invariant
                    i <= positioned.len(),
                    all == positioned_views(positioned@),
                    kept_words(all, i as nat, max, last, leaf.key@, field_id).last == kept_words(
                        all,
                        0,
                        max,
                        position,
                        leaf.key@,
                        field_id,
                    ).last,
                    word_views(words@) + kept_words(
                        all,
                        i as nat,
                        max,
                        last,
                        leaf.key@,
                        field_id,
                    ).words == before.words + kept_words(
                        all,
                        0,
                        max,
                        position,
                        leaf.key@,
                        field_id,
                    ).words,
                decreases positioned.len() - i,
            {
                let index = positioned[i].position;
                // keep a word only if it is not empty and fits in a key of the store
                let lemma = trim(positioned[i].lemma.as_str());
                let ghost found = word_views(words@);
                assert(all[i as int] == positioned[i as int]@);
                if !lemma.is_empty() && lemma.as_bytes().len() <= MAX_WORD_LENGTH {
                    let ghost rest = kept_words(
                        all,
                        (i + 1) as nat,
                        max,
                        index,
                        leaf.key@,
                        field_id,
                    ).words;
                    last = index;
                    if index <= u16::MAX as u32 {
                        let word = WordPosition {
                            field_name: leaf.key.clone(),
                            field_id,
                            position: index as u16,
                            word: String::from_str(lemma),
                        };
                        proof {
                            lemma_word_views_push(words@, word);
                            assert(found.push(word@) + rest =~= found + (seq![word@] + rest));
                        }
                        words.push(word);
                    } else {
                        proof {
                            assert(found + (Seq::<WordView>::empty() + rest) =~= found + rest);
                        }
                    }
                }
                i += 1;
            }
            proof {
                assert(word_views(words@) + Seq::<WordView>::empty() =~= word_views(words@));
            }
            positions.insert(field_id, last);
            proof {
                assert(before.positions.insert(field_id, position).insert(field_id, last)
                    =~= before.positions.insert(field_id, last));
            }
        },
        _ => {},
    }
}

} // verus!
