use meili_core::extract::searchable::{DocumentTokenizer, TopLevelField};
use meili_core::extract::tokenizer_builder::tokenizer_builder;
use meili_core::fields_ids_map::FieldsIdsMap;

fn words_of<'a>(tokenizer: &'a charabia::Tokenizer<'a>, text: &str) -> Vec<(u16, String)> {
    let mut map = FieldsIdsMap::new();
    let document = vec![TopLevelField {
        name: "text".to_string(),
        value: serde_json::Value::String(text.to_string()).to_string(),
    }];
    let document_tokenizer = DocumentTokenizer {
        tokenizer,
        attribute_to_extract: None,
        attribute_to_skip: &[],
        localized_attributes_rules: &[],
        max_positions_per_attributes: 1000,
    };
    document_tokenizer
        .tokenize_document(&document, &mut map)
        .unwrap()
        .into_iter()
        .map(|w| (w.position, w.word))
        .collect()
}

#[test]
fn the_default_builder_cuts_at_the_usual_separators() {
    let mut builder = tokenizer_builder(None, None, None);
    let tokenizer = builder.build();
    assert_eq!(
        words_of(&tokenizer, "the quick fox"),
        vec![(0, "the".to_string()), (1, "quick".to_string()), (2, "fox".to_string())]
    );
}

#[test]
fn stop_words_are_left_out() {
    let stop_words = fst::Set::from_iter(["the"]).unwrap();
    let stop_words = stop_words.map_data(|data| std::borrow::Cow::Owned(data)).unwrap();
    let bytes = stop_words.as_fst().as_bytes().to_vec();
    let stop_words = fst::Set::new(&bytes[..]).unwrap();
    let mut builder = tokenizer_builder(Some(&stop_words), None, None);
    let tokenizer = builder.build();
    assert_eq!(
        words_of(&tokenizer, "the quick fox"),
        vec![(1, "quick".to_string()), (2, "fox".to_string())]
    );
}

#[test]
fn the_dictionary_keeps_its_words_whole() {
    let dictionary = ["J. R. R."];
    let mut builder = tokenizer_builder(None, None, Some(&dictionary));
    let tokenizer = builder.build();
    let words = words_of(&tokenizer, "J. R. R. Tolkien");
    assert_eq!(words, vec![(0, "j. r. r.".to_string()), (1, "tolkien".to_string())]);
}

#[test]
fn custom_separators_take_the_place_of_the_usual_ones() {
    let separators = ["|"];
    let mut builder = tokenizer_builder(None, Some(&separators), None);
    let tokenizer = builder.build();
    // the spaces are no separators any more: they are trimmed off the words
    let words = words_of(&tokenizer, "good boy | bad cat");
    assert_eq!(words.len(), 2);
    assert_eq!(words[0].1, "good boy");
    assert_eq!(words[1].1, "bad cat");
}
