use std::collections::BTreeMap;

use charabia::TokenizerBuilder;
use meili_core::extract::error::Failure;
use meili_core::extract::searchable;
use meili_core::extract::searchable::TopLevelField;
use meili_core::extract::tokenize_document;
use meili_core::fields_ids_map::FieldsIdsMap;

fn field(name: &str, value: &str) -> TopLevelField {
    TopLevelField { name: name.to_string(), value: value.to_string() }
}

#[test]
fn test_tokenize_document() {
    let mut fields_ids_map = FieldsIdsMap::new();

    let field_1 = r#"{"name":"doggo","age":10}"#;
    let field_2 = r#"{"catto":{"name":"pesti","age":23}}"#;
    let field_3 = r#"["doggo","catto"]"#;

    let mut obkv = obkv::KvWriterU16::memory();
    let field_1_id = fields_ids_map.insert("doggo").unwrap();
    obkv.insert(field_1_id, field_1.as_bytes()).unwrap();
    let field_2_id = fields_ids_map.insert("catto").unwrap();
    obkv.insert(field_2_id, field_2.as_bytes()).unwrap();
    let field_3_id = fields_ids_map.insert("doggo.name").unwrap();
    obkv.insert(field_3_id, field_3.as_bytes()).unwrap();
    let value = obkv.into_inner().unwrap();
    let obkv = obkv::KvReaderU16::new(value.as_slice());

    fields_ids_map.insert("doggo.age");
    fields_ids_map.insert("catto.catto.name");
    fields_ids_map.insert("catto.catto.age");

    let mut tb = TokenizerBuilder::default();
    let document_tokenizer = tokenize_document::DocumentTokenizer {
        tokenizer: &tb.build(),
        searchable_attributes: None,
        localized_attributes_rules: &[],
        max_positions_per_attributes: 1000,
    };

    let mut words = BTreeMap::new();
    for word in document_tokenizer.tokenize_document(&obkv, &fields_ids_map).unwrap() {
        words.insert([word.field_id, word.position], word.word);
    }

    let expected = r#"{
    [
        2,
        0,
    ]: "doggo",
    [
        2,
        8,
    ]: "doggo",
    [
        2,
        16,
    ]: "catto",
    [
        3,
        0,
    ]: "10",
    [
        4,
        0,
    ]: "pesti",
    [
        5,
        0,
    ]: "23",
}"#;
    assert_eq!(format!("{:#?}", words), expected);
}

#[test]
fn tokenize_document_test_tokenize_document() {
    let mut fields_ids_map = FieldsIdsMap::new();

    // the top-level fields of the document, in the order of their names
    let document = vec![
        field("catto", r#"{"catto":{"name":"pesti","age":23}}"#),
        field("doggo", r#"{"name":"doggo","age":10}"#),
        field("doggo.name", r#"["doggo","catto"]"#),
        field("me-nether", r#"{"nope":"unsearchable"}"#),
        field("not-me", r#""UNSEARCHABLE""#),
    ];

    let _field_1_id = fields_ids_map.insert("doggo").unwrap();
    let _field_2_id = fields_ids_map.insert("catto").unwrap();
    let _field_3_id = fields_ids_map.insert("doggo.name").unwrap();
    let _field_4_id = fields_ids_map.insert("not-me").unwrap();
    let _field_5_id = fields_ids_map.insert("me-nether").unwrap();

    let mut tb = TokenizerBuilder::default();
    let document_tokenizer = searchable::DocumentTokenizer {
        tokenizer: &tb.build(),
        attribute_to_extract: None,
        attribute_to_skip: &["not-me", "me-nether.nope"],
        localized_attributes_rules: &[],
        max_positions_per_attributes: 1000,
    };

    let mut words = BTreeMap::new();
    for word in document_tokenizer.tokenize_document(&document, &mut fields_ids_map).unwrap() {
        words.insert([word.field_id, word.position], word.word);
    }

    // the leaves that the map did not name are given the next ids, in the
    // order in which they are met
    assert_eq!(fields_ids_map.id("catto.catto.name"), Some(5));
    assert_eq!(fields_ids_map.id("catto.catto.age"), Some(6));
    assert_eq!(fields_ids_map.id("doggo.age"), Some(7));
    assert_eq!(fields_ids_map.id("me-nether.nope"), None);

    let expected = r#"{
    [
        2,
        0,
    ]: "doggo",
    [
        2,
        8,
    ]: "doggo",
    [
        2,
        16,
    ]: "catto",
    [
        5,
        0,
    ]: "pesti",
    [
        6,
        0,
    ]: "23",
    [
        7,
        0,
    ]: "10",
}"#;
    assert_eq!(format!("{:#?}", words), expected);
}

#[test]
fn words_keep_their_leaf_names() {
    let mut fields_ids_map = FieldsIdsMap::new();
    let document = vec![field("title", r#""Hello World. Again""#)];
    let mut tb = TokenizerBuilder::default();
    let document_tokenizer = searchable::DocumentTokenizer {
        tokenizer: &tb.build(),
        attribute_to_extract: None,
        attribute_to_skip: &[],
        localized_attributes_rules: &[],
        max_positions_per_attributes: 1000,
    };
    let words = document_tokenizer.tokenize_document(&document, &mut fields_ids_map).unwrap();
    let found: Vec<(String, u16, u16, String)> = words
        .into_iter()
        .map(|w| (w.field_name, w.field_id, w.position, w.word))
        .collect();
    assert_eq!(
        found,
        vec![
            ("title".to_string(), 0, 0, "hello".to_string()),
            ("title".to_string(), 0, 1, "world".to_string()),
            ("title".to_string(), 0, 9, "again".to_string()),
        ]
    );
}

#[test]
fn positions_stop_at_the_cap() {
    let mut fields_ids_map = FieldsIdsMap::new();
    let document = vec![field("title", r#""one two three four""#)];
    let mut tb = TokenizerBuilder::default();
    let document_tokenizer = searchable::DocumentTokenizer {
        tokenizer: &tb.build(),
        attribute_to_extract: None,
        attribute_to_skip: &[],
        localized_attributes_rules: &[],
        max_positions_per_attributes: 2,
    };
    let words = document_tokenizer.tokenize_document(&document, &mut fields_ids_map).unwrap();
    let found: Vec<(u16, String)> = words.into_iter().map(|w| (w.position, w.word)).collect();
    assert_eq!(found, vec![(0, "one".to_string()), (1, "two".to_string())]);
}

#[test]
fn a_selected_field_must_be_json() {
    let mut fields_ids_map = FieldsIdsMap::new();
    let mut tb = TokenizerBuilder::default();
    let document_tokenizer = searchable::DocumentTokenizer {
        tokenizer: &tb.build(),
        attribute_to_extract: Some(&["title"]),
        attribute_to_skip: &[],
        localized_attributes_rules: &[],
        max_positions_per_attributes: 1000,
    };
    // a field that is not selected is not even parsed
    let document = vec![field("other", "{not json"), field("title", r#""fine""#)];
    let words = document_tokenizer.tokenize_document(&document, &mut fields_ids_map).unwrap();
    assert_eq!(words.len(), 1);
    assert_eq!(words[0].word, "fine");

    let document = vec![field("title", "{not json")];
    let error = document_tokenizer.tokenize_document(&document, &mut fields_ids_map).unwrap_err();
    assert_eq!(error.failure(), Failure::InvalidJson);
}

#[test]
fn a_stored_field_must_be_known() {
    let fields_ids_map = FieldsIdsMap::new();
    let mut obkv = obkv::KvWriterU16::memory();
    obkv.insert(0, br#""doggo""#).unwrap();
    let value = obkv.into_inner().unwrap();
    let obkv = obkv::KvReaderU16::new(value.as_slice());
    let mut tb = TokenizerBuilder::default();
    let document_tokenizer = tokenize_document::DocumentTokenizer {
        tokenizer: &tb.build(),
        searchable_attributes: None,
        localized_attributes_rules: &[],
        max_positions_per_attributes: 1000,
    };
    let error = document_tokenizer.tokenize_document(&obkv, &fields_ids_map).unwrap_err();
    assert_eq!(error.failure(), Failure::UnknownField);
}
