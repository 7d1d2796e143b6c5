use meili_core::fields_ids_map::{FieldsIdsMap, MAX_FIELDS};
use meili_core::json::{Json, Member};
use meili_core::localized_attributes::{locales_of, match_pattern, LocalizedAttributesRule};
use meili_core::prompt::context::{Context, ContextValue, Document, Fields, State};
use meili_core::text::{chars_of, decimal, matches_at, starts_with, str_eq};

#[test]
fn fields_are_numbered_in_the_order_of_their_insertion() {
    let mut map = FieldsIdsMap::new();
    assert!(map.is_empty());
    assert_eq!(map.insert("id"), Some(0));
    assert_eq!(map.insert("title"), Some(1));
    assert_eq!(map.insert("id"), Some(0));
    assert_eq!(map.id_or_insert("genre"), Some(2));
    assert_eq!(map.len(), 3);
    assert_eq!(map.id("title"), Some(1));
    assert_eq!(map.id("nope"), None);
    assert_eq!(map.name(2), Some("genre"));
    assert_eq!(map.name(3), None);
}

#[test]
fn every_field_id_is_given_once() {
    let mut map = FieldsIdsMap::new();
    for i in 0..MAX_FIELDS {
        assert_eq!(map.insert(&format!("field{}", i)), Some(i as u16));
    }
    assert_eq!(map.len(), 65536);
    assert_eq!(map.insert("one too many"), None);
    assert_eq!(map.len(), 65536);
    assert_eq!(map.insert("field65535"), Some(65535));
    assert_eq!(map.id("one too many"), None);
}

#[test]
fn too_many_fields_stop_the_extraction() {
    let mut map = FieldsIdsMap::new();
    for i in 0..MAX_FIELDS {
        map.insert(&format!("field{}", i));
    }
    let document = vec![meili_core::extract::searchable::TopLevelField {
        name: "new".to_string(),
        value: "1".to_string(),
    }];
    let error =
        meili_core::extract::faceted::extract_document_facets(&["new"], &document, &mut map)
            .unwrap_err();
    assert_eq!(error.failure(), meili_core::extract::error::Failure::AttributeLimitReached);
    assert_eq!(
        meili_core::error::ErrorCode::error_code(&error),
        meili_core::error::Code::MaxFieldsLimitExceeded
    );
}

#[test]
fn numbers_in_decimal() {
    assert_eq!(decimal(0), "0");
    assert_eq!(decimal(7), "7");
    assert_eq!(decimal(10), "10");
    assert_eq!(decimal(1234567890), "1234567890");
    assert_eq!(decimal(u64::MAX), "18446744073709551615");
}

#[test]
fn strings_by_their_characters() {
    assert_eq!(chars_of("aé€"), vec!['a', 'é', '€']);
    assert!(str_eq("aé€", "aé€"));
    assert!(!str_eq("aé€", "aé"));
    assert!(!str_eq("a", "b"));
    assert!(str_eq("", ""));
    assert!(starts_with(&['a', 'b'], &['a']));
    assert!(starts_with(&['a', 'b'], &[]));
    assert!(!starts_with(&['a'], &['a', 'b']));
    assert!(matches_at(&['a', 'b', 'c'], &['b', 'c'], 1));
    assert!(!matches_at(&['a', 'b', 'c'], &['b', 'c'], 2));
    assert!(matches_at(&['a'], &[], 1));
}

#[test]
fn patterns_match_names() {
    assert!(match_pattern("*", "anything"));
    assert!(match_pattern("*", ""));
    assert!(match_pattern("title", "title"));
    assert!(!match_pattern("title", "titles"));
    assert!(match_pattern("title*", "title_fr"));
    assert!(match_pattern("title*", "title"));
    assert!(!match_pattern("title*", "a_title"));
    assert!(match_pattern("*_fr", "title_fr"));
    assert!(!match_pattern("*_fr", "title_fr2"));
    assert!(!match_pattern("*_fr", "fr"));
    assert!(match_pattern("*_fr*", "title_fr2"));
    assert!(match_pattern("**", "x"));
    assert!(!match_pattern("*_fr*", "title"));
    assert!(!match_pattern("", "x"));
    assert!(match_pattern("", ""));
}

#[test]
fn the_first_rule_that_matches_gives_the_languages() {
    let rules = vec![
        LocalizedAttributesRule::new(
            vec!["*_ja".to_string()],
            vec![charabia::Language::Jpn],
        ),
        LocalizedAttributesRule::new(
            vec!["title*".to_string(), "overview".to_string()],
            vec![charabia::Language::Eng, charabia::Language::Fra],
        ),
    ];
    assert!(rules[0].match_str("title_ja"));
    assert!(!rules[0].match_str("title"));
    assert_eq!(locales_of(&rules, "title_ja"), Some(&[charabia::Language::Jpn][..]));
    assert_eq!(
        locales_of(&rules, "title"),
        Some(&[charabia::Language::Eng, charabia::Language::Fra][..])
    );
    assert_eq!(locales_of(&rules, "overview").map(|l| l.len()), Some(2));
    assert_eq!(locales_of(&rules, "genre"), None);
    assert_eq!(rules[1].locales().len(), 2);
}

#[test]
fn a_context_has_a_document_and_its_fields() {
    let mut map = FieldsIdsMap::new();
    map.insert("id");
    map.insert("title");
    let document = Document {
        fields: vec![Member { key: "id".to_string(), value: Json::Number("1".to_string()) }],
    };
    let context = Context::new(&document, &map);
    assert_eq!(context.size(), 2);
    assert_eq!(context.keys(), vec!["doc", "fields"]);
    assert!(context.contains_key("doc"));
    assert!(context.contains_key("fields"));
    assert!(!context.contains_key("docs"));
    assert!(!context.contains_key(""));
    assert!(matches!(context.get("doc"), Some(ContextValue::Document(d)) if d.fields.len() == 1));
    assert!(matches!(context.get("fields"), Some(ContextValue::Fields(f)) if f.0.len() == 2));
    assert!(context.get("field").is_none());
    let values = context.values();
    assert!(matches!(values[0], ContextValue::Document(_)));
    assert!(matches!(values[1], ContextValue::Fields(_)));
    assert_eq!(context.type_label(), "object");
    assert!(context.query_state(State::Truthy));
    assert!(!context.query_state(State::DefaultValue));
    assert!(!context.query_state(State::Empty));
    assert!(!context.query_state(State::Blank));

    let fields = Fields::new(&document, &map);
    assert_eq!(fields.0[0].name, "id");
    assert_eq!(fields.0[0].fid, 0);
    assert_eq!(fields.0[1].name, "title");
    assert_eq!(fields.0[1].fid, 1);
}
