use meili_core::extract::faceted::extract_document_facets;
use meili_core::extract::perm_json_p::{
    composed_key, contained_in, seek_leaf_values_in_array, seek_leaf_values_in_object,
    select_field,
};
use meili_core::extract::searchable::TopLevelField;
use meili_core::extract::tokenize_document::perm_json_p;
use meili_core::fields_ids_map::FieldsIdsMap;
use meili_core::json::{Json, Member};

fn member(key: &str, value: Json) -> Member {
    Member { key: key.to_string(), value }
}

fn string(text: &str) -> Json {
    Json::String(text.to_string())
}

fn number(text: &str) -> Json {
    Json::Number(text.to_string())
}

#[test]
fn a_selector_is_contained_in_the_keys_above_it() {
    assert!(contained_in("animaux", "animaux"));
    assert!(contained_in("animaux.chien", "animaux"));
    assert!(contained_in("animaux.chien.nom", "animaux"));
    assert!(contained_in("animaux.chien.nom", "animaux.chien"));
    assert!(!contained_in("animaux", "animaux.chien"));
    assert!(!contained_in("animaux.", "animaux.chien"));
    assert!(!contained_in("animaux.ch", "animaux.chien"));
    assert!(!contained_in("animau", "animaux"));
}

#[test]
fn attribute_selection_examples() {
    assert!(contained_in("a.b", "a"));
    assert!(!contained_in("ab", "a"));
    assert!(!contained_in("a.b", "a.b.c"));
    assert!(contained_in("a.", "a"));
    assert!(contained_in("", ""));
    assert!(!contained_in("a", ""));
    assert!(contained_in(".a", ""));
    assert!(!contained_in("", "a"));
}

#[test]
fn both_modules_agree_on_containment() {
    for (selector, key) in [("a.b", "a"), ("ab", "a"), ("a.b", "a.b.c"), ("é.ü", "é"), ("éü", "é")] {
        assert_eq!(contained_in(selector, key), perm_json_p::contained_in(selector, key));
    }
    assert!(contained_in("é.ü", "é"));
    assert!(!contained_in("éü", "é"));
}

#[test]
fn a_field_is_selected_from_above_and_from_below() {
    // the selector asks for a descendant of the field
    assert!(select_field("doggo", Some(&["doggo.name"]), &[]));
    // the selector asks for an ancestor of the field
    assert!(select_field("doggo.name", Some(&["doggo"]), &[]));
    assert!(!select_field("doggo", Some(&["catto"]), &[]));
    assert!(!select_field("doggos", Some(&["doggo"]), &[]));
    assert!(select_field("doggo", None, &[]));
    assert!(!select_field("doggo", Some(&[]), &[]));
}

#[test]
fn the_skip_list_takes_precedence() {
    assert!(!select_field("doggo", Some(&["doggo"]), &["doggo"]));
    assert!(!select_field("doggo", None, &["doggo.name"]));
    assert!(!select_field("doggo.name", None, &["doggo"]));
    assert!(select_field("doggo", None, &["catto"]));
}

#[test]
fn keys_are_composed_with_a_dot() {
    assert_eq!(composed_key("", "a"), "a");
    assert_eq!(composed_key("a", "b"), "a.b");
    assert_eq!(composed_key("a.b", "c"), "a.b.c");
}

#[test]
fn leaves_are_listed_in_the_order_of_the_walk() {
    let object = vec![
        member("name", string("doggo")),
        member("tags", Json::Array(vec![string("good"), number("1")])),
        member("owner", Json::Object(vec![member("name", string("marin")), member("age", Json::Null)])),
    ];
    let mut leaves = Vec::new();
    seek_leaf_values_in_object(&object, None, &[], "doggo", &mut leaves);
    assert_eq!(
        leaves,
        vec![
            member("doggo.name", string("doggo")),
            member("doggo.tags", string("good")),
            member("doggo.tags", number("1")),
            member("doggo.owner.name", string("marin")),
            member("doggo.owner.age", Json::Null),
        ]
    );
}

#[test]
fn an_empty_object_or_array_is_a_leaf() {
    let mut leaves = Vec::new();
    seek_leaf_values_in_object(&vec![], None, &[], "doggo", &mut leaves);
    assert_eq!(leaves, vec![member("doggo", Json::Object(vec![]))]);

    let mut leaves = Vec::new();
    seek_leaf_values_in_array(&[], None, &[], "doggo", &mut leaves);
    assert_eq!(leaves, vec![member("doggo", Json::Array(vec![]))]);

    let object =
        vec![member("a", Json::Object(vec![])), member("b", Json::Array(vec![Json::Array(vec![])]))];
    let mut leaves = Vec::new();
    seek_leaf_values_in_object(&object, None, &[], "", &mut leaves);
    assert_eq!(
        leaves,
        vec![member("a", Json::Object(vec![])), member("b", Json::Array(vec![]))]
    );
}

#[test]
fn the_stored_walk_has_no_leaf_for_an_empty_object() {
    let object =
        vec![member("a", Json::Object(vec![])), member("b", Json::Bool(true))];
    let mut leaves = Vec::new();
    perm_json_p::seek_leaf_values_in_object(&object, None, "top", &mut leaves);
    assert_eq!(leaves, vec![member("top.b", Json::Bool(true))]);

    let mut leaves = Vec::new();
    perm_json_p::seek_leaf_values_in_array(&[Json::Array(vec![]), number("3")], None, "top", &mut leaves);
    assert_eq!(leaves, vec![member("top", number("3"))]);

    let mut leaves = Vec::new();
    perm_json_p::seek_leaf_values(&object, &["b"], &mut leaves);
    assert_eq!(leaves, vec![member("b", Json::Bool(true))]);
}

#[test]
fn the_walk_follows_the_selectors() {
    let object = vec![
        member("name", string("doggo")),
        member("owner", Json::Object(vec![member("name", string("marin")), member("age", number("3"))])),
        member("secret", string("no")),
    ];
    let mut leaves = Vec::new();
    seek_leaf_values_in_object(&object, Some(&["name", "owner.age"]), &[], "", &mut leaves);
    assert_eq!(leaves, vec![member("name", string("doggo")), member("owner.age", number("3"))]);

    let mut leaves = Vec::new();
    seek_leaf_values_in_object(&object, None, &["owner.name", "secret"], "", &mut leaves);
    assert_eq!(leaves, vec![member("name", string("doggo"))]);
}

#[test]
fn facets_are_the_values_of_the_selected_leaves() {
    let mut map = FieldsIdsMap::new();
    let document = vec![
        TopLevelField { name: "color".to_string(), value: r#"["red","blue"]"#.to_string() },
        TopLevelField { name: "size".to_string(), value: r#"{"height":3,"width":null}"#.to_string() },
        TopLevelField { name: "other".to_string(), value: "not json".to_string() },
    ];
    let facets = extract_document_facets(&["color", "size.height"], &document, &mut map).unwrap();
    let found: Vec<(u16, Json)> = facets.into_iter().map(|f| (f.field_id, f.value)).collect();
    assert_eq!(found, vec![(0, string("red")), (0, string("blue")), (1, number("3"))]);
    assert_eq!(map.id("color"), Some(0));
    assert_eq!(map.id("size.height"), Some(1));
    assert_eq!(map.len(), 2);
}

#[test]
fn facets_stop_at_a_field_that_is_no_json() {
    let mut map = FieldsIdsMap::new();
    let document =
        vec![TopLevelField { name: "color".to_string(), value: "not json".to_string() }];
    let error = extract_document_facets(&["color"], &document, &mut map).unwrap_err();
    assert_eq!(error.failure(), meili_core::extract::error::Failure::InvalidJson);
}
