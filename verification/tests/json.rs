use meili_core::json::{json_to_string, parse_json, parse_json_slice, Json, Member};

fn member(key: &str, value: Json) -> Member {
    Member { key: key.to_string(), value }
}

#[test]
fn json_text_is_read_member_by_member() {
    let value = parse_json(r#"{"b":[1,-2.5,"x",true,null],"a":{"c":1e3}}"#).unwrap();
    assert_eq!(
        value,
        Json::Object(vec![
            member(
                "b",
                Json::Array(vec![
                    Json::Number("1".to_string()),
                    Json::Number("-2.5".to_string()),
                    Json::String("x".to_string()),
                    Json::Bool(true),
                    Json::Null,
                ])
            ),
            member("a", Json::Object(vec![member("c", Json::Number("1000.0".to_string()))])),
        ])
    );
    assert_eq!(parse_json_slice(b" [ ] ").unwrap(), Json::Array(vec![]));
    assert_eq!(parse_json("\"a\\u00e9\"").unwrap(), Json::String("aé".to_string()));
}

#[test]
fn what_is_no_json_is_refused() {
    assert!(parse_json("").is_err());
    assert!(parse_json("{").is_err());
    assert!(parse_json("[1,]").is_err());
    assert!(parse_json("1 2").is_err());
    assert!(parse_json_slice(&[0xff, 0xfe]).is_err());
}

#[test]
fn json_is_written_compactly() {
    let value = Json::Object(vec![
        member("b", Json::Array(vec![Json::Number("1".to_string()), Json::Null])),
        member("a", Json::String("x\"y".to_string())),
    ]);
    assert_eq!(json_to_string(&value), r#"{"b":[1,null],"a":"x\"y"}"#);
    assert_eq!(json_to_string(&Json::Bool(false)), "false");
    assert_eq!(json_to_string(&parse_json(" [ 1 , 2 ] ").unwrap()), "[1,2]");
}

#[test]
fn copies_hold_the_same() {
    let value = parse_json(r#"{"b":[1,{"c":[]}],"a":{}}"#).unwrap();
    assert_eq!(value.duplicate(), value);
    assert_eq!(Json::Array(vec![]).leaf_clone(), Json::Array(vec![]));
    assert_eq!(Json::String("a".to_string()).leaf_clone(), Json::String("a".to_string()));
}
