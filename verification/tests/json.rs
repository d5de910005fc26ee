use agerus::json::{Json, Member};

#[test]
fn parse_scalars() {
    assert_eq!(Json::parse("null"), Some(Json::Null));
    assert_eq!(Json::parse(" true "), Some(Json::Bool(true)));
    assert_eq!(Json::parse("\"hi\\n\""), Some(Json::Text("hi\n".to_string())));
    assert_eq!(Json::parse("12"), Some(Json::Number("12".to_string())));
    assert_eq!(Json::parse("-3"), Some(Json::Number("-3".to_string())));
    assert_eq!(Json::parse("1.5"), Some(Json::Number("1.5".to_string())));
}

#[test]
fn parse_rejects_what_is_not_one_value() {
    assert_eq!(Json::parse(""), None);
    assert_eq!(Json::parse("{"), None);
    assert_eq!(Json::parse("{} {}"), None);
    assert_eq!(Json::parse("{'a':1}"), None);
    assert_eq!(Json::parse("hello"), None);
}

#[test]
fn parse_nested() {
    let parsed = Json::parse("{\"a\":[1,{\"b\":\"c\"}]}").unwrap();
    let expected = Json::object(vec![Member::new(
        "a",
        Json::array(vec![
            Json::Number("1".to_string()),
            Json::object(vec![Member::text("b", "c")]),
        ]),
    )]);
    assert_eq!(parsed, expected);
}

#[test]
fn get_finds_the_first_field() {
    let value = Json::object(vec![
        Member::text("k", "first"),
        Member::text("other", "x"),
        Member::text("k", "second"),
    ]);
    assert_eq!(value.get("k"), Some(&Json::Text("first".to_string())));
    assert_eq!(value.get("other"), Some(&Json::Text("x".to_string())));
    assert_eq!(value.get("missing"), None);
    assert!(value.has_key("other"));
    assert!(!value.has_key("K"));
    assert_eq!(Json::Null.get("k"), None);
    assert_eq!(Json::array(vec![]).get("k"), None);
}

#[test]
fn text_field_wants_text() {
    let value = Json::parse("{\"path\":\"a.txt\",\"n\":3,\"flag\":true}").unwrap();
    assert_eq!(value.text_field("path"), Some("a.txt".to_string()));
    assert_eq!(value.text_field("n"), None);
    assert_eq!(value.text_field("flag"), None);
    assert_eq!(value.text_field("none"), None);
    assert_eq!(value.get("flag").and_then(|v| v.as_bool()), Some(true));
    assert_eq!(Json::text("x").as_text(), Some(&"x".to_string()));
    assert_eq!(Json::Null.as_text(), None);
    assert_eq!(Json::Null.as_bool(), None);
}

#[test]
fn arrays_and_copies() {
    let value = Json::parse("[\"a\",[\"b\"]]").unwrap();
    let items = value.as_array().unwrap();
    assert_eq!(items.len(), 2);
    assert_eq!(items[0], Json::text("a"));
    assert_eq!(Json::text("a").as_array(), None);
    assert_eq!(value.deep_clone(), value);
    assert_eq!(value.clone(), value);
    let member = Member::text("k", "v");
    assert_eq!(member.clone(), member);
}
