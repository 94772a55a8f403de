use api_runtime::json::{
    array_json, as_text, get, parse_json, text_json, texts_json, Json, ObjectBuilder,
};

fn object(fields: Vec<(&str, Json)>) -> Json {
    Json::Object(fields.into_iter().map(|(k, v)| (k.to_string(), v)).collect())
}

#[test]
fn documents_are_read_whole() {
    let read = parse_json(" {\"b\": [1, -2.5, true, null, \"x\\u00e9\"], \"a\": {}} ").unwrap();
    let expected = object(vec![
        ("a", object(vec![])),
        (
            "b",
            Json::Array(vec![
                Json::Number("1".to_string()),
                Json::Number("-2.5".to_string()),
                Json::Bool(true),
                Json::Null,
                Json::Text("xé".to_string()),
            ]),
        ),
    ]);
    assert_eq!(read, expected);
}

#[test]
fn broken_documents_are_told_of() {
    for body in ["", "{", "[1,]", "nul", "\"open"] {
        let message = parse_json(body).unwrap_err();
        assert!(message.contains("line 1 column"), "{message}");
    }
}

#[test]
fn members_are_found_by_name() {
    let j = parse_json("{\"error\": {\"message\": \"no\"}, \"n\": 1}").unwrap();
    let error = get(&j, "error").unwrap();
    assert_eq!(as_text(get(error, "message")), Some(&"no".to_string()));
    assert_eq!(as_text(get(&j, "n")), None);
    assert_eq!(as_text(get(&j, "missing")), None);
    assert!(get(&text_json("x"), "x").is_none());
    assert!(as_text(None).is_none());
}

#[test]
fn the_last_of_equal_members_counts() {
    let j = parse_json("{\"a\": \"first\", \"a\": \"second\"}").unwrap();
    assert_eq!(as_text(get(&j, "a")), Some(&"second".to_string()));
}

#[test]
fn documents_are_built() {
    let mut b = ObjectBuilder::new();
    b.put("z", text_json("1"));
    b.put("a", array_json(vec![Json::Null]));
    assert_eq!(
        b.build(),
        object(vec![("z", Json::Text("1".to_string())), ("a", Json::Array(vec![Json::Null]))])
    );
    assert_eq!(
        texts_json(&vec!["x".to_string(), "y".to_string()]),
        Json::Array(vec![text_json("x"), text_json("y")])
    );
    assert_eq!(texts_json(&vec![]), Json::Array(vec![]));
}
