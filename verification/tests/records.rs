use api_runtime::json::parse_json;
use api_runtime::json::Json;
use api_runtime::records::{
    new_message_id, new_placeholder_id, persist_assistant_error, persist_assistant_image,
    persist_user_record,
};

/// A document with the members of every object in the order of their names.
fn by_name(j: Json) -> Json {
    match j {
        Json::Array(items) => Json::Array(items.into_iter().map(by_name).collect()),
        Json::Object(mut fields) => {
            fields.sort_by(|a, b| a.0.cmp(&b.0));
            Json::Object(fields.into_iter().map(|(k, v)| (k, by_name(v))).collect())
        }
        other => other,
    }
}

#[test]
fn ids_are_fresh() {
    let (a, b) = (new_message_id(), new_message_id());
    assert_eq!(a.chars().count(), 12);
    assert_ne!(a, b);
    let p = new_placeholder_id();
    assert_eq!(p.chars().count(), 21);
    assert!(p.chars().all(|c| c.is_ascii_alphanumeric() || c == '_' || c == '-'));
}

#[test]
fn user_messages_are_kept() {
    let refs = vec!["p1".to_string(), "p2".to_string()];
    let kept = persist_user_record("t", "id1", "a cat", &refs).unwrap();
    assert_eq!(
        by_name(kept),
        parse_json("{\"id\": \"id1\", \"role\": \"user\", \"text\": \"a cat\", \"refs\": [\"p1\", \"p2\"]}")
            .unwrap()
    );
}

#[test]
fn images_are_kept() {
    let expected = |caption: &str| {
        parse_json(&format!(
            "{{\"id\": \"id1\", \"role\": \"assistant\", \"status\": \"done\", \"blocks\": [{{\
             \"type\": \"image\", \"placementId\": \"p\", \"caption\": {caption}, \"status\": \"done\"}}]}}"
        ))
        .unwrap()
    };
    let with = persist_assistant_image("t", "id1", "p", &Some("c".to_string())).unwrap();
    assert_eq!(by_name(with), expected("\"c\""));
    let without = persist_assistant_image("t", "id1", "p", &None).unwrap();
    assert_eq!(by_name(without), expected("null"));
}

#[test]
fn errors_are_kept() {
    let kept = persist_assistant_error("t", "id1", "boom").unwrap();
    assert_eq!(
        by_name(kept),
        parse_json("{\"id\": \"id1\", \"role\": \"assistant\", \"blocks\": [], \"status\": \"error\", \"error\": \"boom\"}")
            .unwrap()
    );
}

#[test]
fn nothing_is_kept_without_a_timeline() {
    assert!(persist_user_record("", "id", "x", &vec![]).is_none());
    assert!(persist_assistant_image("", "id", "p", &None).is_none());
    assert!(persist_assistant_error("", "id", "e").is_none());
}
