use api_runtime::json::{parse_json, Json};
use api_runtime::reply::{
    api_error_message, check_download, decoded_image, downloaded_image, error_message_of,
    find_response_image, image_of_document, image_of_parsed, parse_image_response,
    parse_responses_image_response, read_image_url, refusal_message, reply_text, ImageData,
    ImageReply, ImagesResponse, Service,
};

fn doc(text: &str) -> Json {
    parse_json(text).unwrap()
}

fn found(result: &str, caption: Option<&str>) -> Option<(String, Option<String>)> {
    Some((result.to_string(), caption.map(|c| c.to_string())))
}

fn item(b64: Option<&str>, url: Option<&str>, caption: Option<&str>) -> ImageData {
    ImageData {
        b64_json: b64.map(|s| s.to_string()),
        url: url.map(|s| s.to_string()),
        revised_prompt: caption.map(|s| s.to_string()),
    }
}

fn images(data: Vec<ImageData>) -> ImageReply {
    parse_image_response(Ok(ImagesResponse { data }))
}

const CALL: &str =
    "{\"type\": \"image_generation_call\", \"result\": \"aGVsbG8=\", \"revised_prompt\": \"a dog\"}";

#[test]
fn stated_errors_are_told() {
    assert_eq!(api_error_message("{\"error\": {\"message\": \"bad key\"}}"), "bad key");
    assert_eq!(api_error_message("{\"message\": \"quota\"}"), "quota");
    assert_eq!(
        api_error_message("{\"error\": {\"message\": \"inner\"}, \"message\": \"outer\"}"),
        "inner"
    );
    assert_eq!(
        api_error_message("{\"error\": {\"message\": 7}, \"message\": \"outer\"}"),
        "outer"
    );
    assert_eq!(api_error_message("{\"error\": \"text\"}"), "{\"error\": \"text\"}");
    assert_eq!(api_error_message("Bad Gateway"), "Bad Gateway");
    assert_eq!(api_error_message(""), "");
}

#[test]
fn errors_are_cut() {
    let long = "é".repeat(700);
    assert_eq!(api_error_message(&long), "é".repeat(600));
    let stated = format!("{{\"message\": \"{long}\"}}");
    assert_eq!(api_error_message(&stated), "é".repeat(600));
    assert_eq!(error_message_of(&Err("broken".to_string()), "body"), "body");
    assert_eq!(error_message_of(&Ok(doc("{\"message\": \"m\"}")), "body"), "m");
}

#[test]
fn replies_are_read_or_refused() {
    let ok = reply_text(Service::Images, true, "200 OK", Ok("text".to_string()));
    assert_eq!(ok, Ok("text".to_string()));
    assert_eq!(
        reply_text(Service::Images, false, "401 Unauthorized", Ok("{\"message\": \"no\"}".to_string())),
        Err("API returned 401 Unauthorized: no".to_string())
    );
    assert_eq!(
        reply_text(Service::Responses, false, "500 Oops", Ok("broken".to_string())),
        Err("Responses API returned 500 Oops: broken".to_string())
    );
    assert_eq!(
        reply_text(Service::Images, true, "200 OK", Err("reset".to_string())),
        Err("read API response: reset".to_string())
    );
    assert_eq!(
        reply_text(Service::Responses, false, "500 Oops", Err("reset".to_string())),
        Err("read Responses API response: reset".to_string())
    );
    assert_eq!(refusal_message(Service::Images, "404", "gone"), "API returned 404: gone");
}

#[test]
fn image_calls_are_found_anywhere() {
    assert_eq!(find_response_image(&doc(CALL)), found("aGVsbG8=", Some("a dog")));
    let nested = format!("{{\"output\": [{{\"type\": \"text\"}}, [[{CALL}]]]}}");
    assert_eq!(find_response_image(&doc(&nested)), found("aGVsbG8=", Some("a dog")));
    let inside = format!("{{\"type\": \"image_generation_call\", \"more\": {CALL}}}");
    assert_eq!(find_response_image(&doc(&inside)), found("aGVsbG8=", Some("a dog")));
}

#[test]
fn items_without_an_image_are_passed_over() {
    let list = format!("[1, {{\"type\": \"other\", \"result\": \"x\"}}, {CALL}]");
    assert_eq!(find_response_image(&doc(&list)), find_response_image(&doc(CALL)));
    let alone = format!("[{CALL}, 1, null]");
    assert_eq!(find_response_image(&doc(&alone)), find_response_image(&doc(CALL)));
}

#[test]
fn the_first_call_with_a_result_counts() {
    let two = "[{\"type\": \"image_generation_call\", \"result\": \"one\"}, \
                {\"type\": \"image_generation_call\", \"result\": \"two\"}]";
    assert_eq!(find_response_image(&doc(two)), found("one", None));
    let outer = format!(
        "{{\"type\": \"image_generation_call\", \"result\": \"outer\", \"a\": {CALL}, \"revised_prompt\": 3}}"
    );
    assert_eq!(find_response_image(&doc(&outer)), found("outer", None));
}

#[test]
fn documents_without_a_call_give_nothing() {
    for text in [
        "null",
        "\"image_generation_call\"",
        "{\"type\": \"image_generation_call\"}",
        "{\"type\": \"image_generation_call\", \"result\": null}",
        "{\"type\": \"image_generation\", \"result\": \"x\"}",
        "{\"result\": \"x\"}",
        "[]",
    ] {
        assert_eq!(find_response_image(&doc(text)), None, "{text}");
    }
}

#[test]
fn responses_replies_give_the_image() {
    let body = format!("{{\"output\": [{CALL}]}}");
    let image = parse_responses_image_response(true, "200 OK", Ok(body)).unwrap();
    assert_eq!(image.bytes, b"hello");
    assert_eq!(image.caption, Some("a dog".to_string()));
}

#[test]
fn responses_replies_tell_of_faults() {
    let no_image = "Responses API response did not include an image_generation_call result.";
    assert_eq!(
        parse_responses_image_response(true, "200 OK", Ok("{}".to_string())).unwrap_err(),
        no_image
    );
    assert_eq!(
        parse_responses_image_response(false, "429 Slow", Ok("{}".to_string())).unwrap_err(),
        "Responses API returned 429 Slow: {}"
    );
    assert_eq!(
        parse_responses_image_response(true, "200 OK", Err("cut".to_string())).unwrap_err(),
        "read Responses API response: cut"
    );
    let broken = parse_responses_image_response(true, "200 OK", Ok("{".to_string())).unwrap_err();
    assert!(broken.starts_with("parse Responses API response: EOF"), "{broken}");
    assert_eq!(
        image_of_parsed(Err("why".to_string())).unwrap_err(),
        "parse Responses API response: why"
    );
    let bad = doc("{\"type\": \"image_generation_call\", \"result\": \"@\"}");
    let message = image_of_document(&bad).unwrap_err();
    assert!(message.starts_with("decode Responses API image: "), "{message}");
    assert_eq!(
        decoded_image(Service::Images, Err("odd".to_string()), None).unwrap_err(),
        "decode API image: odd"
    );
}

#[test]
fn image_replies_carry_the_image() {
    match images(vec![item(Some("aGVsbG8="), Some("http://x"), Some("c")), item(None, None, None)]) {
        ImageReply::Image(image) => {
            assert_eq!(image.bytes, b"hello");
            assert_eq!(image.caption, Some("c".to_string()));
        }
        other => panic!("{other:?}"),
    }
    match images(vec![item(Some(""), Some("data:image/png;base64,aGVsbG8="), None)]) {
        ImageReply::Image(image) => assert_eq!((image.bytes, image.caption), (b"hello".to_vec(), None)),
        other => panic!("{other:?}"),
    }
}

#[test]
fn image_replies_lead_to_downloads() {
    match images(vec![item(None, Some("https://x/a.png"), Some("c"))]) {
        ImageReply::Fetch { url, caption } => {
            assert_eq!(url, "https://x/a.png");
            assert_eq!(caption, Some("c".to_string()));
        }
        other => panic!("{other:?}"),
    }
    assert!(matches!(
        read_image_url("https://x/data:,y", None),
        ImageReply::Fetch { url, caption: None } if url == "https://x/data:,y"
    ));
}

#[test]
fn image_replies_tell_of_faults() {
    let fault = |reply: ImageReply| match reply {
        ImageReply::Fault(e) => e,
        other => panic!("{other:?}"),
    };
    assert_eq!(
        fault(parse_image_response(Err("missing field".to_string()))),
        "parse API response: missing field"
    );
    assert_eq!(fault(images(vec![])), "API response did not include an image.");
    assert_eq!(
        fault(images(vec![item(None, Some(""), None)])),
        "API image item had neither b64_json nor url."
    );
    assert!(fault(images(vec![item(Some("@"), None, None)])).starts_with("decode API image: "));
    assert!(fault(images(vec![item(None, Some("data:,@"), None)]))
        .starts_with("decode data URL image: "));
}

#[test]
fn downloads_are_checked() {
    assert_eq!(check_download(&Ok((true, "200 OK".to_string()))), Ok(()));
    assert_eq!(
        check_download(&Ok((false, "404 Not Found".to_string()))),
        Err("download API image returned 404 Not Found".to_string())
    );
    assert_eq!(
        check_download(&Err("refused".to_string())),
        Err("download API image: refused".to_string())
    );
    let image = downloaded_image(Ok(vec![1, 2]), Some("c".to_string())).unwrap();
    assert_eq!((image.bytes, image.caption), (vec![1, 2], Some("c".to_string())));
    assert_eq!(
        downloaded_image(Err("cut".to_string()), None).unwrap_err(),
        "read API image bytes: cut"
    );
}
