use api_runtime::json::{as_text, get, parse_json, Json};
use api_runtime::reply::{read_image_url, GeneratedImage, ImageReply, Service};
use api_runtime::request::{
    edit_fields, edit_file_field, edit_part, edit_parts, file_part, first_call, generate_image,
    generation_body, image_api_url, image_part, image_url_part, mime_rejected, request_failed, responses_body,
    responses_image_part, responses_image_parts, responses_url, GenerationStep, ResponsesSend,
    SendDecision, SendFault,
};
use api_runtime::settings::ApiImageSettings;

fn api(model: &str, size: &str) -> ApiImageSettings {
    ApiImageSettings {
        base_url: "https://h/v1/".to_string(),
        model: model.to_string(),
        size: size.to_string(),
        api_key: String::new(),
    }
}

fn image() -> Result<GeneratedImage, String> {
    Ok(GeneratedImage { bytes: vec![7], caption: None })
}

fn fault(e: &str) -> Result<GeneratedImage, String> {
    Err(e.to_string())
}

/// A document with the members of every object in the order of their names.
fn sorted(j: Json) -> Json {
    match j {
        Json::Array(items) => Json::Array(items.into_iter().map(sorted).collect()),
        Json::Object(mut fields) => {
            fields.sort_by(|a, b| a.0.cmp(&b.0));
            Json::Object(fields.into_iter().map(|(k, v)| (k, sorted(v))).collect())
        }
        other => other,
    }
}

#[test]
fn models_choose_the_first_service() {
    assert_eq!(first_call(" GPT-image-1 "), Service::Images);
    assert_eq!(first_call("gpt-5"), Service::Responses);
}

#[test]
fn an_image_ends_the_generation() {
    for model in ["gpt-image-1", "gpt-5"] {
        for failed in [None, Some("first".to_string())] {
            match generate_image(model, failed, image()) {
                GenerationStep::Done(Ok(image)) => assert_eq!(image.bytes, vec![7]),
                other => panic!("{other:?}"),
            }
        }
    }
}

#[test]
fn image_models_fall_back_once() {
    match generate_image("dall-e-3", None, fault("down")) {
        GenerationStep::Fallback { service, first_error } => {
            assert_eq!(service, Service::Responses);
            assert_eq!(first_error, "down");
        }
        other => panic!("{other:?}"),
    }
    match generate_image("dall-e-3", Some("down".to_string()), fault("also down")) {
        GenerationStep::Done(Err(e)) => assert_eq!(
            e,
            "Image API request failed: down; Responses fallback failed: also down"
        ),
        other => panic!("{other:?}"),
    }
}

#[test]
fn other_models_do_not_fall_back() {
    match generate_image(" gpt-5 ", None, fault("down")) {
        GenerationStep::Done(Err(e)) => assert_eq!(
            e,
            "Responses image generation failed: down; Image API fallback skipped because configured model \"gpt-5\" is not an image endpoint model."
        ),
        other => panic!("{other:?}"),
    }
}

#[test]
fn requests_go_to_their_endpoint() {
    let a = api("m", "");
    assert_eq!(image_api_url(&a, 0), "https://h/v1/images/generations");
    assert_eq!(image_api_url(&a, 1), "https://h/v1/images/edits");
    assert_eq!(image_api_url(&a, 9), "https://h/v1/images/edits");
    assert_eq!(responses_url(&a), "https://h/v1/responses");
}

#[test]
fn generation_requests_are_built() {
    let expected = "{\"model\": \"gpt-image-1\", \"n\": 1, \"prompt\": \" a cat\", \"size\": \"1024x1024\"}";
    assert_eq!(
        sorted(generation_body(&api(" gpt-image-1 ", " 1024x1024\n"), " a cat")),
        parse_json(expected).unwrap()
    );
}

#[test]
fn edit_requests_are_built() {
    let fields = edit_fields(&api(" m ", " s "), " p ");
    let expected: Vec<(String, String)> = [("model", "m"), ("prompt", " p "), ("n", "1"), ("size", "s")]
        .iter()
        .map(|(k, v)| (k.to_string(), v.to_string()))
        .collect();
    assert_eq!(fields, expected);
    assert_eq!(edit_file_field(1), "image");
    assert_eq!(edit_file_field(2), "image[]");
    let part = edit_part("/b/assets/one.jpg", Ok(vec![1, 2])).unwrap();
    assert_eq!(part.file_name, "one.jpg");
    assert_eq!(part.mime, "image/jpeg");
    assert_eq!(part.bytes, vec![1, 2]);
    assert_eq!(
        edit_part("/b/x.png", Err("gone".to_string())).unwrap_err(),
        "read reference image /b/x.png: gone"
    );
    assert_eq!(mime_rejected("odd"), "reference image MIME rejected: odd");
}

#[test]
fn file_parts_have_a_name_and_a_type() {
    let part = file_part(Some("one.jpg".to_string()), "image/jpeg".to_string(), vec![1]);
    assert_eq!((part.file_name.as_str(), part.mime.as_str()), ("one.jpg", "image/jpeg"));
    assert_eq!(part.bytes, vec![1]);
    assert_eq!(file_part(None, "image/png".to_string(), vec![]).file_name, "image.png");
}

#[test]
fn edit_parts_follow_the_files() {
    let paths = vec!["/b/a.png".to_string(), "/b/c.webp".to_string()];
    let parts = edit_parts(&paths, vec![Ok(vec![1]), Ok(vec![2])]).unwrap();
    let sent: Vec<(&str, &str, &[u8])> = parts
        .iter()
        .map(|p| (p.file_name.as_str(), p.mime.as_str(), p.bytes.as_slice()))
        .collect();
    assert_eq!(
        sent,
        vec![("a.png", "image/png", &[1u8][..]), ("c.webp", "image/webp", &[2u8][..])]
    );
    assert!(edit_parts(&vec![], vec![]).unwrap().is_empty());
}

#[test]
fn the_first_unread_edit_file_is_told_of() {
    let paths = vec!["a.png".to_string(), "b.png".to_string(), "c.png".to_string()];
    let told = "read reference image b.png: gone";
    let stopped = edit_parts(&paths, vec![Ok(vec![]), Err("gone".to_string())]);
    assert_eq!(stopped.unwrap_err(), told);
    let all = vec![Ok(vec![]), Err("gone".to_string()), Err("locked".to_string())];
    assert_eq!(edit_parts(&paths, all).unwrap_err(), told);
}

#[test]
fn image_parts_give_their_file_back() {
    for (path, bytes) in [("/b/a.png", b"hello".to_vec()), ("no-extension", vec![]), ("C:\\x.gif", vec![0, 255])] {
        let part = responses_image_part(path, &Ok(bytes.clone())).unwrap();
        let url = as_text(get(&part, "image_url")).unwrap();
        match read_image_url(url, None) {
            ImageReply::Image(image) => assert_eq!(image.bytes, bytes),
            other => panic!("{other:?}"),
        }
    }
}

#[test]
fn responses_requests_carry_the_prompt() {
    let expected = "{\"input\": \"a cat\", \"model\": \"gpt-5\", \"store\": false, \
        \"tool_choice\": {\"type\": \"image_generation\"}, \
        \"tools\": [{\"type\": \"image_generation\"}]}";
    assert_eq!(
        sorted(responses_body(&api(" gpt-5", " "), "a cat", vec![])),
        parse_json(expected).unwrap()
    );
}

#[test]
fn responses_requests_carry_the_images() {
    let paths = vec!["/b/a.png".to_string(), "/b/c.webp".to_string()];
    let reads = vec![Ok(b"hello".to_vec()), Ok(vec![])];
    let parts = responses_image_parts(&paths, &reads).unwrap();
    let expected = "{\"input\": [{\"role\": \"user\", \"content\": [\
        {\"type\": \"input_text\", \"text\": \"blend\"}, \
        {\"type\": \"input_image\", \"image_url\": \"data:image/png;base64,aGVsbG8=\"}, \
        {\"type\": \"input_image\", \"image_url\": \"data:image/webp;base64,\"}]}], \
        \"model\": \"gpt-5\", \"store\": false, \
        \"tool_choice\": {\"type\": \"image_generation\"}, \
        \"tools\": [{\"type\": \"image_generation\", \"size\": \"auto\"}]}";
    assert_eq!(
        sorted(responses_body(&api("gpt-5", "auto "), "blend", parts)),
        parse_json(expected).unwrap()
    );
    assert_eq!(
        image_part("image/png", &b"hello".to_vec()),
        image_url_part("data:image/png;base64,aGVsbG8=")
    );
    assert_eq!(
        responses_image_part("/b/a.png", &Ok(b"hello".to_vec())),
        Ok(image_url_part("data:image/png;base64,aGVsbG8="))
    );
}

#[test]
fn the_first_unread_image_is_told_of() {
    let paths = vec!["a.png".to_string(), "b.png".to_string(), "c.png".to_string()];
    let reads = vec![Ok(vec![]), Err("gone".to_string()), Err("locked".to_string())];
    assert_eq!(
        responses_image_parts(&paths, &reads),
        Err("read response image b.png: gone".to_string())
    );
    assert_eq!(
        responses_image_parts(&paths, &vec![Ok(vec![]), Err("gone".to_string())]),
        Err("read response image b.png: gone".to_string())
    );
}

#[test]
fn responses_requests_are_sent_again_once() {
    let fault = |is_connect, is_timeout, is_request| SendFault {
        is_connect,
        is_timeout,
        is_request,
        message: "lost".to_string(),
    };
    for again in [fault(true, false, false), fault(false, true, false), fault(false, false, true)] {
        let mut send = ResponsesSend::new();
        assert!(matches!(send.failed(&again), SendDecision::RetryAfter(800)));
        match send.failed(&again) {
            SendDecision::Fail(e) => assert_eq!(e, "Responses API request failed: lost"),
            other => panic!("{other:?}"),
        }
    }
    let mut send = ResponsesSend::new();
    match send.failed(&fault(false, false, false)) {
        SendDecision::Fail(e) => assert_eq!(e, "Responses API request failed: lost"),
        other => panic!("{other:?}"),
    }
    assert_eq!(request_failed(Service::Images, "lost"), "API request failed: lost");
}
