use api_runtime::settings::{
    bearer_token, endpoint, image_endpoint_model, list_models, prefers_responses_api, proxy_choice,
    validate_api_settings, ApiImageSettings, ProxyChoice,
};

fn api() -> ApiImageSettings {
    ApiImageSettings {
        base_url: "https://api.example.com/v1".to_string(),
        model: "gpt-image-1".to_string(),
        size: "1024x1024".to_string(),
        api_key: " sk-test ".to_string(),
    }
}

#[test]
fn complete_settings_are_valid() {
    assert_eq!(validate_api_settings(&api()), Ok(()));
}

#[test]
fn missing_settings_are_told_of() {
    let mut s = api();
    s.base_url = " \t".to_string();
    assert_eq!(validate_api_settings(&s), Err("API base URL is required.".to_string()));
    s.model = String::new();
    assert_eq!(validate_api_settings(&s), Err("API base URL is required.".to_string()));
    s.base_url = "http://x".to_string();
    assert_eq!(validate_api_settings(&s), Err("API image model is required.".to_string()));
}

#[test]
fn image_models_are_known_by_name() {
    for model in ["gpt-image-1", " GPT-Image ", "dall-e-3", "my-IMAGE-model", "DALL-E"] {
        assert!(image_endpoint_model(model), "{model}");
        assert!(!prefers_responses_api(model), "{model}");
    }
    for model in ["gpt-5", "", "dalle-3", "x-dall-e", "ima ge"] {
        assert!(!image_endpoint_model(model), "{model}");
        assert!(prefers_responses_api(model), "{model}");
    }
}

#[test]
fn endpoints_have_one_slash_between() {
    let expected = "https://api.example.com/v1/images/edits";
    assert_eq!(endpoint("https://api.example.com/v1", "images/edits"), expected);
    assert_eq!(endpoint(" https://api.example.com/v1// ", "/images/edits"), expected);
    assert_eq!(endpoint("https://api.example.com/v1/", "//images/edits"), expected);
    assert_eq!(endpoint("\n https://api.example.com/v1///\t ", "///images/edits"), expected);
    assert_eq!(endpoint("", ""), "/");
    assert_eq!(endpoint(" // ", "/"), "/");
}

#[test]
fn keys_are_trimmed_and_optional() {
    assert_eq!(bearer_token(&api()), Some("sk-test".to_string()));
    let mut s = api();
    s.api_key = "  ".to_string();
    assert_eq!(bearer_token(&s), None);
}

#[test]
fn proxies_are_chosen() {
    assert!(matches!(proxy_choice(false, Ok("http://p".to_string())), ProxyChoice::Off));
    assert!(matches!(
        proxy_choice(true, Ok("http://p".to_string())),
        ProxyChoice::Through(u) if u == "http://p"
    ));
    assert!(matches!(
        proxy_choice(true, Err("bad port".to_string())),
        ProxyChoice::Unusable(e) if e == "bad port"
    ));
}

#[test]
fn one_model_is_listed() {
    let models = list_models(&api());
    assert_eq!(models.len(), 1);
    assert_eq!(models[0].id, "gpt-image-1");
    assert_eq!(models[0].display_name, "gpt-image-1");
    assert_eq!(models[0].default_reasoning_effort, Some("medium".to_string()));
    assert_eq!(models[0].supported_efforts, vec!["medium".to_string()]);
    assert!(models[0].service_tiers.is_empty());
    assert_eq!(models[0].default_service_tier, None);
}
