//! The settings of the image API: what is required of them and what the
//! requests take from them.

use vstd::prelude::*;
use vstd::string::*;
use crate::text;

verus! {

/// Where the image API is and what is asked of it.
#[derive(Debug)]
pub struct ApiImageSettings {
    pub base_url: String,
    pub model: String,
    pub size: String,
    pub api_key: String,
}

/// What a model offers.
#[derive(Debug)]
pub struct ModelInfo {
    pub id: String,
    pub display_name: String,
    pub default_reasoning_effort: Option<String>,
    pub supported_efforts: Vec<String>,
    pub service_tiers: Vec<String>,
    pub default_service_tier: Option<String>,
}

/// How a client reaches the network.
#[derive(Debug)]
pub enum ProxyChoice {
    /// No proxy, not even one of the environment.
    Off,
    /// The proxy at this URL.
    Through(String),
    /// A proxy is wanted but its settings give no URL, for this reason; the
    /// client keeps its defaults.
    Unusable(String),
}

/// What is wrong with `api`, if anything is.
pub open spec fn settings_fault(api: ApiImageSettings) -> Option<Seq<char>> {
    if text::trimmed(api.base_url@).len() == 0 {
        Some("API base URL is required."@)
    } else if text::trimmed(api.model@).len() == 0 {
        Some("API image model is required."@)
    } else {
        None
    }
}

/// Whether `model` is one that the image endpoints serve.
pub open spec fn is_image_model(model: Seq<char>) -> bool {
    let m = text::ascii_lowered(text::trimmed(model));
    ||| text::begins_with(m, "gpt-image"@)
    ||| text::begins_with(m, "dall-e"@)
    ||| text::holds_text(m, "image"@)
}

/// The URL of `path` below `base_url`, with one slash between the two.
pub open spec fn endpoint_url(base_url: Seq<char>, path: Seq<char>) -> Seq<char> {
    text::without_trailing(text::trimmed(base_url), '/') + "/"@ + text::without_leading(path, '/')
}

/// The key that requests carry, if one is set.
pub open spec fn bearer_key(api: ApiImageSettings) -> Option<Seq<char>> {
    if text::trimmed(api.api_key@).len() == 0 {
        None
    } else {
        Some(text::trimmed(api.api_key@))
    }
}

/// Refuses settings without a base URL or without a model.
pub fn validate_api_settings(api: &ApiImageSettings) -> (r: Result<(), String>)
    ensures
        (match r {
            Ok(_) => None,
            Err(e) => Some(e@),
        }) == settings_fault(*api),
{
    if text::trim(api.base_url.as_str()).is_empty() {
        return Err("API base URL is required.".to_owned());
    }
    if text::trim(api.model.as_str()).is_empty() {
        return Err("API image model is required.".to_owned());
    }
    Ok(())
}

/// Whether `model` is one that the image endpoints serve.
pub fn image_endpoint_model(model: &str) -> (b: bool)
    ensures
        b == is_image_model(model@),
{
    let m = text::lower_ascii(text::trim(model));
    text::matches_at(&m, &text::chars_of("gpt-image"), 0) || text::matches_at(
        &m,
        &text::chars_of("dall-e"),
        0,
    ) || text::contains(&m, &text::chars_of("image"))
}

/// Whether `model` is asked through the Responses endpoint first.
pub fn prefers_responses_api(model: &str) -> (b: bool)
    ensures
        b == !is_image_model(model@),
{
    !image_endpoint_model(model)
}

/// The URL of `path` below `base_url`.
pub fn endpoint(base_url: &str, path: &str) -> (r: String)
    ensures
        r@ == endpoint_url(base_url@, path@),
{
    let mut out = text::trim_end_matches(text::trim(base_url), '/').to_owned();
    out.append("/");
    out.append(text::trim_start_matches(path, '/'));
    out
}

/// The key that requests carry, if one is set.
pub fn bearer_token(api: &ApiImageSettings) -> (r: Option<String>)
    ensures
        (match r {
            Some(key) => Some(key@),
            None => None,
        }) == bearer_key(*api),
{
    let key = text::trim(api.api_key.as_str());
    if key.is_empty() {
        None
    } else {
        Some(key.to_owned())
    }
}

/// How a client reaches the network, with a proxy wanted or not and the URL
/// that the proxy settings give.
pub fn proxy_choice(enabled: bool, url: Result<String, String>) -> (r: ProxyChoice)
    ensures
        r == (if !enabled {
            ProxyChoice::Off
        } else {
            match url {
                Ok(url) => ProxyChoice::Through(url),
                Err(why) => ProxyChoice::Unusable(why),
            }
        }),
{
    if !enabled {
        return ProxyChoice::Off;
    }
    match url {
        Ok(url) => ProxyChoice::Through(url),
        Err(why) => ProxyChoice::Unusable(why),
    }
}

/// The models on offer: the configured one, at medium effort.
pub fn list_models(api: &ApiImageSettings) -> (r: Vec<ModelInfo>)
    ensures
        r@.len() == 1,
        r@[0].id@ == api.model@,
        r@[0].display_name@ == api.model@,
        r@[0].default_reasoning_effort matches Some(effort) && effort@ == "medium"@,
        r@[0].supported_efforts@.len() == 1,
        r@[0].supported_efforts@[0]@ == "medium"@,
        r@[0].service_tiers@.len() == 0,
        r@[0].default_service_tier is None,
{
    let mut efforts: Vec<String> = Vec::new();
    efforts.push("medium".to_owned());
    let mut models: Vec<ModelInfo> = Vec::new();
    models.push(
        ModelInfo {
            id: api.model.clone(),
            display_name: api.model.clone(),
            default_reasoning_effort: Some("medium".to_owned()),
            supported_efforts: efforts,
            service_tiers: Vec::new(),
            default_service_tier: None,
        },
    );
    models
}

/// Neither white space around the base URL, nor slashes at the end of its trimmed
/// text, nor slashes at the start of the path change anything, however many
/// there are.
pub proof fn endpoint_ignores_boundaries(
    before: Seq<char>,
    base_url: Seq<char>,
    trailing: Seq<char>,
    after: Seq<char>,
    leading: Seq<char>,
    path: Seq<char>,
)
    requires
        text::is_blank(before),
        text::is_blank(after),
        forall|i: int| 0 <= i < trailing.len() ==> trailing[i] == '/',
        forall|i: int| 0 <= i < leading.len() ==> leading[i] == '/',
    ensures
        endpoint_url(before + base_url + after, leading + path) == endpoint_url(base_url, path),
        endpoint_url(before + (text::trimmed(base_url) + trailing) + after, leading + path)
            == endpoint_url(base_url, path),
{
    let base = text::trimmed(base_url);
    text::leading_run_is_taken_off(leading, path, '/');
    text::padding_is_trimmed(before, base_url, after);
    text::padding_is_trimmed(before, base + trailing, after);
    text::trimming_is_idempotent(base_url);
    if trailing.len() == 0 {
        assert(base + trailing =~= base);
    } else {
        let longer = base + trailing;
        assert(longer[0] == (if base.len() > 0 {
            base[0]
        } else {
            trailing[0]
        }));
        assert(longer.last() == trailing[trailing.len() - 1]);
        assert(text::trimmed(longer) == longer);
    }
    text::trailing_run_is_taken_off(base, trailing, '/');
}

/// Neither the case of its ASCII letters nor the white space around its name
/// decides whether the image endpoints serve a model.
pub proof fn model_case_does_not_matter(model: Seq<char>)
    ensures
        is_image_model(text::ascii_lowered(text::trimmed(model))) == is_image_model(model),
{
    let t = text::trimmed(model);
    let m = text::ascii_lowered(t);
    text::trimming_is_idempotent(model);
    text::lowering_keeps_trimmed(t);
    assert(text::ascii_lowered(m) =~= m);
}

/// Every model whose name holds the letters `image`, wherever they stand, or
/// begins with `dall-e`, whatever the case of its letters and the white space
/// around it, is served by the image endpoints; no other one is.
pub proof fn image_models_are_known_by_their_letters(model: Seq<char>)
    ensures
        ({
            let m = text::ascii_lowered(text::trimmed(model));
            is_image_model(model) <==> ((exists|i: int|
                0 <= i && i + 5 <= m.len() && #[trigger] m[i] == 'i' && m[i + 1] == 'm' && m[i + 2]
                    == 'a' && m[i + 3] == 'g' && m[i + 4] == 'e') || (m.len() >= 6 && m[0] == 'd'
                && m[1] == 'a' && m[2] == 'l' && m[3] == 'l' && m[4] == '-' && m[5] == 'e'))
        }),
{
    reveal_strlit("gpt-image");
    reveal_strlit("dall-e");
    reveal_strlit("image");
    let m = text::ascii_lowered(text::trimmed(model));
    if text::begins_with(m, "gpt-image"@) {
        let head = m.subrange(0, 9);
        assert(head =~= "gpt-image"@);
        assert(m[4] == head[4] && m[5] == head[5] && m[6] == head[6] && m[7] == head[7] && m[8]
            == head[8]);
    }
    if text::begins_with(m, "dall-e"@) {
        let head = m.subrange(0, 6);
        assert(head =~= "dall-e"@);
        assert(m[0] == head[0] && m[1] == head[1] && m[2] == head[2] && m[3] == head[3] && m[4]
            == head[4] && m[5] == head[5]);
    }
    if text::holds_text(m, "image"@) {
        let i = choose|i: int| text::occurs_at(m, "image"@, i);
        let at = m.subrange(i, i + 5);
        assert(at =~= "image"@);
        assert(m[i] == at[0] && m[i + 1] == at[1] && m[i + 2] == at[2] && m[i + 3] == at[3] && m[i
            + 4] == at[4]);
    }
    if exists|i: int|
        0 <= i && i + 5 <= m.len() && #[trigger] m[i] == 'i' && m[i + 1] == 'm' && m[i + 2] == 'a'
            && m[i + 3] == 'g' && m[i + 4] == 'e' {
        let i = choose|i: int|
            0 <= i && i + 5 <= m.len() && #[trigger] m[i] == 'i' && m[i + 1] == 'm' && m[i + 2]
                == 'a' && m[i + 3] == 'g' && m[i + 4] == 'e';
        assert(m.subrange(i, i + 5) =~= "image"@);
        assert(text::occurs_at(m, "image"@, i));
    }
    if m.len() >= 6 && m[0] == 'd' && m[1] == 'a' && m[2] == 'l' && m[3] == 'l' && m[4] == '-'
        && m[5] == 'e' {
        assert(m.subrange(0, 6) =~= "dall-e"@);
    }
}

/// Settings are refused exactly where the base URL or else the model is blank.
pub proof fn blank_settings_are_refused(api: ApiImageSettings)
    ensures
        text::is_blank(api.base_url@) ==> settings_fault(api) == Some(
            "API base URL is required."@,
        ),
        !text::is_blank(api.base_url@) && text::is_blank(api.model@) ==> settings_fault(api)
            == Some("API image model is required."@),
        settings_fault(api) is None <==> !text::is_blank(api.base_url@) && !text::is_blank(
            api.model@,
        ),
{
    text::blank_trims_to_nothing(api.base_url@);
    text::blank_trims_to_nothing(api.model@);
}

/// A URL is the base and the path with one slash between them, where neither
/// the base ends nor the path begins with one.
pub proof fn endpoints_join_with_one_slash(base: Seq<char>, path: Seq<char>)
    requires
        text::trimmed(base) == base,
        base.len() > 0 ==> base.last() != '/',
        path.len() > 0 ==> path[0] != '/',
    ensures
        endpoint_url(base, path) == base + seq!['/'] + path,
{
    reveal_strlit("/");
    assert("/"@ =~= seq!['/']);
}

/// A key is sent exactly where it is not blank, without the white space around
/// it.
pub proof fn keys_are_sent_unless_blank(api: ApiImageSettings)
    ensures
        bearer_key(api) is None <==> text::is_blank(api.api_key@),
        bearer_key(api) matches Some(key) ==> key == text::trimmed(api.api_key@),
{
    text::blank_trims_to_nothing(api.api_key@);
}

}
