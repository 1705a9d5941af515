use poe2openai::chat::{Config, CustomModel, ModelConfig};
use poe2openai::http::{
    allowed_headers, base_headers, bearer_token, preflight_allowed_headers, cache_budget_bytes, get_rate_limit_ms, get_url_cache_size_mb,
    get_url_cache_ttl, is_safe_header, parse_requested_headers, rate_limit_wait, setting_or,
    AuthError,
};
use poe2openai::models::{get_models, get_models_from_api};
use poe2openai::upstream::ModelInfo;

fn model(id: &str) -> ModelInfo {
    ModelInfo { id: id.to_string(), object: "model".to_string(), created: 7, owned_by: "poe".to_string() }
}

fn rule(mapping: Option<&str>, enable: Option<bool>) -> ModelConfig {
    ModelConfig { mapping: mapping.map(|m| m.to_string()), replace_response: None, enable }
}

fn ids(models: &Vec<ModelInfo>) -> Vec<&str> {
    models.iter().map(|m| m.id.as_str()).collect()
}

#[test]
fn disabled_configuration_lists_the_catalogue_in_lower_case() {
    let mut cfg = Config::fallback();
    cfg.models.push(("gpt-4o".to_string(), rule(Some("renamed"), Some(false))));
    cfg.custom_models = Some(vec![CustomModel { id: "mine".into(), created: None, owned_by: None }]);
    let listed = get_models(&cfg, &vec![model("GPT-4o"), model("Other")], 99);
    assert_eq!(ids(&listed), vec!["gpt-4o", "other"]);
    assert_eq!(listed[0].created, 7);
    assert_eq!(ids(&get_models_from_api(&vec![model("ABC")])), vec!["abc"]);
}

#[test]
fn enabled_configuration_applies_its_rules() {
    let cfg = Config {
        enable: Some(true),
        models: vec![
            ("GPT-4o".to_string(), rule(Some("My-GPT"), None)),
            ("hidden".to_string(), rule(None, Some(false))),
            ("plain".to_string(), rule(None, Some(true))),
            ("custom-off".to_string(), rule(None, Some(false))),
        ],
        custom_models: Some(vec![
            CustomModel { id: "Extra".into(), created: Some(5), owned_by: Some("me".into()) },
            CustomModel { id: "my-gpt".into(), created: None, owned_by: None },
            CustomModel { id: "Custom-Off".into(), created: None, owned_by: None },
            CustomModel { id: "late".into(), created: None, owned_by: None },
        ]),
        api_token: None,
        use_v1_api: None,
    };
    let listed = get_models(&cfg, &vec![model("gpt-4O"), model("Hidden"), model("Plain"), model("Free")], 1234);
    assert_eq!(ids(&listed), vec!["my-gpt", "plain", "free", "extra", "late"]);
    assert_eq!(listed[0].owned_by, "poe");
    assert_eq!(listed[0].created, 7);
    assert_eq!((listed[3].object.as_str(), listed[3].created, listed[3].owned_by.as_str()), ("model", 5, "me"));
    assert_eq!((listed[4].created, listed[4].owned_by.as_str()), (1234, "poe"));
}

#[test]
fn bearer_tokens() {
    assert_eq!(bearer_token(Some("Bearer abc def")), Ok("abc def".to_string()));
    assert_eq!(bearer_token(Some("Bearer ")), Ok(String::new()));
    assert_eq!(bearer_token(Some("bearer abc")), Err(AuthError::Invalid));
    assert_eq!(bearer_token(Some("Basic abc")), Err(AuthError::Invalid));
    assert_eq!(bearer_token(None), Err(AuthError::Missing));
}

#[test]
fn safe_headers() {
    for ok in ["X-Stainless-OS", " x-api-key ", "Accept", "content-type", "Authorization", "Sec-Fetch-Mode", "pragma"] {
        assert!(is_safe_header(ok), "{}", ok);
    }
    for bad in ["", "   ", "Cookie", "set-cookie", "Host", "Content-Length", "xapi"] {
        assert!(!is_safe_header(bad), "{}", bad);
    }
}

#[test]
fn requested_headers_are_filtered_and_merged() {
    let requested =
        parse_requested_headers(Some("X-Custom, cookie, ,Content-Type ,  x-Other,Host"));
    assert_eq!(requested, vec!["X-Custom", "Content-Type", "x-Other"]);
    assert!(parse_requested_headers(None).is_empty());
    let base = vec!["Authorization".to_string(), "Content-Type".to_string()];
    assert_eq!(allowed_headers(&base, &requested), "Authorization, Content-Type, X-Custom, x-Other");
    let repeated = vec!["x-a".to_string(), "X-A".to_string()];
    assert_eq!(allowed_headers(&base, &repeated), "Authorization, Content-Type, x-a");
    assert_eq!(allowed_headers(&vec![], &vec![]), "");
}

#[test]
fn rate_limit_waits_for_the_rest_of_the_interval() {
    assert_eq!(rate_limit_wait(100, 30), 70);
    assert_eq!(rate_limit_wait(100, 100), 0);
    assert_eq!(rate_limit_wait(100, 250), 0);
    assert_eq!(rate_limit_wait(0, 0), 0);
    assert_eq!(get_rate_limit_ms(None), Some(100));
    assert_eq!(get_rate_limit_ms(Some("0")), None);
    assert_eq!(get_rate_limit_ms(Some("250")), Some(250));
    assert_eq!(get_rate_limit_ms(Some("soon")), Some(100));
}

#[test]
fn settings_fall_back_to_their_defaults() {
    assert_eq!(get_url_cache_ttl(None), 259200);
    assert_eq!(get_url_cache_ttl(Some("60")), 60);
    assert_eq!(get_url_cache_ttl(Some("-1")), 259200);
    assert_eq!(get_url_cache_size_mb(None), 100);
    assert_eq!(get_url_cache_size_mb(Some("5")), 5);
    assert_eq!(get_url_cache_size_mb(Some("five")), 100);
    assert_eq!(setting_or(Some("1073741824"), 1), 1073741824);
    assert_eq!(cache_budget_bytes(100), 104857600);
    assert_eq!(cache_budget_bytes(0), 0);
    assert_eq!(cache_budget_bytes(usize::MAX), usize::MAX);
}

#[test]
fn preflight_allows_the_base_headers_and_the_safe_requested_ones() {
    let base = base_headers();
    assert_eq!(base.len(), 18);
    assert_eq!(base[0], "Authorization");
    assert_eq!(base[17], "X-Api-Key");
    let plain = "Authorization, Content-Type, User-Agent, Accept, Origin, X-Requested-With, \
Access-Control-Request-Method, Access-Control-Request-Headers, Accept-Encoding, Accept-Language, \
Cache-Control, Connection, Referer, Sec-Fetch-Dest, Sec-Fetch-Mode, Sec-Fetch-Site, Pragma, X-Api-Key";
    assert_eq!(preflight_allowed_headers(None), plain);
    assert_eq!(
        preflight_allowed_headers(Some("x-stainless-os, Cookie, content-type")),
        format!("{}, x-stainless-os", plain)
    );
}
