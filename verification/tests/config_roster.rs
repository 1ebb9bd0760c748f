use axonerai::config::{strip_jsonc_comments, AppConfig, ConfigError, KeySource};
use axonerai::services::{provider_plan, ProviderPlan};
use axonerai::settings::{settings_json, Settings};

#[test]
fn jsonc_line_and_block_comments_are_stripped() {
    assert_eq!(strip_jsonc_comments("{\"a\": 1 // note\n}"), "{\"a\": 1 \n}");
    assert_eq!(strip_jsonc_comments("{/* x */\"a\": 1}"), "{\"a\": 1}");
    assert_eq!(strip_jsonc_comments("[1, /* multi\nline */ 2]"), "[1,  2]");
}

#[test]
fn jsonc_comment_markers_inside_strings_are_kept() {
    let s = "{\"url\": \"https://x.y/*z*/\", \"q\": \"a\\\"//b\"}";
    assert_eq!(strip_jsonc_comments(s), s);
}

#[test]
fn jsonc_without_slash_is_unchanged() {
    let s = "{\"k\": [1, 2, {\"x\": \"y\"}]}\n";
    assert_eq!(strip_jsonc_comments(s), s);
}

#[test]
fn settings_text_is_comment_stripped() {
    assert_eq!(settings_json("// settings\n{}"), "\n{}");
    let d = Settings::default();
    assert!(d.suppressed_tools.is_empty() && d.disabled_services.is_empty());
    assert!(!d.mcp_toggle_persist);
}

#[test]
fn default_roster_lists_the_four_providers() {
    let c = AppConfig::defaults();
    assert_eq!(c.default_provider, "mistral");
    assert_eq!(c.default_model, "zai-glm-5-2");
    assert_eq!(c.provider_names(), vec!["mistral", "opencode-zen", "opencode-go", "groq"]);
}

#[test]
fn roster_lookups_answer_each_provider() {
    let c = AppConfig::defaults();
    assert_eq!(c.default_model_id("groq").ok(), Some("openai/gpt-oss-120b"));
    assert_eq!(c.default_model_id("opencode-zen").ok(), Some("glm-5.2"));
    match c.key_source("mistral") {
        Ok(KeySource::EnvVar(v)) => assert_eq!(v, "MISTRAL_API_KEY"),
        _ => panic!("mistral reads its key from the environment"),
    }
    let m = c.find_model("opencode-go", "glm-5.3").ok().expect("listed model");
    assert_eq!(m.id, "glm-5.3");
}

#[test]
fn roster_errors_name_the_provider_and_model() {
    let c = AppConfig::defaults();
    match c.endpoint("nope") {
        Err(ConfigError::UnknownProvider { provider }) => assert_eq!(provider, "nope"),
        _ => panic!("unknown provider"),
    }
    match c.find_model("groq", "missing") {
        Err(ConfigError::ModelNotFound { provider, model }) => {
            assert_eq!(provider, "groq");
            assert_eq!(model, "missing");
        }
        _ => panic!("model not found"),
    }
    match c.key_source("nope") {
        Err(ConfigError::UnknownProvider { provider }) => assert_eq!(provider, "nope"),
        _ => panic!("unknown provider"),
    }
}

#[test]
fn no_models_is_reported_when_nothing_is_listed() {
    let mut c = AppConfig::defaults();
    c.providers[3].1.default_model = None;
    c.providers[3].1.models.clear();
    match c.default_model_id("groq") {
        Err(ConfigError::NoModels { provider }) => assert_eq!(provider, "groq"),
        _ => panic!("no models"),
    }
}

#[test]
fn configured_key_wins_over_the_env_var() {
    let mut c = AppConfig::defaults();
    c.providers[0].1.api_key = Some("k".to_string());
    match c.key_source("mistral") {
        Ok(KeySource::Configured(k)) => assert_eq!(k, "k"),
        _ => panic!("configured key"),
    }
}

#[test]
fn provider_plan_keeps_or_overrides_the_model() {
    match provider_plan("groq", "", None) {
        Ok(ProviderPlan::Groq { model }) => assert!(model.is_none()),
        _ => panic!("groq"),
    }
    match provider_plan("mistral", "m1", None) {
        Ok(ProviderPlan::Mistral { model }) => assert_eq!(model.as_deref(), Some("m1")),
        _ => panic!("mistral"),
    }
    match provider_plan("openai", "gpt", None) {
        Ok(ProviderPlan::OpenAi { model }) => assert_eq!(model.as_deref(), Some("gpt")),
        _ => panic!("openai"),
    }
}

#[test]
fn provider_plan_opencode_endpoints() {
    match provider_plan("opencode-zen", "glm-5.2", None) {
        Ok(ProviderPlan::OpenCode { endpoint, model }) => {
            assert_eq!(endpoint, "https://opencode.ai/zen/v1/chat/completions");
            assert_eq!(model, "glm-5.2");
        }
        _ => panic!("zen"),
    }
    match provider_plan("opencode-go", "", Some("")) {
        Ok(ProviderPlan::OpenCode { endpoint, .. }) => {
            assert_eq!(endpoint, "https://opencode.ai/zen/go/v1/chat/completions")
        }
        _ => panic!("go"),
    }
    match provider_plan("opencode-go", "x", Some("http://local/v1")) {
        Ok(ProviderPlan::OpenCode { endpoint, .. }) => assert_eq!(endpoint, "http://local/v1"),
        _ => panic!("configured endpoint"),
    }
}

#[test]
fn provider_plan_rejects_unknown_services() {
    match provider_plan("nope", "m", None) {
        Err(e) => assert_eq!(e, "unknown service: nope"),
        Ok(_) => panic!("unknown service must fail"),
    }
}

#[test]
fn roster_error_messages() {
    let c = AppConfig::defaults();
    assert_eq!(c.endpoint("nope").err().map(|e| e.message()).as_deref(), Some("unknown provider: nope"));
    assert_eq!(
        c.find_model("groq", "m").err().map(|e| e.message()).as_deref(),
        Some("model 'm' not found in provider 'groq'")
    );
    assert_eq!(
        ConfigError::NoModels { provider: "x".into() }.message(),
        "no models configured for provider 'x'"
    );
}
