use axonerai::models_schema::{validate_models_json, validate_models_text};

fn valid_json() -> String {
    r#"{"provider": "mistral", "updated": "2026-09-03", "models": [{"id": "zai-glm-5-2", "display": "GLM-5.2", "context_window": 131072, "costs": {"input_per_mtok": "$0.50", "output_per_mtok": "$1.50"}}]}"#
        .to_string()
}

fn valid_jsonc(provider: &str, context_window: u32) -> String {
    format!(
        r#"{{
        // Per-provider model facts. Local masks user.
        "provider": "{provider}",
        "updated": "2026-09-03",
        "models": [
            {{
                "id": "zai-glm-5-2",
                "display": "GLM-5.2",
                // tokens
                "context_window": {context_window},
                "costs": {{
                    "input_per_mtok": "$0.50",
                    "output_per_mtok": "$1.50",
                }},
            }},
        ],
    }}"#
    )
}

#[test]
fn schema_accepts_a_valid_instance() {
    assert!(validate_models_json(&valid_json()).is_ok());
}

#[test]
fn schema_accepts_minimal_instance_with_offer() {
    let value = r#"{"provider": "opencode-zen", "updated": "2026-09-03", "models": [{"id": "glm-5.2", "display": "GLM 5.2", "context_window": 1, "offer": "2x usage"}]}"#;
    assert!(validate_models_json(value).is_ok());
}

#[test]
fn schema_rejects_price_as_number_where_string_expected() {
    let bad = valid_json().replace(r#""input_per_mtok": "$0.50""#, r#""input_per_mtok": 0.5"#);
    assert!(validate_models_json(&bad).is_err(), "numeric cost must fail");
}

#[test]
fn schema_rejects_unknown_extra_field() {
    let bad = valid_json().replace(r#""display": "GLM-5.2","#, r#""display": "GLM-5.2", "unexpected": "nope","#);
    assert!(validate_models_json(&bad).is_err(), "extra field must fail");
}

#[test]
fn schema_rejects_missing_context_window() {
    let bad = valid_json().replace(r#""context_window": 131072, "#, "");
    assert!(validate_models_json(&bad).is_err());
}

#[test]
fn schema_rejects_context_window_overflow() {
    let bad = valid_json().replace("131072", "4294967296");
    assert!(validate_models_json(&bad).is_err(), "uint32 overflow must fail");
}

#[test]
fn price_as_number_where_string_expected_fails() {
    let body = r#"{
        "provider": "mistral",
        "updated": "2026-09-03",
        "models": [{
            "id": "zai-glm-5-2",
            "display": "GLM-5.2",
            "context_window": 131072,
            "costs": {"input_per_mtok": 0.5, "output_per_mtok": "1.5"}
        }]
    }"#;
    let err = validate_models_text(body).unwrap_err();
    assert!(err.contains("JTD"), "the failure must be a schema violation: {err}");
}

#[test]
fn unknown_extra_field_fails() {
    let body = r#"{
        "provider": "mistral",
        "updated": "2026-09-03",
        "models": [{
            "id": "zai-glm-5-2",
            "display": "GLM-5.2",
            "context_window": 131072,
            "unexpected": true
        }]
    }"#;
    let err = validate_models_text(body).unwrap_err();
    assert!(err.contains("JTD"), "extra field must fail JTD: {err}");
}

#[test]
fn missing_context_window_fails() {
    let body = r#"{
        "provider": "mistral",
        "updated": "2026-09-03",
        "models": [{"id": "x", "display": "X"}]
    }"#;
    assert!(validate_models_text(body).is_err());
}

#[test]
fn jsonc_laxity_is_removed_before_validation() {
    assert_eq!(validate_models_text(&valid_jsonc("mistral", 131072)), Ok(()));
}
