use axonerai::models_config::{
    fetch_diff, fetch_endpoint, iso_date_from_epoch_secs, FetchedModel, ProviderModel, ProviderModelsFile,
};
use axonerai::rollout::{abridge, is_session_id};

fn model(id: &str, display: &str, context_window: u32) -> ProviderModel {
    ProviderModel { id: id.into(), display: display.into(), context_window, costs: None, offer: None }
}

#[test]
fn iso_date_from_epoch_secs_formats_utc_dates() {
    assert_eq!(iso_date_from_epoch_secs(0), "1970-01-01");
    assert_eq!(iso_date_from_epoch_secs(1_788_393_600), "2026-09-03");
    assert_eq!(iso_date_from_epoch_secs(1_709_164_800), "2024-02-29");
}

#[test]
fn fetch_diff_reports_only_known_models_with_changed_windows() {
    let config = ProviderModelsFile {
        provider: "mistral".into(),
        updated: "2026-09-03".into(),
        models: vec![model("a", "A", 100), model("b", "B", 200)],
    };
    let fetched = vec![
        FetchedModel { id: "a".into(), max_context_length: Some(128) },
        FetchedModel { id: "unknown".into(), max_context_length: Some(999) },
        FetchedModel { id: "b".into(), max_context_length: Some(200) },
        FetchedModel { id: "c".into(), max_context_length: None },
    ];
    assert_eq!(fetch_diff(&config, &fetched), vec![("a".to_string(), 100, 128)]);
}

#[test]
fn fetch_endpoint_only_maps_documented_providers() {
    assert!(fetch_endpoint("mistral").is_some());
    assert!(fetch_endpoint("opencode-zen").is_none());
    assert!(fetch_endpoint("opencode-go").is_none());
    assert!(fetch_endpoint("groq").is_none());
}

#[test]
fn abridge_truncates_and_never_splits_nul() {
    assert_eq!(abridge("short", 10), "short");
    assert_eq!(abridge("exact-len", 9), "exact-len");

    let long = "x".repeat(50);
    let out = abridge(&long, 10);
    assert_eq!(out.chars().count(), 10);
    assert!(out.ends_with('…'));
    assert_eq!(out.chars().take(9).collect::<String>(), "x".repeat(9));

    let with_nul = format!("a\0{}", "y".repeat(20));
    let out = abridge(&with_nul, 5);
    assert!(out.contains('\0'), "embedded \\0 must remain intact: {out:?}");
    assert_eq!(out.chars().count(), 5);

    let multi = "é".repeat(20);
    let out = abridge(&multi, 4);
    assert_eq!(out.chars().count(), 4);
    assert!(out.ends_with('…'));
}

#[test]
fn is_session_id_accepts_lowercase_v7() {
    assert!(is_session_id("01890a5d-ac96-774b-bcce-b302099a8057"));
    assert!(is_session_id("ffffffff-ffff-7fff-abcd-0123456789ab"));
}

#[test]
fn is_session_id_rejects_adversarial_shapes() {
    assert!(!is_session_id("550e8400-e29b-41d4-a716-446655440000"));
    assert!(!is_session_id("01890A5D-AC96-774B-BCCE-B302099A8057"));
    assert!(!is_session_id("01890a5d-ac96-774b-bcce-b302099a805"));
    assert!(!is_session_id("01890a5d-ac96-774b-bcce-b302099a80577"));
    assert!(!is_session_id("01890a5dac96774bbcceb302099a8057"));
    assert!(!is_session_id("../../etc/passwd"));
    assert!(!is_session_id("..\\..\\x"));
    assert!(!is_session_id(""));
    assert!(!is_session_id("sess_1"));
    assert!(!is_session_id("01890a5d-ac96-774b-0cce-b302099a8057"));
    assert!(!is_session_id("01890a5d-ac96-774b-cce-b302099a8057"));
    assert!(!is_session_id("01890a5d-ac96-674b-bcce-b302099a8057"));
}
