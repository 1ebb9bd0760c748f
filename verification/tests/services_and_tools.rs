use axonerai::config::AppConfig;
use axonerai::services::{endpoint, env_keys, is_enabled, is_known, resolve_key, KNOWN_SERVICES};
use axonerai::tools::file_reader::{ListDir, ReadFile};
use axonerai::tools::file_writer::WriteFile;
use axonerai::tools::models_config::ModelsConfig;
use axonerai::tools::read_skill::ReadSkill;
use axonerai::tools::tavily_mcp::{TavilyMcpExtract, TavilyMcpSearch};

#[test]
fn known_services_are_the_four_sorted() {
    assert_eq!(KNOWN_SERVICES, ["groq", "mistral", "opencode-go", "opencode-zen"]);
    for s in KNOWN_SERVICES {
        assert!(is_known(s));
    }
    assert!(!is_known("openai"));
    assert!(!is_known("nope"));
}

#[test]
fn env_keys_gloss_zen_and_go_over_the_shared_key() {
    assert_eq!(env_keys("mistral"), Some(vec!["MISTRAL_API_KEY"]));
    assert_eq!(env_keys("groq"), Some(vec!["GROQ_API_KEY"]));
    assert_eq!(env_keys("opencode-zen"), Some(vec!["OPENCODE_ZEN_API_KEY", "OPENCODE_API_KEY"]));
    assert_eq!(env_keys("opencode-go"), Some(vec!["OPENCODE_GO_API_KEY", "OPENCODE_API_KEY"]));
    assert!(env_keys("openai").is_none());
}

#[test]
fn is_enabled_respects_the_disabled_list() {
    let disabled = vec!["groq".to_string()];
    assert!(is_enabled("mistral", &disabled));
    assert!(!is_enabled("groq", &disabled));
    assert!(is_enabled("groq", &[]));
}

#[test]
fn endpoints_distinguish_the_two_opencode_services() {
    assert_eq!(endpoint("mistral"), Some("https://api.mistral.ai/v1/chat/completions"));
    assert_eq!(endpoint("groq"), Some("https://api.groq.com/openai/v1/chat/completions"));
    let zen = endpoint("opencode-zen").unwrap();
    let go = endpoint("opencode-go").unwrap();
    assert_ne!(zen, go, "zen and go are distinct endpoints");
    let defaults = AppConfig::defaults();
    assert_eq!(defaults.endpoint("opencode-zen").ok().unwrap(), zen);
    assert_eq!(defaults.endpoint("opencode-go").ok().unwrap(), go);
    assert_eq!(defaults.endpoint("mistral").ok().unwrap(), endpoint("mistral").unwrap());
    assert_eq!(defaults.endpoint("groq").ok().unwrap(), endpoint("groq").unwrap());
}

fn lookup(pairs: &'static [(&'static str, &'static str)]) -> impl Fn(&str) -> Option<String> {
    move |k: &str| pairs.iter().find(|(n, _)| *n == k).map(|(_, v)| v.to_string())
}

#[test]
fn resolve_key_prefers_config_override() {
    assert_eq!(
        resolve_key("mistral", Some("config-key"), lookup(&[("MISTRAL_API_KEY", "env-key")])),
        Some("config-key".to_string())
    );
}

#[test]
fn resolve_key_uses_per_service_key_before_shared_fallback() {
    let find = lookup(&[("OPENCODE_ZEN_API_KEY", "zen-key"), ("OPENCODE_API_KEY", "shared")]);
    assert_eq!(resolve_key("opencode-zen", None, find), Some("zen-key".to_string()));
    assert_eq!(
        resolve_key("opencode-zen", None, lookup(&[("OPENCODE_API_KEY", "shared")])),
        Some("shared".to_string())
    );
    assert_eq!(
        resolve_key("opencode-go", None, lookup(&[("OPENCODE_API_KEY", "shared")])),
        Some("shared".to_string())
    );
}

#[test]
fn resolve_key_absent_or_empty_is_not_connected() {
    assert_eq!(resolve_key("groq", None, lookup(&[("GROQ_API_KEY", "")])), None, "empty = absent");
    assert_eq!(resolve_key("groq", None, lookup(&[])), None);
    assert_eq!(resolve_key("nope", None, lookup(&[("X", "y")])), None);
    assert_eq!(resolve_key("mistral", Some(""), lookup(&[])), None);
}

#[test]
fn descriptions_are_honest_about_the_jail() {
    let read = ReadFile::default();
    let list = ListDir::default();
    for (name, description) in [(read.name(), read.description()), (list.name(), list.description())] {
        assert!(
            description.contains("read-only")
                && description.contains("cannot write")
                && description.contains("jailed to the repo root"),
            "{name} description must be honest: {description}"
        );
    }
}

#[test]
fn read_only_defaults_true_for_both_tools() {
    assert!(ReadFile::default().is_read_only());
    assert!(ListDir::default().is_read_only());
    assert!(!WriteFile::default().is_read_only());
}

#[test]
fn description_mentions_the_scratch_jail() {
    let tool = WriteFile::default();
    let description = tool.description();
    assert!(
        description.contains(".axonerai/scratch") && description.contains("absolute paths and '..' are rejected"),
        "description must tell the model about the jail: {description}"
    );
}

#[test]
fn models_config_is_read_only() {
    assert!(ModelsConfig::new().is_read_only());
}

#[test]
fn description_points_updates_at_the_jsonc_files() {
    let description = ModelsConfig::new().description();
    assert!(
        description.contains(".axonerai/models/<provider>-models.jsonc") && description.contains("JTD-validated"),
        "description must tell the model where updates belong: {description}"
    );
}

#[test]
fn read_only_by_default_and_honest_description() {
    let tool = ReadSkill::default();
    assert!(tool.is_read_only(), "ReadSkill must be read-only");
    assert!(
        tool.description().contains("read-only") && tool.description().contains("cannot write"),
        "description must be honest: {}",
        tool.description()
    );
}

#[test]
fn facade_tools_report_their_server() {
    assert_eq!(TavilyMcpSearch::new().mcp_server(), Some("tavily"));
    assert_eq!(TavilyMcpExtract::new().mcp_server(), Some("tavily"));
}
