use axonerai::executor::ToolExecutor;
use axonerai::models_config::{
    load_from_dirs, parse_jsonc, set_context, set_cost, Candidate, ModelCosts, ModelSource, ProviderModel,
    ProviderModelsFile,
};
use axonerai::prompt::system_prompt_from;
use axonerai::rollout::default_dir;
use axonerai::services::{provider_plan, KNOWN_SERVICES};
use axonerai::tool::{ToolMeta, ToolRegistry, ToolSource};
use axonerai::tools::calculator::Calculator;
use axonerai::tools::context7_mcp::{Context7McpGetLibraryDocs, Context7McpResolveLibraryId};
use axonerai::tools::file_reader::{ListDir, ReadFile};
use axonerai::tools::file_writer::WriteFile;
use axonerai::tools::models_config::ModelsConfig;
use axonerai::tools::tavily_mcp::{TavilyMcpExtract, TavilyMcpSearch};
use axonerai::tools::web_fetch::WebFetch;
use axonerai::tools::websearch::WebSearch;

fn dummy(name: &str, source: ToolSource) -> ToolMeta {
    ToolMeta { name: name.to_string(), source, mcp_server: None, read_only: true }
}

fn write_dummy(name: &str) -> ToolMeta {
    ToolMeta { name: name.to_string(), source: ToolSource::Builtin, mcp_server: None, read_only: false }
}

#[test]
fn default_budget_is_item54_default() {
    let registry = ToolRegistry::new();
    let executor = ToolExecutor::new(&registry);
    assert_eq!(executor.max_rounds(), 25);
    assert_eq!(executor.rounds(), 0);
    assert!(executor.round_available(), "a fresh run has budget left");
}

#[test]
fn begin_round_consumes_budget_until_exhausted() {
    let registry = ToolRegistry::new();
    let mut executor = ToolExecutor::new(&registry);
    executor.set_max_rounds(3);
    assert_eq!(executor.max_rounds(), 3, "the configured budget wins");
    for _ in 0..3 {
        assert!(executor.round_available());
        executor.begin_round();
    }
    assert_eq!(executor.rounds(), 3);
    assert!(!executor.round_available(), "the budget is exhausted after N rounds");
}

#[test]
fn set_max_rounds_never_yields_zero() {
    let registry = ToolRegistry::new();
    let mut executor = ToolExecutor::new(&registry);
    executor.set_max_rounds(0);
    assert_eq!(executor.max_rounds(), 1, "a budget of 0 clamps to 1");
    executor.begin_round();
    assert!(!executor.round_available());
}

#[test]
fn default_prompt_is_embedded() {
    let prompt = system_prompt_from(None);
    assert!(prompt.contains("helpful assistant"));
}

#[test]
fn loaded_prompt_includes_the_builtin_skill_append() {
    let prompt = system_prompt_from(None);
    assert!(prompt.contains("helpful assistant"), "base intact");
    assert!(prompt.contains("deep research mode"), "builtin skill patch composed: {prompt}");
    assert!(prompt.ends_with("prefer saved evidence over memory."), "the append is last: ...{prompt}");
}

#[test]
fn default_dir_is_axonerai_sessions() {
    assert_eq!(default_dir(), ".axonerai/sessions");
}

#[test]
fn build_provider_maps_every_known_service_and_rejects_unknown() {
    for service in KNOWN_SERVICES {
        assert!(provider_plan(service, "model", None).is_ok(), "{service} builds");
    }
    assert!(provider_plan("openai", "model", None).is_ok());
    assert!(provider_plan("nope", "model", None).is_err());
}

#[test]
fn build_provider_config_endpoint_overrides_canonical() {
    assert!(provider_plan("opencode-zen", "m", Some("http://stub/v1")).is_ok());
}

#[test]
fn into_read_only_keeps_only_is_read_only_tools() {
    let mut registry = ToolRegistry::new();
    registry.register(dummy("Calc", ToolSource::Builtin));
    registry.register(dummy("tavily_search", ToolSource::Mcp));
    registry.register(write_dummy("write_file"));
    assert_eq!(registry.list_tools().len(), 3);
    let read_only = registry.into_read_only();
    let names = read_only.list_tools();
    assert_eq!(names.len(), 2);
    assert!(names.contains(&"Calc".to_string()));
    assert!(names.contains(&"tavily_search".to_string()));
    assert!(!names.contains(&"write_file".to_string()));
    assert!(read_only.get("write_file").is_none());
    assert!(read_only.get("Calc").is_some());
}

#[test]
fn into_read_only_filters_the_real_registry() {
    let mut registry = ToolRegistry::new();
    registry.register(Calculator.meta());
    registry.register(WriteFile::default().meta());
    registry.register(ReadFile::default().meta());
    registry.register(ListDir::default().meta());
    registry.register(ModelsConfig::new().meta());
    registry.register(WebSearch::new().meta());
    registry.register(WebFetch::new().meta());
    registry.register(TavilyMcpSearch::new().meta());
    registry.register(TavilyMcpExtract::new().meta());
    registry.register(Context7McpResolveLibraryId::new().meta());
    registry.register(Context7McpGetLibraryDocs::new().meta());
    let all_names = registry.list_tools();
    assert_eq!(all_names.len(), 11, "precondition: all registered");
    assert!(all_names.contains(&"write_file".to_string()));
    let read_only = registry.into_read_only();
    let names = read_only.list_tools();
    assert_eq!(names.len(), 10, "only write_file dropped");
    assert!(!names.contains(&"write_file".to_string()));
    for expected in [
        "calculator",
        "ReadFile",
        "ListDir",
        "ModelsConfig",
        "WebSearch",
        "WebFetch",
        "tavily_search",
        "tavily_extract",
        "context7_resolve_library_id",
        "context7_get_library_docs",
    ] {
        assert!(names.contains(&expected.to_string()), "read tool `{expected}` must survive the filter");
    }
    let for_llm = read_only.visible_tool_names();
    assert_eq!(for_llm.len(), 10);
    assert!(!for_llm.iter().any(|t| t == "write_file"));
}

#[test]
fn into_read_only_carries_suppression_state_over() {
    let mut registry = ToolRegistry::new();
    registry.register(dummy("Calc", ToolSource::Builtin));
    registry.register(write_dummy("write_file"));
    registry.set_suppressed("Calc", false);
    let read_only = registry.into_read_only();
    assert!(read_only.is_suppressed("Calc"));
    assert!(read_only.visible_tool_names().is_empty());
}

#[test]
fn default_source_is_builtin() {
    let mut registry = ToolRegistry::new();
    registry.register(dummy("Calc", ToolSource::Builtin));
    let infos = registry.list_tools_info();
    assert_eq!(infos.len(), 1);
    assert_eq!(infos[0].name, "Calc");
    assert!(infos[0].enabled);
    assert_eq!(infos[0].source, ToolSource::Builtin);
}

#[test]
fn get_all_for_llm_skips_suppressed_tools() {
    let mut registry = ToolRegistry::new();
    registry.register(dummy("Calc", ToolSource::Builtin));
    registry.register(dummy("tavily_search", ToolSource::Mcp));
    assert_eq!(registry.visible_tool_names().len(), 2);
    registry.set_suppressed("Calc", false);
    assert!(registry.is_suppressed("Calc"));
    let for_llm = registry.visible_tool_names();
    assert_eq!(for_llm.len(), 1);
    assert_eq!(for_llm[0], "tavily_search");
    registry.set_suppressed("Calc", true);
    assert!(!registry.is_suppressed("Calc"));
    assert_eq!(registry.visible_tool_names().len(), 2);
}

#[test]
fn list_tools_info_reports_enabled_state_and_sources() {
    let mut registry = ToolRegistry::new();
    registry.register(dummy("WebSearch", ToolSource::Builtin));
    registry.register(dummy("tavily_search", ToolSource::Mcp));
    registry.register(dummy("tavily_extract", ToolSource::Mcp));
    registry.set_suppressed("tavily_search", false);
    let infos = registry.list_tools_info();
    assert_eq!(infos.len(), 3);
    let names: Vec<&str> = infos.iter().map(|i| i.name.as_str()).collect();
    assert_eq!(names, vec!["WebSearch", "tavily_extract", "tavily_search"]);
    let by_name = |name: &str| infos.iter().find(|i| i.name == name).unwrap();
    assert!(by_name("WebSearch").enabled);
    assert_eq!(by_name("WebSearch").source, ToolSource::Builtin);
    assert!(!by_name("tavily_search").enabled);
    assert_eq!(by_name("tavily_search").source, ToolSource::Mcp);
    assert!(by_name("tavily_extract").enabled);
    assert_eq!(by_name("tavily_extract").source, ToolSource::Mcp);
}

#[test]
fn suppressed_names_is_sorted_for_persistence() {
    let mut registry = ToolRegistry::new();
    registry.register(dummy("WebSearch", ToolSource::Builtin));
    registry.register(dummy("tavily_search", ToolSource::Mcp));
    registry.set_suppressed("tavily_search", false);
    registry.set_suppressed("WebSearch", false);
    assert_eq!(registry.suppressed_names(), vec!["WebSearch".to_string(), "tavily_search".to_string()]);
}

#[test]
fn mcp_servers_lists_sorted_deduped_builtin_only_servers() {
    let mut registry = ToolRegistry::new();
    registry.register(dummy("Calc", ToolSource::Builtin));
    registry.register(dummy("orphan", ToolSource::Mcp));
    assert!(registry.mcp_servers().is_empty(), "no tool reports a server yet");
    registry.register(TavilyMcpSearch::new().meta());
    registry.register(TavilyMcpExtract::new().meta());
    registry.register(Context7McpResolveLibraryId::new().meta());
    registry.register(Context7McpGetLibraryDocs::new().meta());
    assert_eq!(registry.mcp_servers(), vec!["context7".to_string(), "tavily".to_string()]);
}

#[test]
fn set_mcp_suppressed_disables_only_that_servers_tools() {
    let mut registry = ToolRegistry::new();
    registry.register(dummy("WebSearch", ToolSource::Builtin));
    registry.register(TavilyMcpSearch::new().meta());
    registry.register(TavilyMcpExtract::new().meta());
    registry.register(Context7McpResolveLibraryId::new().meta());
    assert_eq!(registry.visible_tool_names().len(), 4);
    registry.set_mcp_suppressed("tavily", false);
    let for_llm = registry.visible_tool_names();
    assert_eq!(for_llm.len(), 2);
    assert!(for_llm.contains(&"WebSearch".to_string()));
    assert!(for_llm.contains(&"context7_resolve_library_id".to_string()));
    assert!(registry.is_suppressed("tavily_search"));
    assert!(registry.is_suppressed("tavily_extract"));
    assert!(!registry.is_suppressed("context7_resolve_library_id"));
    assert!(!registry.mcp_server_enabled("tavily"));
    assert!(registry.mcp_server_enabled("context7"));
    registry.set_mcp_suppressed("tavily", true);
    assert_eq!(registry.visible_tool_names().len(), 4);
    assert!(!registry.is_suppressed("tavily_search"));
    assert!(registry.mcp_server_enabled("tavily"));
}

#[test]
fn set_mcp_suppressed_unknown_server_is_noop() {
    let mut registry = ToolRegistry::new();
    registry.register(TavilyMcpSearch::new().meta());
    registry.set_mcp_suppressed("not-a-server", false);
    registry.set_mcp_suppressed("", false);
    assert_eq!(registry.visible_tool_names().len(), 1);
    assert!(registry.mcp_server_enabled("tavily"));
}

#[test]
fn default_mcp_server_is_none() {
    let mut registry = ToolRegistry::new();
    registry.register(dummy("orphan", ToolSource::Mcp));
    registry.set_mcp_suppressed("tavily", false);
    assert_eq!(registry.visible_tool_names().len(), 1);
    assert!(registry.mcp_servers().is_empty());
}

#[test]
fn tools_survive_the_read_only_filter() {
    let mut registry = ToolRegistry::new();
    registry.register(Context7McpResolveLibraryId::new().meta());
    registry.register(Context7McpGetLibraryDocs::new().meta());
    registry.register(WriteFile::default().meta());
    let read_only = registry.into_read_only();
    let names = read_only.list_tools();
    assert!(names.contains(&"context7_resolve_library_id".to_string()));
    assert!(names.contains(&"context7_get_library_docs".to_string()));
    assert!(!names.contains(&"write_file".to_string()));
}

fn glm(context_window: u32) -> ProviderModelsFile {
    ProviderModelsFile {
        provider: "mistral".into(),
        updated: "2026-09-03".into(),
        models: vec![ProviderModel {
            id: "zai-glm-5-2".into(),
            display: "GLM-5.2".into(),
            context_window,
            costs: Some(ModelCosts {
                input_per_mtok: Some("$0.50".into()),
                output_per_mtok: Some("$1.50".into()),
            }),
            offer: None,
        }],
    }
}

fn declaring(provider: &str) -> ProviderModelsFile {
    let mut f = glm(131072);
    f.provider = provider.into();
    f
}

#[test]
fn local_masks_user() {
    let loaded = load_from_dirs(
        "local/mistral-models.jsonc",
        Candidate::Parsed(glm(32768)),
        "user/mistral-models.jsonc",
        Candidate::Parsed(glm(131072)),
        "mistral",
    )
    .ok()
    .flatten()
    .expect("a config exists in both dirs");
    assert_eq!(loaded.source, ModelSource::Local);
    assert_eq!(loaded.config.models[0].context_window, 32768);
    assert_eq!(loaded.context_window("zai-glm-5-2"), Some(32768));
}

#[test]
fn user_dir_used_when_local_missing() {
    let loaded = load_from_dirs("l", Candidate::Missing, "u", Candidate::Parsed(glm(131072)), "mistral")
        .ok()
        .flatten()
        .expect("user config falls through");
    assert_eq!(loaded.source, ModelSource::User);
    assert_eq!(loaded.config.models[0].context_window, 131072);
}

#[test]
fn missing_dirs_and_files_are_empty_safe() {
    let loaded = load_from_dirs("l", Candidate::Missing, "u", Candidate::Missing, "mistral");
    assert!(matches!(loaded, Ok(None)), "no file → None, never a crash");
}

#[test]
fn jsonc_comments_and_trailing_commas_parse() {
    let raw = r#"{
        // Per-provider model facts. Local masks user.
        "provider": "mistral",
        "updated": "2026-09-03",
        "models": [
            {
                "id": "zai-glm-5-2",
                "display": "GLM-5.2",
                // tokens
                "context_window": 131072,
                "costs": {
                    "input_per_mtok": "$0.50",
                    "output_per_mtok": "$1.50",
                },
            },
        ],
    }"#;
    let value: serde_json::Value = serde_json::from_str(&parse_jsonc(raw)).expect("valid JSON");
    assert_eq!(value["provider"], "mistral");
    assert_eq!(value["models"].as_array().map(|m| m.len()), Some(1));
    assert_eq!(value["models"][0]["id"], "zai-glm-5-2");
    assert_eq!(value["models"][0]["costs"]["input_per_mtok"], "$0.50");
}

#[test]
fn provider_mismatch_fails() {
    let err = load_from_dirs("local/mistral-models.jsonc", Candidate::Parsed(declaring("groq")), "u", Candidate::Missing, "mistral")
        .err()
        .expect("mismatch");
    assert!(err.message().contains("declares provider 'groq'"), "file provider must match");
}

#[test]
fn set_cost_backs_up_then_updates_the_file() {
    let epoch = 1_788_393_600u64;
    let config = set_cost(glm(131072), "zai-glm-5-2", "$0.40", "$1.20", epoch).ok().expect("known model");
    let costs = config.models[0].costs.as_ref().unwrap();
    assert_eq!(costs.input_per_mtok, Some("$0.40".to_string()));
    assert_eq!(costs.output_per_mtok, Some("$1.20".to_string()));
    assert_eq!(config.updated, "2026-09-03", "mutations stamp updated");
}

#[test]
fn set_context_updates_the_window_and_keeps_costs() {
    let config = set_context(glm(131072), "zai-glm-5-2", 65536, 1_725_000_300).ok().expect("known model");
    assert_eq!(config.models[0].context_window, 65536);
    assert!(config.models[0].costs.is_some(), "unrelated fields survive the mutation");
}
