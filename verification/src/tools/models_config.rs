//! The read-only `ModelsConfig` tool: the agent-facing window onto the
//! per-provider model config. Input `{}` lists every provider of the
//! roster; `{"provider": "mistral"}` loads exactly that provider. Updates
//! belong in the `.axonerai/models/<provider>-models.jsonc` files.
use vstd::prelude::*;

use crate::models_config::{LoadedModels, ModelsError, ProviderModelsFile};
use crate::text::to_owned;
use crate::tool::{ToolMeta, ToolSource};

verus! {

/// The tool's description.
pub const MODELS_CONFIG_DESCRIPTION: &'static str = "Current model-cost and context-window config for every provider, loaded from .axonerai/models/<provider>-models.jsonc (user fallback ~/.axonerai/models/, local masks user). Input {} lists all providers; optional {\"provider\": \"mistral\"} filters to one. Updates belong in those files (JTD-validated schema provider_models.jdt.json) via the axonerai-models bin — never guessed or hard-coded here.";

/// The roster file the tool lists providers from.
pub const DEFAULT_ROSTER: &'static str = ".axonerai/axonerai.jsonc";

/// The models-config tool: the local dir, the user dir (`None`: the user's
/// home default) and the roster file.
#[derive(Debug, Clone)]
pub struct ModelsConfig {
    pub local: String,
    pub user: Option<String>,
    pub roster: String,
}

impl ModelsConfig {
    /// The default dirs: `.axonerai/models`, the home default, and the
    /// default roster.
    pub fn new() -> (r: ModelsConfig)
        ensures
            r.local@ == ".axonerai/models"@,
            r.user is None,
            r.roster@ == DEFAULT_ROSTER@,
    {
        ModelsConfig { local: crate::models_config::local_dir(), user: None, roster: to_owned(DEFAULT_ROSTER) }
    }

    /// Explicit dirs; the roster stays the default.
    pub fn with_dirs(local: &str, user: &str) -> (r: ModelsConfig)
        ensures
            r.local@ == local@,
            r.user is Some && r.user.unwrap()@ == user@,
            r.roster@ == DEFAULT_ROSTER@,
    {
        ModelsConfig { local: to_owned(local), user: Some(to_owned(user)), roster: to_owned(DEFAULT_ROSTER) }
    }

    /// The same tool with another roster file.
    pub fn with_roster(self, roster: &str) -> (r: ModelsConfig)
        ensures
            r.local == self.local,
            r.user == self.user,
            r.roster@ == roster@,
    {
        ModelsConfig { local: self.local, user: self.user, roster: to_owned(roster) }
    }

    /// The tool's name.
    pub fn name(&self) -> (r: &'static str)
        ensures
            r@ == "ModelsConfig"@,
    {
        "ModelsConfig"
    }

    /// The tool's description.
    pub fn description(&self) -> (r: &'static str)
        ensures
            r@ == MODELS_CONFIG_DESCRIPTION@,
    {
        MODELS_CONFIG_DESCRIPTION
    }

    /// The tool only reads.
    pub fn is_read_only(&self) -> (r: bool)
        ensures
            r,
    {
        true
    }

    /// What the registry knows of the tool.
    pub fn meta(&self) -> (r: ToolMeta)
        ensures
            r.name@ == "ModelsConfig"@,
            r.source == ToolSource::Builtin,
            r.mcp_server is None,
            r.read_only,
    {
        ToolMeta { name: to_owned("ModelsConfig"), source: ToolSource::Builtin, mcp_server: None, read_only: true }
    }
}

impl Default for ModelsConfig {
    fn default() -> (r: ModelsConfig)
        ensures
            r.local@ == ".axonerai/models"@,
            r.user is None,
            r.roster@ == DEFAULT_ROSTER@,
    {
        ModelsConfig::new()
    }
}


/// One provider's entry in the tool's output: the winning source, path and
/// config, or the reason its file could not be used.
#[derive(Debug, Clone)]
pub struct ProviderEntry {
    pub provider: String,
    pub source: Option<&'static str>,
    pub path: Option<String>,
    pub config: Option<ProviderModelsFile>,
    pub error: Option<String>,
}

/// The providers a call covers: exactly the named one when the input names
/// one, else the roster's.
pub fn providers_to_query(filter: Option<String>, roster: Vec<String>) -> (r: Vec<String>)
    ensures
        match filter {
            Some(p) => r@ == seq![p],
            None => r@ == roster@,
        },
{
    match filter {
        Some(p) => vec![p],
        None => roster,
    }
}

/// The entry for one provider once its config was resolved: a loaded file
/// gives its source, path and config; a broken one its error message; no
/// file anywhere gives no entry.
pub fn provider_entry(provider: String, outcome: Result<Option<LoadedModels>, ModelsError>) -> (r: Option<
    ProviderEntry,
>)
    ensures
        match outcome {
            Ok(None) => r is None,
            Ok(Some(loaded)) => r matches Some(e) && e.provider == provider && e.source is Some
                && e.source.unwrap()@ == crate::models_config::source_label(loaded.source) && e.path == Some(
                loaded.path) && e.config == Some(loaded.config) && e.error is None,
            Err(err) => r matches Some(e) && e.provider == provider && e.source is None && e.path is None
                && e.config is None && e.error is Some && e.error.unwrap()@ == err.message_spec(),
        },
{
    match outcome {
        Ok(None) => None,
        Ok(Some(loaded)) => Some(
            ProviderEntry {
                provider,
                source: Some(loaded.source.as_str()),
                path: Some(loaded.path),
                config: Some(loaded.config),
                error: None,
            },
        ),
        Err(err) => Some(
            ProviderEntry { provider, source: None, path: None, config: None, error: Some(err.message()) },
        ),
    }
}

} // verus!
