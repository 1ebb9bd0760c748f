//! Local settings persisted to `.axonerai/settings.jsonc` (JSONC: comments
//! are stripped on load; the plain JSON written on save is valid JSONC): the
//! suppressed tools, the MCP persistence flag and list, and the disabled
//! built-in skills and services.
use vstd::prelude::*;

use crate::config::{strip_comments_spec, strip_jsonc_comments};

verus! {

/// Where the settings live, relative to the current directory.
pub const DEFAULT_SETTINGS_PATH: &'static str = ".axonerai/settings.jsonc";

/// User-level tool settings.
#[derive(Debug, Clone)]
pub struct Settings {
    /// Tools the user switched off.
    pub suppressed_tools: Vec<String>,
    /// When set, switching an MCP server off also persists it in
    /// `disabled_mcp_servers`.
    pub mcp_toggle_persist: bool,
    /// MCP servers persisted as disabled.
    pub disabled_mcp_servers: Vec<String>,
    /// Built-in skills switched off by name.
    pub disabled_skills: Vec<String>,
    /// Services switched off by short name, even when their key is present.
    pub disabled_services: Vec<String>,
}

impl Default for Settings {
    /// Nothing suppressed, nothing disabled, MCP toggles not persisted.
    fn default() -> (r: Settings)
        ensures
            r.suppressed_tools@.len() == 0,
            !r.mcp_toggle_persist,
            r.disabled_mcp_servers@.len() == 0,
            r.disabled_skills@.len() == 0,
            r.disabled_services@.len() == 0,
    {
        Settings {
            suppressed_tools: Vec::new(),
            mcp_toggle_persist: false,
            disabled_mcp_servers: Vec::new(),
            disabled_skills: Vec::new(),
            disabled_services: Vec::new(),
        }
    }
}

/// The JSON text of a settings file: its comments stripped.
pub fn settings_json(raw: &str) -> (r: String)
    ensures
        r@ == strip_comments_spec(raw@),
{
    strip_jsonc_comments(raw)
}

} // verus!
