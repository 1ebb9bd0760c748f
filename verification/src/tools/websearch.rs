//! The built-in `WebSearch` tool: a Tavily search rendered as numbered
//! results.
use vstd::prelude::*;

use crate::text::to_owned;
use crate::tool::{ToolMeta, ToolSource};
use crate::tools::tavily::DEFAULT_TAVILY_BASE_URL as BASE_URL;

verus! {

/// WebSearch's description.
pub const WEB_SEARCH_DESCRIPTION: &'static str = "Search the web for current information. Returns a list of results with title, URL and a content snippet.";

/// Web search through the Tavily API.
#[derive(Debug, Clone)]
pub struct WebSearch {
    pub base_url: String,
}

impl WebSearch {
    /// The tool against the default base URL.
    pub fn new() -> (r: Self)
        ensures
            r.base_url@ == BASE_URL@,
    {
        WebSearch { base_url: to_owned(BASE_URL) }
    }

    /// The same tool against another base URL.
    pub fn with_base_url(self, base_url: &str) -> (r: Self)
        ensures
            r.base_url@ == base_url@,
    {
        WebSearch { base_url: to_owned(base_url) }
    }

    /// The tool's name.
    pub fn name(&self) -> (r: &'static str)
        ensures
            r@ == "WebSearch"@,
    {
        "WebSearch"
    }

    /// The tool's description.
    pub fn description(&self) -> (r: &'static str)
        ensures
            r@ == WEB_SEARCH_DESCRIPTION@,
    {
        WEB_SEARCH_DESCRIPTION
    }

    /// Where the tool comes from.
    pub fn source(&self) -> (r: ToolSource)
        ensures
            r == ToolSource::Builtin,
    {
        ToolSource::Builtin
    }

    /// A built-in tool belongs to no MCP server.
    pub fn mcp_server(&self) -> (r: Option<&'static str>)
        ensures
            r is None,
    {
        None
    }

    /// The tool only reads.
    pub fn is_read_only(&self) -> (r: bool)
        ensures
            r,
    {
        true
    }

    /// What the registry knows of the tool.
    pub fn meta(&self) -> (r: ToolMeta)
        ensures
            r.name@ == "WebSearch"@,
            r.source == ToolSource::Builtin,
            r.mcp_server is None,
            r.read_only,
    {
        ToolMeta { name: to_owned("WebSearch"), source: ToolSource::Builtin, mcp_server: None, read_only: true }
    }

    /// The endpoint the tool posts to.
    pub fn search_url(&self) -> (r: String)
        ensures
            r@ == crate::tools::tavily::trim_trailing_slashes(self.base_url@) + "/search"@,
    {
        crate::tools::tavily::api_url(self.base_url.as_str(), "/search")
    }
}

impl Default for WebSearch {
    fn default() -> (r: Self)
        ensures
            r.base_url@ == BASE_URL@,
    {
        WebSearch::new()
    }
}

} // verus!
