//! The Tavily MCP facade: built-in tools dressed as a Tavily MCP server's
//! tools (`tavily_search`, `tavily_extract`). There is no MCP host process:
//! they call the Tavily REST API directly, with the same request and
//! rendering rules as WebSearch and WebFetch.
use vstd::prelude::*;

use crate::text::to_owned;
use crate::tool::{ToolMeta, ToolSource};
use crate::tools::tavily::DEFAULT_TAVILY_BASE_URL as BASE_URL;

verus! {

/// TavilyMcpSearch's description.
pub const TAVILY_SEARCH_DESCRIPTION: &'static str = "Part of the Tavily MCP server. Search the web for current information. Prefer this tool when the user explicitly asks for a Tavily search (e.g. \"do a tavily search …\"). Returns a list of results with title, URL and a content snippet.";

/// The Tavily MCP server's search tool.
#[derive(Debug, Clone)]
pub struct TavilyMcpSearch {
    pub base_url: String,
}

impl TavilyMcpSearch {
    /// The tool against the default base URL.
    pub fn new() -> (r: Self)
        ensures
            r.base_url@ == BASE_URL@,
    {
        TavilyMcpSearch { base_url: to_owned(BASE_URL) }
    }

    /// The same tool against another base URL.
    pub fn with_base_url(self, base_url: &str) -> (r: Self)
        ensures
            r.base_url@ == base_url@,
    {
        TavilyMcpSearch { base_url: to_owned(base_url) }
    }

    /// The tool's name.
    pub fn name(&self) -> (r: &'static str)
        ensures
            r@ == "tavily_search"@,
    {
        "tavily_search"
    }

    /// The tool's description.
    pub fn description(&self) -> (r: &'static str)
        ensures
            r@ == TAVILY_SEARCH_DESCRIPTION@,
    {
        TAVILY_SEARCH_DESCRIPTION
    }

    /// Where the tool comes from.
    pub fn source(&self) -> (r: ToolSource)
        ensures
            r == ToolSource::Mcp,
    {
        ToolSource::Mcp
    }

    /// The MCP server the tool belongs to.
    pub fn mcp_server(&self) -> (r: Option<&'static str>)
        ensures
            r is Some && r.unwrap()@ == "tavily"@,
    {
        Some("tavily")
    }

    /// The tool only reads.
    pub fn is_read_only(&self) -> (r: bool)
        ensures
            r,
    {
        true
    }

    /// What the registry knows of the tool.
    pub fn meta(&self) -> (r: ToolMeta)
        ensures
            r.name@ == "tavily_search"@,
            r.source == ToolSource::Mcp,
            r.mcp_server is Some && r.mcp_server.unwrap()@ == "tavily"@,
            r.read_only,
    {
        ToolMeta { name: to_owned("tavily_search"), source: ToolSource::Mcp, mcp_server: Some(to_owned("tavily")), read_only: true }
    }

    /// The endpoint the tool posts to.
    pub fn search_url(&self) -> (r: String)
        ensures
            r@ == crate::tools::tavily::trim_trailing_slashes(self.base_url@) + "/search"@,
    {
        crate::tools::tavily::api_url(self.base_url.as_str(), "/search")
    }
}

impl Default for TavilyMcpSearch {
    fn default() -> (r: Self)
        ensures
            r.base_url@ == BASE_URL@,
    {
        TavilyMcpSearch::new()
    }
}

/// TavilyMcpExtract's description.
pub const TAVILY_EXTRACT_DESCRIPTION: &'static str = "Part of the Tavily MCP server. Fetch the contents of a web page URL and return the extracted text. Prefer this tool when the user explicitly asks for a Tavily extract.";

/// The Tavily MCP server's extract tool.
#[derive(Debug, Clone)]
pub struct TavilyMcpExtract {
    pub base_url: String,
}

impl TavilyMcpExtract {
    /// The tool against the default base URL.
    pub fn new() -> (r: Self)
        ensures
            r.base_url@ == BASE_URL@,
    {
        TavilyMcpExtract { base_url: to_owned(BASE_URL) }
    }

    /// The same tool against another base URL.
    pub fn with_base_url(self, base_url: &str) -> (r: Self)
        ensures
            r.base_url@ == base_url@,
    {
        TavilyMcpExtract { base_url: to_owned(base_url) }
    }

    /// The tool's name.
    pub fn name(&self) -> (r: &'static str)
        ensures
            r@ == "tavily_extract"@,
    {
        "tavily_extract"
    }

    /// The tool's description.
    pub fn description(&self) -> (r: &'static str)
        ensures
            r@ == TAVILY_EXTRACT_DESCRIPTION@,
    {
        TAVILY_EXTRACT_DESCRIPTION
    }

    /// Where the tool comes from.
    pub fn source(&self) -> (r: ToolSource)
        ensures
            r == ToolSource::Mcp,
    {
        ToolSource::Mcp
    }

    /// The MCP server the tool belongs to.
    pub fn mcp_server(&self) -> (r: Option<&'static str>)
        ensures
            r is Some && r.unwrap()@ == "tavily"@,
    {
        Some("tavily")
    }

    /// The tool only reads.
    pub fn is_read_only(&self) -> (r: bool)
        ensures
            r,
    {
        true
    }

    /// What the registry knows of the tool.
    pub fn meta(&self) -> (r: ToolMeta)
        ensures
            r.name@ == "tavily_extract"@,
            r.source == ToolSource::Mcp,
            r.mcp_server is Some && r.mcp_server.unwrap()@ == "tavily"@,
            r.read_only,
    {
        ToolMeta { name: to_owned("tavily_extract"), source: ToolSource::Mcp, mcp_server: Some(to_owned("tavily")), read_only: true }
    }

    /// The endpoint the tool posts to.
    pub fn extract_url(&self) -> (r: String)
        ensures
            r@ == crate::tools::tavily::trim_trailing_slashes(self.base_url@) + "/extract"@,
    {
        crate::tools::tavily::api_url(self.base_url.as_str(), "/extract")
    }
}

impl Default for TavilyMcpExtract {
    fn default() -> (r: Self)
        ensures
            r.base_url@ == BASE_URL@,
    {
        TavilyMcpExtract::new()
    }
}

} // verus!
