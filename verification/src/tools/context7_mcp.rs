//! The Context7 MCP facade: built-in tools dressed as a Context7 MCP
//! server's tools (`context7_resolve_library_id`,
//! `context7_get_library_docs`), calling the Context7 REST API directly.
use vstd::prelude::*;

use crate::text::to_owned;
use crate::tool::{ToolMeta, ToolSource};
use crate::tools::context7::DEFAULT_CONTEXT7_BASE_URL as BASE_URL;

verus! {

/// Context7McpResolveLibraryId's description.
pub const RESOLVE_LIBRARY_ID_DESCRIPTION: &'static str = "Part of the Context7 MCP server. Built-in Context7 work-alike; resolves library ids and fetches up-to-date docs. This tool turns a library name (e.g. \"tokio\") into Context7-compatible library ids with trust and benchmark metadata. Call it first when the user asks for Context7 docs; feed the chosen id into context7_get_library_docs.";

/// The Context7 MCP server's library-id resolver.
#[derive(Debug, Clone)]
pub struct Context7McpResolveLibraryId {
    pub base_url: String,
}

impl Context7McpResolveLibraryId {
    /// The tool against the default base URL.
    pub fn new() -> (r: Self)
        ensures
            r.base_url@ == BASE_URL@,
    {
        Context7McpResolveLibraryId { base_url: to_owned(BASE_URL) }
    }

    /// The same tool against another base URL.
    pub fn with_base_url(self, base_url: &str) -> (r: Self)
        ensures
            r.base_url@ == base_url@,
    {
        Context7McpResolveLibraryId { base_url: to_owned(base_url) }
    }

    /// The tool's name.
    pub fn name(&self) -> (r: &'static str)
        ensures
            r@ == "context7_resolve_library_id"@,
    {
        "context7_resolve_library_id"
    }

    /// The tool's description.
    pub fn description(&self) -> (r: &'static str)
        ensures
            r@ == RESOLVE_LIBRARY_ID_DESCRIPTION@,
    {
        RESOLVE_LIBRARY_ID_DESCRIPTION
    }

    /// Where the tool comes from.
    pub fn source(&self) -> (r: ToolSource)
        ensures
            r == ToolSource::Mcp,
    {
        ToolSource::Mcp
    }

    /// The MCP server the tool belongs to.
    pub fn mcp_server(&self) -> (r: Option<&'static str>)
        ensures
            r is Some && r.unwrap()@ == "context7"@,
    {
        Some("context7")
    }

    /// The tool only reads.
    pub fn is_read_only(&self) -> (r: bool)
        ensures
            r,
    {
        true
    }

    /// What the registry knows of the tool.
    pub fn meta(&self) -> (r: ToolMeta)
        ensures
            r.name@ == "context7_resolve_library_id"@,
            r.source == ToolSource::Mcp,
            r.mcp_server is Some && r.mcp_server.unwrap()@ == "context7"@,
            r.read_only,
    {
        ToolMeta { name: to_owned("context7_resolve_library_id"), source: ToolSource::Mcp, mcp_server: Some(to_owned("context7")), read_only: true }
    }

    /// The endpoint the tool posts to.
    pub fn search_url(&self) -> (r: String)
        ensures
            r@ == crate::tools::tavily::trim_trailing_slashes(self.base_url@) + "/api/v1/search"@,
    {
        crate::tools::tavily::api_url(self.base_url.as_str(), "/api/v1/search")
    }
}

impl Default for Context7McpResolveLibraryId {
    fn default() -> (r: Self)
        ensures
            r.base_url@ == BASE_URL@,
    {
        Context7McpResolveLibraryId::new()
    }
}

/// Context7McpGetLibraryDocs's description.
pub const GET_LIBRARY_DOCS_DESCRIPTION: &'static str = "Part of the Context7 MCP server. Built-in Context7 work-alike; resolves library ids and fetches up-to-date docs. Fetches code documentation for a Context7-compatible library id (as returned by context7_resolve_library_id), optionally narrowed to a topic (e.g. \"tokio::select\").";

/// The Context7 MCP server's docs fetcher.
#[derive(Debug, Clone)]
pub struct Context7McpGetLibraryDocs {
    pub base_url: String,
}

impl Context7McpGetLibraryDocs {
    /// The tool against the default base URL.
    pub fn new() -> (r: Self)
        ensures
            r.base_url@ == BASE_URL@,
    {
        Context7McpGetLibraryDocs { base_url: to_owned(BASE_URL) }
    }

    /// The same tool against another base URL.
    pub fn with_base_url(self, base_url: &str) -> (r: Self)
        ensures
            r.base_url@ == base_url@,
    {
        Context7McpGetLibraryDocs { base_url: to_owned(base_url) }
    }

    /// The tool's name.
    pub fn name(&self) -> (r: &'static str)
        ensures
            r@ == "context7_get_library_docs"@,
    {
        "context7_get_library_docs"
    }

    /// The tool's description.
    pub fn description(&self) -> (r: &'static str)
        ensures
            r@ == GET_LIBRARY_DOCS_DESCRIPTION@,
    {
        GET_LIBRARY_DOCS_DESCRIPTION
    }

    /// Where the tool comes from.
    pub fn source(&self) -> (r: ToolSource)
        ensures
            r == ToolSource::Mcp,
    {
        ToolSource::Mcp
    }

    /// The MCP server the tool belongs to.
    pub fn mcp_server(&self) -> (r: Option<&'static str>)
        ensures
            r is Some && r.unwrap()@ == "context7"@,
    {
        Some("context7")
    }

    /// The tool only reads.
    pub fn is_read_only(&self) -> (r: bool)
        ensures
            r,
    {
        true
    }

    /// What the registry knows of the tool.
    pub fn meta(&self) -> (r: ToolMeta)
        ensures
            r.name@ == "context7_get_library_docs"@,
            r.source == ToolSource::Mcp,
            r.mcp_server is Some && r.mcp_server.unwrap()@ == "context7"@,
            r.read_only,
    {
        ToolMeta { name: to_owned("context7_get_library_docs"), source: ToolSource::Mcp, mcp_server: Some(to_owned("context7")), read_only: true }
    }
}

impl Default for Context7McpGetLibraryDocs {
    fn default() -> (r: Self)
        ensures
            r.base_url@ == BASE_URL@,
    {
        Context7McpGetLibraryDocs::new()
    }
}

} // verus!
