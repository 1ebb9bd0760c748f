//! The built-in tools: what each one is called, says of itself and reports
//! to the registry, and the rules each applies to its input and output.
pub mod file_reader;
pub mod file_writer;
pub mod models_config;
pub mod read_skill;
pub mod tavily;
pub mod tavily_mcp;
pub mod websearch;
pub mod web_fetch;
pub mod context7;
pub mod context7_mcp;
pub mod web_scraper;
pub mod calculator;
