//! A type-safe agentic AI framework: configuration, skills, services,
//! session logs, tool registry and the agent's decision loop.
pub mod text;
pub mod config;
pub mod services;
pub mod order;
pub mod skills;
pub mod builtin_skills;
pub mod prompt;
pub mod tool;
pub mod provider;
pub mod executor;
pub mod agent;
pub mod rollout;
pub mod models_config;
pub mod models_schema;
pub mod null_delimited_file_session_manager;
pub mod tools;
pub mod flat_file_session;
pub mod file_session_manager;
pub mod settings;
pub mod session_storage;
pub mod server;
pub mod wire;
pub mod ws_session;
pub mod chat_socket;
