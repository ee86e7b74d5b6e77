//! Verified core of a floating AI chat client: identifiers, settings,
//! provider configuration, chat context assembly, plugin manifests and
//! the registries that hold installed packages.
pub mod text;
pub mod ids;
pub mod plugin;
pub mod provider;
pub mod settings;
pub mod command;
pub mod context;
pub mod execution;
pub mod chat;
pub mod sse;
pub mod paths;
pub mod attachments;
pub mod actions;
pub mod toml_tree;
pub mod declarative;
pub mod script;
pub mod registry;
pub mod provider_registry;
pub mod packages;
pub mod records;
pub mod config;
pub mod builtin;
pub mod endpoint;
pub mod executions;
pub mod script_http;
pub mod provider_service;
pub mod settings_service;
pub mod text_action;
pub mod chat_state;
pub mod plugin_lifecycle;
pub mod json_tree;
pub mod completion;
pub mod package_hash;
pub mod runs;
pub mod staging;
pub mod favorites;
pub mod backups;
pub mod parameters;
pub mod script_modules;
pub mod script_engine;
pub mod chat_view;
pub mod intents;
pub mod storage_rules;
