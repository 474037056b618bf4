//! The rules of the bread desktop automation daemon.

pub mod adapters;
pub mod apps;
pub mod bridge;
pub mod builtin;
pub mod config;
pub mod control;
pub mod drift;
pub mod engine;
pub mod events;
pub mod glob;
pub mod ipc;
pub mod json;
pub mod loading;
pub mod lua_runtime;
pub mod machine;
pub mod module_host;
pub mod modules;
pub mod normalizer;
pub mod notify;
pub mod ordered;
pub mod paths;
pub mod recency;
pub mod ring;
pub mod rules;
pub mod settings;
pub mod snapshot;
pub mod state_engine;
pub mod store;
pub mod subscriptions;
pub mod supervisor;
pub mod surface;
pub mod table;
pub mod text;
pub mod types;
pub mod widgets;
pub mod wire;
pub mod workflows;
