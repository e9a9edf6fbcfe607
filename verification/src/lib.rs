//! Logic of a terminal chat client.

pub mod actions;
pub mod api;
pub mod app;
pub mod area;
pub mod builtins;
pub mod chat;
pub mod cli;
pub mod client_config;
pub mod client_tools;
pub mod config_cmd;
pub mod connections;
pub mod credentials;
pub mod grid;
pub mod headless;
pub mod highlight;
pub mod ids;
pub mod json;
pub mod kb;
pub mod keys;
pub mod markdown;
pub mod mcp;
pub mod mcp_screen;
pub mod model_selector;
pub mod rpc;
pub mod run;
pub mod tasks;
pub mod text;
pub mod transport;
pub mod view;
pub mod voice;
pub mod wrap;
pub mod ws_client;
