//! Verified core of a local DNS forwarder: DNS wire-format parsing, route
//! selection, upstream health tracking, configuration validation and the
//! string rules of the desktop front end.
pub mod text;
pub mod wire;
pub mod upstream;
pub mod routes;
pub mod health;
pub mod resolve;
pub mod pool;
pub mod desktop;
pub mod environment;
pub mod net;
pub mod config;
pub mod urls;
pub mod duration;
pub mod hosts;
pub mod validate;
pub mod cache;
pub mod commands;
pub mod runtime;
pub mod status;
pub mod preferences;
pub mod ip_text;
pub mod order;
pub mod system_dns;
pub mod certificates;
pub mod store_rules;
pub mod logging;
pub mod tray;
pub mod dns_message;
pub mod socks5;
pub mod doh;
pub mod history;
pub mod endpoint;
pub mod resolver_plan;
pub mod windows_dns;
pub mod certificate_build;
pub mod query;
