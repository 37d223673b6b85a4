//! Plugin-native behavioural threat modelling: the verified core.
pub mod agent;
pub mod api;
pub mod api_laws;
pub mod bus;
pub mod bytes;
pub mod cert;
pub mod cli;
pub mod cli_laws;
pub mod client_laws;
pub mod config;
pub mod crypto;
pub mod dashboard;
pub mod dedup;
pub mod encoding;
pub mod enroll;
pub mod enroll_laws;
pub mod event;
pub mod example;
pub mod host;
pub mod host_laws;
pub mod http;
pub mod ids;
pub mod ingest;
pub mod json;
pub mod keys;
pub mod kv;
pub mod live;
pub mod loader;
pub mod pin;
pub mod plugin;
pub mod proto;
pub mod registry;
pub mod rows;
pub mod sink;
pub mod sink_laws;
pub mod store;
pub mod store_laws;
pub mod text;
pub mod text_laws;
pub mod tls;
pub mod wire_laws;
