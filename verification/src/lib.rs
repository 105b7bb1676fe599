//! Verified core of a caching content client.

pub mod addresses;
pub mod bandwidth;
pub mod cache;
pub mod calls;
pub mod client;
pub mod config;
pub mod downloader;
pub mod error;
pub mod gallery_downloader;
pub mod hvfile;
pub mod ip;
pub mod lifetimes;
pub mod logging;
pub mod migrate;
pub mod number;
pub mod proxy_downloader;
pub mod rpc;
pub mod rpc_client;
pub mod saved;
pub mod server;
pub mod settings;
pub mod stats;
pub mod text;
pub mod texts;
pub mod transfers;
pub mod types;
pub mod url;
pub mod utils;
