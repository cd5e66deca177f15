//! FluxDNS core: the verified logic of a DNS proxy.
#![allow(unused_imports)]

pub mod addr;
pub mod cache;
pub mod clock;
pub mod config;
pub mod dns_requests;
pub mod errors;
pub mod exchange;
pub mod ip;
pub mod json;
pub mod listener_requests;
pub mod log_requests;
pub mod log_writer;
pub mod message;
pub mod models;
pub mod number;
pub mod plane_state;
pub mod resolver;
pub mod rewrite;
pub mod rewrite_requests;
pub mod server;
pub mod settings;
pub mod status;
pub mod strategy;
pub mod text;
pub mod upstream;
pub mod wire;
