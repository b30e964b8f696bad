//! System-wide proxy configuration and the PAC (proxy auto-config) support
//! behind `ProxyMode::Auto`.

pub mod config;
pub mod pac;

pub use config::{ProxyConfig, ProxyMode};
