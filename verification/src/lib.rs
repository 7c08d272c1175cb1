//! Verified core of a privacy-preserving TikTok front-end proxy.
pub mod text;
pub mod cookie;
pub mod cookie_laws;
pub mod encoding;
pub mod error;
pub mod proxy;
pub mod types;
pub mod config;
pub mod pages;
pub mod link_laws;
pub mod proxy_laws;
