//! A small content-store ("pastebin") library: content-derived identifiers,
//! blob-name mapping, retrieval-policy decisions, deletion authorization, and
//! the expiry-sweep selection rule, all with verified contracts.

pub mod auth;
pub mod config;
pub mod errors;
pub mod ident;
pub mod resolve;
pub mod response;
pub mod route;
pub mod store;
pub mod sweep;
pub mod text;
