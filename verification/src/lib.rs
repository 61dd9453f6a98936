//! Core of a small self-hosted git forge: parsing of transport commands,
//! identity and access decisions against the user/repository store, and the
//! byte-exact framing of the git smart-transport wire protocol.

pub mod access;
pub mod crypto;
pub mod git_http;
pub mod keys;
pub mod parse;
pub mod paths;
pub mod repo_view;
pub mod session;
pub mod store;
pub mod templates;
pub mod text;
pub mod types;
