//! Asking hydra and the binary cache about store paths.
//!
//! The library decides what to ask for and what the answers mean. It sends nothing itself: it hands
//! out requests, takes what was received, and says what to do next.
pub mod text;
pub mod package;
pub mod error;
pub mod narinfo;
pub mod written;
pub mod encoding;
pub mod files;
pub mod listing;
pub mod client;
pub mod request;
pub mod retry;
pub mod fetch;
pub mod fetcher;
