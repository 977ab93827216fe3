//! Republishes encrypted MPEG-DASH live streams as clear-text HLS.
//!
//! This crate holds the decisions of the gateway: which representations of a
//! manifest are taken, how their segment URLs are resolved, which segment
//! pairs a pipeline iteration emits, and when the manager reclaims an idle
//! stream. Every function is verified against its contract. Network access,
//! subprocesses and the file system are left to the caller, which performs
//! the actions that the library hands out and reports their outcome.

pub mod auth;
pub mod config;
pub mod decrypt;
pub mod hls;
pub mod manager;
pub mod manifest;
pub mod pipeline;
pub mod resolver;
pub mod selector;
pub mod text;
pub mod timeline;
