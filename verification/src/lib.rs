//! Verified core of a remote-control client for the Codex CLI.
pub mod api;
pub mod auth;
pub mod cli;
pub mod compatibility;
pub mod controller;
pub mod device_key;
pub mod error;
pub mod json;
pub mod oauth;
pub mod outside;
pub mod protocol;
pub mod reassembly;
pub mod relay;
pub mod shim;
pub mod state;
pub mod text;
pub mod transport;
