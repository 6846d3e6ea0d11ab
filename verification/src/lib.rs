//! A local control-plane library for managing concurrent sessions of a
//! long-running interactive command-line agent process.
//!
//! The library holds the verified core: session lifecycle state, the
//! request/response protocol and its wire codec, durable session metadata
//! with an atomic-replace state file, and three-way recovery classification.
//! Process supervision, sockets and file handles live outside, and hand the
//! library plain values.

pub mod boundary;
pub mod client;
pub mod daemon;
pub mod errors;
pub mod ids;
pub mod ipc;
pub mod jtext;
pub mod logging;
pub mod manager;
pub mod numfmt;
pub mod persistence;
pub mod session;
pub mod text;
