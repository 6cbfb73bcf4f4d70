//! Ephemeral NATS server fixture for tests: manifest model and validation,
//! server configuration rendering, URL handling and the decisions of the
//! fixture's lifecycle, each with a machine-checked contract.

pub mod cli;
pub mod exec;
pub mod exit_codes;
pub mod manifest;
pub mod server;
pub mod text;
pub mod url;

use vstd::prelude::*;

verus! {

/// Prefix of the stdout line that announces the connection URL.
pub const URL_BANNER_PREFIX: &'static str = "NATS_URL=";

/// Line printed once the manifest has been applied.
pub const READY_SENTINEL: &'static str = "NATS_FIXTURE_READY";

} // verus!
