//! The process exit codes of the fixture.

use vstd::prelude::*;

verus! {

/// Clean shutdown, or a wrapped command that exited with 0.
pub const OK: i32 = 0;

/// The manifest could not be read or is invalid.
pub const MANIFEST_INVALID: i32 = 1;

/// The port given explicitly is already in use.
pub const PORT_IN_USE: i32 = 2;

/// The nats-server failed to start, or the fixture failed around it.
pub const SERVER_FAILED: i32 = 3;

/// The manifest could not be applied to the server.
pub const APPLY_FAILED: i32 = 4;

} // verus!
