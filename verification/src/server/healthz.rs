//! Waiting for a freshly spawned server to accept TCP connections: the
//! decision taken after each connection attempt.

use crate::manifest::Timespan;
use crate::text::copy_str;
use vstd::prelude::*;

verus! {

/// The pause between two connection attempts.
pub const PROBE_INTERVAL_MILLIS: u64 = 25;

/// The server never became reachable.
#[derive(Debug, Clone)]
pub enum HealthzError {
    /// No connection was accepted on `host:port` within `waited`.
    Timeout { host: String, port: u16, waited: Timespan },
}

/// What to do after a connection attempt.
#[derive(Debug, Clone)]
pub enum ProbeStep {
    /// The server accepts connections.
    Ready,
    /// Give up with this error.
    Fail(HealthzError),
    /// Try again after this many milliseconds.
    RetryAfterMillis(u64),
}

/// The decision after an attempt to connect to `host:port`: done when it
/// connected; otherwise a timeout error once the deadline (`total` after the
/// start) has been reached, and another attempt after a short pause before.
pub fn probe_step(
    connected: bool,
    deadline_reached: bool,
    host: &str,
    port: u16,
    total: Timespan,
) -> (step: ProbeStep)
    ensures
        connected ==> step matches ProbeStep::Ready,
        !connected && deadline_reached ==> (step matches ProbeStep::Fail(
            HealthzError::Timeout { host: h, port: p, waited: w },
        ) && h@ == host@ && p == port && w == total),
        !connected && !deadline_reached ==> step == ProbeStep::RetryAfterMillis(
            PROBE_INTERVAL_MILLIS,
        ),
{
    if connected {
        ProbeStep::Ready
    } else if deadline_reached {
        ProbeStep::Fail(HealthzError::Timeout { host: copy_str(host), port, waited: total })
    } else {
        ProbeStep::RetryAfterMillis(PROBE_INTERVAL_MILLIS)
    }
}

} // verus!
