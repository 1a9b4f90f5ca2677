//! Timing, network, and protocol constants for the launcher, plus the
//! helpers derived from them.

use vstd::prelude::*;

verus! {

/// UDP socket read timeout in milliseconds.
pub const UDP_READ_TIMEOUT_MS: u64 = 200;

/// UDP buffer size for receiving messages.
pub const UDP_BUFFER_SIZE: usize = 65536;

/// Maximum UDP chunk size, matching the runtime's own reassembly tolerance.
pub const MAX_UDP_CHUNK_SIZE: usize = 6000;

/// Delay between UDP chunks in microseconds.
pub const UDP_CHUNK_DELAY_US: u64 = 100;

/// Sleep duration between retry attempts in milliseconds.
pub const RETRY_SLEEP_MS: u64 = 50;

/// Maximum total retry duration in milliseconds.
pub const MAX_RETRY_MS: u64 = 90000;

/// Main event loop polling interval in milliseconds.
pub const MAIN_LOOP_POLL_MS: u64 = 50;

/// Startup polling interval while waiting for the readiness marker.
pub const STARTUP_POLL_MS: u64 = 50;

/// Shutdown polling interval in milliseconds.
pub const SHUTDOWN_POLL_MS: u64 = 100;

/// Maximum wait for the readiness marker in milliseconds.
pub const LSP_READY_MAX_WAIT_MS: u64 = 60000;

/// Graceful shutdown timeout in milliseconds.
pub const GRACEFUL_SHUTDOWN_TIMEOUT_MS: u64 = 5000;

/// Grace period after the terminate signal, in milliseconds.
pub const SIGTERM_GRACE_PERIOD_MS: u64 = 2000;

/// Maximum time to wait for readiness during a shutdown flush, in milliseconds.
pub const SHUTDOWN_FLUSH_WAIT_MS: u64 = 2000;

/// Number of attempts for the protocol-level shutdown request.
pub const SHUTDOWN_RETRY_ATTEMPTS: u32 = 3;

/// Delay between shutdown request attempts in milliseconds.
pub const SHUTDOWN_RETRY_DELAY_MS: u64 = 100;

/// First request id used for launcher-originated requests, chosen to avoid
/// colliding with client-generated ids.
pub const INITIAL_LSP_REQUEST_ID: u64 = 1000000;

/// Default HTTP server port.
pub const DEFAULT_HTTP_PORT: u16 = 57130;

/// Convert a count of milliseconds into a `Duration`.
///
/// Relies on `core::time::Duration::from_millis`.
#[verifier::external_body]
pub fn millis_to_duration(ms: u64) -> core::time::Duration {
    core::time::Duration::from_millis(ms)
}

/// Maximum retry attempts implied by the retry time budget.
pub fn max_retry_attempts() -> (n: usize)
    ensures
        n == MAX_RETRY_MS / RETRY_SLEEP_MS,
        n == 1800,
{
    (MAX_RETRY_MS / RETRY_SLEEP_MS) as usize
}

} // verus!
