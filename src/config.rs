use vstd::prelude::*;

verus! {

/// Receive timeout, in milliseconds, when none is given.
pub const DEFAULT_TIMEOUT_MS: i32 = 4000;

/// Seconds between two requests when no interval is given.
pub const DEFAULT_INTERVAL_S: u8 = 1;

/// Run settings: the destination (DNS name or IP address), an optional
/// ceiling on replies, the seconds between requests and the receive
/// timeout in milliseconds.
#[derive(Debug, Clone)]
pub struct Config {
    pub destination: String,
    pub count: Option<i32>,
    pub interval: u8,
    pub timeout: i32,
}

} // verus!
