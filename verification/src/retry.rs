//! Retrying: the backoff settings, and which HTTP errors are worth another
//! try.

use vstd::prelude::*;

verus! {

pub const DEFAULT_MAX_RETRIES: usize = 3;

pub const RETRY_MIN_DELAY_MS: u64 = 100;

/// 30 seconds.
pub const RETRY_MAX_DELAY_MS: u64 = 30000;

pub const SSH_CONNECTION_TIMEOUT_SECS: u64 = 30;

/// 5 minutes.
pub const SSH_COMMAND_TIMEOUT_SECS: u64 = 300;

pub const DOCKER_OPERATION_TIMEOUT_SECS: u64 = 60;

pub const HTTP_REQUEST_TIMEOUT_SECS: u64 = 30;

/// The time that one stats frame is waited for, in seconds.
pub const STATS_SAMPLE_TIMEOUT_SECS: u64 = 2;

/// The settings of an exponential backoff.
#[derive(Debug, Clone, Copy, PartialEq, Eq, Structural)]
pub struct BackoffConfig {
    pub min_delay_ms: u64,
    pub max_delay_ms: u64,
    pub max_retries: usize,
}

/// The backoff for most uses: from 100 ms up to 30 s, three retries.
pub fn default_backoff() -> (r: BackoffConfig)
    ensures
        r == (BackoffConfig {
            min_delay_ms: RETRY_MIN_DELAY_MS,
            max_delay_ms: RETRY_MAX_DELAY_MS,
            max_retries: DEFAULT_MAX_RETRIES,
        }),
{
    BackoffConfig {
        min_delay_ms: RETRY_MIN_DELAY_MS,
        max_delay_ms: RETRY_MAX_DELAY_MS,
        max_retries: DEFAULT_MAX_RETRIES,
    }
}

/// A backoff with the given settings.
pub fn backoff_with_config(min_delay_ms: u64, max_delay_ms: u64, max_retries: usize) -> (r:
    BackoffConfig)
    ensures
        r == (BackoffConfig { min_delay_ms, max_delay_ms, max_retries }),
{
    BackoffConfig { min_delay_ms, max_delay_ms, max_retries }
}

/// What is known of an HTTP error.
#[derive(Debug, Clone, Copy, PartialEq, Eq, Structural)]
pub struct HttpFailure {
    pub is_timeout: bool,
    pub is_connect: bool,
    pub status: Option<u16>,
}

/// Whether an HTTP error is worth another try: a timeout, a failed
/// connection, a server error (5xx), or a rate limit (429).
pub open spec fn is_retryable(f: HttpFailure) -> bool {
    f.is_timeout || f.is_connect || (f.status is Some && (500 <= f.status->0 <= 599 || f.status->0
        == 429))
}

/// Helper to determine if an HTTP error is retryable.
pub fn is_retryable_http_error(failure: &HttpFailure) -> (r: bool)
    ensures
        r == is_retryable(*failure),
{
    if failure.is_timeout || failure.is_connect {
        return true;
    }
    match failure.status {
        Some(code) => (500 <= code && code <= 599) || code == 429,
        None => false,
    }
}

/// Whether another try is made after `attempts` tries have failed.
pub fn should_retry(config: &BackoffConfig, attempts: usize, retryable: bool) -> (r: bool)
    ensures
        r == (retryable && attempts <= config.max_retries),
{
    retryable && attempts <= config.max_retries
}

} // verus!
