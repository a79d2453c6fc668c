//! Retrying failed operations: when to give up, how long to wait, and which
//! I/O and PostgreSQL failures are worth another try.

use vstd::prelude::*;
use rand::Rng;
use crate::text::{texts, texts_contain};

verus! {

/// How to retry an operation. The multiplier is held as the bits of its
/// IEEE-754 binary64 value.
#[derive(Debug, Clone, Copy)]
pub struct RetryConfig {
    /// Retries after the first attempt.
    pub max_retries: usize,
    /// Wait before the first retry, in milliseconds.
    pub initial_delay_ms: u64,
    /// Longest wait between retries, in milliseconds.
    pub max_delay_ms: u64,
    /// Factor by which the wait grows after each retry (binary64 bits).
    pub multiplier: u64,
    /// Whether a random extra wait of up to a quarter is added.
    pub jitter: bool,
}

impl RetryConfig {
    /// The values that `RetryConfig::default()` gives: three retries, one
    /// second first, at most a minute, doubling, with jitter.
    pub open spec fn is_default(&self) -> bool {
        &&& self.max_retries == 3
        &&& self.initial_delay_ms == 1000
        &&& self.max_delay_ms == 60000
        &&& self.multiplier == 0x4000_0000_0000_0000u64
        &&& self.jitter
    }
}

impl Default for RetryConfig {
    fn default() -> (r: Self)
        ensures
            r.is_default(),
    {
        RetryConfig {
            max_retries: 3,
            initial_delay_ms: 1000,
            max_delay_ms: 60000,
            multiplier: 0x4000_0000_0000_0000u64,
            jitter: true,
        }
    }
}

/// Which retries an operation gets.
#[derive(Debug, Clone, Copy)]
pub enum RetryPolicy {
    /// No retries.
    Disabled,
    /// The default configuration.
    Default,
    /// A configuration of its own.
    Custom(RetryConfig),
}

impl RetryPolicy {
    /// The configuration of the policy: none, the default one, or its own.
    pub fn config(&self) -> (r: Option<RetryConfig>)
        ensures
            match *self {
                RetryPolicy::Disabled => r is None,
                RetryPolicy::Default => r matches Some(c) && c.is_default(),
                RetryPolicy::Custom(c) => r == Some(c),
            },
    {
        match self {
            RetryPolicy::Disabled => None,
            RetryPolicy::Default => Some(RetryConfig::default()),
            RetryPolicy::Custom(c) => Some(*c),
        }
    }
}

/// What to do after an attempt failed.
#[derive(Debug, Clone, Copy, PartialEq, Eq, Structural)]
pub enum RetryStep {
    /// Report the error.
    GiveUp,
    /// Wait, then make retry number `attempt`.
    Retry { attempt: usize, wait_ms: u64 },
}

/// The wait before a retry: the current delay, plus the jitter when jitter
/// is on, saturating at `u64::MAX`.
pub open spec fn retry_wait(delay_ms: u64, jitter_on: bool, jitter_ms: u64) -> u64 {
    if jitter_on {
        if delay_ms + jitter_ms > u64::MAX {
            u64::MAX
        } else {
            (delay_ms + jitter_ms) as u64
        }
    } else {
        delay_ms
    }
}

/// The step after a failed attempt, given the retries made so far, the
/// current delay and the jitter drawn: give up when the error is not worth
/// retrying or the retries are used up, else retry once more after the
/// delay (plus the jitter when jitter is on).
pub fn next_retry(config: &RetryConfig, attempt: usize, delay_ms: u64, retryable: bool, jitter_ms: u64) -> (r: RetryStep)
    ensures
        r == (if !retryable || attempt >= config.max_retries {
            RetryStep::GiveUp
        } else {
            RetryStep::Retry { attempt: (attempt + 1) as usize, wait_ms: retry_wait(delay_ms, config.jitter, jitter_ms) }
        }),
{
    if !retryable || attempt >= config.max_retries {
        return RetryStep::GiveUp;
    }
    let wait_ms = if config.jitter {
        delay_ms.saturating_add(jitter_ms)
    } else {
        delay_ms
    };
    RetryStep::Retry { attempt: attempt + 1, wait_ms }
}

/// A random jitter between 0 and `bound` inclusive (`rand`'s `gen_range`
/// on `0..=bound` with the thread's generator).
#[verifier::external_body]
fn random_jitter(bound: u64) -> (r: u64)
    ensures
        r <= bound,
{
    rand::thread_rng().gen_range(0..=bound)
}

/// The step after a failed attempt, drawing the jitter at random: as
/// `next_retry` with a jitter of at most a quarter of the delay.
pub fn after_failure(config: &RetryConfig, attempt: usize, delay_ms: u64, retryable: bool) -> (r: RetryStep)
    ensures
        (!retryable || attempt >= config.max_retries) ==> r == RetryStep::GiveUp,
        (retryable && attempt < config.max_retries) ==> (r matches RetryStep::Retry { attempt: a, wait_ms: w }
            && a == attempt + 1 && (exists|j: u64| j <= delay_ms / 4 && w == retry_wait(delay_ms, config.jitter, j))),
{
    let j = if config.jitter && retryable && attempt < config.max_retries {
        random_jitter(delay_ms / 4)
    } else {
        0
    };
    next_retry(config, attempt, delay_ms, retryable, j)
}

/// The delay for the next retry: the grown delay, at most the longest one.
pub fn capped_delay(grown_ms: u64, config: &RetryConfig) -> (r: u64)
    ensures
        r == (if grown_ms > config.max_delay_ms {
            config.max_delay_ms
        } else {
            grown_ms
        }),
{
    if grown_ms > config.max_delay_ms {
        config.max_delay_ms
    } else {
        grown_ms
    }
}

/// The kinds of I/O errors that the bridge tells apart.
#[derive(Debug, Clone, Copy, PartialEq, Eq, Structural)]
pub enum IoErrorKind {
    ConnectionRefused,
    ConnectionReset,
    ConnectionAborted,
    NotConnected,
    BrokenPipe,
    TimedOut,
    Interrupted,
    UnexpectedEof,
    WouldBlock,
    /// Any other kind.
    Other,
}

/// The I/O failures that a retry may cure when they come from a database
/// connection: a refused, reset, aborted or missing connection, a broken
/// pipe, a timeout, an interruption or an early end of stream.
pub open spec fn connection_kind_retryable(k: IoErrorKind) -> bool {
    match k {
        IoErrorKind::ConnectionRefused | IoErrorKind::ConnectionReset | IoErrorKind::ConnectionAborted
        | IoErrorKind::NotConnected | IoErrorKind::BrokenPipe | IoErrorKind::TimedOut
        | IoErrorKind::Interrupted | IoErrorKind::UnexpectedEof => true,
        _ => false,
    }
}

/// Whether an I/O error of this kind is worth retrying: the connection
/// failures, and an operation that would block.
pub fn io_error_retryable(kind: IoErrorKind) -> (r: bool)
    ensures
        r == (connection_kind_retryable(kind) || kind == IoErrorKind::WouldBlock),
{
    match kind {
        IoErrorKind::ConnectionRefused | IoErrorKind::ConnectionReset | IoErrorKind::ConnectionAborted
        | IoErrorKind::NotConnected | IoErrorKind::BrokenPipe | IoErrorKind::TimedOut
        | IoErrorKind::Interrupted | IoErrorKind::UnexpectedEof | IoErrorKind::WouldBlock => true,
        IoErrorKind::Other => false,
    }
}

/// What the bridge reads of a PostgreSQL client error.
#[derive(Debug, Clone)]
pub struct PostgresErrorInfo {
    /// The SQLSTATE code the server sent, if any.
    pub code: Option<String>,
    /// Whether the connection was closed.
    pub closed: bool,
    /// The kind of the underlying I/O error, if the error has one.
    pub io_kind: Option<IoErrorKind>,
}

/// The SQLSTATE codes after which a retry may succeed: connection
/// exception, connection does not exist, connection failure, unable to
/// establish a connection, transaction rollback, lock not available,
/// deadlock detected and serialization failure.
pub open spec fn retryable_sql_states() -> Seq<Seq<char>> {
    seq!["08000"@, "08003"@, "08006"@, "08001"@, "40000"@, "55P03"@, "40P01"@, "40001"@]
}

/// Whether a PostgreSQL error is worth retrying: by its SQLSTATE when the
/// server sent one, else when the connection was closed, else by the kind
/// of its I/O error.
pub open spec fn postgres_retryable(e: PostgresErrorInfo) -> bool {
    match e.code {
        Some(c) => retryable_sql_states().contains(c@),
        None => e.closed || (e.io_kind matches Some(k) && connection_kind_retryable(k)),
    }
}

/// Whether a PostgreSQL error is worth retrying: by its SQLSTATE when the
/// server sent one, else when the connection was closed, else by the kind
/// of its I/O error.
pub fn postgres_error_retryable(e: &PostgresErrorInfo) -> (r: bool)
    ensures
        r == postgres_retryable(*e),
{
    match &e.code {
        Some(c) => {
            let mut states: Vec<String> = Vec::new();
            states.push("08000".to_owned());
            states.push("08003".to_owned());
            states.push("08006".to_owned());
            states.push("08001".to_owned());
            states.push("40000".to_owned());
            states.push("55P03".to_owned());
            states.push("40P01".to_owned());
            states.push("40001".to_owned());
            assert(texts(states@) =~= retryable_sql_states());
            texts_contain(&states, c)
        },
        None => {
            if e.closed {
                true
            } else {
                match e.io_kind {
                    Some(k) => io_error_retryable(k) && k != IoErrorKind::WouldBlock,
                    None => false,
                }
            }
        },
    }
}

} // verus!
