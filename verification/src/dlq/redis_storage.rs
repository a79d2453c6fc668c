//! Dead letter entries kept in Redis: the client and the keys.

use vstd::prelude::*;
use crate::error::MeiliBridgeError;
use crate::text::{append_str, concat2};

verus! {

/// The Redis client of the `redis` crate.
#[verifier::external_type_specification]
#[verifier::external_body]
pub struct ExRedisClient(redis::Client);

/// What `redis::Client::open` makes of a URL: nothing when it accepts it,
/// else its error's message. It depends on the URL alone.
pub uninterp spec fn redis_open_error(url: Seq<char>) -> Option<Seq<char>>;

/// `redis::Client::open(url)`: parses the URL into connection settings
/// without connecting; the error is given by its message.
#[verifier::external_body]
pub(crate) fn redis_open(url: &str) -> (r: Result<redis::Client, String>)
    ensures
        match r {
            Ok(_) => redis_open_error(url@) is None,
            Err(e) => redis_open_error(url@) == Some(e@),
        },
{
    match redis::Client::open(url) {
        Ok(c) => Ok(c),
        Err(e) => Err(e.to_string()),
    }
}

/// Dead letter entries in Redis: an entry per key, and sorted sets of ids
/// per task and overall.
pub struct RedisDlqStorage {
    pub client: redis::Client,
    pub key_prefix: String,
}

impl RedisDlqStorage {
    /// A store at the Redis of `redis_url`, its keys under `key_prefix`;
    /// fails when the URL is refused.
    pub fn new(redis_url: &str, key_prefix: String) -> (r: Result<Self, MeiliBridgeError>)
        ensures
            match redis_open_error(redis_url@) {
                None => r matches Ok(s) && s.key_prefix == key_prefix,
                Some(e) => r matches Err(MeiliBridgeError::Configuration(m)) && m@ == "Failed to create Redis client: "@
                    + e,
            },
    {
        match redis_open(redis_url) {
            Ok(client) => Ok(RedisDlqStorage { client, key_prefix }),
            Err(e) => Err(MeiliBridgeError::Configuration(concat2("Failed to create Redis client: ", e.as_str()))),
        }
    }

    /// The key of an entry: `<prefix>:dlq:entry:<id>`.
    pub fn entry_key(&self, id: &str) -> (r: String)
        ensures
            r@ == self.key_prefix@ + ":dlq:entry:"@ + id@,
    {
        let mut k = self.key_prefix.clone();
        append_str(&mut k, ":dlq:entry:");
        append_str(&mut k, id);
        k
    }

    /// The key of a task's index: `<prefix>:dlq:task:<task>`.
    pub fn task_index_key(&self, task_id: &str) -> (r: String)
        ensures
            r@ == self.key_prefix@ + ":dlq:task:"@ + task_id@,
    {
        let mut k = self.key_prefix.clone();
        append_str(&mut k, ":dlq:task:");
        append_str(&mut k, task_id);
        k
    }

    /// The key of the index of all entries: `<prefix>:dlq:all`.
    pub fn all_entries_key(&self) -> (r: String)
        ensures
            r@ == self.key_prefix@ + ":dlq:all"@,
    {
        let mut k = self.key_prefix.clone();
        append_str(&mut k, ":dlq:all");
        k
    }

    /// The last rank to read of a task's index: a thousand entries unless a
    /// limit is given (a limit past `isize::MAX` wraps, as the cast does).
    pub fn last_rank(limit: Option<usize>) -> (r: isize)
        requires
            limit != Some(0usize),
        ensures
            r == match limit {
                Some(l) => (l - 1) as isize,
                None => 999,
            },
            limit matches Some(l) ==> (l - 1 <= isize::MAX ==> r == l - 1),
    {
        match limit {
            Some(l) => (l - 1) as isize,
            None => 999,
        }
    }
}

} // verus!
