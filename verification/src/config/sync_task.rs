//! Sync task settings.

use vstd::prelude::*;
use crate::json::JsonValue;
use crate::config::pipeline::{FilterConfig, MappingConfig, TransformConfig};
use crate::ids::new_uuid_string;

verus! {

/// One table synced to one index.
#[derive(Debug)]
pub struct SyncTaskConfig {
    pub id: String,
    pub source_name: String,
    pub table: String,
    pub index: String,
    pub primary_key: String,
    pub filter: Option<FilterConfig>,
    pub transform: Option<TransformConfig>,
    pub mapping: Option<MappingConfig>,
    pub full_sync_on_start: Option<bool>,
    pub options: SyncOptions,
    pub auto_start: Option<bool>,
    pub soft_delete: Option<SoftDeleteConfig>,
}

/// Field-level filters.
#[derive(Debug)]
pub struct FieldFilters {
    pub included: Option<Vec<String>>,
    pub exclude: Option<Vec<String>>,
    pub expressions: Option<Vec<FilterExpression>>,
}

impl Default for FieldFilters {
    fn default() -> (r: Self)
        ensures
            r.included is None,
            r.exclude is None,
            r.expressions is None,
    {
        FieldFilters { included: None, exclude: None, expressions: None }
    }
}

/// A comparison of a field with a value.
#[derive(Debug)]
pub struct FilterExpression {
    pub field: String,
    pub operator: FilterOperator,
    pub value: JsonValue,
}

/// Comparison operators.
#[derive(Debug, Clone, Copy, PartialEq, Eq, Structural)]
pub enum FilterOperator {
    Eq,
    Ne,
    Gt,
    Gte,
    Lt,
    Lte,
    In,
    NotIn,
    Like,
    Regex,
}

/// Batching and retry options of a task.
#[derive(Debug, Clone)]
pub struct SyncOptions {
    pub batch_size: usize,
    pub batch_timeout_ms: u64,
    pub deduplicate: bool,
    pub retry: SyncRetryConfig,
}

impl Default for SyncOptions {
    fn default() -> (r: Self)
        ensures
            r.batch_size == 0,
            r.batch_timeout_ms == 0,
            !r.deduplicate,
            r.retry.is_default(),
    {
        SyncOptions { batch_size: 0, batch_timeout_ms: 0, deduplicate: false, retry: SyncRetryConfig::default() }
    }
}

/// Retry settings of a task.
#[derive(Debug, Clone)]
pub struct SyncRetryConfig {
    pub max_retries: u32,
    pub initial_delay: u64,
    pub max_delay: u64,
    /// Backoff multiplier (binary64 bits).
    pub multiplier: u64,
}

impl SyncRetryConfig {
    /// The values that `SyncRetryConfig::default()` gives.
    pub open spec fn is_default(&self) -> bool {
        &&& self.max_retries == 3
        &&& self.initial_delay == 1
        &&& self.max_delay == 60
        &&& self.multiplier == 0x4000_0000_0000_0000u64
    }
}

impl Default for SyncRetryConfig {
    fn default() -> (r: Self)
        ensures
            r.is_default(),
    {
        SyncRetryConfig {
            max_retries: default_max_retries(),
            initial_delay: default_initial_delay(),
            max_delay: default_max_delay(),
            multiplier: default_multiplier(),
        }
    }
}

/// How soft-deleted rows are recognised.
#[derive(Debug)]
pub struct SoftDeleteConfig {
    /// The field that marks a row as deleted.
    pub field: String,
    /// Values of that field that mean deleted.
    pub delete_values: Vec<JsonValue>,
    pub handle_on_full_sync: bool,
    pub handle_on_cdc: bool,
}

/// `Some(true)`.
pub fn default_true() -> (r: Option<bool>)
    ensures
        r == Some(true),
{
    Some(true)
}

/// Default primary key field.
pub fn default_pk() -> (r: String)
    ensures
        r@ == "id"@,
{
    "id".to_owned()
}

/// Default batch size of a task.
pub fn default_batch_size() -> (r: usize)
    ensures
        r == 1000,
{
    1000
}

/// Default batch timeout of a task, in milliseconds.
pub fn default_batch_timeout() -> (r: u64)
    ensures
        r == 1000,
{
    1000
}

/// A fresh random task id.
pub fn generate_id() -> (r: String)
    ensures
        crate::ids::uuid_v4_text(r@),
{
    new_uuid_string()
}

/// Default source name.
pub fn default_source_name() -> (r: String)
    ensures
        r@ == "primary"@,
{
    "primary".to_owned()
}

/// `true`.
pub fn default_true_bool() -> (r: bool)
    ensures
        r,
{
    true
}

/// Default number of retries of a task.
pub fn default_max_retries() -> (r: u32)
    ensures
        r == 3,
{
    3
}

/// Default first retry delay, in seconds.
pub fn default_initial_delay() -> (r: u64)
    ensures
        r == 1,
{
    1
}

/// Default longest retry delay, in seconds.
pub fn default_max_delay() -> (r: u64)
    ensures
        r == 60,
{
    60
}

/// Default retry multiplier, 2.0 (binary64 bits).
pub fn default_multiplier() -> (r: u64)
    ensures
        r == 0x4000_0000_0000_0000u64,
{
    0x4000_0000_0000_0000u64
}

} // verus!
