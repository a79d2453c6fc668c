//! Data source settings.

use vstd::prelude::*;

verus! {

/// A source with a name, for multi-source setups.
#[derive(Debug, Clone)]
pub struct NamedSourceConfig {
    pub name: String,
    pub config: SourceConfig,
}

/// A data source.
#[derive(Debug, Clone)]
pub enum SourceConfig {
    PostgreSQL(PostgreSQLConfig),
    MySQL(MySQLConfig),
    MongoDB(MongoDBConfig),
}

/// PostgreSQL source configuration.
#[derive(Debug, Clone)]
pub struct PostgreSQLConfig {
    pub connection: PostgreSQLConnection,
    pub slot_name: String,
    pub publication: String,
    pub pool: PoolConfig,
    pub ssl: SslConfig,
    pub statement_cache: StatementCacheConfig,
}

/// How to reach PostgreSQL.
#[derive(Debug, Clone)]
pub enum PostgreSQLConnection {
    ConnectionString(String),
    Parameters { host: String, port: u16, database: String, username: String, password: String },
}

/// Connection pool settings.
#[derive(Debug, Clone)]
pub struct PoolConfig {
    pub max_size: u32,
    pub min_idle: u32,
    pub connection_timeout: Option<u64>,
    pub idle_timeout: Option<u64>,
}

impl PoolConfig {
    /// The values that `PoolConfig::default()` gives: all zero or unset.
    pub open spec fn is_default(&self) -> bool {
        &&& self.max_size == 0
        &&& self.min_idle == 0
        &&& self.connection_timeout is None
        &&& self.idle_timeout is None
    }
}

impl Default for PoolConfig {
    fn default() -> (r: Self)
        ensures
            r.is_default(),
    {
        PoolConfig { max_size: 0, min_idle: 0, connection_timeout: None, idle_timeout: None }
    }
}

/// TLS settings.
#[derive(Debug, Clone)]
pub struct SslConfig {
    pub mode: SslMode,
    pub ca_cert: Option<String>,
    pub client_cert: Option<String>,
    pub client_key: Option<String>,
}

impl Default for SslConfig {
    fn default() -> (r: Self)
        ensures
            r.mode == SslMode::Disable,
            r.ca_cert is None,
            r.client_cert is None,
            r.client_key is None,
    {
        SslConfig { mode: SslMode::Disable, ca_cert: None, client_cert: None, client_key: None }
    }
}

/// TLS mode.
#[derive(Debug, Clone, Copy, PartialEq, Eq, Structural)]
pub enum SslMode {
    Disable,
    Prefer,
    Require,
    VerifyCa,
    VerifyFull,
}

impl Default for SslMode {
    fn default() -> (r: Self)
        ensures
            r == SslMode::Disable,
    {
        SslMode::Disable
    }
}

/// Prepared statement cache settings.
#[derive(Debug, Clone)]
pub struct StatementCacheConfig {
    pub enabled: bool,
    pub max_size: usize,
}

impl Default for StatementCacheConfig {
    fn default() -> (r: Self)
        ensures
            r.enabled,
            r.max_size == 100,
    {
        StatementCacheConfig { enabled: default_cache_enabled(), max_size: default_cache_max_size() }
    }
}

/// MySQL source (connection only).
#[derive(Debug, Clone)]
pub struct MySQLConfig {
    pub connection_string: String,
}

/// MongoDB source (connection only).
#[derive(Debug, Clone)]
pub struct MongoDBConfig {
    pub connection_string: String,
}

/// Default pool size.
pub fn default_pool_size() -> (r: u32)
    ensures
        r == 10,
{
    10
}

/// Default idle connections.
pub fn default_min_idle() -> (r: u32)
    ensures
        r == 1,
{
    1
}

/// Default replication slot.
pub fn default_slot_name() -> (r: String)
    ensures
        r@ == "meilibridge"@,
{
    "meilibridge".to_owned()
}

/// Default publication.
pub fn default_publication() -> (r: String)
    ensures
        r@ == "meilibridge_pub"@,
{
    "meilibridge_pub".to_owned()
}

/// The statement cache is on by default.
pub fn default_cache_enabled() -> (r: bool)
    ensures
        r,
{
    true
}

/// Default statement cache size.
pub fn default_cache_max_size() -> (r: usize)
    ensures
        r == 100,
{
    100
}

} // verus!
