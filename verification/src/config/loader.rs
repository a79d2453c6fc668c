//! Checks of a loaded configuration that reject it, and a sample file.

use vstd::prelude::*;
use crate::config::app::Config;
use crate::config::source::{NamedSourceConfig, SourceConfig};
use crate::config::validation::only_if;
use crate::error::MeiliBridgeError;
use crate::text::{append_str, concat2, concat3, decimal, join, join_strings, texts, u64_to_string};

verus! {

/// A commented sample configuration.
pub const SAMPLE_CONFIG: &'static str = r#"# MeiliBridge Configuration Example
# Copy this file to config.yaml and adjust for your environment

app:
  name: meilibridge-dev
  # instance_id: auto  # Automatically generated if not specified
  tags:
    environment: development
    region: local

# PostgreSQL source configuration
source:
  type: postgresql
  host: localhost
  port: 5432
  database: myapp
  username: postgres
  password: ${POSTGRES_PASSWORD}  # Use environment variable
  slot_name: meilibridge_slot
  publication: meilibridge_pub
  pool:
    max_size: 10
    min_idle: 1
  ssl:
    mode: prefer

# Meilisearch configuration
meilisearch:
  url: http://localhost:7700
  api_key: ${MEILISEARCH_API_KEY}  # Use environment variable
  timeout: 30
  max_connections: 10
  index_settings:
    searchable_attributes:
      - title
      - description
      - content
    filterable_attributes:
      - category
      - status
      - created_at

# Redis configuration for state management
redis:
  url: redis://localhost:6379
  # password: ${REDIS_PASSWORD}  # Uncomment if Redis requires auth
  database: 0
  key_prefix: meilibridge

# Sync task definitions
sync_tasks:
  - table: users
    index: users
    primary_key: id
    field_mappings:
      user_id: id
      full_name: name
      email_address: email
    filters:
      exclude:
        - password_hash
        - internal_notes
    options:
      batch_size: 1000
      batch_timeout: 10

  - table: products
    index: products
    primary_key: sku
    full_sync: true
    filters:
      expressions:
        - field: status
          operator: eq
          value: "active"
    options:
      batch_size: 5000

# API server configuration
api:
  host: 127.0.0.1
  port: 7701
  cors:
    enabled: true
    allowed_origins:
      - http://localhost:3000
  auth:
    enabled: false
    # jwt_secret: ${JWT_SECRET}
    # token_expiry: 3600

# Logging configuration
logging:
  level: info
  format: text  # text, json, or pretty
  outputs:
    - type: stdout
    # - type: file
    #   path: ./logs/meilibridge.log
    #   rotation: daily

# Feature flags
features:
  auto_recovery: true
  health_checks: true
  metrics_export: true
  distributed_mode: false
"#;

/// Loads configurations and checks them.
pub struct ConfigLoader;

/// Problems with the single source that make a configuration unusable.
pub open spec fn source_problems(source: Option<SourceConfig>) -> Seq<Seq<char>> {
    match source {
        Some(SourceConfig::PostgreSQL(pg)) => only_if(
            pg.pool.max_size < pg.pool.min_idle,
            "PostgreSQL pool max_size must be >= min_idle"@,
        ) + only_if(pg.pool.max_size == 0, "PostgreSQL pool max_size must be > 0"@),
        _ => Seq::empty(),
    }
}

/// Problems with one named source.
pub open spec fn named_source_problems(s: NamedSourceConfig) -> Seq<Seq<char>> {
    match s.config {
        SourceConfig::PostgreSQL(pg) => only_if(
            pg.pool.max_size < pg.pool.min_idle,
            "PostgreSQL source '"@ + s.name@ + "' pool max_size must be >= min_idle"@,
        ) + only_if(pg.pool.max_size == 0, "PostgreSQL source '"@ + s.name@ + "' pool max_size must be > 0"@),
        _ => Seq::empty(),
    }
}

/// Problems with the first `n` named sources.
pub open spec fn sources_problems(sources: Seq<NamedSourceConfig>, n: nat) -> Seq<Seq<char>>
    decreases n,
{
    if n == 0 {
        Seq::empty()
    } else {
        sources_problems(sources, (n - 1) as nat) + named_source_problems(sources[n - 1])
    }
}

/// Problems with the first `n` sync tasks; tasks are counted from zero.
pub open spec fn tasks_problems(c: Config, n: nat) -> Seq<Seq<char>>
    decreases n,
{
    if n == 0 {
        Seq::empty()
    } else {
        let i = (n - 1) as nat;
        let t = c.sync_tasks@[i as int];
        tasks_problems(c, i) + only_if(t.table@.len() == 0, "Sync task "@ + decimal(i) + " has empty table name"@)
            + only_if(t.index@.len() == 0, "Sync task "@ + decimal(i) + " has empty index name"@) + only_if(
            t.options.batch_size == 0,
            "Sync task "@ + decimal(i) + " batch_size must be > 0"@,
        )
    }
}

/// Every problem that makes a configuration unusable, in the order they are
/// found.
pub open spec fn config_problems(c: Config) -> Seq<Seq<char>> {
    source_problems(c.source) + sources_problems(c.sources@, c.sources@.len()) + only_if(
        c.sync_tasks@.len() == 0,
        "At least one sync task must be configured"@,
    ) + tasks_problems(c, c.sync_tasks@.len()) + only_if(
        c.meilisearch.url@.len() == 0,
        "Meilisearch URL cannot be empty"@,
    ) + only_if(c.redis.url@.len() == 0, "Redis URL cannot be empty"@) + only_if(
        c.api.port == 0,
        "API port must be > 0"@,
    )
}

fn push_when(list: &mut Vec<String>, c: bool, m: String)
    ensures
        texts(final(list)@) == texts(old(list)@) + only_if(c, m@),
{
    let ghost before = texts(list@);
    if c {
        list.push(m);
        assert(texts(list@) =~= before + only_if(c, m@));
    } else {
        assert(texts(list@) =~= before + only_if(c, m@));
    }
}

fn task_message(i: usize, rest: &str) -> (r: String)
    ensures
        r@ == "Sync task "@ + decimal(i as nat) + rest@,
{
    let mut m = "Sync task ".to_owned();
    let n = u64_to_string(i as u64);
    append_str(&mut m, n.as_str());
    append_str(&mut m, rest);
    m
}

fn named_message(name: &String, rest: &str) -> (r: String)
    ensures
        r@ == "PostgreSQL source '"@ + name@ + rest@,
{
    let mut m = "PostgreSQL source '".to_owned();
    append_str(&mut m, name.as_str());
    append_str(&mut m, rest);
    m
}

impl ConfigLoader {
    /// Rejects a configuration that cannot work, with a validation error
    /// that lists every problem, separated by commas.
    pub fn validate(config: &Config) -> (r: Result<(), MeiliBridgeError>)
        ensures
            config_problems(*config).len() == 0 ==> r is Ok,
            config_problems(*config).len() > 0 ==> (r matches Err(MeiliBridgeError::Validation(m)) && m@ == join(
                config_problems(*config),
                ", "@,
            )),
    {
        let mut errors: Vec<String> = Vec::new();
        match &config.source {
            Some(SourceConfig::PostgreSQL(pg)) => {
                push_when(&mut errors, pg.pool.max_size < pg.pool.min_idle, "PostgreSQL pool max_size must be >= min_idle".to_owned());
                push_when(&mut errors, pg.pool.max_size == 0, "PostgreSQL pool max_size must be > 0".to_owned());
            },
            _ => {},
        }
        assert(texts(errors@) =~= source_problems(config.source));
        let ghost e1 = texts(errors@);
        let mut i: usize = 0;
        while i < config.sources.len()
            invariant
                i <= config.sources@.len(),
                texts(errors@) == e1 + sources_problems(config.sources@, i as nat),
            decreases config.sources@.len() - i,
        {
            let ghost before = texts(errors@);
            let s = &config.sources[i];
            match &s.config {
                SourceConfig::PostgreSQL(pg) => {
                    push_when(&mut errors, pg.pool.max_size < pg.pool.min_idle, named_message(&s.name, "' pool max_size must be >= min_idle"));
                    push_when(&mut errors, pg.pool.max_size == 0, named_message(&s.name, "' pool max_size must be > 0"));
                },
                _ => {},
            }
            assert(texts(errors@) =~= before + named_source_problems(config.sources@[i as int]));
            assert(e1 + sources_problems(config.sources@, i as nat) + named_source_problems(config.sources@[i as int])
                =~= e1 + sources_problems(config.sources@, (i + 1) as nat));
            i = i + 1;
        }
        push_when(&mut errors, config.sync_tasks.len() == 0, "At least one sync task must be configured".to_owned());
        let ghost e2 = texts(errors@);
        let mut i: usize = 0;
        while i < config.sync_tasks.len()
            invariant
                i <= config.sync_tasks@.len(),
                texts(errors@) == e2 + tasks_problems(*config, i as nat),
            decreases config.sync_tasks@.len() - i,
        {
            let ghost before = texts(errors@);
            let t = &config.sync_tasks[i];
            push_when(&mut errors, t.table.as_str().is_empty(), task_message(i, " has empty table name"));
            push_when(&mut errors, t.index.as_str().is_empty(), task_message(i, " has empty index name"));
            push_when(&mut errors, t.options.batch_size == 0, task_message(i, " batch_size must be > 0"));
            assert(e2 + tasks_problems(*config, (i + 1) as nat) =~= texts(errors@));
            i = i + 1;
        }
        push_when(&mut errors, config.meilisearch.url.as_str().is_empty(), "Meilisearch URL cannot be empty".to_owned());
        push_when(&mut errors, config.redis.url.as_str().is_empty(), "Redis URL cannot be empty".to_owned());
        push_when(&mut errors, config.api.port == 0, "API port must be > 0".to_owned());
        assert(texts(errors@) =~= config_problems(*config));
        if errors.len() > 0 {
            let m = join_strings(&errors, ", ");
            return Err(MeiliBridgeError::Validation(m));
        }
        Ok(())
    }

    /// A commented sample configuration file.
    pub fn generate_sample() -> (r: &'static str)
        ensures
            r == SAMPLE_CONFIG,
    {
        SAMPLE_CONFIG
    }
}

/// The configuration files tried, in order, when no path is given.
pub open spec fn default_config_names() -> Seq<Seq<char>> {
    seq!["config.yaml"@, "config.yml"@, "meilibridge.yaml"@, "meilibridge.yml"@]
}

/// The files tried, in order, for the environment `env`.
pub open spec fn env_config_names(env: Seq<char>) -> Seq<Seq<char>> {
    seq!["config."@ + env + ".yaml"@, "config."@ + env + ".yml"@, env + ".yaml"@, env + ".yml"@]
}

impl ConfigLoader {
    /// The configuration files tried, in order, when no path is given.
    pub fn default_config_files() -> (r: Vec<String>)
        ensures
            texts(r@) == default_config_names(),
    {
        let mut r: Vec<String> = Vec::new();
        r.push("config.yaml".to_owned());
        r.push("config.yml".to_owned());
        r.push("meilibridge.yaml".to_owned());
        r.push("meilibridge.yml".to_owned());
        assert(texts(r@) =~= default_config_names());
        r
    }

    /// The files tried, in order, for the environment `env_name`.
    pub fn env_config_files(env_name: &str) -> (r: Vec<String>)
        ensures
            texts(r@) == env_config_names(env_name@),
    {
        let mut r: Vec<String> = Vec::new();
        r.push(concat3("config.", env_name, ".yaml"));
        r.push(concat3("config.", env_name, ".yml"));
        r.push(concat2(env_name, ".yaml"));
        r.push(concat2(env_name, ".yml"));
        assert(texts(r@) =~= env_config_names(env_name@));
        r
    }

    /// The first file that exists, given which of the files tried exist.
    pub fn first_existing(exists: &Vec<bool>) -> (r: Option<usize>)
        ensures
            match r {
                Some(i) => i < exists@.len() && exists@[i as int] && forall|j: int| 0 <= j < i ==> !exists@[j],
                None => forall|j: int| 0 <= j < exists@.len() ==> !exists@[j],
            },
    {
        let mut i: usize = 0;
        while i < exists.len()
            invariant
                i <= exists@.len(),
                forall|j: int| 0 <= j < i ==> !exists@[j],
            decreases exists@.len() - i,
        {
            if exists[i] {
                return Some(i);
            }
            i = i + 1;
        }
        None
    }

    /// The error of a configuration that could not be assembled.
    pub fn build_error(cause: &str) -> (r: MeiliBridgeError)
        ensures
            r matches MeiliBridgeError::Config(m) && m@ == "Failed to build config: "@ + cause@,
    {
        MeiliBridgeError::Config(concat2("Failed to build config: ", cause))
    }

    /// The error of a configuration that could not be read into settings.
    pub fn deserialize_error(cause: &str) -> (r: MeiliBridgeError)
        ensures
            r matches MeiliBridgeError::Config(m) && m@ == "Failed to deserialize config: "@ + cause@,
    {
        MeiliBridgeError::Config(concat2("Failed to deserialize config: ", cause))
    }
}

} // verus!
