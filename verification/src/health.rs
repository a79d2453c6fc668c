//! Health of the bridge's components.

use vstd::prelude::*;
use crate::clock::now_micros;
use crate::config::meilisearch::MeilisearchConfig;
use crate::json::{jview, members_view, JsonNumber, JsonValue, JsonView};
use crate::keyed::KeyedMap;
use crate::text::{append_str, chars_of, concat2, lines_of, string_from_chars, text_lines, texts, trim_text, trimmed};

verus! {

/// How healthy a component is.
#[derive(Debug, Clone, Copy, PartialEq, Eq, Structural)]
pub enum HealthStatus {
    Healthy,
    Degraded,
    Unhealthy,
}

/// The outcome of one health check.
#[derive(Debug)]
pub struct HealthCheckResult {
    pub status: HealthStatus,
    pub message: Option<String>,
    /// Details by key.
    pub details: KeyedMap<JsonValue>,
    /// Microseconds since the Unix epoch.
    pub last_check: i64,
}

impl HealthCheckResult {
    /// Healthy, with no message or details.
    pub fn healthy() -> (r: Self)
        ensures
            r.status == HealthStatus::Healthy,
            r.message is None,
            r.details.wf(),
            r.details@ == Map::<Seq<char>, JsonValue>::empty(),
    {
        HealthCheckResult { status: HealthStatus::Healthy, message: None, details: KeyedMap::new(), last_check: now_micros() }
    }

    /// Unhealthy, with a message.
    pub fn unhealthy(message: String) -> (r: Self)
        ensures
            r.status == HealthStatus::Unhealthy,
            r.message == Some(message),
            r.details.wf(),
            r.details@ == Map::<Seq<char>, JsonValue>::empty(),
    {
        HealthCheckResult {
            status: HealthStatus::Unhealthy,
            message: Some(message),
            details: KeyedMap::new(),
            last_check: now_micros(),
        }
    }

    /// Degraded, with a message.
    pub fn degraded(message: String) -> (r: Self)
        ensures
            r.status == HealthStatus::Degraded,
            r.message == Some(message),
            r.details.wf(),
            r.details@ == Map::<Seq<char>, JsonValue>::empty(),
    {
        HealthCheckResult {
            status: HealthStatus::Degraded,
            message: Some(message),
            details: KeyedMap::new(),
            last_check: now_micros(),
        }
    }

    /// The same result with a detail set (replacing one under the same key).
    pub fn with_detail(self, key: &str, value: JsonValue) -> (r: Self)
        requires
            self.details.wf(),
        ensures
            r.status == self.status,
            r.message == self.message,
            r.last_check == self.last_check,
            r.details.wf(),
            r.details@ == self.details@.insert(key@, value),
    {
        let mut r = self;
        r.details.insert(key.to_owned(), value);
        r
    }
}

} // verus!

verus! {

/// How bad a status is: healthy, degraded, unhealthy in that order.
pub open spec fn severity(s: HealthStatus) -> int {
    match s {
        HealthStatus::Healthy => 0,
        HealthStatus::Degraded => 1,
        HealthStatus::Unhealthy => 2,
    }
}

/// The overall status of components: unhealthy if any is, else degraded
/// if any is, else healthy.
pub open spec fn overall_status(statuses: Seq<HealthStatus>) -> HealthStatus {
    if exists|i: int| 0 <= i < statuses.len() && statuses[i] == HealthStatus::Unhealthy {
        HealthStatus::Unhealthy
    } else if exists|i: int| 0 <= i < statuses.len() && statuses[i] == HealthStatus::Degraded {
        HealthStatus::Degraded
    } else {
        HealthStatus::Healthy
    }
}

/// The health of the whole system.
#[derive(Debug)]
pub struct SystemHealth {
    pub status: HealthStatus,
    /// Each component's result, by name.
    pub components: Vec<(String, HealthCheckResult)>,
    pub version: String,
    pub uptime_seconds: u64,
}

/// The statuses of named results.
pub open spec fn statuses_of(results: Seq<(String, HealthCheckResult)>) -> Seq<HealthStatus> {
    results.map_values(|r: (String, HealthCheckResult)| r.1.status)
}

/// Combines the components' results: the overall status is the worst.
pub fn system_health(
    components: Vec<(String, HealthCheckResult)>,
    version: String,
    uptime_seconds: u64,
) -> (r: SystemHealth)
    ensures
        r.status == overall_status(statuses_of(components@)),
        r.components == components,
        r.version == version,
        r.uptime_seconds == uptime_seconds,
{
    let ghost st = statuses_of(components@);
    let mut overall = HealthStatus::Healthy;
    let mut i: usize = 0;
    while i < components.len()
        invariant
            i <= components@.len(),
            st == statuses_of(components@),
            overall == overall_status(st.take(i as int)),
        decreases components@.len() - i,
    {
        let s = components[i].1.status;
        let ghost pre = st.take(i as int);
        let ghost post = st.take(i + 1);
        assert(post =~= pre.push(s));
        match s {
            HealthStatus::Unhealthy => {
                overall = HealthStatus::Unhealthy;
                assert(post[i as int] == HealthStatus::Unhealthy);
            },
            HealthStatus::Degraded => {
                if overall == HealthStatus::Healthy {
                    overall = HealthStatus::Degraded;
                }
                assert(post[i as int] == HealthStatus::Degraded);
                assert(!(exists|j: int| 0 <= j < post.len() && post[j] == HealthStatus::Unhealthy) ==> !(exists|j: int|
                    0 <= j < pre.len() && pre[j] == HealthStatus::Unhealthy)) by {
                    if exists|j: int| 0 <= j < pre.len() && pre[j] == HealthStatus::Unhealthy {
                        let j = choose|j: int| 0 <= j < pre.len() && pre[j] == HealthStatus::Unhealthy;
                        assert(post[j] == HealthStatus::Unhealthy);
                    }
                }
                assert((exists|j: int| 0 <= j < pre.len() && pre[j] == HealthStatus::Unhealthy) ==> (exists|j: int|
                    0 <= j < post.len() && post[j] == HealthStatus::Unhealthy)) by {
                    if exists|j: int| 0 <= j < pre.len() && pre[j] == HealthStatus::Unhealthy {
                        let j = choose|j: int| 0 <= j < pre.len() && pre[j] == HealthStatus::Unhealthy;
                        assert(post[j] == HealthStatus::Unhealthy);
                    }
                }
            },
            HealthStatus::Healthy => {
                proof {
                    lemma_push_other(pre, HealthStatus::Healthy, HealthStatus::Unhealthy);
                    lemma_push_other(pre, HealthStatus::Healthy, HealthStatus::Degraded);
                }
            },
        }
        i = i + 1;
    }
    assert(st.take(components@.len() as int) =~= st);
    SystemHealth { status: overall, components, version, uptime_seconds }
}

proof fn lemma_push_other(pre: Seq<HealthStatus>, s: HealthStatus, v: HealthStatus)
    requires
        s != v,
    ensures
        (exists|j: int| 0 <= j < pre.push(s).len() && pre.push(s)[j] == v) <==> (exists|j: int| 0 <= j < pre.len()
            && pre[j] == v),
{
    let post = pre.push(s);
    if exists|j: int| 0 <= j < post.len() && post[j] == v {
        let j = choose|j: int| 0 <= j < post.len() && post[j] == v;
        assert(j < pre.len());
        assert(pre[j] == v);
    }
    if exists|j: int| 0 <= j < pre.len() && pre[j] == v {
        let j = choose|j: int| 0 <= j < pre.len() && pre[j] == v;
        assert(post[j] == v);
    }
}

/// The overall status does not depend on the order of the components.
pub proof fn law_overall_status_order_free(a: Seq<HealthStatus>, b: Seq<HealthStatus>)
    requires
        a.to_multiset() == b.to_multiset(),
    ensures
        overall_status(a) == overall_status(b),
{
    lemma_same_members(a, b, HealthStatus::Unhealthy);
    lemma_same_members(a, b, HealthStatus::Degraded);
}

proof fn lemma_same_members(a: Seq<HealthStatus>, b: Seq<HealthStatus>, v: HealthStatus)
    requires
        a.to_multiset() == b.to_multiset(),
    ensures
        (exists|i: int| 0 <= i < a.len() && a[i] == v) <==> (exists|i: int| 0 <= i < b.len() && b[i] == v),
{
    broadcast use vstd::seq_lib::group_to_multiset_ensures;
    assert(a.contains(v) <==> a.to_multiset().count(v) > 0);
    assert(b.contains(v) <==> b.to_multiset().count(v) > 0);
    if exists|i: int| 0 <= i < a.len() && a[i] == v {
        let i = choose|i: int| 0 <= i < a.len() && a[i] == v;
        assert(a.contains(v));
    }
    if exists|i: int| 0 <= i < b.len() && b[i] == v {
        let i = choose|i: int| 0 <= i < b.len() && b[i] == v;
        assert(b.contains(v));
    }
}

/// The overall status is at least as bad as each component's.
pub proof fn law_overall_status_is_worst(a: Seq<HealthStatus>, i: int)
    requires
        0 <= i < a.len(),
    ensures
        severity(overall_status(a)) >= severity(a[i]),
{
}

} // verus!

verus! {

/// Whether `s` begins with `p`.
pub open spec fn starts_with(s: Seq<char>, p: Seq<char>) -> bool {
    p.len() <= s.len() && s.take(p.len() as int) == p
}

/// The characters before the first `:`.
pub open spec fn up_to_colon(s: Seq<char>) -> Seq<char>
    decreases s.len(),
{
    if s.len() == 0 || s[0] == ':' {
        Seq::empty()
    } else {
        seq![s[0]] + up_to_colon(s.drop_first())
    }
}

/// Whether line `i` is the first that starts with `redis_version:`.
pub open spec fn first_version_line(ls: Seq<Seq<char>>, i: int) -> bool {
    &&& 0 <= i < ls.len()
    &&& starts_with(ls[i], "redis_version:"@)
    &&& forall|j: int| 0 <= j < i ==> !starts_with(#[trigger] ls[j], "redis_version:"@)
}

/// The server version in Redis `INFO` text: the field after
/// `redis_version:` on the first line that starts so, trimmed.
pub open spec fn redis_version(info: Seq<char>) -> Option<Seq<char>> {
    let ls = lines_of(info);
    if exists|i: int| first_version_line(ls, i) {
        let i = choose|i: int| first_version_line(ls, i);
        Some(trimmed(up_to_colon(ls[i].skip(14))))
    } else {
        None
    }
}

fn prefix_is_version(l: &Vec<char>) -> (r: bool)
    ensures
        r == starts_with(l@, "redis_version:"@),
{
    let p = chars_of("redis_version:");
    proof {
        reveal_strlit("redis_version:");
    }
    if p.len() > l.len() {
        return false;
    }
    let mut i: usize = 0;
    while i < p.len()
        invariant
            i <= p@.len() <= l@.len(),
            p@ == "redis_version:"@,
            forall|j: int| 0 <= j < i ==> l@[j] == p@[j],
        decreases p@.len() - i,
    {
        if l[i] != p[i] {
            assert(l@.take(p@.len() as int)[i as int] != p@[i as int]);
            return false;
        }
        i = i + 1;
    }
    assert(l@.take(p@.len() as int) =~= p@);
    true
}

/// The server version in Redis `INFO` text.
pub fn parse_redis_version(info: &str) -> (r: Option<String>)
    ensures
        match redis_version(info@) {
            Some(v) => r matches Some(s) && s@ == v,
            None => r is None,
        },
{
    let ls = text_lines(info);
    let ghost lv = lines_of(info@);
    let mut i: usize = 0;
    while i < ls.len()
        invariant
            i <= ls@.len(),
            lv == lines_of(info@),
            ls@.len() == lv.len(),
            forall|j: int| 0 <= j < ls@.len() ==> #[trigger] ls@[j]@ == lv[j],
            forall|j: int| 0 <= j < i ==> !starts_with(#[trigger] lv[j], "redis_version:"@),
        decreases ls@.len() - i,
    {
        if prefix_is_version(&ls[i]) {
            proof {
                reveal_strlit("redis_version:");
                assert(first_version_line(lv, i as int));
                let c = choose|c: int| first_version_line(lv, c);
                assert(c == i) by {
                    if c < i {
                        assert(!starts_with(lv[c], "redis_version:"@));
                    }
                    if c > i {
                        assert(!starts_with(lv[i as int], "redis_version:"@));
                    }
                }
            }
            let l = &ls[i];
            let mut field: Vec<char> = Vec::new();
            let mut k: usize = 14;
            let ghost rest = l@.skip(14);
            while k < l.len() && l[k] != ':'
                invariant
                    14 <= k <= l@.len(),
                    rest == l@.skip(14),
                    field@ + up_to_colon(l@.skip(k as int)) == up_to_colon(rest),
                decreases l@.len() - k,
            {
                assert(l@.skip(k as int).drop_first() =~= l@.skip(k + 1));
                assert(l@.skip(k as int)[0] == l@[k as int]);
                let ghost f0 = field@;
                field.push(l[k]);
                assert(f0 + up_to_colon(l@.skip(k as int)) =~= field@ + up_to_colon(l@.skip(k + 1)));
                k = k + 1;
            }
            assert(up_to_colon(l@.skip(k as int)) =~= Seq::<char>::empty()) by {
                if k < l.len() {
                    assert(l@.skip(k as int)[0] == ':');
                }
            }
            assert(field@ =~= up_to_colon(rest));
            let t = trim_text(field.as_slice());
            return Some(string_from_chars(t.as_slice()));
        }
        i = i + 1;
    }
    None
}

} // verus!

verus! {

/// How probing Meilisearch went.
#[derive(Debug)]
pub enum MeilisearchProbe {
    /// The client could not be made; the error's text.
    ClientFailed(String),
    /// The health request failed; the error's text.
    HealthFailed(String),
    /// The health request answered with this status.
    Status(String),
}

/// How probing Redis went.
#[derive(Debug)]
pub enum RedisProbe {
    ClientFailed(String),
    ConnectionFailed(String),
    PingFailed(String),
    /// `PING` answered; `info` is the `INFO server` text when that worked.
    Pinged { response: String, info: Option<String> },
}

/// How probing the API went.
#[derive(Debug)]
pub enum ApiProbe {
    /// The API answered; `status` is the status line's text.
    Responded { success: bool, status: String },
    /// The API could not be reached; the error's text.
    Unreachable(String),
}

/// How probing PostgreSQL went.
#[derive(Debug)]
pub enum PostgresProbe {
    ConnectFailed(String),
    ClientFailed(String),
    QueryFailed(String),
    /// `SELECT 1` worked; the pool's size and free connections.
    Answered { pool_size: u64, pool_available: u64 },
}

/// Checks Meilisearch.
pub struct MeilisearchHealthCheck {
    pub config: MeilisearchConfig,
}

/// Checks Redis.
pub struct RedisHealthCheck {
    pub url: String,
}

/// Checks the API server.
pub struct ApiHealthCheck {
    pub port: u16,
}

/// Checks PostgreSQL.
pub struct PostgresHealthCheck;

fn message(prefix: &str, e: &String) -> (r: String)
    ensures
        r@ == prefix@ + e@,
{
    concat2(prefix, e.as_str())
}

impl MeilisearchHealthCheck {
    /// A check of the configured Meilisearch.
    pub fn new(config: MeilisearchConfig) -> (r: Self)
        ensures
            r.config == config,
    {
        MeilisearchHealthCheck { config }
    }

    /// The component's name.
    pub fn component_name(&self) -> (r: &'static str)
        ensures
            r@ == "meilisearch"@,
    {
        "meilisearch"
    }

    /// The result of a probe: healthy with the reported status, else
    /// unhealthy with why.
    pub fn result_of(probe: MeilisearchProbe) -> (r: HealthCheckResult)
        ensures
            r.details.wf(),
            match probe {
                MeilisearchProbe::ClientFailed(e) => r.status == HealthStatus::Unhealthy && (r.message matches Some(
                    m,
                ) && m@ == "Failed to create client: "@ + e@) && r.details@ == Map::<Seq<char>, JsonValue>::empty(),
                MeilisearchProbe::HealthFailed(e) => r.status == HealthStatus::Unhealthy && (r.message matches Some(
                    m,
                ) && m@ == "Health check failed: "@ + e@) && r.details@ == Map::<Seq<char>, JsonValue>::empty(),
                MeilisearchProbe::Status(s) => r.status == HealthStatus::Healthy && r.message is None && r.details@
                    == Map::<Seq<char>, JsonValue>::empty().insert("status"@, JsonValue::String(s)),
            },
    {
        match probe {
            MeilisearchProbe::ClientFailed(e) => HealthCheckResult::unhealthy(message("Failed to create client: ", &e)),
            MeilisearchProbe::HealthFailed(e) => HealthCheckResult::unhealthy(message("Health check failed: ", &e)),
            MeilisearchProbe::Status(s) => HealthCheckResult::healthy().with_detail("status", JsonValue::String(s)),
        }
    }
}

impl RedisHealthCheck {
    /// A check of the Redis at `url`.
    pub fn new(url: String) -> (r: Self)
        ensures
            r.url == url,
    {
        RedisHealthCheck { url }
    }

    /// The component's name.
    pub fn component_name(&self) -> (r: &'static str)
        ensures
            r@ == "redis"@,
    {
        "redis"
    }

    /// The result of a probe: healthy on `PONG` (with the server version
    /// when `INFO` gives it), degraded on another answer, else unhealthy
    /// with why.
    pub fn result_of(probe: RedisProbe) -> (r: HealthCheckResult)
        ensures
            r.details.wf(),
            match probe {
                RedisProbe::ClientFailed(e) => r.status == HealthStatus::Unhealthy && (r.message matches Some(m) && m@
                    == "Failed to create client: "@ + e@),
                RedisProbe::ConnectionFailed(e) => r.status == HealthStatus::Unhealthy && (r.message matches Some(m)
                    && m@ == "Connection failed: "@ + e@),
                RedisProbe::PingFailed(e) => r.status == HealthStatus::Unhealthy && (r.message matches Some(m) && m@
                    == "PING failed: "@ + e@),
                RedisProbe::Pinged { response, info } => if response@ == "PONG"@ {
                    &&& r.status == HealthStatus::Healthy
                    &&& r.message is None
                    &&& match info {
                        Some(t) => match redis_version(t@) {
                            Some(v) => r.details@.dom() == set!["version"@] && (r.details@["version"@] matches JsonValue::String(
                                vs,
                            ) && vs@ == v),
                            None => r.details@ == Map::<Seq<char>, JsonValue>::empty(),
                        },
                        None => r.details@ == Map::<Seq<char>, JsonValue>::empty(),
                    }
                } else {
                    r.status == HealthStatus::Degraded && (r.message matches Some(m) && m@ == "Unexpected PING response"@)
                },
            },
    {
        match probe {
            RedisProbe::ClientFailed(e) => HealthCheckResult::unhealthy(message("Failed to create client: ", &e)),
            RedisProbe::ConnectionFailed(e) => HealthCheckResult::unhealthy(message("Connection failed: ", &e)),
            RedisProbe::PingFailed(e) => HealthCheckResult::unhealthy(message("PING failed: ", &e)),
            RedisProbe::Pinged { response, info } => {
                if response == "PONG".to_owned() {
                    let mut result = HealthCheckResult::healthy();
                    match info {
                        Some(t) => match parse_redis_version(t.as_str()) {
                            Some(v) => {
                                result = result.with_detail("version", JsonValue::String(v));
                                assert(result.details@.dom() =~= set!["version"@]);
                            },
                            None => {},
                        },
                        None => {},
                    }
                    result
                } else {
                    HealthCheckResult::degraded("Unexpected PING response".to_owned())
                }
            },
        }
    }
}

impl ApiHealthCheck {
    /// A check of the API on `port`.
    pub fn new(port: u16) -> (r: Self)
        ensures
            r.port == port,
    {
        ApiHealthCheck { port }
    }

    /// The component's name.
    pub fn component_name(&self) -> (r: &'static str)
        ensures
            r@ == "api"@,
    {
        "api"
    }

    /// The result of a probe: healthy with the port when the API answers
    /// with success; degraded otherwise, since an API out of local reach is
    /// not down.
    pub fn result_of(&self, probe: ApiProbe) -> (r: HealthCheckResult)
        ensures
            r.details.wf(),
            match probe {
                ApiProbe::Responded { success, status } => if success {
                    r.status == HealthStatus::Healthy && r.message is None && r.details@ == Map::<
                        Seq<char>,
                        JsonValue,
                    >::empty().insert("port"@, JsonValue::Number(JsonNumber::PosInt(self.port as u64)))
                } else {
                    r.status == HealthStatus::Degraded && (r.message matches Some(m) && m@ == "API returned status: "@
                        + status@) && r.details@ == Map::<Seq<char>, JsonValue>::empty()
                },
                ApiProbe::Unreachable(e) => r.status == HealthStatus::Degraded && (r.message matches Some(m) && m@
                    == "Could not reach API: "@ + e@) && r.details@ == Map::<Seq<char>, JsonValue>::empty().insert(
                    "port"@,
                    JsonValue::Number(JsonNumber::PosInt(self.port as u64)),
                ),
            },
    {
        match probe {
            ApiProbe::Responded { success, status } => {
                if success {
                    HealthCheckResult::healthy().with_detail("port", JsonValue::Number(JsonNumber::PosInt(self.port as u64)))
                } else {
                    HealthCheckResult::degraded(message("API returned status: ", &status))
                }
            },
            ApiProbe::Unreachable(e) => HealthCheckResult::degraded(message("Could not reach API: ", &e)).with_detail(
                "port",
                JsonValue::Number(JsonNumber::PosInt(self.port as u64)),
            ),
        }
    }
}

impl PostgresHealthCheck {
    /// The component's name.
    pub fn component_name(&self) -> (r: &'static str)
        ensures
            r@ == "postgresql"@,
    {
        "postgresql"
    }

    /// The result of a probe: healthy with the pool's size and free
    /// connections, else unhealthy with why.
    pub fn result_of(probe: PostgresProbe) -> (r: HealthCheckResult)
        ensures
            r.details.wf(),
            match probe {
                PostgresProbe::ConnectFailed(e) => r.status == HealthStatus::Unhealthy && (r.message matches Some(m)
                    && m@ == "Failed to connect: "@ + e@),
                PostgresProbe::ClientFailed(e) => r.status == HealthStatus::Unhealthy && (r.message matches Some(m)
                    && m@ == "Failed to get client: "@ + e@),
                PostgresProbe::QueryFailed(e) => r.status == HealthStatus::Unhealthy && (r.message matches Some(m)
                    && m@ == "Query failed: "@ + e@),
                PostgresProbe::Answered { pool_size, pool_available } => r.status == HealthStatus::Healthy
                    && r.message is None && r.details@ == Map::<Seq<char>, JsonValue>::empty().insert(
                    "pool_size"@,
                    JsonValue::Number(JsonNumber::PosInt(pool_size)),
                ).insert("pool_available"@, JsonValue::Number(JsonNumber::PosInt(pool_available))),
            },
    {
        match probe {
            PostgresProbe::ConnectFailed(e) => HealthCheckResult::unhealthy(message("Failed to connect: ", &e)),
            PostgresProbe::ClientFailed(e) => HealthCheckResult::unhealthy(message("Failed to get client: ", &e)),
            PostgresProbe::QueryFailed(e) => HealthCheckResult::unhealthy(message("Query failed: ", &e)),
            PostgresProbe::Answered { pool_size, pool_available } => HealthCheckResult::healthy().with_detail(
                "pool_size",
                JsonValue::Number(JsonNumber::PosInt(pool_size)),
            ).with_detail("pool_available", JsonValue::Number(JsonNumber::PosInt(pool_available))),
        }
    }
}

} // verus!
