//! API server settings.

use vstd::prelude::*;

verus! {

/// API server configuration.
#[derive(Debug, Clone)]
pub struct ApiConfig {
    pub host: String,
    pub port: u16,
    pub cors: CorsConfig,
    pub auth: AuthConfig,
    pub rate_limit: ApiRateLimitConfig,
}

impl ApiConfig {
    /// The values that `ApiConfig::default()` gives.
    pub open spec fn is_default(&self) -> bool {
        &&& self.host@ == "127.0.0.1"@
        &&& self.port == 7701
        &&& self.cors.is_default()
        &&& self.auth.is_default()
        &&& self.rate_limit.is_default()
    }
}

impl Default for ApiConfig {
    fn default() -> (r: Self)
        ensures
            r.is_default(),
    {
        ApiConfig {
            host: default_host(),
            port: default_port(),
            cors: CorsConfig::default(),
            auth: AuthConfig::default(),
            rate_limit: ApiRateLimitConfig::default(),
        }
    }
}

/// Cross-origin settings.
#[derive(Debug, Clone)]
pub struct CorsConfig {
    pub enabled: bool,
    pub allowed_origins: Vec<String>,
    pub allowed_methods: Vec<String>,
    pub allowed_headers: Vec<String>,
    pub max_age: u64,
}

impl CorsConfig {
    /// The values that `CorsConfig::default()` gives: all empty or off.
    pub open spec fn is_default(&self) -> bool {
        &&& !self.enabled
        &&& self.allowed_origins@.len() == 0
        &&& self.allowed_methods@.len() == 0
        &&& self.allowed_headers@.len() == 0
        &&& self.max_age == 0
    }
}

impl Default for CorsConfig {
    fn default() -> (r: Self)
        ensures
            r.is_default(),
    {
        CorsConfig {
            enabled: false,
            allowed_origins: Vec::new(),
            allowed_methods: Vec::new(),
            allowed_headers: Vec::new(),
            max_age: 0,
        }
    }
}

/// Authentication settings.
#[derive(Debug, Clone)]
pub struct AuthConfig {
    pub enabled: bool,
    pub jwt_secret: Option<String>,
    pub token_expiry: u64,
    pub api_keys: Vec<ApiKey>,
}

impl AuthConfig {
    /// The values that `AuthConfig::default()` gives: all empty or off.
    pub open spec fn is_default(&self) -> bool {
        &&& !self.enabled
        &&& self.jwt_secret is None
        &&& self.token_expiry == 0
        &&& self.api_keys@.len() == 0
    }
}

impl Default for AuthConfig {
    fn default() -> (r: Self)
        ensures
            r.is_default(),
    {
        AuthConfig { enabled: false, jwt_secret: None, token_expiry: 0, api_keys: Vec::new() }
    }
}

/// An API key and its permissions.
#[derive(Debug, Clone)]
pub struct ApiKey {
    pub name: String,
    pub key: String,
    pub permissions: Vec<String>,
}

/// Request rate limits of the API.
#[derive(Debug, Clone)]
pub struct ApiRateLimitConfig {
    pub enabled: bool,
    pub requests_per_minute: u32,
    pub burst_size: u32,
}

impl ApiRateLimitConfig {
    /// The values that `ApiRateLimitConfig::default()` gives.
    pub open spec fn is_default(&self) -> bool {
        &&& !self.enabled
        &&& self.requests_per_minute == 60
        &&& self.burst_size == 10
    }
}

impl Default for ApiRateLimitConfig {
    fn default() -> (r: Self)
        ensures
            r.is_default(),
    {
        ApiRateLimitConfig {
            enabled: false,
            requests_per_minute: default_requests_per_minute(),
            burst_size: default_burst_size(),
        }
    }
}

/// Default API host.
pub fn default_host() -> (r: String)
    ensures
        r@ == "127.0.0.1"@,
{
    "127.0.0.1".to_owned()
}

/// Default API port.
pub fn default_port() -> (r: u16)
    ensures
        r == 7701,
{
    7701
}

/// Default CORS methods.
pub fn default_allowed_methods() -> (r: Vec<String>)
    ensures
        r@.len() == 5,
        r@[0]@ == "GET"@,
        r@[1]@ == "POST"@,
        r@[2]@ == "PUT"@,
        r@[3]@ == "DELETE"@,
        r@[4]@ == "OPTIONS"@,
{
    let mut r = Vec::new();
    r.push("GET".to_owned());
    r.push("POST".to_owned());
    r.push("PUT".to_owned());
    r.push("DELETE".to_owned());
    r.push("OPTIONS".to_owned());
    r
}

/// Default CORS headers.
pub fn default_allowed_headers() -> (r: Vec<String>)
    ensures
        r@.len() == 2,
        r@[0]@ == "Content-Type"@,
        r@[1]@ == "Authorization"@,
{
    let mut r = Vec::new();
    r.push("Content-Type".to_owned());
    r.push("Authorization".to_owned());
    r
}

/// Default CORS max age, in seconds.
pub fn default_max_age() -> (r: u64)
    ensures
        r == 3600,
{
    3600
}

/// Default token lifetime, in seconds.
pub fn default_token_expiry() -> (r: u64)
    ensures
        r == 3600,
{
    3600
}

/// Default requests per minute.
pub fn default_requests_per_minute() -> (r: u32)
    ensures
        r == 60,
{
    60
}

/// Default burst size.
pub fn default_burst_size() -> (r: u32)
    ensures
        r == 10,
{
    10
}

} // verus!
