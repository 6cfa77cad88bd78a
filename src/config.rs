//! Service settings and their defaults: the values that the decoders and the
//! pattern cache are given at start-up.

use vstd::prelude::*;

verus! {

pub struct CommonConfig {
    /// The charset tried when the requested one fails.
    pub alt_encoding: String,
}

pub struct ServiceConfig {
    pub listen: String,
    pub server_hostname: String,
    pub workers: usize,
    pub backlog: i32,
    pub max_connections: usize,
    pub max_connection_rate: usize,
    pub keep_alive: usize,
    pub client_timeout: u64,
    pub client_shutdown: u64,
    pub shutdown_timeout: u64,
}

pub struct CacheConfig {
    /// Patterns the cache holds before it is cleared; 0 for no bound.
    pub regex_patterns_limit: usize,
    pub regex_patterns_capacity: usize,
}

pub struct LoggerConfig {
    pub log_level: String,
}

pub struct Config {
    pub common: CommonConfig,
    pub service: ServiceConfig,
    pub cache: CacheConfig,
    pub logger: LoggerConfig,
}

/// Relies on `num_cpus::get`, which always returns at least 1.
#[verifier::external_body]
fn logical_cpus() -> (r: usize)
    ensures
        r >= 1,
{
    num_cpus::get()
}

pub fn default_common_alt_encoding() -> (r: String)
    ensures
        r@ == "utf-8"@,
{
    String::from_str("utf-8")
}

pub fn default_service_listen() -> (r: String)
    ensures
        r@ == "127.0.0.1:8080"@,
{
    String::from_str("127.0.0.1:8080")
}

pub fn default_service_server_hostname() -> (r: String)
    ensures
        r@ == "localhost"@,
{
    String::from_str("localhost")
}

/// One worker per logical CPU.
pub fn default_service_workers() -> (r: usize)
    ensures
        r >= 1,
{
    logical_cpus()
}

pub fn default_service_backlog() -> (r: i32)
    ensures
        r == 2048,
{
    2048
}

pub fn default_service_max_connections() -> (r: usize)
    ensures
        r == 25_000,
{
    25_000
}

pub fn default_service_max_connection_rate() -> (r: usize)
    ensures
        r == 256,
{
    256
}

pub fn default_service_keep_alive() -> (r: usize)
    ensures
        r == 5,
{
    5
}

pub fn default_service_client_timeout() -> (r: u64)
    ensures
        r == 5_000,
{
    5_000
}

pub fn default_service_client_shutdown() -> (r: u64)
    ensures
        r == 5_000,
{
    5_000
}

pub fn default_service_shutdown_timeout() -> (r: u64)
    ensures
        r == 30,
{
    30
}

pub fn default_regex_patterns_limit() -> (r: usize)
    ensures
        r == 10000,
{
    10000
}

pub fn default_regex_patterns_capacity() -> (r: usize)
    ensures
        r == 10000,
{
    10000
}

pub fn default_logger_level() -> (r: String)
    ensures
        r@ == "info"@,
{
    String::from_str("info")
}

pub open spec fn is_default_common(c: CommonConfig) -> bool {
    c.alt_encoding@ == "utf-8"@
}

pub open spec fn is_default_service(s: ServiceConfig) -> bool {
    &&& s.listen@ == "127.0.0.1:8080"@
    &&& s.server_hostname@ == "localhost"@
    &&& s.workers >= 1
    &&& s.backlog == 2048
    &&& s.max_connections == 25_000
    &&& s.max_connection_rate == 256
    &&& s.keep_alive == 5
    &&& s.client_timeout == 5_000
    &&& s.client_shutdown == 5_000
    &&& s.shutdown_timeout == 30
}

pub open spec fn is_default_cache(c: CacheConfig) -> bool {
    c.regex_patterns_limit == 10000 && c.regex_patterns_capacity == 10000
}

pub open spec fn is_default_logger(l: LoggerConfig) -> bool {
    l.log_level@ == "info"@
}

impl Default for CommonConfig {
    fn default() -> (r: Self)
        ensures
            is_default_common(r),
    {
        Self { alt_encoding: default_common_alt_encoding() }
    }
}

impl Default for ServiceConfig {
    fn default() -> (r: Self)
        ensures
            is_default_service(r),
    {
        Self {
            listen: default_service_listen(),
            server_hostname: default_service_server_hostname(),
            workers: default_service_workers(),
            backlog: default_service_backlog(),
            max_connections: default_service_max_connections(),
            max_connection_rate: default_service_max_connection_rate(),
            keep_alive: default_service_keep_alive(),
            client_timeout: default_service_client_timeout(),
            client_shutdown: default_service_client_shutdown(),
            shutdown_timeout: default_service_shutdown_timeout(),
        }
    }
}

impl Default for CacheConfig {
    fn default() -> (r: Self)
        ensures
            is_default_cache(r),
    {
        Self {
            regex_patterns_limit: default_regex_patterns_limit(),
            regex_patterns_capacity: default_regex_patterns_capacity(),
        }
    }
}

impl Default for LoggerConfig {
    fn default() -> (r: Self)
        ensures
            is_default_logger(r),
    {
        Self { log_level: default_logger_level() }
    }
}

pub fn default_common_config() -> (r: CommonConfig)
    ensures
        is_default_common(r),
{
    CommonConfig::default()
}

pub fn default_service_config() -> (r: ServiceConfig)
    ensures
        is_default_service(r),
{
    ServiceConfig::default()
}

pub fn default_cache_config() -> (r: CacheConfig)
    ensures
        is_default_cache(r),
{
    CacheConfig::default()
}

pub fn default_logger_config() -> (r: LoggerConfig)
    ensures
        is_default_logger(r),
{
    LoggerConfig::default()
}

impl Default for Config {
    fn default() -> (r: Self)
        ensures
            is_default_common(r.common),
            is_default_service(r.service),
            is_default_cache(r.cache),
            is_default_logger(r.logger),
    {
        Self {
            common: default_common_config(),
            service: default_service_config(),
            cache: default_cache_config(),
            logger: default_logger_config(),
        }
    }
}

} // verus!
