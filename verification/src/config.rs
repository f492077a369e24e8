//! The service configuration and the values a configuration file may leave out.
use vstd::prelude::*;
use crate::text::owned;

verus! {

/// Where the service listens.
#[derive(Debug, Clone)]
pub struct ServerConfig {
    pub host: String,
    pub port: u16,
}

/// The database the service connects to.
#[derive(Debug, Clone)]
pub struct DatabaseConfig {
    pub url: String,
    pub max_connections: u32,
}

/// The logging level.
#[derive(Debug, Clone)]
pub struct LoggingConfig {
    pub level: String,
}

/// A tenant served.
#[derive(Debug, Clone)]
pub struct TenantConfig {
    pub id: String,
    pub name: String,
    pub schema: String,
}

/// The whole configuration.
#[derive(Debug, Clone)]
pub struct Config {
    pub server: ServerConfig,
    pub database: DatabaseConfig,
    pub logging: LoggingConfig,
    pub tenants: Vec<TenantConfig>,
}

/// The host listened on when none is configured: 127.0.0.1.
pub fn default_host() -> (r: String)
    ensures
        r@ == "127.0.0.1"@,
{
    owned("127.0.0.1")
}

/// The port listened on when none is configured: 8080.
pub fn default_port() -> (r: u16)
    ensures
        r == 8080,
{
    8080
}

/// The database URL when none is configured.
pub fn default_db_url() -> (r: String)
    ensures
        r@ == "postgres://localhost:5432/fb"@,
{
    owned("postgres://localhost:5432/fb")
}

/// The connection pool size when none is configured: 5.
pub fn default_max_connections() -> (r: u32)
    ensures
        r == 5,
{
    5
}

/// The logging level when none is configured: "info".
pub fn default_log_level() -> (r: String)
    ensures
        r@ == "info"@,
{
    owned("info")
}

/// A tenant's schema when none is configured: "public".
pub fn default_schema() -> (r: String)
    ensures
        r@ == "public"@,
{
    owned("public")
}

impl Default for ServerConfig {
    fn default() -> (r: ServerConfig)
        ensures
            r.host@ == "127.0.0.1"@,
            r.port == 8080,
    {
        ServerConfig { host: default_host(), port: default_port() }
    }
}

impl Default for DatabaseConfig {
    fn default() -> (r: DatabaseConfig)
        ensures
            r.url@ == "postgres://localhost:5432/fb"@,
            r.max_connections == 5,
    {
        DatabaseConfig { url: default_db_url(), max_connections: default_max_connections() }
    }
}

impl Default for LoggingConfig {
    fn default() -> (r: LoggingConfig)
        ensures
            r.level@ == "info"@,
    {
        LoggingConfig { level: default_log_level() }
    }
}

impl Default for TenantConfig {
    fn default() -> (r: TenantConfig)
        ensures
            r.id@ == "default"@,
            r.name@ == "Default Tenant"@,
            r.schema@ == "public"@,
    {
        TenantConfig { id: owned("default"), name: owned("Default Tenant"), schema: default_schema() }
    }
}

impl Default for Config {
    fn default() -> (r: Config)
        ensures
            r.server.host@ == "127.0.0.1"@,
            r.server.port == 8080,
            r.database.url@ == "postgres://localhost:5432/fb"@,
            r.database.max_connections == 5,
            r.logging.level@ == "info"@,
            r.tenants@.len() == 1,
            r.tenants@[0].id@ == "default"@,
            r.tenants@[0].name@ == "Default Tenant"@,
            r.tenants@[0].schema@ == "public"@,
    {
        let mut tenants: Vec<TenantConfig> = Vec::new();
        tenants.push(TenantConfig::default());
        Config {
            server: ServerConfig::default(),
            database: DatabaseConfig::default(),
            logging: LoggingConfig::default(),
            tenants,
        }
    }
}

} // verus!
