//! Process-wide configuration: backend connection, cache and schema import.
use vstd::prelude::*;

verus! {

/// All configuration sections.
#[derive(Debug, Clone)]
pub struct AppConfig {
    pub database: DatabaseConfig,
    pub caching: CachingConfig,
    pub schema: SchemaConfig,
}

/// The backend connection; `db_type` selects the driver for the process.
#[derive(Debug, Clone)]
pub struct DatabaseConfig {
    pub db_type: String,
    pub db_host: String,
    pub db_port: u16,
    pub db_name: String,
    pub db_user: String,
    pub db_password: String,
}

/// The result cache: whether it is used, the default expiry in seconds, and
/// where the cache service runs.
#[derive(Debug, Clone)]
pub struct CachingConfig {
    pub cache_enabled: bool,
    pub cache_expiry: u32,
    pub cache_type: String,
    pub cache_host: String,
    pub cache_port: u16,
}

/// The schema import: whether to run it at start-up and its files.
#[derive(Debug, Clone)]
pub struct SchemaConfig {
    pub fetch_schema: bool,
    pub relationship_file: String,
    pub schema_file: String,
}

} // verus!
