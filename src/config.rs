use vstd::prelude::*;

verus! {

/// Where the service keeps its data, where it listens, and how much it logs.
#[derive(Clone)]
pub struct AppConfig {
    pub database_url: String,
    pub bind_address: String,
    pub log_level: String,
}

fn or_default(value: Option<String>, default: &str) -> (r: String)
    ensures
        r@ == (match value {
            Some(v) => v@,
            None => default@,
        }),
{
    match value {
        Some(v) => v,
        None => String::from_str(default),
    }
}

impl AppConfig {
    /// The configuration from the values that were set, with a default for
    /// each one that was not.
    pub fn from_values(
        database_url: Option<String>,
        bind_address: Option<String>,
        log_level: Option<String>,
    ) -> (r: AppConfig)
        ensures
            r.database_url@ == (match database_url {
                Some(v) => v@,
                None => "sqlite:ledger.db"@,
            }),
            r.bind_address@ == (match bind_address {
                Some(v) => v@,
                None => "127.0.0.1:8080"@,
            }),
            r.log_level@ == (match log_level {
                Some(v) => v@,
                None => "info"@,
            }),
    {
        AppConfig {
            database_url: or_default(database_url, "sqlite:ledger.db"),
            bind_address: or_default(bind_address, "127.0.0.1:8080"),
            log_level: or_default(log_level, "info"),
        }
    }
}

} // verus!
