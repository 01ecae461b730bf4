//! Which database a schema names, and what setting it up and tearing it down take.

use vstd::prelude::*;
use vstd::string::*;

verus! {

/// The databases that can be set up.
#[derive(Clone, Copy, Debug, PartialEq, Eq, Structural)]
pub enum Provider {
    SqlServer,
    Postgres,
    Cockroach,
    Mysql,
    Mongo,
    Sqlite,
}

/// The database that a data source names as its provider, if it is one that can be set up.
pub open spec fn provider_named(name: Seq<char>) -> Option<Provider> {
    if name == "sqlserver"@ {
        Some(Provider::SqlServer)
    } else if name == "postgres"@ || name == "postgresql"@ {
        Some(Provider::Postgres)
    } else if name == "cockroachdb"@ {
        Some(Provider::Cockroach)
    } else if name == "mysql"@ {
        Some(Provider::Mysql)
    } else if name == "mongodb"@ {
        Some(Provider::Mongo)
    } else if name == "sqlite"@ {
        Some(Provider::Sqlite)
    } else {
        None
    }
}

/// The database that a data source names as its provider.
pub fn provider_of(name: &str) -> (r: Option<Provider>)
    ensures
        r == provider_named(name@),
{
    let name = String::from_str(name);
    if name == String::from_str("sqlserver") {
        Some(Provider::SqlServer)
    } else if name == String::from_str("postgres") || name == String::from_str("postgresql") {
        Some(Provider::Postgres)
    } else if name == String::from_str("cockroachdb") {
        Some(Provider::Cockroach)
    } else if name == String::from_str("mysql") {
        Some(Provider::Mysql)
    } else if name == String::from_str("mongodb") {
        Some(Provider::Mongo)
    } else if name == String::from_str("sqlite") {
        Some(Provider::Sqlite)
    } else {
        None
    }
}

/// What tearing a database down takes.
#[derive(Clone, Copy, Debug, PartialEq, Eq, Structural)]
pub enum Teardown {
    /// The schemas that were set up are dropped.
    DropSchemas,
    /// Nothing: the next set-up begins afresh.
    Nothing,
}

/// What tearing down the database of a provider takes: the schemas of a Postgres database
/// are dropped, every other database is left as it is.
pub fn teardown_of(provider: Provider) -> (r: Teardown)
    ensures
        r == if provider is Postgres {
            Teardown::DropSchemas
        } else {
            Teardown::Nothing
        },
{
    match provider {
        Provider::Postgres => Teardown::DropSchemas,
        _ => Teardown::Nothing,
    }
}

/// The driver adapters that a database can be reached through.
#[derive(Clone, Copy, Debug, PartialEq, Eq, Structural)]
pub enum DriverAdapter {
    Planetscale,
    Neon,
    Pg,
    LibSQL,
    D1,
}

/// How a database behind a driver adapter is set up.
#[derive(Clone, Copy, Debug, PartialEq, Eq, Structural)]
pub enum ExternalSetup {
    /// The adapter applies the migration script itself.
    MigrateThroughAdapter,
    /// The schema engine sets the database up, then the adapter begins its session.
    SetupThenInit,
}

/// How the database behind a driver adapter is set up: D1 migrates itself, every other
/// adapter leaves the migration to the schema engine.
pub fn external_setup_of(driver_adapter: DriverAdapter) -> (r: ExternalSetup)
    ensures
        r == if driver_adapter is D1 {
            ExternalSetup::MigrateThroughAdapter
        } else {
            ExternalSetup::SetupThenInit
        },
{
    match driver_adapter {
        DriverAdapter::D1 => ExternalSetup::MigrateThroughAdapter,
        _ => ExternalSetup::SetupThenInit,
    }
}

} // verus!
