//! Which database keeps the runtime state.

use vstd::prelude::*;

verus! {

/// The kind of database behind the runtime state.
#[derive(Clone, Copy, Debug, PartialEq, Eq, Structural)]
pub enum RuntimeStateBackend {
    /// Local databases; files on disk are authoritative.
    Sqlite,
    /// A shared database that is itself authoritative.
    Postgresql,
}

/// Where the local databases are.
#[derive(Debug, PartialEq, Eq)]
pub struct SqliteConfig {
    pub sqlite_home: String,
}

impl Clone for SqliteConfig {
    fn clone(&self) -> (copy: Self)
        ensures
            copy == *self,
    {
        SqliteConfig { sqlite_home: self.sqlite_home.clone() }
    }
}

/// Which part of the shared database is used.
#[derive(Debug, PartialEq, Eq)]
pub struct PostgresNamespaceConfig {
    pub database_url: String,
    pub schema: String,
}

impl Clone for PostgresNamespaceConfig {
    fn clone(&self) -> (copy: Self)
        ensures
            copy == *self,
    {
        PostgresNamespaceConfig { database_url: self.database_url.clone(), schema: self.schema.clone() }
    }
}

/// Configuration selecting the backend of [`crate::StateRuntime`].
#[derive(Debug, PartialEq, Eq)]
#[non_exhaustive]
pub enum RuntimeStateBackendConfig {
    Sqlite(SqliteConfig),
    Postgresql { codex_home: String, namespace: PostgresNamespaceConfig },
}

impl Clone for RuntimeStateBackendConfig {
    fn clone(&self) -> (copy: Self)
        ensures
            copy == *self,
    {
        match self {
            RuntimeStateBackendConfig::Sqlite(config) => RuntimeStateBackendConfig::Sqlite(config.clone()),
            RuntimeStateBackendConfig::Postgresql { codex_home, namespace } => RuntimeStateBackendConfig::Postgresql {
                codex_home: codex_home.clone(),
                namespace: namespace.clone(),
            },
        }
    }
}

impl RuntimeStateBackendConfig {
    /// The kind of database that is selected.
    pub open spec fn selected(self) -> RuntimeStateBackend {
        if self is Postgresql {
            RuntimeStateBackend::Postgresql
        } else {
            RuntimeStateBackend::Sqlite
        }
    }

    /// Returns whether the shared database is selected.
    pub fn is_postgresql(&self) -> (r: bool)
        ensures
            r == (self is Postgresql),
    {
        matches!(self, Self::Postgresql { .. })
    }

    pub fn backend(&self) -> (backend: RuntimeStateBackend)
        ensures
            backend == self.selected(),
    {
        if self.is_postgresql() {
            RuntimeStateBackend::Postgresql
        } else {
            RuntimeStateBackend::Sqlite
        }
    }
}

} // verus!
