//! The order of start-up: configuration first, then one dedicated connection
//! on which the schema is brought up to date, and only then a pool and
//! requests.
//!
//! Each stage is a value that the one before it hands out, and `Serving`, the
//! permission to take requests, can only be had from the last. So no request
//! is ever served without a connection string, or before the schema steps
//! have all succeeded. Any failure ends start-up: there is no retry and no
//! partial service, and the process ends with `EXIT_FAILURE`.

use vstd::prelude::*;
use crate::config::{configured, raw_text, Config, ConfigView, ConfigurationError};
use crate::migrations::MigrationError;
use crate::pool::{Pool, PoolModel};

verus! {

/// Why the service did not start.
#[derive(Clone, Copy, Debug, PartialEq, Eq, Structural)]
pub enum StartupError {
    /// No usable connection string.
    Configuration(ConfigurationError),
    /// The connection for the schema steps could not be opened.
    Connection,
    /// The schema could not be brought up to date.
    Migration(MigrationError),
}

/// The status with which the process ends when start-up fails.
pub const EXIT_FAILURE: i32 = 1;

/// The stage that has a configuration and waits for the dedicated
/// connection to be opened.
#[derive(Debug)]
pub struct Connecting {
    config: Config,
}

/// The stage that has the dedicated connection and waits for the schema
/// steps to finish on it.
#[derive(Debug)]
pub struct Migrating {
    config: Config,
}

/// The stage in which requests may be served, with the pool they share.
#[derive(Debug)]
pub struct Serving {
    config: Config,
    pool: Pool,
}

impl View for Connecting {
    type V = ConfigView;

    closed spec fn view(&self) -> ConfigView {
        self.config@
    }
}

impl View for Migrating {
    type V = ConfigView;

    closed spec fn view(&self) -> ConfigView {
        self.config@
    }
}

impl View for Serving {
    type V = ConfigView;

    closed spec fn view(&self) -> ConfigView {
        self.config@
    }
}

/// The first stage: builds the configuration from the raw connection
/// setting. It fails, with the configuration's error, exactly when the
/// setting is unset or empty.
pub fn configure(raw: Option<String>, pool_size: usize, acquire_timeout_ms: u64) -> (next: Result<
    Connecting,
    StartupError,
>)
    ensures
        match configured(raw_text(raw), pool_size, acquire_timeout_ms) {
            Ok(config) => next matches Ok(stage) && stage@ == config,
            Err(error) => next matches Err(reason) && reason == StartupError::Configuration(error),
        },
{
    match Config::new(raw, pool_size, acquire_timeout_ms) {
        Ok(config) => Ok(Connecting { config }),
        Err(error) => Err(StartupError::Configuration(error)),
    }
}

impl Connecting {
    /// The connection string under which to open the dedicated connection.
    pub fn connection_string(&self) -> (text: &str)
        ensures
            text@ == self@.connection_string,
            text@.len() > 0,
    {
        self.config.connection_string.as_str()
    }

    /// Takes the news of the dedicated connection: `opened` says whether it
    /// could be opened. Start-up goes on exactly when it could.
    pub fn on_connection(self, opened: bool) -> (next: Result<Migrating, StartupError>)
        ensures
            opened ==> (next matches Ok(stage) && stage@ == self@),
            !opened ==> (next matches Err(reason) && reason == StartupError::Connection),
    {
        if opened {
            Ok(Migrating { config: self.config })
        } else {
            Err(StartupError::Connection)
        }
    }
}

impl Migrating {
    /// Takes the outcome of the schema run. Start-up goes on exactly when the
    /// run succeeded, with a new pool of the configured size that has opened
    /// no connection yet; otherwise it ends with the run's error.
    pub fn on_migrations(self, outcome: Result<usize, MigrationError>) -> (next: Result<
        Serving,
        StartupError,
    >)
        ensures
            match outcome {
                Ok(_) => {
                    &&& next matches Ok(stage)
                    &&& stage@ == self@
                    &&& stage.pool_view() == PoolModel::fresh(self@.pool_size as nat)
                },
                Err(error) => next matches Err(reason) && reason == StartupError::Migration(error),
            },
    {
        match outcome {
            Ok(_) => {
                let pool = Pool::new(self.config.pool_size);
                Ok(Serving { config: self.config, pool })
            },
            Err(error) => Err(StartupError::Migration(error)),
        }
    }
}

impl Serving {
    /// The state of the pool that this stage holds.
    pub closed spec fn pool_view(&self) -> PoolModel {
        self.pool@
    }

    /// Hands out the configuration and the pool, for the listener to share
    /// among its requests.
    pub fn into_parts(self) -> (parts: (Config, Pool))
        ensures
            parts.0@ == self@,
            parts.1@ == self.pool_view(),
    {
        (self.config, self.pool)
    }
}

/// The status with which the process ends after a failed start-up. It is not
/// zero, whatever the failure was.
pub fn exit_status(error: &StartupError) -> (status: i32)
    ensures
        status == EXIT_FAILURE,
        status != 0,
{
    EXIT_FAILURE
}

} // verus!
