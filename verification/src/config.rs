//! Start-up configuration: the connection string and the pool's settings.

use vstd::prelude::*;

verus! {

/// Why no configuration could be built. Either way start-up must stop.
#[derive(Clone, Copy, Debug, PartialEq, Eq, Structural)]
pub enum ConfigurationError {
    /// The value was not set at all.
    Missing,
    /// The value was set to the empty string.
    Empty,
}

/// A connection string that is known to be non-empty.
#[derive(Debug)]
pub struct ConnectionString {
    value: String,
}

impl View for ConnectionString {
    type V = Seq<char>;

    closed spec fn view(&self) -> Seq<char> {
        self.value@
    }
}

impl ConnectionString {
    /// A connection string is never empty.
    #[verifier::type_invariant]
    pub open spec fn non_empty(self) -> bool {
        self@.len() > 0
    }

    /// The text of the connection string.
    pub fn as_str(&self) -> (text: &str)
        ensures
            text@ == self@,
            text@.len() > 0,
    {
        proof {
            use_type_invariant(self);
        }
        self.value.as_str()
    }
}

/// The text of a raw setting, if it is set.
pub open spec fn raw_text(raw: Option<String>) -> Option<Seq<char>> {
    match raw {
        Some(text) => Some(text@),
        None => None,
    }
}

/// What `resolve_connection_string` answers for a raw value.
pub open spec fn resolved(raw: Option<Seq<char>>) -> Result<Seq<char>, ConfigurationError> {
    match raw {
        None => Err(ConfigurationError::Missing),
        Some(text) => if text.len() == 0 {
            Err(ConfigurationError::Empty)
        } else {
            Ok(text)
        },
    }
}

/// Turns the raw value of the connection setting, as the environment gave it
/// (`None` when it is unset), into a connection string.
///
/// An unset value is `Missing`, an empty one is `Empty`, and every other
/// value is accepted unchanged.
pub fn resolve_connection_string(raw: Option<String>) -> (outcome: Result<
    ConnectionString,
    ConfigurationError,
>)
    ensures
        match resolved(raw_text(raw)) {
            Ok(text) => outcome matches Ok(found) && found@ == text,
            Err(error) => outcome matches Err(reason) && reason == error,
        },
{
    match raw {
        None => Err(ConfigurationError::Missing),
        Some(text) => {
            if text.as_str().is_empty() {
                Err(ConfigurationError::Empty)
            } else {
                Ok(ConnectionString { value: text })
            }
        },
    }
}

/// What the service is started with. It is built once, before anything
/// else runs, and handed to whoever needs it.
#[derive(Debug)]
pub struct Config {
    /// Where the store is.
    pub connection_string: ConnectionString,
    /// The largest number of connections that the pool may hold.
    pub pool_size: usize,
    /// How long a request waits for a connection, in milliseconds.
    pub acquire_timeout_ms: u64,
}

/// What a configuration is, mathematically.
pub struct ConfigView {
    pub connection_string: Seq<char>,
    pub pool_size: usize,
    pub acquire_timeout_ms: u64,
}

impl View for Config {
    type V = ConfigView;

    open spec fn view(&self) -> ConfigView {
        ConfigView {
            connection_string: self.connection_string@,
            pool_size: self.pool_size,
            acquire_timeout_ms: self.acquire_timeout_ms,
        }
    }
}

/// What `Config::new` answers for a raw connection setting and the pool's
/// settings.
pub open spec fn configured(raw: Option<Seq<char>>, pool_size: usize, acquire_timeout_ms: u64) -> Result<
    ConfigView,
    ConfigurationError,
> {
    match resolved(raw) {
        Ok(connection_string) => Ok(ConfigView { connection_string, pool_size, acquire_timeout_ms }),
        Err(error) => Err(error),
    }
}

impl Config {
    /// Builds the configuration from the raw connection setting and the
    /// pool's settings. It fails exactly when `resolve_connection_string`
    /// fails on `raw`, and with the same error.
    pub fn new(raw: Option<String>, pool_size: usize, acquire_timeout_ms: u64) -> (outcome: Result<
        Config,
        ConfigurationError,
    >)
        ensures
            match configured(raw_text(raw), pool_size, acquire_timeout_ms) {
                Ok(expected) => outcome matches Ok(config) && config@ == expected,
                Err(error) => outcome matches Err(reason) && reason == error,
            },
    {
        match resolve_connection_string(raw) {
            Ok(connection_string) => Ok(Config { connection_string, pool_size, acquire_timeout_ms }),
            Err(error) => Err(error),
        }
    }
}

} // verus!
