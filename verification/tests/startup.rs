use record_store::config::{resolve_connection_string, Config, ConfigurationError};
use record_store::migrations::MigrationError;
use record_store::startup::{configure, exit_status, StartupError, EXIT_FAILURE};

fn setting(text: &str) -> Option<String> {
    Some(text.to_string())
}

#[test]
fn an_unset_connection_setting_is_missing() {
    assert_eq!(resolve_connection_string(None).unwrap_err(), ConfigurationError::Missing);
}

#[test]
fn an_empty_connection_setting_is_refused() {
    assert_eq!(resolve_connection_string(setting("")).unwrap_err(), ConfigurationError::Empty);
}

#[test]
fn any_other_connection_setting_is_taken_as_it_is() {
    for text in ["postgres://user:pw@localhost/app", " ", "x"] {
        assert_eq!(resolve_connection_string(setting(text)).unwrap().as_str(), text);
    }
}

#[test]
fn a_configuration_keeps_the_settings_it_was_given() {
    let config = Config::new(setting("postgres://localhost/app"), 10, 30_000).unwrap();
    assert_eq!(config.connection_string.as_str(), "postgres://localhost/app");
    assert_eq!(config.pool_size, 10);
    assert_eq!(config.acquire_timeout_ms, 30_000);
    assert_eq!(Config::new(None, 10, 30_000).unwrap_err(), ConfigurationError::Missing);
    assert_eq!(Config::new(setting(""), 10, 30_000).unwrap_err(), ConfigurationError::Empty);
}

#[test]
fn start_up_without_a_connection_setting_fails() {
    assert_eq!(
        configure(None, 4, 1_000).unwrap_err(),
        StartupError::Configuration(ConfigurationError::Missing)
    );
    assert_eq!(
        configure(setting(""), 4, 1_000).unwrap_err(),
        StartupError::Configuration(ConfigurationError::Empty)
    );
}

#[test]
fn start_up_reaches_service_with_a_new_pool_of_the_configured_size() {
    let connecting = configure(setting("postgres://localhost/app"), 4, 1_000).unwrap();
    assert_eq!(connecting.connection_string(), "postgres://localhost/app");
    let migrating = connecting.on_connection(true).unwrap();
    let serving = migrating.on_migrations(Ok(2)).unwrap();
    let (config, pool) = serving.into_parts();
    assert_eq!(config.connection_string.as_str(), "postgres://localhost/app");
    assert_eq!(config.pool_size, 4);
    assert_eq!(config.acquire_timeout_ms, 1_000);
    assert_eq!(pool.capacity(), 4);
    assert_eq!(pool.opened(), 0);
    assert_eq!(pool.waiting_count(), 0);
}

#[test]
fn start_up_with_nothing_to_migrate_reaches_service_too() {
    let migrating = configure(setting("db"), 1, 5).unwrap().on_connection(true).unwrap();
    assert!(migrating.on_migrations(Ok(0)).is_ok());
}

#[test]
fn start_up_ends_when_the_dedicated_connection_cannot_be_opened() {
    let connecting = configure(setting("postgres://nowhere/app"), 4, 1_000).unwrap();
    assert_eq!(connecting.on_connection(false).unwrap_err(), StartupError::Connection);
}

#[test]
fn start_up_ends_when_a_schema_step_fails() {
    let errors = [
        MigrationError::StepFailed { applied: 1 },
        MigrationError::DuplicateVersion,
        MigrationError::Unreadable,
    ];
    for error in errors {
        let migrating = configure(setting("db"), 4, 1_000).unwrap().on_connection(true).unwrap();
        assert_eq!(
            migrating.on_migrations(Err(error)).unwrap_err(),
            StartupError::Migration(error)
        );
    }
}

#[test]
fn every_start_up_failure_ends_the_process_with_a_non_zero_status() {
    let failures = [
        StartupError::Configuration(ConfigurationError::Missing),
        StartupError::Configuration(ConfigurationError::Empty),
        StartupError::Connection,
        StartupError::Migration(MigrationError::DuplicateVersion),
        StartupError::Migration(MigrationError::StepFailed { applied: 0 }),
    ];
    for failure in failures {
        assert_eq!(exit_status(&failure), 1);
        assert_ne!(exit_status(&failure), 0);
    }
    assert_eq!(EXIT_FAILURE, 1);
}
