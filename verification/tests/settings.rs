//! The configuration of the store, its start and its pool of read connections.
use otelite::config::{self, Environment, NumberFault, StorageConfig};
use otelite::error::StorageError;
use otelite::pool::{self, Checkin, Checkout, ReadPool};
use otelite::retention::{self, PurgeAction, PurgeEvent};

fn nothing() -> Environment {
    Environment { data_dir: None, retention_days: None, purge_schedule: None, auto_purge_enabled: None }
}

fn refused<T>(r: Result<T, StorageError>) -> String {
    match r {
        Err(StorageError::ConfigError(m)) => m,
        Err(_) => panic!("another kind of error"),
        Ok(_) => panic!("nothing is refused"),
    }
}

#[test]
fn test_default_config() {
    let config = StorageConfig::default();
    assert_eq!(config.retention_days, 90);
    assert_eq!(config.purge_schedule, "0 2 * * *");
    assert!(config.auto_purge_enabled);
    assert_eq!(config.purge_batch_size, 1000);
}

#[test]
fn from_env_reads_supported_storage_settings() {
    let environment = Environment {
        data_dir: Some("/tmp/otelite-from-env".to_string()),
        retention_days: Some("14".to_string()),
        purge_schedule: Some("15 3 * * *".to_string()),
        auto_purge_enabled: Some("false".to_string()),
    };
    let config = StorageConfig::from_env(&environment).ok().unwrap();
    assert_eq!(config.data_dir, b"/tmp/otelite-from-env");
    assert_eq!(config.retention_days, 14);
    assert_eq!(config.purge_schedule, "15 3 * * *");
    assert!(!config.auto_purge_enabled);
}

#[test]
fn cli_data_dir_overrides_environment_data_dir() {
    let environment = Environment { data_dir: Some("/tmp/otelite-from-env".to_string()), ..nothing() };
    let config = StorageConfig::from_env_with_data_dir(&environment, Some(b"/tmp/otelite-from-cli".to_vec()))
        .ok()
        .unwrap();
    assert_eq!(config.data_dir, b"/tmp/otelite-from-cli");
    let config = StorageConfig::from_env_with_data_dir(&environment, None).ok().unwrap();
    assert_eq!(config.data_dir, b"/tmp/otelite-from-env");
}

#[test]
fn invalid_auto_purge_environment_value_is_rejected() {
    let environment = Environment { auto_purge_enabled: Some("sometimes".to_string()), ..nothing() };
    assert!(StorageConfig::from_env(&environment).is_err());
    assert_eq!(
        refused(StorageConfig::from_env(&environment)),
        "Invalid OTELITE_AUTO_PURGE_ENABLED value \"sometimes\": provided string was not `true` or `false`"
    );
}

#[test]
fn an_empty_environment_keeps_the_defaults() {
    let config = StorageConfig::from_env(&nothing()).ok().unwrap();
    assert_eq!(config.retention_days, 90);
    assert_eq!(config.purge_schedule, "0 2 * * *");
    assert!(config.auto_purge_enabled);
    assert_eq!(config.data_dir, StorageConfig::default_data_dir());
}

#[test]
fn unreadable_retention_is_rejected() {
    for (given, cause) in [
        ("", "cannot parse integer from empty string"),
        ("ninety", "invalid digit found in string"),
        ("-1", "invalid digit found in string"),
        ("+", "invalid digit found in string"),
        ("4294967296", "number too large to fit in target type"),
    ] {
        let environment = Environment { retention_days: Some(given.to_string()), ..nothing() };
        assert_eq!(
            refused(StorageConfig::from_env(&environment)),
            format!("Invalid retention_days: {}", cause)
        );
        let expected = given.parse::<u32>().unwrap_err().to_string();
        assert_eq!(expected, cause);
    }
    assert_eq!(config::parse_days("+7").ok(), Some(7));
    assert_eq!(config::parse_days("4294967295").ok(), Some(u32::MAX));
    assert!(config::parse_days("99999999999x") == Err(NumberFault::TooLarge));
}

#[test]
fn an_unacceptable_environment_is_rejected() {
    let environment = Environment { retention_days: Some("366".to_string()), ..nothing() };
    assert_eq!(
        refused(StorageConfig::from_env(&environment)),
        "Retention days must be between 0 and 365; 0 disables automatic retention"
    );
    let environment = Environment { purge_schedule: Some("* *".to_string()), ..nothing() };
    assert!(StorageConfig::from_env_with_data_dir(&environment, None).is_err());
}

#[test]
fn test_default_data_dir_is_dotfile() {
    let dir = StorageConfig::default_data_dir();
    let home = dirs::home_dir().expect("home dir must exist in test env");
    let dir = String::from_utf8(dir).expect("home dir must be Unicode in test env");
    let dir = std::path::Path::new(&dir);
    assert!(dir.starts_with(&home), "data dir {:?} should be under home {:?}", dir, home);
    let rel = dir.strip_prefix(&home).unwrap();
    assert_eq!(
        rel,
        std::path::Path::new(".otelite/data"),
        "data dir must be ~/.otelite/data, got {:?}",
        dir
    );
}

#[test]
fn without_a_home_the_data_is_in_the_working_directory() {
    assert_eq!(config::data_dir_in(&None), b"./.otelite/data");
    assert_eq!(config::data_dir_in(&Some(b"/".to_vec())), b"/.otelite/data");
    assert_eq!(config::data_dir_in(&Some(b"/home/u".to_vec())), b"/home/u/.otelite/data");
}

#[test]
fn a_home_that_is_not_unicode_keeps_its_bytes() {
    let dir = config::data_dir_in(&Some(b"/home/\xff\xfe".to_vec()));
    assert_eq!(dir, b"/home/\xff\xfe/.otelite/data");
    let config = StorageConfig::default().with_data_dir(dir);
    assert_eq!(config.database_path(), b"/home/\xff\xfe/.otelite/data/otelite.db");
    assert!(!config::stays_in_memory(&b":mem".to_vec()));
    assert!(!config::stays_in_memory(&b"/:memory:".to_vec()));
    assert!(config::stays_in_memory(&b":memory:\xff".to_vec()));
}

#[test]
fn database_path_appends_filename_to_data_directory() {
    let config = StorageConfig::default().with_data_dir(b"/tmp/otelite-agent-query".to_vec());
    assert_eq!(config.database_path(), b"/tmp/otelite-agent-query/otelite.db");
}

#[test]
fn data_in_memory_has_no_directory() {
    let config = StorageConfig::default().with_data_dir(b":memory:shared".to_vec());
    assert_eq!(config.database_path(), b":memory:shared");
    let plan = retention::start_plan(&config);
    assert_eq!(plan.database, b":memory:shared");
    assert_eq!(plan.directory, None);
    assert!(plan.schedules_purges);
    assert_eq!(plan.purge_batch_size, 1000);
    assert!(!retention::start_plan(&config.with_auto_purge(false)).schedules_purges);

    let config = StorageConfig::default().with_data_dir(b"/data/".to_vec()).with_retention_days(0);
    let plan = retention::start_plan(&config);
    assert_eq!(plan.database, b"/data/otelite.db");
    assert_eq!(plan.directory, Some(b"/data/".to_vec()));
    assert!(!plan.schedules_purges);
}

#[test]
fn test_config_validation() {
    let mut config = StorageConfig::default();
    assert!(config.validate().is_ok());

    config.retention_days = 0;
    assert!(config.validate().is_ok());

    config.retention_days = 366;
    assert!(config.validate().is_err());

    config.retention_days = 90;
    config.purge_batch_size = 0;
    assert!(config.validate().is_err());
    assert_eq!(refused(config.validate()), "Purge batch size must be greater than 0");
}

#[test]
fn test_default_purge_schedule_is_valid() {
    assert!(StorageConfig::default().parsed_purge_schedule().is_ok());
    assert_eq!(StorageConfig::default().parsed_purge_schedule().ok().unwrap(), "0 0 2 * * * *");
}

#[test]
fn test_invalid_purge_schedule_is_rejected() {
    let config = StorageConfig::default().with_purge_schedule("not a cron schedule".to_string());
    assert!(config.validate().is_err());
    assert_eq!(
        refused(config.validate()),
        "Invalid purge schedule \"not a cron schedule\": expected 5, 6, or 7 cron fields"
    );
}

#[test]
fn schedules_are_read_in_seven_fields() {
    let parsed = |s: &str| StorageConfig::default().with_purge_schedule(s.to_string()).parsed_purge_schedule();
    assert_eq!(parsed("30 1 2 * * *").ok().unwrap(), "30 1 2 * * * *");
    assert_eq!(parsed("0 1 2 * * * 2030").ok().unwrap(), "0 1 2 * * * 2030");
    assert_eq!(parsed("\t0  2 * *\u{3000}* ").ok().map(|_| ()), config::purge_expression("\t0  2 * *\u{3000}* ").and_then(|e| e.parse::<cron::Schedule>().ok()).map(|_| ()));
    assert_eq!(config::purge_expression(" a b\tc d  e "), Some("0  a b\tc d  e  *".to_string()));
    assert_eq!(config::purge_expression("a b c d e f g h"), None);
    assert_eq!(config::purge_expression(""), None);
    let m = refused(parsed("0 77 * * *"));
    let cause = "0 0 77 * * * *".parse::<cron::Schedule>().unwrap_err().to_string();
    assert_eq!(m, format!("Invalid purge schedule \"0 77 * * *\": {}", cause));
    let m = refused(parsed("\"\u{7}\""));
    assert_eq!(m, "Invalid purge schedule \"\\\"\\u{7}\\\"\": expected 5, 6, or 7 cron fields");
}

#[test]
fn the_retention_is_judged_before_the_schedule() {
    let fault = || Some("bad schedule".to_string());
    assert!(refused(config::verdict(366, fault(), 0)).starts_with("Retention days"));
    assert_eq!(refused(config::verdict(365, fault(), 0)), "bad schedule");
    assert!(refused(config::verdict(365, None, 0)).starts_with("Purge batch size"));
    assert!(config::verdict(365, None, 1).is_ok());
}

#[test]
fn test_config_builder() {
    let config = StorageConfig::default().with_retention_days(30).with_auto_purge(false);
    assert_eq!(config.retention_days, 30);
    assert!(!config.auto_purge_enabled);
}

#[test]
fn settings_leave_each_other_alone() {
    let c = StorageConfig::default().with_retention_days(1).with_auto_purge(false).with_retention_days(2);
    assert_eq!(c.retention_days, 2);
    assert!(!c.auto_purge_enabled);
    assert_eq!(c.purge_batch_size, 1000);
    assert_eq!(c.purge_schedule, "0 2 * * *");
}

#[test]
fn purges_reach_back_by_the_retention() {
    const DAY: i64 = 86_400_000_000_000;
    assert_eq!(retention::purge_cutoff(Some(17), 100 * DAY, 90), 17);
    assert_eq!(retention::purge_cutoff(None, 100 * DAY, 90), 10 * DAY);
    assert_eq!(retention::purge_cutoff(None, 100 * DAY, 30), 70 * DAY);
    assert_eq!(retention::purge_cutoff(None, 0, u32::MAX), 0);
    assert_eq!(retention::total_deleted(1, 2, 3), 6);
}

#[test]
fn the_scheduler_purges_only_with_the_lock() {
    assert_eq!(retention::wait_seconds(Some(12)), 12);
    assert_eq!(retention::wait_seconds(None), 86_400);
    assert_eq!(retention::next_action(PurgeEvent::Started), PurgeAction::Sleep);
    assert_eq!(retention::next_action(PurgeEvent::Woke { locked: true }), PurgeAction::Purge);
    assert_eq!(retention::next_action(PurgeEvent::Woke { locked: false }), PurgeAction::Sleep);
    assert_eq!(retention::next_action(PurgeEvent::Purged { succeeded: true }), PurgeAction::Checkpoint);
    assert_eq!(retention::next_action(PurgeEvent::Purged { succeeded: false }), PurgeAction::Sleep);
    assert_eq!(retention::next_action(PurgeEvent::Checkpointed), PurgeAction::Sleep);
}

#[test]
fn nothing_is_read_or_written_before_the_start() {
    assert!(matches!(retention::not_ready_to_write(), StorageError::WriteError(m) if m == "Database not initialized"));
    assert!(matches!(retention::not_ready_to_read(), StorageError::QueryError(m) if m == "Database not initialized"));
}

#[test]
fn test_checkout_reuses_connection() {
    let mut pool = ReadPool::new(2);
    assert_eq!(pool.checkout(), Checkout::Open);
    assert_eq!(pool.checkin(true), Checkin::Keep);
    assert_eq!(pool.idle, 1);
    assert_eq!(pool.checkout(), Checkout::Reuse);
    assert_eq!(pool.idle, 0);
}

#[test]
fn an_exhausted_pool_makes_readers_wait() {
    let mut pool = ReadPool::new(0);
    assert_eq!(pool.capacity, 1);
    assert_eq!(pool.checkout(), Checkout::Open);
    assert_eq!(pool.checkout(), Checkout::Wait);
    assert_eq!(pool.checkin(false), Checkin::Close);
    assert_eq!(pool.checkout(), Checkout::Open);
    pool.open_failed();
    assert_eq!((pool.idle, pool.lent), (0, 0));
}

#[test]
fn test_cache_pragma_applied() {
    let conn = rusqlite::Connection::open_in_memory().unwrap();
    conn.execute_batch(&pool::read_pragmas()).unwrap();
    let cache_size: i64 = conn.query_row("PRAGMA cache_size", [], |row| row.get(0)).unwrap();
    assert_eq!(cache_size, -pool::READ_CACHE_SIZE_KIB);
    assert_eq!(
        pool::read_pragmas(),
        "PRAGMA cache_size=-262144; PRAGMA mmap_size=2147483648; PRAGMA busy_timeout=10000;"
    );
}

#[test]
fn test_close_all_drops_connections() {
    let mut pool = ReadPool::new(2);
    pool.checkout();
    assert_eq!(pool.close_all(), 0);
    assert_eq!(pool.idle, 0);
    pool.checkin(true);
    assert_eq!(pool.close_all(), 1);
    assert_eq!(pool.idle, 0);
}

#[test]
fn connection_failures_name_the_database() {
    assert!(matches!(pool::open_failure("/d/x.db", "no"), StorageError::QueryError(m)
        if m == "Failed to open pooled read connection for /d/x.db: no"));
    assert!(matches!(pool::pragma_failure("/d/x.db", "no"), StorageError::QueryError(m)
        if m == "Failed to apply read pragmas for /d/x.db: no"));
}
