//! How the store starts, and when old records are deleted.
use crate::config;
use crate::config::StorageConfig;
use crate::error::StorageError;
use vstd::prelude::*;

verus! {

/// The nanoseconds of a day.
pub const NANOS_PER_DAY: i64 = 86_400_000_000_000;

/// The instant some days before another, in nanoseconds since the epoch; 0 where it does not fit.
pub open spec fn days_before(now: i64, days: u32) -> i64 {
    let t = now - days * NANOS_PER_DAY;
    if i64::MIN <= t {
        t as i64
    } else {
        0
    }
}

/// Records from before this instant are deleted: the one that is asked for, or the one that the
/// retention reaches back to.
pub fn purge_cutoff(older_than: Option<i64>, now: i64, retention_days: u32) -> (cutoff: i64)
    ensures
        cutoff == match older_than {
            Some(t) => t,
            None => days_before(now, retention_days),
        },
{
    match older_than {
        Some(t) => t,
        None => {
            assert(0 <= retention_days * NANOS_PER_DAY <= 0xffff_ffff * NANOS_PER_DAY) by (nonlinear_arith)
                requires
                    0 <= retention_days <= 0xffff_ffff,
                    NANOS_PER_DAY == 86_400_000_000_000,
            ;
            let t: i128 = now as i128 - retention_days as i128 * NANOS_PER_DAY as i128;
            if t >= i64::MIN as i128 {
                t as i64
            } else {
                0
            }
        },
    }
}

/// A longer retention never reaches less far back, unless it reaches back too far to be expressed.
pub proof fn longer_retention_keeps_more(now: i64, days: u32, more: u32)
    requires
        days <= more,
        now - more * NANOS_PER_DAY >= i64::MIN,
    ensures
        days_before(now, more) <= days_before(now, days) <= now,
{
    assert(days * NANOS_PER_DAY <= more * NANOS_PER_DAY) by (nonlinear_arith)
        requires
            days <= more,
            NANOS_PER_DAY > 0,
    ;
    assert(days * NANOS_PER_DAY >= 0) by (nonlinear_arith)
        requires
            days >= 0,
            NANOS_PER_DAY > 0,
    ;
}

/// The number of records that a purge deleted.
pub fn total_deleted(logs: usize, spans: usize, metrics: usize) -> (n: u64)
    requires
        logs + spans + metrics <= usize::MAX,
    ensures
        n == logs + spans + metrics,
{
    (logs + spans + metrics) as u64
}

/// How long to wait for the next purge; a day where its time has passed.
pub fn wait_seconds(until: Option<u64>) -> (seconds: u64)
    ensures
        seconds == match until {
            Some(s) => s,
            None => 86400u64,
        },
{
    match until {
        Some(s) => s,
        None => 86400,
    }
}

/// What happened to the scheduler of purges.
#[derive(Clone, Copy)]
pub enum PurgeEvent {
    /// It has its connection.
    Started,
    /// It waited for the next purge, and took the lock or found it taken.
    Woke { locked: bool },
    /// It deleted records, or failed to.
    Purged { succeeded: bool },
    /// It folded the log of writes into the database, or failed to.
    Checkpointed,
}

/// What the scheduler of purges does next.
#[derive(Clone, Copy, Debug, PartialEq, Eq, Structural)]
pub enum PurgeAction {
    Sleep,
    Purge,
    Checkpoint,
}

/// What follows an event: a purge needs the lock, and only a purge that succeeded is followed by a
/// checkpoint.
pub open spec fn action_after(event: PurgeEvent) -> PurgeAction {
    match event {
        PurgeEvent::Woke { locked } => if locked {
            PurgeAction::Purge
        } else {
            PurgeAction::Sleep
        },
        PurgeEvent::Purged { succeeded } => if succeeded {
            PurgeAction::Checkpoint
        } else {
            PurgeAction::Sleep
        },
        _ => PurgeAction::Sleep,
    }
}

/// Decides what the scheduler of purges does next.
pub fn next_action(event: PurgeEvent) -> (a: PurgeAction)
    ensures
        a == action_after(event),
{
    match event {
        PurgeEvent::Woke { locked } => if locked {
            PurgeAction::Purge
        } else {
            PurgeAction::Sleep
        },
        PurgeEvent::Purged { succeeded } => if succeeded {
            PurgeAction::Checkpoint
        } else {
            PurgeAction::Sleep
        },
        PurgeEvent::Started => PurgeAction::Sleep,
        PurgeEvent::Checkpointed => PurgeAction::Sleep,
    }
}

/// How the store is set up.
pub struct StartPlan {
    /// The bytes of the path of the database.
    pub database: Vec<u8>,
    /// The bytes of the directory that has to exist.
    pub directory: Option<Vec<u8>>,
    /// Old records are deleted from time to time.
    pub schedules_purges: bool,
    /// How many records are deleted at a time.
    pub purge_batch_size: usize,
}

/// Decides how the store is set up: data in memory needs no directory, and old records are deleted by
/// themselves only where that is switched on and there is a retention.
pub fn start_plan(c: &StorageConfig) -> (plan: StartPlan)
    ensures
        plan.database@ == if config::is_in_memory(c.data_dir@) {
            c.data_dir@
        } else {
            config::in_directory(c.data_dir@, config::bytes("otelite.db"@))
        },
        config::path_bytes(plan.directory) == if config::is_in_memory(plan.database@) {
            None
        } else {
            Some(c.data_dir@)
        },
        plan.schedules_purges == (c.auto_purge_enabled && c.retention_days > 0),
        plan.purge_batch_size == c.purge_batch_size,
{
    let database = c.database_path();
    let directory = if config::stays_in_memory(&database) {
        None
    } else {
        Some(config::copy_path(&c.data_dir))
    };
    StartPlan {
        database,
        directory,
        schedules_purges: c.auto_purge_enabled && c.retention_days > 0,
        purge_batch_size: c.purge_batch_size,
    }
}

/// The refusal to write before the store is set up.
pub fn not_ready_to_write() -> (e: StorageError)
    ensures
        e matches StorageError::WriteError(m) && m@ == "Database not initialized"@,
{
    StorageError::WriteError("Database not initialized".to_owned())
}

/// The refusal to read before the store is set up.
pub fn not_ready_to_read() -> (e: StorageError)
    ensures
        e matches StorageError::QueryError(m) && m@ == "Database not initialized"@,
{
    StorageError::QueryError("Database not initialized".to_owned())
}

} // verus!
