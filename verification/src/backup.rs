//! Database backups: file names, the backup command and the retention rule.
use vstd::prelude::*;
use crate::text::{concat, decimal, decimal_string, push_decimal, push_str};
use crate::watchdog::unix_now;

verus! {

/// The directory backups are written to.
pub open spec fn backup_dir() -> Seq<char> {
    "backups"@
}

/// The current Unix time in seconds, in decimal.
pub fn chrono_now() -> (r: String)
    ensures
        exists|t: u64| r@ == decimal(t as nat),
{
    decimal_string(unix_now())
}

/// The backup file for a timestamp: `backups/asi_<timestamp>.db`.
pub fn backup_file(timestamp: &str) -> (r: String)
    ensures
        r@ == "backups/asi_"@ + timestamp@ + ".db"@,
{
    let mut r = concat("backups/asi_", timestamp);
    push_str(&mut r, ".db");
    r
}

/// The sqlite3 dot-command that writes a live backup to `file`.
pub fn sqlite_backup_command(file: &str) -> (r: String)
    ensures
        r@ == ".backup '"@ + file@ + "'"@,
{
    let mut r = concat(".backup '", file);
    push_str(&mut r, "'");
    r
}

/// The name of a file once gzip has compressed it.
pub fn gzipped(file: &str) -> (r: String)
    ensures
        r@ == file@ + ".gz"@,
{
    concat(file, ".gz")
}

/// Seconds in a day.
pub const SECS_PER_DAY: u64 = 86400;

/// Seconds in an hour.
pub const SECS_PER_HOUR: u64 = 3600;

/// The pause between backups, in seconds.
pub fn backup_interval_secs(interval_hours: u64) -> (s: u64)
    requires
        interval_hours * SECS_PER_HOUR <= u64::MAX,
    ensures
        s == interval_hours * SECS_PER_HOUR,
{
    interval_hours * SECS_PER_HOUR
}

/// A backup last modified at `modified` (Unix seconds) is removed at `now`
/// when it is older than `keep_days` days.
pub open spec fn backup_expired_spec(modified: u64, now: u64, keep_days: u32) -> bool {
    modified < now - keep_days * SECS_PER_DAY
}

/// Whether a backup modified at `modified` is past its retention at `now`.
/// The cutoff `now - keep_days` days must not fall before the epoch.
pub fn backup_expired(modified: u64, now: u64, keep_days: u32) -> (b: bool)
    requires
        keep_days * SECS_PER_DAY <= now,
    ensures
        b == backup_expired_spec(modified, now, keep_days),
{
    let keep: u64 = keep_days as u64 * SECS_PER_DAY;
    modified < now - keep
}

/// A backup kept longer is never expired earlier: retention only grows with `keep_days`.
pub proof fn lemma_longer_retention_keeps_more(modified: u64, now: u64, short: u32, long: u32)
    requires
        short <= long,
        long * SECS_PER_DAY <= now,
        backup_expired_spec(modified, now, long),
    ensures
        backup_expired_spec(modified, now, short),
{
    assert(short * SECS_PER_DAY <= long * SECS_PER_DAY) by (nonlinear_arith)
        requires
            short <= long,
    ;
}

} // verus!
