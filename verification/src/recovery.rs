//! Settings of the cleanup that runs when the application starts.
use vstd::prelude::*;

use core::time::Duration;

verus! {

/// What a startup cleanup removed or repaired.
#[derive(Debug, Clone, Copy, PartialEq, Eq, Structural)]
pub struct RecoveryReport {
    pub stale_temp_removed: usize,
    pub orphan_blob_removed: usize,
    pub pending_history_failed: usize,
}

impl Default for RecoveryReport {
    fn default() -> (r: Self)
        ensures
            r == (RecoveryReport {
                stale_temp_removed: 0,
                orphan_blob_removed: 0,
                pending_history_failed: 0,
            }),
    {
        RecoveryReport { stale_temp_removed: 0, orphan_blob_removed: 0, pending_history_failed: 0 }
    }
}

/// The `Duration` of a whole number of seconds.
pub uninterp spec fn duration_of_seconds(secs: u64) -> Duration;

/// A whole number of seconds as a `Duration` (`Duration::from_secs`, which
/// depends on its argument alone).
#[verifier::external_body]
fn seconds(secs: u64) -> (r: Duration)
    ensures
        r == duration_of_seconds(secs),
{
    Duration::from_secs(secs)
}

/// How old a temporary file must be, in seconds, before the cleanup
/// removes it, unless set otherwise: one day.
pub const DEFAULT_STALE_TEMP_SECONDS: u64 = 86400;

/// The startup cleanup: which stores it works on, how old a temporary file
/// must be to be removed, and how many days of history are kept.
pub struct RecoveryCoordinator<D, H, B> {
    db: D,
    history_repo: H,
    blob_store: B,
    stale_temp_max_age: Duration,
    history_retention_days: i64,
}

impl<D, H, B> RecoveryCoordinator<D, H, B> {
    pub closed spec fn retention_days_view(&self) -> i64 {
        self.history_retention_days
    }

    pub closed spec fn stale_age_view(&self) -> Duration {
        self.stale_temp_max_age
    }

    pub closed spec fn stores_view(&self) -> (D, H, B) {
        (self.db, self.history_repo, self.blob_store)
    }

    /// Temporary files older than a day are removed and 30 days of history
    /// are kept.
    pub fn new(db: D, history_repo: H, blob_store: B) -> (r: Self)
        ensures
            r.retention_days_view() == 30,
            r.stale_age_view() == duration_of_seconds(DEFAULT_STALE_TEMP_SECONDS),
            r.stores_view() == (db, history_repo, blob_store),
    {
        RecoveryCoordinator {
            db,
            history_repo,
            blob_store,
            stale_temp_max_age: seconds(DEFAULT_STALE_TEMP_SECONDS),
            history_retention_days: 30,
        }
    }

    pub fn with_stale_temp_max_age(self, stale_temp_max_age: Duration) -> (r: Self)
        ensures
            r.stale_age_view() == stale_temp_max_age,
            r.retention_days_view() == self.retention_days_view(),
            r.stores_view() == self.stores_view(),
    {
        RecoveryCoordinator { stale_temp_max_age, ..self }
    }

    /// Keeps `days` days of history, at least one.
    pub fn with_history_retention_days(self, days: i64) -> (r: Self)
        ensures
            r.retention_days_view() == (if days < 1 {
                1
            } else {
                days
            }),
            r.stale_age_view() == self.stale_age_view(),
            r.stores_view() == self.stores_view(),
    {
        let kept = if days < 1 {
            1
        } else {
            days
        };
        RecoveryCoordinator { history_retention_days: kept, ..self }
    }

    pub fn stale_temp_max_age(&self) -> (r: Duration)
        ensures
            r == self.stale_age_view(),
    {
        self.stale_temp_max_age
    }

    pub fn history_retention_days(&self) -> (r: i64)
        ensures
            r == self.retention_days_view(),
    {
        self.history_retention_days
    }

    pub fn db(&self) -> (r: &D)
        ensures
            *r == self.stores_view().0,
    {
        &self.db
    }

    pub fn history_repo(&self) -> (r: &H)
        ensures
            *r == self.stores_view().1,
    {
        &self.history_repo
    }

    pub fn blob_store(&self) -> (r: &B)
        ensures
            *r == self.stores_view().2,
    {
        &self.blob_store
    }
}

} // verus!
