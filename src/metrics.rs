//! Usage figures of the service.
use vstd::prelude::*;

use crate::store::Store;
use crate::user::{active_user_count, active_users};

verus! {

/// Milliseconds in an hour.
pub const HOUR_MS: i64 = 3_600_000;

/// Number of accounts and of accounts active over four recent windows.
#[derive(Debug)]
pub struct MetricsResponse {
    pub total_users: usize,
    pub active_1h: usize,
    pub active_24h: usize,
    pub active_7d: usize,
    pub active_30d: usize,
}

/// The figures at time `now` (milliseconds since the epoch).
pub fn metrics_at(store: &Store, now: i64) -> (r: MetricsResponse)
    requires
        now >= i64::MIN + 720 * HOUR_MS,
    ensures
        r.total_users == store.users.len(),
        r.active_1h == active_users(store.users@, store.sessions@, now - HOUR_MS),
        r.active_24h == active_users(store.users@, store.sessions@, now - 24 * HOUR_MS),
        r.active_7d == active_users(store.users@, store.sessions@, now - 168 * HOUR_MS),
        r.active_30d == active_users(store.users@, store.sessions@, now - 720 * HOUR_MS),
{
    MetricsResponse {
        total_users: store.users.len(),
        active_1h: active_user_count(store, now - HOUR_MS),
        active_24h: active_user_count(store, now - 24 * HOUR_MS),
        active_7d: active_user_count(store, now - 168 * HOUR_MS),
        active_30d: active_user_count(store, now - 720 * HOUR_MS),
    }
}

} // verus!
