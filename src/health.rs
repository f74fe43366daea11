//! The health report of the service.
use vstd::prelude::*;

verus! {

/// Response time above which the service reports itself degraded, unless
/// configured otherwise.
pub const DEFAULT_THRESHOLD_MS: u128 = 100;

#[derive(Debug)]
pub struct DatabaseStatus {
    pub connected: bool,
    pub response_time_ms: u128,
}

#[derive(Debug)]
pub struct HealthResponse {
    pub status: String,
    pub database: DatabaseStatus,
    pub response_time_ms: u128,
}

/// `critical` without a database, `degraded` when slower than the
/// threshold, `ok` otherwise.
pub open spec fn status_text(connected: bool, elapsed_ms: u128, threshold_ms: u128) -> &'static str {
    if !connected {
        "critical"
    } else if elapsed_ms > threshold_ms {
        "degraded"
    } else {
        "ok"
    }
}

/// The report for a database probe that took `probe_ms` and a request that
/// has taken `elapsed_ms` so far.
pub fn health_check(connected: bool, probe_ms: u128, elapsed_ms: u128, threshold_ms: u128) -> (r:
    HealthResponse)
    ensures
        r.status@ == status_text(connected, elapsed_ms, threshold_ms)@,
        r.database.connected == connected,
        r.database.response_time_ms == probe_ms,
        r.response_time_ms == elapsed_ms,
{
    let status: &str = if !connected {
        "critical"
    } else if elapsed_ms > threshold_ms {
        "degraded"
    } else {
        "ok"
    };
    HealthResponse {
        status: status.to_string(),
        database: DatabaseStatus { connected, response_time_ms: probe_ms },
        response_time_ms: elapsed_ms,
    }
}

} // verus!
