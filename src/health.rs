use vstd::prelude::*;

verus! {

/// What a liveness probe reports about the store.
#[derive(Debug, Clone, Copy, PartialEq, Eq, Structural)]
pub enum HealthStatus {
    Healthy,
    Degraded,
}

/// The answer to a liveness check: never an error, only a status.
#[derive(Debug, Clone, Copy, PartialEq, Eq, Structural)]
pub struct HealthReport {
    pub status: HealthStatus,
    pub uptime_secs: u64,
}

impl HealthStatus {
    /// The status as it appears in a response body.
    pub fn as_text(&self) -> (r: &'static str)
        ensures
            *self == HealthStatus::Healthy ==> r@ == "ok"@,
            *self == HealthStatus::Degraded ==> r@ == "degraded"@,
    {
        match self {
            HealthStatus::Healthy => "ok",
            HealthStatus::Degraded => "degraded",
        }
    }
}

impl HealthReport {
    /// 200 when the store answered, 503 when it did not.
    pub fn status_code(&self) -> (r: u16)
        ensures
            r == (if self.status == HealthStatus::Healthy { 200u16 } else { 503u16 }),
    {
        match self.status {
            HealthStatus::Healthy => 200,
            HealthStatus::Degraded => 503,
        }
    }
}

/// Whole seconds from `started_at` to `now`; zero if the clock reads earlier
/// than the start.
pub fn uptime_secs(started_at: u64, now: u64) -> (r: u64)
    ensures
        r == (if now >= started_at { (now - started_at) as u64 } else { 0u64 }),
{
    if now >= started_at {
        now - started_at
    } else {
        0
    }
}

/// Turns the outcome of the cheapest store round-trip into a report:
/// `Healthy` when it succeeded, `Degraded` when it failed, with the same uptime.
pub fn liveness_report(store_reachable: bool, uptime_secs: u64) -> (r: HealthReport)
    ensures
        r.status == (if store_reachable { HealthStatus::Healthy } else { HealthStatus::Degraded }),
        r.uptime_secs == uptime_secs,
{
    HealthReport {
        status: if store_reachable { HealthStatus::Healthy } else { HealthStatus::Degraded },
        uptime_secs,
    }
}

} // verus!
