//! Aggregates the health checks of the components.

use crate::domain::models::health_status::HealthStatus;
use vstd::prelude::*;

verus! {

/// Runs the health checks. Only the API service itself is checked so far.
#[derive(Debug, Clone, Copy, Default)]
pub struct StatusService;

impl StatusService {
    pub fn new() -> (s: Self) {
        StatusService
    }

    /// Checks every component and returns their statuses.
    pub fn check_all(&self) -> (statuses: Vec<HealthStatus>)
        ensures
            statuses@.len() == 1,
            statuses@[0].service@ == "api"@,
            statuses@[0].status@ == "ok"@,
            statuses@[0].details@ == Seq::<char>::empty(),
    {
        let mut statuses = Vec::new();
        statuses.push(HealthStatus::ok("api"));
        statuses
    }
}

} // verus!
