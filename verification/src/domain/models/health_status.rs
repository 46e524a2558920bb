//! The health of one checked component.

use vstd::prelude::*;

verus! {

/// The result of one health check.
#[derive(Debug, Clone)]
pub struct HealthStatus {
    /// Name of the checked service.
    pub service: String,
    /// `ok` when healthy, `error` when not.
    pub status: String,
    /// Details of a failure; empty otherwise.
    pub details: String,
}

impl HealthStatus {
    /// A status is an error exactly when its status text is `error`.
    pub open spec fn spec_is_error(&self) -> bool {
        self.status@ == "error"@
    }

    /// A healthy status of `service`.
    pub fn ok(service: &str) -> (h: Self)
        ensures
            h.service@ == service@,
            h.status@ == "ok"@,
            h.details@ == Seq::<char>::empty(),
    {
        HealthStatus { service: service.to_string(), status: "ok".to_string(), details: String::new() }
    }

    /// A failed status of `service`, with its details.
    pub fn error(service: &str, details: &str) -> (h: Self)
        ensures
            h.service@ == service@,
            h.status@ == "error"@,
            h.details@ == details@,
    {
        HealthStatus {
            service: service.to_string(),
            status: "error".to_string(),
            details: details.to_string(),
        }
    }

    /// Whether this is an error status.
    pub fn is_error(&self) -> (b: bool)
        ensures
            b == self.spec_is_error(),
    {
        let error = "error".to_string();
        self.status == error
    }
}

/// A status built as healthy is never an error, and one built as failed
/// always is.
pub proof fn lemma_status_kinds(h: HealthStatus)
    ensures
        h.status@ == "ok"@ ==> !h.spec_is_error(),
        h.status@ == "error"@ ==> h.spec_is_error(),
{
    reveal_strlit("ok");
    reveal_strlit("error");
    if h.status@ == "ok"@ {
        assert(h.status@[0] != "error"@[0]);
    }
}

} // verus!
