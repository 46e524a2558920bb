//! The health endpoint's answer.

use crate::domain::models::health_status::HealthStatus;
use crate::interfaces::schemas::response::Response;
use vstd::prelude::*;

verus! {

/// Whether any of the statuses is an error.
pub open spec fn any_error(statuses: Seq<HealthStatus>) -> bool {
    exists|i: int| 0 <= i < statuses.len() && #[trigger] statuses[i].spec_is_error()
}

/// The answer of the health endpoint for the given statuses: code 503 with
/// "系统存在服务异常" when any component failed, a success otherwise; the
/// statuses are the payload either way.
pub fn status_report(statuses: Vec<HealthStatus>) -> (r: Response<Vec<HealthStatus>>)
    ensures
        r.data@ == statuses@,
        any_error(statuses@) ==> r.code == 503 && r.msg@ == "系统存在服务异常"@,
        !any_error(statuses@) ==> r.code == 200 && r.msg@ == "success"@,
{
    let mut failed = false;
    let mut i: usize = 0;
    while i < statuses.len()
        invariant
            i <= statuses@.len(),
            failed <==> exists|j: int| 0 <= j < i && #[trigger] statuses@[j].spec_is_error(),
        decreases statuses@.len() - i,
    {
        if statuses[i].is_error() {
            failed = true;
        }
        i = i + 1;
    }
    if failed {
        Response::with(503, "系统存在服务异常", statuses)
    } else {
        Response::success(statuses)
    }
}

} // verus!
