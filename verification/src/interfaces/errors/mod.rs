//! How a business error is answered.

use crate::application::errors::AppError;
use crate::interfaces::schemas::response::Response;
use vstd::prelude::*;

verus! {

/// The body of the answer to a failed request: the error's status code and
/// message, and no data. The HTTP status is the same code.
pub fn error_body(err: &AppError) -> (r: Response<()>)
    ensures
        r.code == err.spec_status_code() as i32,
        r.msg@ == err.spec_message(),
{
    let code = err.status_code();
    Response::with(code as i32, err.message(), ())
}

} // verus!
