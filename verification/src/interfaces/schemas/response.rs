//! The unified API response envelope.

use vstd::prelude::*;

verus! {

/// The unified response: `code` is the business code (with the meaning of the
/// HTTP status of the same number), `msg` a message, `data` the payload.
#[derive(Debug, Clone)]
pub struct Response<T> {
    pub code: i32,
    pub msg: String,
    pub data: T,
}

impl<T> Response<T> {
    /// A successful response: code 200, message `success`.
    pub fn success(data: T) -> (r: Self)
        ensures
            r.code == 200,
            r.msg@ == "success"@,
            r.data == data,
    {
        Response { code: 200, msg: "success".to_string(), data }
    }

    /// A response with the given code and message (for failures or other
    /// business codes).
    pub fn with(code: i32, msg: &str, data: T) -> (r: Self)
        ensures
            r.code == code,
            r.msg@ == msg@,
            r.data == data,
    {
        Response { code, msg: msg.to_string(), data }
    }
}

} // verus!
