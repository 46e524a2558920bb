//! Request and response bodies.

pub mod response;
pub mod session;
pub mod sse;
