//! What the endpoints answer, apart from the HTTP plumbing.

pub mod session;
pub mod status;
