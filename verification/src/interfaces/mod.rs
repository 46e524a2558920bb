//! Interface layer: response envelopes, SSE frames and what each endpoint answers.

pub mod endpoints;
pub mod errors;
pub mod schemas;
