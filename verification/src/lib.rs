//! rust_claw: the decision logic of a layered AI-agent chat backend.
//!
//! - `config`       configuration values and their parsing
//! - `domain`       domain models
//! - `application`  business errors and application services
//! - `interfaces`   response envelopes, SSE framing and endpoint results

pub mod application;
pub mod config;
pub mod domain;
pub mod interfaces;
