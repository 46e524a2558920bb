//! Application layer: business errors and services.

pub mod errors;
pub mod services;
