//! Application services.

pub mod status_service;
pub mod agent_service;
