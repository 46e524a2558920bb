//! Entities and value objects.

pub mod health_status;
