//! Domain layer: the business models, free of any outside framework.

pub mod models;
