pub mod error;
pub mod models;
pub mod services;
