//! Bookmark manager core: the rules, text handling and decisions behind the
//! web application, with their contracts.
pub mod app;
pub mod domain;
pub mod error;
pub mod infra;
pub mod routes;
pub mod utils;

pub use error::{ApiResult, Error};
