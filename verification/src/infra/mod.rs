//! The parts of the application that talk to the outside world: password
//! hashing, the database and file storage.
pub mod auth_provider;
pub mod database;
pub mod storage;
