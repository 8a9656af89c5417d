pub mod bookmark;
pub mod user;
