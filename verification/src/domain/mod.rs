pub mod bookmark;
pub mod image;
pub mod user;
