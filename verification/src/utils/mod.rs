pub mod i18n;
pub mod serde;
pub mod text;
pub mod utils;
