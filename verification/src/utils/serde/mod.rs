pub mod parse_de_error;
