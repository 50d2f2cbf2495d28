pub mod api;
pub mod gf256;
pub mod rs;
