pub mod cargo;
pub mod config;
pub mod sweep;
pub mod laws;
