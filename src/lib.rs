pub mod config;
pub mod stats;
pub mod text;
