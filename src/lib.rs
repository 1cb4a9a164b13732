pub mod config;
pub mod platform;
pub mod release;
pub mod text;
pub mod update;
pub mod version;
