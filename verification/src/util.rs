//! Process configuration and the record trait.

pub mod config;
pub mod record;

pub use config::Config;
pub use record::Record;
