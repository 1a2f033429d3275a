pub mod commands;
pub mod config_loader;
pub mod error;
pub mod formatter;
pub mod ledger;
pub mod text;
pub mod time_utils;

pub use error::CmhError;
pub use ledger::Ledger;
pub use time_utils::Time;
