//! What the rest of the library shares: the error type and the
//! configuration.

pub mod config;
pub mod errors;

pub use self::config::{Color, Config, Geometry};
pub use self::errors::Error;
