//! A logger that fans each record out to several outputs, each with its own
//! severity filter, styling flag and flush policy.

pub mod level;
pub mod format;
pub mod style;
pub mod logger;

pub use level::{Level, LevelFilter};
pub use logger::{Output, OutputBuilder, RedoxLogger};
