//! Helpers shared by the framework and its command-line tool.
pub use crate::config::ip_and_port;
