//! Feline: the decision logic of a transparent desktop overlay.

pub mod bank;
pub mod chat;
pub mod env;
pub mod log_config;
pub mod logging;
pub mod overlay;
pub mod panel;
pub mod theme;
