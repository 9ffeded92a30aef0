//! The OneBot 11 adapter: its messages, the bridge to a persona and its tools.

pub mod bridge;
pub mod client;
pub mod config;
pub mod tools;
pub mod types;
