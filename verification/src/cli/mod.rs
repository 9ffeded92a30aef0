//! The command line: the configuration wizard and the start of the server.

pub mod server;
pub mod wizard;
