//! Domain types: conversations, sessions, tools, permissions and history.

pub mod agent;
pub mod bus;
pub mod conversation;
pub mod history;
pub mod llm;
pub mod permissions;
pub mod persona;
pub mod session;
pub mod tool;
