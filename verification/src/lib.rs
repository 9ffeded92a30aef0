//! Verified core of Nota, a framework for AI agents that chat with a persona.
//!
//! The library holds the decisions: how messages are routed, what a turn of a
//! dialogue stores, which chats may be answered, how text is rendered. The
//! program around it performs the input and output that these decisions ask
//! for.

pub mod cli;
pub mod domain;
pub mod infra;
pub mod llm;
pub mod number;
pub mod onebot;
pub mod platform;
pub mod table;
pub mod text;
pub mod tools;
