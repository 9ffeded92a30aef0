//! The layer around the domain: the persona runtime, its tools, the waits, the
//! web connections and the stored history.

pub mod api;
pub mod builtin;
pub mod chat;
pub mod llm;
pub mod persona_store;
pub mod runtime;
pub mod scheduler;
pub mod wait;
pub mod ws;
