//! Sessions with the model: the requests, the turn and the session store.

pub mod args;
pub mod responses;
pub mod session;
pub mod store;
pub mod turn;
