//! The logic of a Model Context Protocol client: the JSON-RPC messages it
//! writes, the requests it waits for, the notifications it passes on and the
//! servers it is configured for.
//!
//! Nothing here performs I/O. The functions take what a transport received or
//! reported and say what is to be done next.

pub mod client;
pub mod client_laws;
pub mod context_server;
pub mod json;
pub mod message_laws;
pub mod messages;
pub mod reading;
pub mod reading_laws;
pub mod request_handlers;
pub mod run_laws;
pub mod state_laws;
pub mod subscriptions;
pub mod text;
