//! A websocket RPC client for SurrealDB, with its protocol logic verified.
//!
//! The library holds what the client decides: how requests are framed as
//! JSON text, which identifiers they carry, how responses that arrive on the
//! socket are routed to the request that is waiting for them, what a response
//! resolves to, which setup requests a freshly connected client sends, and the
//! order in which a pool hands idle connections out again.

mod outside;
pub mod table;

pub mod action;
pub mod builder;
pub mod client;
pub mod dispatch;
pub mod error;
pub mod ids;
pub mod pool;
pub mod request;
pub mod response;
pub mod routing;

pub use action::ClientAction;
pub use builder::ClientBuilder;
pub use error::{Error, Result};
