//! Core logic of a line-oriented chat relay.
//!
//! Clients connect over a stream transport and send newline-terminated text
//! lines; a line is either a slash command or a chat message broadcast to the
//! other connected clients. This crate holds the verified session core: the
//! shared client registry (with each client's bounded outbound queue), the
//! target resolver, the message middleware chain, the command dispatcher and
//! the per-line session step. The unverified host owns the sockets and tasks:
//! it decodes incoming bytes, feeds each line to the session step, and drains
//! each client's outbound queue to its connection.

pub mod commands;
pub mod error;
pub mod middleware;
pub mod registry;
pub mod session;
pub mod shared_state;
pub mod target;
pub mod text;

pub use error::ChatError;
pub use error::ChatResult;
