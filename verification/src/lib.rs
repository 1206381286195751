//! Request signing for a mailbox message-exchange service.
//!
//! The crate builds the time- and nonce-bound authorization token, the header
//! set that carries it, the request addresses of the three mailbox operations
//! and the reading of their responses. Network transport is left to the caller.

pub mod client;
pub mod grammar;
pub mod headers;
pub mod mailbox;
pub mod signer;
pub mod token;
