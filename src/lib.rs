//! A rendezvous point for two parties that share an identifier.
//!
//! The first party to arrive with an identifier registers a wake handle and
//! waits; the second takes that handle, fires it and returns at once. A waiter
//! that is not matched within its bound concludes as timed out, and its entry
//! is removed.
pub mod protocol;
pub mod registry;
pub mod rendezvous;
pub mod wake;
