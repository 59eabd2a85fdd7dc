//! A plugin execution engine: independent execution units ("cores") are
//! loaded behind one uniform invocation interface, and byte-message calls
//! are routed to functions named by fixed-width hashed identifiers rather
//! than by backend-specific symbol. Registered listeners ("side effects")
//! are notified after a successful dispatch whose topic matches their
//! subscription.

pub mod ident;
pub mod errors;
pub mod registry;
pub mod message;
pub mod backend;
pub mod fanout;
pub mod bridge;
pub mod sandbox;
pub mod facade;
