//! Authentication engine of a secured message-broker gateway: parsing of
//! connection-authorization requests, credential validation, the canonical
//! Z85 key encoding, the per-domain authorization policies, and the decision
//! step of the authentication loop.

pub mod engine;
pub mod frames;
pub mod policy;
pub mod session;
pub mod z85;
