//! Resolve a browser's account without replacing a saved profile's session.

pub mod profile;
pub mod ticket;
pub mod transport;
