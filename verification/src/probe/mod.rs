//! The Grapple probe's own protocol: vendor packets, configuration fields
//! and the host's view of them.

pub mod field;
pub mod host;
pub mod proto;
