//! A relay for token-creation events: the rules that recognise a creation
//! transaction in an upstream frame, the binary framing that carries the
//! decoded record to local subscribers, and the policies that drive the
//! upstream subscription and the per-client writers.

pub mod backoff;
pub mod base58;
pub mod config;
pub mod extract;
pub mod record;
pub mod session;
pub mod text;
pub mod upstream;
pub mod wire;
