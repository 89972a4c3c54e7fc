//! A verified core for a UDP echo service: a length-prefixed wire codec for
//! `(username, body)` frames, a session registry with time-based eviction,
//! and the per-datagram handling step that ties the two together.

pub mod client_manager;
pub mod echo;
pub mod protocol;
