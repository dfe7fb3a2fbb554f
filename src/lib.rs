//! Conversation threads indexed over an append-only record store and link
//! index: thread creation with membership fan-out, thread discovery through
//! membership links, last-read cursors kept as appended links, and the
//! thread-to-message bridge.

pub mod address;
pub mod dht;
pub mod laws;
pub mod thread;
