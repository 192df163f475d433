//! Vaultsyn: authenticated, confidential text messaging over an untrusted
//! relay.
//!
//! The library covers the envelope protocol (per-pair key agreement,
//! authenticated encryption, detached signing), the relay's fan-out
//! broadcast model, and the chat session's per-frame decisions. Network
//! and console I/O live outside the library and hand it plain values.

pub mod cli;
pub mod crypto;
pub mod encoding;
pub mod json;
pub mod keygen;
pub mod message;
pub mod parse;
pub mod relay;
pub mod session;
