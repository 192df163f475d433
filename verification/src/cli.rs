//! The command surface, as plain data. Argument parsing itself is console
//! work outside the library; a front end fills these in and dispatches.

use vstd::prelude::*;

verus! {

/// One invocation's command.
pub enum Commands {
    /// Create a new user identity.
    CreateUser { username: String },
    /// Export a public key.
    ExportPublicKey { username: String },
    /// Seal a message and print the envelope.
    SendMessage { sender: String, receiver_public_key: String, message: String },
    /// Open an envelope and print the plaintext.
    ReceiveMessage {
        receiver: String,
        sender_ed25519_pub: String,
        sender_x25519_pub: String,
        envelope_json: String,
    },
    /// Join a relay as a plain-text client.
    Connect { url: String },
    /// Run an encrypted chat session over a relay.
    Chat { url: String, sender: String, receiver_x25519_pub: String },
}

/// A parsed command line.
pub struct VaultsynCli {
    pub command: Commands,
}

} // verus!
