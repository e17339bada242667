//! Command-line intents. Argument parsing itself lives with the binary; the
//! library only defines what can be asked of it.

use vstd::prelude::*;

verus! {

/// The parsed command line.
pub struct Cli {
    pub command: Commands,
}

/// What the user asked the program to do.
pub enum Commands {
    /// Initialize a new identity (generates a keypair) at this path.
    Init { path: String },
    /// Start a chat session.
    Chat {
        /// Relay server URL.
        relay: String,
        /// Identity file path.
        identity: String,
        /// Save chat history (encrypted locally).
        save: bool,
        /// A nickname, visible to other users after key exchange.
        name: Option<String>,
    },
    /// Run a relay server on this address.
    Relay { addr: String },
}

} // verus!
