//! What the server is configured with. The values are read once, at start.

use vstd::prelude::*;

verus! {

/// The server's configuration.
#[derive(Clone, Debug)]
pub struct Config {
    /// The address to listen on.
    pub host: String,
    /// The port to listen on.
    pub port: u16,
    /// The number of players that the status document announces as the
    /// most the server takes.
    pub max_players: u32,
    /// The description that the status document carries.
    pub motd: String,
}

} // verus!
