//! What the handlers need to know of the server: the player counts, the
//! description, and the world data for the entry into the game.

use vstd::prelude::*;
use crate::config::Config;
use crate::play::WorldData;
use crate::status::{json_quote, json_string_literal};

verus! {

/// The server as the handlers see it.
#[derive(Debug)]
pub struct ServerContext {
    /// The most players that the server takes.
    pub max_players: u32,
    /// The number of players that are online.
    pub online: u32,
    /// The description of the server as a JSON string literal, quotes
    /// included.
    pub description: String,
    /// The world data.
    pub world: WorldData,
}

impl ServerContext {
    /// The context for a configuration. The description is turned into a
    /// JSON string literal here.
    pub fn new(config: &Config, online: u32, world: WorldData) -> (r: ServerContext)
        ensures
            r.max_players == config.max_players,
            r.online == online,
            r.description@ == json_string_literal(config.motd@),
            r.world == world,
    {
        let description = json_quote(config.motd.as_str()).unwrap();
        Self::with_description(config.max_players, online, description, world)
    }

    /// The context for a description that is a JSON string literal
    /// already.
    pub fn with_description(
        max_players: u32,
        online: u32,
        description: String,
        world: WorldData,
    ) -> (r: ServerContext)
        ensures
            r.max_players == max_players,
            r.online == online,
            r.description == description,
            r.world == world,
    {
        ServerContext { max_players, online, description, world }
    }
}

} // verus!
