use vstd::prelude::*;
use crate::chat::message::Message;

verus! {

/// A player shown in the server list.
pub struct PlayerSample {
    pub name: String,
    pub id: String,
}

/// The player counts of the server list entry.
pub struct ServerListPingPlayers {
    pub max: i32,
    pub online: i32,
    pub sample: Vec<PlayerSample>,
}

/// The version of the server list entry.
pub struct ServerListPingVersion {
    pub name: String,
    pub protocol: i32,
}

/// The server list entry that answers a status request.
#[allow(non_snake_case)]
pub struct ServerListPing {
    pub version: ServerListPingVersion,
    pub players: ServerListPingPlayers,
    pub description: Message,
    pub favicon: String,
    pub previewsChat: bool,
}

} // verus!
