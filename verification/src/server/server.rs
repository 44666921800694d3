use vstd::prelude::*;
use crate::chat::message::Message;
use crate::protocol::common::{ServerListPing, ServerListPingPlayers, ServerListPingVersion};

verus! {

/// The server list entry the server answers a status request with: version
/// "1.12.2" (protocol 340), 1023 of 1024 players online with no sample, the
/// description "This is a Minecraft server", a placeholder favicon, and chat
/// previews on.
pub fn ping_entry() -> (p: ServerListPing)
    ensures
        p.version.name@ == "1.12.2"@,
        p.version.protocol == 340,
        p.players.max == 1024,
        p.players.online == 1023,
        p.players.sample@.len() == 0,
        p.description.text@ == "This is a Minecraft server"@,
        p.favicon@ == "data:image/png;base64,<data>"@,
        p.previewsChat,
{
    ServerListPing {
        version: ServerListPingVersion { name: "1.12.2".to_owned(), protocol: 340 },
        players: ServerListPingPlayers { max: 1024, online: 1023, sample: Vec::new() },
        description: Message { text: "This is a Minecraft server".to_owned() },
        favicon: "data:image/png;base64,<data>".to_owned(),
        previewsChat: true,
    }
}

} // verus!
