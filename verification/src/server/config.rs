use vstd::prelude::*;

verus! {

/// What the server is started with.
pub struct StartupConfig {
    pub address: String,
    pub max_players: i32,
    pub ext_dir: String,
    pub data_dir: String,
    pub online_mode: bool,
}

impl StartupConfig {
    /// The configuration that a fresh configuration file holds: listening on
    /// every interface on port 25565, twenty players, `./exts` and `./data`,
    /// offline.
    pub fn defaults() -> (c: Self)
        ensures
            c.address@ == "0.0.0.0:25565"@,
            c.max_players == 20,
            c.ext_dir@ == "./exts"@,
            c.data_dir@ == "./data"@,
            !c.online_mode,
    {
        Self {
            address: "0.0.0.0:25565".to_owned(),
            max_players: 20,
            ext_dir: "./exts".to_owned(),
            data_dir: "./data".to_owned(),
            online_mode: false,
        }
    }
}

} // verus!
