use vstd::prelude::*;
use crate::text::concat;

verus! {

/// Whether the game server is online, and how many players it has.
#[derive(Clone, Copy, Debug, PartialEq, Eq, Structural)]
pub struct ServerStatus {
    pub online: bool,
    pub players: Option<PlayersStatus>,
}

/// The players of the game server: how many may join, how many are in.
#[derive(Clone, Copy, Debug, PartialEq, Eq, Structural)]
pub struct PlayersStatus {
    pub max: u32,
    pub online: u32,
}

/// The address of the status service's report on the server `ip`.
pub fn status_url(ip: &str) -> (r: String)
    ensures
        r@ == "https://api.mcsrvstat.us/2/"@ + ip@,
{
    concat("https://api.mcsrvstat.us/2/", ip)
}

} // verus!
