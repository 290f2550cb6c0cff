use vstd::prelude::*;

verus! {

/// The events sent to the front end.
pub const SERVER_STATUS_REFRESH: &'static str = "server-status";

pub const SETTINGS_UPDATE: &'static str = "settings-update";

pub const GAME_UPDATE: &'static str = "game-update";

pub const ERROR: &'static str = "error";

} // verus!
