use vstd::prelude::*;

pub mod events;
pub mod files;
pub mod microsoft;
pub mod windows;

verus! {

/// Where the update server describes the game's files.
pub const GAME_UPDATE_URL: &'static str = "http://127.0.0.1:8000";

/// The local web server that receives the login redirect.
pub const LOCAL_WEBSERVER_URL: &'static str = "http://127.0.0.1:3000";

} // verus!
