use vstd::prelude::*;

verus! {

/// The settings file.
pub const SETTINGS: &'static str = "../settings.json";

/// The directory into which the game is downloaded.
pub const GAME_DIR: &'static str = "../game";

} // verus!
