use vstd::prelude::*;
use crate::event::{ErrorEventPayload, error_payload};

verus! {

/// The launcher's settings.
#[derive(Clone, Copy, Debug)]
pub struct Settings {
    pub game: GameSettings,
    pub launcher: LauncherSettings,
}

/// The settings of the game.
#[derive(Clone, Copy, Debug)]
pub struct GameSettings {
    /// Width and height of the game's window.
    pub resolution: (u16, u16),
    /// Memory given to the game, in megabytes.
    pub ram: u32,
}

/// The settings of the launcher itself.
#[derive(Clone, Copy, Debug, PartialEq, Eq, Structural)]
pub struct LauncherSettings {}

impl Default for Settings {
    /// A 1920x1080 window and 1024 MB of memory.
    fn default() -> (s: Self)
        ensures
            s.game.resolution == (1920u16, 1080u16),
            s.game.ram == 1024,
    {
        Settings { game: GameSettings { resolution: (1920, 1080), ram: 1024 }, launcher: LauncherSettings {} }
    }
}

/// What can go wrong when the settings are saved.
#[derive(Clone, Copy, Debug, PartialEq, Eq, Structural)]
pub enum SettingsError {
    /// The settings could not be turned into JSON.
    Invalid,
    /// The settings file could not be written.
    CannotSave,
}

/// The error reported to the front end when saving the settings fails.
pub fn settings_error(kind: SettingsError, description: &str) -> (p: ErrorEventPayload)
    ensures
        p.name@ == match kind {
            SettingsError::Invalid => "Invalid settings file"@,
            SettingsError::CannotSave => "Cannot save settings"@,
        },
        p.description@ == description@,
{
    match kind {
        SettingsError::Invalid => error_payload("Invalid settings file", description),
        SettingsError::CannotSave => error_payload("Cannot save settings", description),
    }
}

} // verus!
