//! Core logic of a Minecraft server launcher: the Microsoft login flow,
//! the settings, the game server's status, the local web server's routing
//! and the game updater.

pub mod consts;
pub mod event;
pub mod foreign;
pub mod login;
pub mod routing;
pub mod server_status;
pub mod settings;
pub mod text;
pub mod time;
pub mod update;
