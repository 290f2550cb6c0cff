# minelaunch

The core of a Minecraft server launcher, verified with Verus: the Microsoft
(PKCE) login flow and token refresh, the settings, the game server's status
address, the routing of the local web server that receives the login
redirect, and the updater that keeps the game directory in line with what an
update server lists.

- `src/` is the library. Work that needs the outside world (the network, the
  disk, the clock, the window toolkit) is left to a driver: the updater and
  the directory walk are state machines that hand out the next piece of
  outside work and take back its outcome.
- `src/foreign.rs` holds the contracts of the outside functions that the
  library calls (`url`, `serde_urlencoded`, `regex`, `ring`, `base32`,
  `oauth2`, and a few of `std::path`).
- `app/` is the Tauri program around the library: commands, HTTP requests,
  the local web server, file access and the serde forms of the library's
  types.
- `tests/` runs the library with the real outside crates.
