use minelaunch::text::{at_or_within, within};
use minelaunch::event::error_payload;
use minelaunch::server_status::{status_url, PlayersStatus, ServerStatus};
use minelaunch::settings::{settings_error, Settings, SettingsError};
use minelaunch::time::Instant;

#[test]
fn default_settings() {
    let s = Settings::default();
    assert_eq!(s.game.resolution, (1920, 1080));
    assert_eq!(s.game.ram, 1024);
}

#[test]
fn settings_errors_are_named() {
    let p = settings_error(SettingsError::Invalid, "bad json");
    assert_eq!(p.name, "Invalid settings file");
    assert_eq!(p.description, "bad json");
    let p = settings_error(SettingsError::CannotSave, "disk full");
    assert_eq!(p.name, "Cannot save settings");
    assert_eq!(p.description, "disk full");
}

#[test]
fn error_payload_keeps_name_and_description() {
    let p = error_payload("n", "d");
    assert_eq!(p.name, "n");
    assert_eq!(p.description, "d");
}

#[test]
fn status_url_names_the_server() {
    assert_eq!(status_url("play.cubecraft.net"), "https://api.mcsrvstat.us/2/play.cubecraft.net");
    let s = ServerStatus { online: true, players: Some(PlayersStatus { max: 10, online: 2 }) };
    assert_eq!(s.players.unwrap().online, 2);
}

#[test]
fn instants_compare_and_add() {
    let a = Instant { secs: 5, nanos: 10 };
    let b = Instant { secs: 5, nanos: 11 };
    assert!(a.before(&b));
    assert!(!b.before(&a));
    assert!(!a.before(&a));
    assert_eq!(a.plus_secs(7), Instant { secs: 12, nanos: 10 });
}

#[test]
fn paths_inside_a_directory_as_text() {
    assert!(within("game/a.txt", "game"));
    assert!(within("game\\a.txt", "game"));
    assert!(within("game/a.txt", "game/"));
    assert!(within("game//a.txt", "game"));
    assert!(!within("gamer/a.txt", "game"));
    assert!(!within("game", "game"));
    assert!(!within("gam", "game"));
    assert!(!within("other/game/a.txt", "game"));
    assert!(at_or_within("game", "game"));
    assert!(!at_or_within("game2", "game"));
}
