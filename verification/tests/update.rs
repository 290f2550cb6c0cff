use minelaunch::update::error::Error;
use minelaunch::update::hash::{convert_hash_algorithm, HashAlgorithm};
use minelaunch::update::info::{FileInfo, Info};
use minelaunch::update::progress::{Message as Report, ProgressTracker};
use minelaunch::update::scan::{scan_dir, PathKind};
use minelaunch::update::updater::{
    DownloadState, DownloadStateHandle, Message, UpdateAction, UpdateEvent, Updater, UNREPORTED_INTERRUPTION,
};

fn crockford_sha256(data: &[u8]) -> String {
    let d = ring::digest::digest(&ring::digest::SHA256, data);
    base32::encode(base32::Alphabet::Crockford, d.as_ref())
}

fn file(path: &str, hash: &str, placeholder: bool) -> FileInfo {
    FileInfo { path: path.to_string(), hash: hash.to_string(), placeholder }
}

fn info(files: Vec<FileInfo>, ignored: Vec<&str>) -> Info {
    Info {
        base_url: "http://127.0.0.1:8000/".to_string(),
        algorithm: "SHA256".to_string(),
        files,
        ignored_files: ignored.into_iter().map(|s| s.to_string()).collect(),
    }
}

fn sent_message(a: UpdateAction) -> Message {
    match a {
        UpdateAction::Send(m) => m,
        _ => panic!("expected a message to send"),
    }
}

#[test]
fn download_state_clamps_to_total() {
    let mut s = DownloadState::new(100);
    assert_eq!(s.done(), 0);
    assert_eq!(s.total(), 100);
    s.set_done(50);
    assert_eq!(s.done(), 50);
    s.set_done(150);
    assert_eq!(s.done(), 100);
    assert_eq!(s.total(), 100);
}

#[test]
fn download_handle_reports_raw_progress() {
    let (mut h, m) = DownloadStateHandle::new(3, 10, Some("game/a".to_string()));
    assert!(matches!(m, Message::AddState(3, 10, Some(ref n)) if n == "game/a"));
    let m = h.add_chunk(4);
    assert!(matches!(m, Message::UpdateState(3, 4)));
    let m = h.add_chunk(8);
    // the message carries the unclamped amount, the state is clamped
    assert!(matches!(m, Message::UpdateState(3, 12)));
    assert_eq!(h.done(), 10);
    let m = h.set_done(2);
    assert!(matches!(m, Message::UpdateState(3, 2)));
    assert_eq!(h.done(), 2);
}

#[test]
fn tracker_sums_progress_of_all_downloads() {
    let mut t = ProgressTracker::new();
    assert!(t.handle(Message::AddState(0, 100, Some("a".to_string()))).is_none());
    assert!(t.handle(Message::AddState(1, 50, None)).is_none());
    match t.handle(Message::UpdateState(0, 30)) {
        Some(Report::UpdateState { name, done, total }) => {
            assert_eq!(name, Some("a".to_string()));
            assert_eq!(done, 30);
            assert_eq!(total, 150);
        }
        _ => panic!("expected a progress report"),
    }
    match t.handle(Message::UpdateState(1, 20)) {
        Some(Report::UpdateState { name, done, total }) => {
            assert_eq!(name, None);
            assert_eq!(done, 50);
            assert_eq!(total, 150);
        }
        _ => panic!("expected a progress report"),
    }
    // a later update of a download replaces its earlier progress
    match t.handle(Message::UpdateState(0, 100)) {
        Some(Report::UpdateState { done, total, .. }) => {
            assert_eq!(done, 120);
            assert_eq!(total, 150);
        }
        _ => panic!("expected a progress report"),
    }
}

#[test]
fn tracker_drops_unknown_ids_and_forwards_phases() {
    let mut t = ProgressTracker::new();
    assert!(t.handle(Message::UpdateState(7, 1)).is_none());
    assert!(matches!(t.handle(Message::FetchDone), Some(Report::FetchDone)));
    assert!(matches!(t.handle(Message::CleanDone), Some(Report::CleanDone)));
    assert!(matches!(t.handle(Message::DownloadDone), Some(Report::DownloadDone)));
    let e = Error::Other("boom".to_string());
    assert!(matches!(t.handle(Message::Interrupted(Box::new(e))), Some(Report::Failure)));
}

#[test]
fn tracker_keeps_progress_of_a_registered_again_download() {
    let mut t = ProgressTracker::new();
    t.handle(Message::AddState(0, 10, None));
    t.handle(Message::UpdateState(0, 6));
    // registering the same id again resets its progress but not the total done
    t.handle(Message::AddState(0, 20, None));
    match t.handle(Message::UpdateState(0, 1)) {
        Some(Report::UpdateState { done, total, .. }) => {
            assert_eq!(done, 7);
            assert_eq!(total, 30);
        }
        _ => panic!("expected a progress report"),
    }
}

#[test]
fn hash_algorithm_names_ignore_case() {
    assert_eq!(convert_hash_algorithm("sha256"), Some(HashAlgorithm::Sha256));
    assert_eq!(convert_hash_algorithm("SHA256"), Some(HashAlgorithm::Sha256));
    assert_eq!(convert_hash_algorithm("Sha384"), Some(HashAlgorithm::Sha384));
    assert_eq!(convert_hash_algorithm("SHA512"), Some(HashAlgorithm::Sha512));
    assert_eq!(convert_hash_algorithm("sha512_256"), Some(HashAlgorithm::Sha512_256));
    assert_eq!(convert_hash_algorithm("md5"), None);
    assert_eq!(convert_hash_algorithm(""), None);
}

#[test]
fn scan_walks_depth_first_and_skips_ignored() {
    let mut s = scan_dir("game".to_string(), vec!["game/saves".to_string()]);
    assert_eq!(s.next(), Some("game".to_string()));
    s.classified(PathKind::Directory(vec![
        "game/a.txt".to_string(),
        "game/saves".to_string(),
        "game/lib".to_string(),
        "game/link".to_string(),
    ]));
    assert_eq!(s.next(), Some("game/a.txt".to_string()));
    s.classified(PathKind::File);
    assert_eq!(s.next(), Some("game/lib".to_string()));
    s.classified(PathKind::Directory(vec!["game/lib/x.jar".to_string()]));
    assert_eq!(s.next(), Some("game/lib/x.jar".to_string()));
    s.classified(PathKind::File);
    assert_eq!(s.next(), Some("game/link".to_string()));
    s.classified(PathKind::Other);
    assert_eq!(s.next(), None);
    assert_eq!(s.into_found(), vec!["game/a.txt".to_string(), "game/lib/x.jar".to_string()]);
}

#[test]
fn scan_of_ignored_root_finds_nothing() {
    let mut s = scan_dir("game".to_string(), vec!["game".to_string()]);
    assert_eq!(s.next(), None);
    assert!(s.into_found().is_empty());
}

#[test]
fn update_of_an_up_to_date_directory_removes_unlisted_files() {
    let hash = crockford_sha256(b"hello");
    let (mut u, a) = Updater::new("http://127.0.0.1:8000".to_string(), "game".to_string());
    assert!(matches!(a, UpdateAction::FetchInfo { ref url } if url == "http://127.0.0.1:8000"));
    let i = info(
        vec![file("a.txt", &hash, false), file("b.txt", "ZZZZ", true), file("saves/w.dat", "", false)],
        vec!["saves"],
    );
    let a = u.step(UpdateEvent::Fetched(i));
    assert!(matches!(a, UpdateAction::CheckExists { ref path } if path == "game/a.txt"));
    let a = u.step(UpdateEvent::Exists(true));
    assert!(matches!(a, UpdateAction::ReadFile { ref path } if path == "game/a.txt"));
    let a = u.step(UpdateEvent::Content(b"hello".to_vec()));
    assert!(matches!(a, UpdateAction::CheckExists { ref path } if path == "game/b.txt"));
    // a placeholder that exists is left alone, the ignored file is not checked
    let a = u.step(UpdateEvent::Exists(true));
    assert!(matches!(sent_message(a), Message::FetchDone));
    let a = u.step(UpdateEvent::Sent);
    match a {
        UpdateAction::Scan { root, ignored } => {
            assert_eq!(root, "game");
            assert_eq!(ignored, vec!["saves".to_string()]);
        }
        _ => panic!("expected a scan"),
    }
    // the scan reports only paths inside the game directory
    assert!(!u.accepts(&UpdateEvent::Scanned(vec!["gamer/x.txt".to_string()])));
    assert!(!u.accepts(&UpdateEvent::Scanned(vec!["other/x.txt".to_string()])));
    assert!(u.accepts(&UpdateEvent::Scanned(vec!["game/x.txt".to_string(), "game".to_string()])));
    let a = u.step(UpdateEvent::Scanned(vec![
        "game/a.txt".to_string(),
        "game/old.txt".to_string(),
        "game/saves/w.dat".to_string(),
        "game//b.txt".to_string(),
    ]));
    assert!(matches!(a, UpdateAction::Remove { ref path } if path == "game/old.txt"));
    let a = u.step(UpdateEvent::Removed);
    assert!(matches!(sent_message(a), Message::CleanDone));
    let a = u.step(UpdateEvent::Sent);
    assert!(matches!(sent_message(a), Message::DownloadDone));
    assert!(matches!(u.step(UpdateEvent::Sent), UpdateAction::Finish));
    assert!(matches!(u.step(UpdateEvent::Sent), UpdateAction::Finish));
}

#[test]
fn update_downloads_missing_and_changed_files() {
    let hash = crockford_sha256(b"new content");
    let (mut u, _) = Updater::new("http://127.0.0.1:8000".to_string(), "game".to_string());
    let i = info(vec![file("a.txt", &hash, false), file("lib/b.jar", &hash, true)], vec![]);
    let a = u.step(UpdateEvent::Fetched(i));
    assert!(matches!(a, UpdateAction::CheckExists { ref path } if path == "game/a.txt"));
    assert!(matches!(u.step(UpdateEvent::Exists(true)), UpdateAction::ReadFile { .. }));
    let a = u.step(UpdateEvent::Content(b"old content".to_vec()));
    assert!(matches!(a, UpdateAction::Request { ref url } if url == "http://127.0.0.1:8000/a.txt"));
    let a = u.step(UpdateEvent::Responded { content_length: Some(11) });
    assert!(matches!(sent_message(a), Message::AddState(0, 11, Some(ref p)) if p == "game/a.txt"));
    let a = u.step(UpdateEvent::Sent);
    assert!(matches!(a, UpdateAction::CheckExists { ref path } if path == "game/lib/b.jar"));
    // a missing placeholder is downloaded
    let a = u.step(UpdateEvent::Exists(false));
    assert!(matches!(a, UpdateAction::Request { ref url } if url == "http://127.0.0.1:8000/lib/b.jar"));
    let a = u.step(UpdateEvent::Responded { content_length: Some(5) });
    assert!(matches!(sent_message(a), Message::AddState(1, 5, Some(ref p)) if p == "game/lib/b.jar"));
    assert!(matches!(sent_message(u.step(UpdateEvent::Sent)), Message::FetchDone));
    assert!(matches!(u.step(UpdateEvent::Sent), UpdateAction::Scan { .. }));
    let a = u.step(UpdateEvent::Scanned(vec!["game/a.txt".to_string()]));
    assert!(matches!(sent_message(a), Message::CleanDone));
    let a = u.step(UpdateEvent::Sent);
    assert!(matches!(a, UpdateAction::Download { id: 0, size: 11, ref path } if path == "game/a.txt"));
    let a = u.step(UpdateEvent::Downloaded);
    assert!(matches!(a, UpdateAction::Download { id: 1, size: 5, ref path } if path == "game/lib/b.jar"));
    assert!(matches!(sent_message(u.step(UpdateEvent::Downloaded)), Message::DownloadDone));
    assert!(matches!(u.step(UpdateEvent::Sent), UpdateAction::Finish));
}

fn interruption(a: UpdateAction) -> Error {
    match sent_message(a) {
        Message::Interrupted(e) => *e,
        _ => panic!("expected an interruption"),
    }
}

#[test]
fn update_interrupted_by_a_bad_hash() {
    let (mut u, _) = Updater::new("x".to_string(), "game".to_string());
    u.step(UpdateEvent::Fetched(info(vec![file("a.txt", "not base32!", false)], vec![])));
    u.step(UpdateEvent::Exists(true));
    let e = interruption(u.step(UpdateEvent::Content(vec![1, 2, 3])));
    assert!(matches!(e, Error::Other(ref s) if s == "Could not parse hash"));
    assert!(matches!(u.step(UpdateEvent::Sent), UpdateAction::Finish));
}

#[test]
fn update_interrupted_without_content_length() {
    let (mut u, _) = Updater::new("x".to_string(), "game".to_string());
    u.step(UpdateEvent::Fetched(info(vec![file("a.txt", "00", false)], vec![])));
    assert!(matches!(u.step(UpdateEvent::Exists(false)), UpdateAction::Request { .. }));
    let e = interruption(u.step(UpdateEvent::Responded { content_length: None }));
    assert!(matches!(e, Error::Other(ref s) if s == "Failed to get content length"));
}

#[test]
fn update_interrupted_by_a_bad_base_url() {
    let (mut u, _) = Updater::new("x".to_string(), "game".to_string());
    let mut i = info(vec![file("a.txt", "00", false)], vec![]);
    i.base_url = "not a url".to_string();
    let e = interruption(u.step(UpdateEvent::Fetched(i)));
    assert!(matches!(e, Error::Url(_)));
}

#[test]
fn update_interrupted_by_a_failure_reports_it() {
    let (mut u, _) = Updater::new("x".to_string(), "game".to_string());
    let e = interruption(u.step(UpdateEvent::Failed(Error::Other("no server".to_string()))));
    assert!(matches!(e, Error::Other(ref s) if s == "no server"));
    assert!(matches!(u.step(UpdateEvent::Sent), UpdateAction::Finish));
}

#[test]
fn update_panics_where_the_interruption_is_not_delivered() {
    let (mut u, _) = Updater::new("x".to_string(), "game".to_string());
    u.step(UpdateEvent::Failed(Error::Other("no server".to_string())));
    let a = u.step(UpdateEvent::Failed(Error::Other("closed".to_string())));
    assert!(matches!(a, UpdateAction::Panic { ref message } if message == UNREPORTED_INTERRUPTION));
}

#[test]
fn update_panics_on_an_unknown_algorithm() {
    let (mut u, _) = Updater::new("x".to_string(), "game".to_string());
    let mut i = info(vec![file("a.txt", "00", false)], vec![]);
    i.algorithm = "md4".to_string();
    u.step(UpdateEvent::Fetched(i));
    let a = u.step(UpdateEvent::Exists(true));
    assert!(matches!(a, UpdateAction::Panic { ref message } if message == "Unknown algorithm: md4"));
}

#[test]
fn error_from_string_is_other() {
    let e: Error = Error::from("oops".to_string());
    assert!(matches!(e, Error::Other(ref s) if s == "oops"));
}

#[test]
fn update_reports_outside_failures_as_they_are() {
    let (mut u, _) = Updater::new("x".to_string(), "game".to_string());
    u.step(UpdateEvent::Fetched(info(vec![file("a.txt", "00", false)], vec![])));
    u.step(UpdateEvent::Exists(true));
    let io = std::io::Error::new(std::io::ErrorKind::PermissionDenied, "denied");
    let e = interruption(u.step(UpdateEvent::Failed(Error::IO(io))));
    assert!(matches!(e, Error::IO(ref inner) if inner.kind() == std::io::ErrorKind::PermissionDenied));
}

#[test]
fn update_reports_an_undelivered_message() {
    let (mut u, _) = Updater::new("x".to_string(), "game".to_string());
    u.step(UpdateEvent::Fetched(info(vec![], vec![])));
    let e = interruption(u.step(UpdateEvent::Failed(Error::MpscSend(Box::new(Message::FetchDone)))));
    assert!(matches!(e, Error::MpscSend(ref m) if matches!(**m, Message::FetchDone)));
}

#[test]
fn update_accepts_only_the_awaited_events() {
    let (mut u, _) = Updater::new("x".to_string(), "game".to_string());
    assert!(u.accepts(&UpdateEvent::Fetched(info(vec![], vec![]))));
    assert!(!u.accepts(&UpdateEvent::Sent));
    assert!(u.accepts(&UpdateEvent::Failed(Error::Other("e".to_string()))));
    let a = u.step(UpdateEvent::Fetched(info(vec![], vec![])));
    assert!(matches!(sent_message(a), Message::FetchDone));
    assert!(u.accepts(&UpdateEvent::Sent));
    assert!(!u.accepts(&UpdateEvent::Removed));
}

#[test]
fn tracker_tells_which_messages_fit() {
    let mut t = ProgressTracker::new();
    assert!(t.can_handle(&Message::AddState(0, u64::MAX, None)));
    t.handle(Message::AddState(0, u64::MAX, None));
    assert!(!t.can_handle(&Message::AddState(1, 1, None)));
    assert!(t.can_handle(&Message::UpdateState(0, u64::MAX)));
    assert!(t.can_handle(&Message::UpdateState(9, 1)));
}

fn report_text(r: Option<Report>) -> String {
    match r {
        Some(Report::UpdateState { name, done, total }) => format!("update {:?} {} {}", name, done, total),
        Some(Report::Start) => "start".to_string(),
        Some(Report::FetchDone) => "fetch".to_string(),
        Some(Report::CleanDone) => "clean".to_string(),
        Some(Report::DownloadDone) => "download".to_string(),
        Some(Report::Failure) => "failure".to_string(),
        None => "none".to_string(),
    }
}

fn progress_messages(with_unknown: bool) -> Vec<Message> {
    let mut msgs = vec![Message::AddState(0, 40, Some("a".to_string())), Message::UpdateState(0, 10)];
    if with_unknown {
        msgs.push(Message::UpdateState(5, 1000));
    }
    msgs.push(Message::AddState(5, 60, None));
    msgs.push(Message::UpdateState(5, 20));
    msgs.push(Message::UpdateState(0, 40));
    msgs.push(Message::DownloadDone);
    msgs
}

#[test]
fn tracker_progress_for_an_unadded_id_changes_nothing() {
    let mut with = ProgressTracker::new();
    let outs_with: Vec<String> = progress_messages(true).into_iter().map(|m| report_text(with.handle(m))).collect();
    let mut without = ProgressTracker::new();
    let outs_without: Vec<String> =
        progress_messages(false).into_iter().map(|m| report_text(without.handle(m))).collect();
    assert_eq!(outs_with[2], "none");
    let mut expected = outs_without.clone();
    expected.insert(2, "none".to_string());
    assert_eq!(outs_with, expected);
    assert_eq!(outs_without[3], "update None 30 100");
    assert_eq!(outs_without[4], "update Some(\"a\") 60 100");
}

#[test]
fn scan_finds_paths_inside_its_root() {
    let mut s = scan_dir("game/".to_string(), vec![]);
    assert_eq!(s.next(), Some("game/".to_string()));
    s.classified(PathKind::Directory(vec!["game/a".to_string()]));
    assert_eq!(s.next(), Some("game/a".to_string()));
    s.classified(PathKind::Directory(vec!["game/a\\b.txt".to_string()]));
    assert_eq!(s.next(), Some("game/a\\b.txt".to_string()));
    s.classified(PathKind::File);
    assert_eq!(s.next(), None);
    let found = s.into_found();
    assert_eq!(found, vec!["game/a\\b.txt".to_string()]);
    assert!(found.iter().all(|f| minelaunch::text::at_or_within(f, "game/")));
}
