use std::collections::BTreeMap;

use epu_client::client::HttpClient;
use epu_client::client::Request;
use epu_client::config::Config;
use epu_client::config::UpdateInfo;
use epu_client::digest::fingerprint_of;
use epu_client::error::Failure;
use epu_client::error::SyncError;
use epu_client::status::exit_code;
use epu_client::sync::Action;
use epu_client::sync::Event;
use epu_client::sync::Outcome;
use epu_client::sync::Phase;
use epu_client::sync::Sync;

const BASE: &str = "https://updates.example.com/api/pack/main";

/// A server and a disk held in memory, and a record of what was done to
/// them.
struct World {
    version: String,
    changelist: UpdateInfo,
    served: BTreeMap<String, Vec<u8>>,
    disk: BTreeMap<String, Vec<u8>>,
    marker: Option<String>,
    log: Vec<String>,
}

fn config() -> Config {
    Config {
        backendUrl: "https://updates.example.com/api".to_string(),
        packId: "main".to_string(),
        apiKey: "pack-key-1".to_string(),
    }
}

fn world(version: &str, marker: Option<&str>) -> World {
    World {
        version: version.to_string(),
        changelist: UpdateInfo { download: vec![], delete: vec![], hashes: vec![] },
        served: BTreeMap::new(),
        disk: BTreeMap::new(),
        marker: marker.map(|m| m.to_string()),
        log: Vec::new(),
    }
}

fn names(list: &[&str]) -> Vec<String> {
    list.iter().map(|s| s.to_string()).collect()
}

fn check_key(request: &Request) {
    assert_eq!(request.key, "pack-key-1");
}

fn perform(world: &mut World, action: Action) -> Result<Event, Outcome> {
    Ok(match action {
        Action::FetchVersion(request) => {
            check_key(&request);
            world.log.push(format!("GET {}", request.url));
            Event::Version(world.version.clone())
        }
        Action::FetchChangelist(request) => {
            check_key(&request);
            world.log.push(format!("GET {}", request.url));
            Event::Changelist(world.changelist.clone())
        }
        Action::Probe { file } => Event::Probed(world.disk.contains_key(&file)),
        Action::Digest { file } => {
            world.log.push(format!("digest {file}"));
            Event::Digested(fingerprint_of(&world.disk[&file]))
        }
        Action::Download { request, file, replaces } => {
            check_key(&request);
            world.log.push(format!("GET {} -> {}{}", request.url, file, if replaces { " (replaces)" } else { "" }));
            match world.served.get(&request.url) {
                Some(body) => {
                    world.disk.insert(file, body.clone());
                    Event::Stored
                }
                None => Event::Failed(Failure::Transport),
            }
        }
        Action::Remove { file } => {
            world.log.push(format!("remove {file}"));
            match world.disk.remove(&file) {
                Some(_) => Event::Removed,
                None => Event::Failed(Failure::Io),
            }
        }
        Action::WriteMarker { content } => {
            world.log.push(format!("marker {content:?}"));
            world.marker = Some(content);
            Event::Persisted
        }
        Action::Finish(outcome) => return Err(outcome),
    })
}

fn drive(world: &mut World) -> Outcome {
    let config = config();
    let client = HttpClient::new(config.base_url(), config.apiKey.clone()).unwrap();
    let (mut sync, mut action) = Sync::begin(client, world.marker.clone());
    loop {
        match perform(world, action) {
            Ok(event) => action = sync.step(event),
            Err(outcome) => return outcome,
        }
    }
}

#[test]
fn matching_file_is_skipped_and_the_rest_applied() {
    let mut w = world("4", Some("3"));
    w.disk.insert("a.txt".into(), b"alpha".to_vec());
    w.disk.insert("old.txt".into(), b"gone soon".to_vec());
    w.served.insert(format!("{BASE}/get/a.txt"), b"alpha".to_vec());
    w.served.insert(format!("{BASE}/get/b.txt"), b"beta".to_vec());
    w.changelist = UpdateInfo {
        download: names(&["a.txt", "b.txt"]),
        delete: names(&["old.txt"]),
        hashes: vec![
            ("a.txt".into(), fingerprint_of(b"alpha")),
            ("b.txt".into(), fingerprint_of(b"beta")),
        ],
    };
    assert_eq!(drive(&mut w), Outcome::Updated);
    assert_eq!(
        w.log,
        vec![
            format!("GET {BASE}/version"),
            format!("GET {BASE}/changelist"),
            "digest a.txt".to_string(),
            format!("GET {BASE}/get/b.txt -> b.txt"),
            "remove old.txt".to_string(),
            "marker \"4\\n\"".to_string(),
        ]
    );
    assert_eq!(w.disk.get("a.txt").unwrap(), b"alpha");
    assert_eq!(w.disk.get("b.txt").unwrap(), b"beta");
    assert!(!w.disk.contains_key("old.txt"));
    assert_eq!(w.marker.as_deref(), Some("4\n"));
}

#[test]
fn file_with_another_fingerprint_is_overwritten() {
    let mut w = world("4", Some("3"));
    w.disk.insert("a.txt".into(), b"stale".to_vec());
    w.disk.insert("old.txt".into(), b"gone soon".to_vec());
    w.served.insert(format!("{BASE}/get/a.txt"), b"alpha".to_vec());
    w.served.insert(format!("{BASE}/get/b.txt"), b"beta".to_vec());
    w.changelist = UpdateInfo {
        download: names(&["a.txt", "b.txt"]),
        delete: names(&["old.txt"]),
        hashes: vec![
            ("a.txt".into(), fingerprint_of(b"alpha")),
            ("b.txt".into(), fingerprint_of(b"beta")),
        ],
    };
    assert_eq!(drive(&mut w), Outcome::Updated);
    assert_eq!(
        w.log,
        vec![
            format!("GET {BASE}/version"),
            format!("GET {BASE}/changelist"),
            "digest a.txt".to_string(),
            format!("GET {BASE}/get/a.txt -> a.txt (replaces)"),
            format!("GET {BASE}/get/b.txt -> b.txt"),
            "remove old.txt".to_string(),
            "marker \"4\\n\"".to_string(),
        ]
    );
    assert_eq!(w.disk.get("a.txt").unwrap(), b"alpha");
    assert_eq!(w.marker.as_deref(), Some("4\n"));
}

#[test]
fn removing_an_absent_file_aborts_and_keeps_the_marker() {
    let mut w = world("4", Some("3"));
    w.served.insert(format!("{BASE}/get/b.txt"), b"beta".to_vec());
    w.changelist = UpdateInfo {
        download: names(&["b.txt"]),
        delete: names(&["old.txt", "older.txt"]),
        hashes: vec![("b.txt".into(), fingerprint_of(b"beta"))],
    };
    let outcome = drive(&mut w);
    assert_eq!(outcome, Outcome::Failed(SyncError::Io));
    assert_eq!(exit_code(&outcome), 2);
    assert_eq!(w.marker.as_deref(), Some("3"));
    assert_eq!(w.log.last().unwrap(), "remove old.txt");
    assert_eq!(w.disk.get("b.txt").unwrap(), b"beta");
}

#[test]
fn second_pass_does_nothing() {
    let mut w = world(" 7 \n", None);
    w.served.insert(format!("{BASE}/get/a.txt"), b"alpha".to_vec());
    w.changelist = UpdateInfo {
        download: names(&["a.txt"]),
        delete: vec![],
        hashes: vec![("a.txt".into(), fingerprint_of(b"alpha"))],
    };
    assert_eq!(drive(&mut w), Outcome::Updated);
    assert_eq!(w.marker.as_deref(), Some("7\n"));
    w.log.clear();
    let outcome = drive(&mut w);
    assert_eq!(outcome, Outcome::UpToDate);
    assert_eq!(exit_code(&outcome), 0);
    assert_eq!(w.log, vec![format!("GET {BASE}/version")]);
    assert_eq!(w.marker.as_deref(), Some("7\n"));
}

#[test]
fn current_marker_short_circuits() {
    let mut w = world("12\r\n", Some("  12\t"));
    w.changelist = UpdateInfo {
        download: names(&["a.txt"]),
        delete: names(&["b.txt"]),
        hashes: vec![],
    };
    assert_eq!(drive(&mut w), Outcome::UpToDate);
    assert_eq!(w.log, vec![format!("GET {BASE}/version")]);
    assert_eq!(w.marker.as_deref(), Some("  12\t"));
}

#[test]
fn empty_changelist_still_writes_the_marker() {
    let mut w = world("5", Some("4"));
    let outcome = drive(&mut w);
    assert_eq!(outcome, Outcome::Updated);
    assert_eq!(exit_code(&outcome), 0);
    assert_eq!(
        w.log,
        vec![
            format!("GET {BASE}/version"),
            format!("GET {BASE}/changelist"),
            "marker \"5\\n\"".to_string(),
        ]
    );
}

#[test]
fn first_run_without_marker_is_stale() {
    let mut w = world("1", None);
    w.served.insert(format!("{BASE}/get/a.txt"), b"alpha".to_vec());
    w.changelist = UpdateInfo { download: names(&["a.txt"]), delete: vec![], hashes: vec![] };
    assert_eq!(drive(&mut w), Outcome::Updated);
    assert_eq!(w.disk.get("a.txt").unwrap(), b"alpha");
    assert_eq!(w.marker.as_deref(), Some("1\n"));
}

#[test]
fn present_file_without_fingerprint_is_fatal() {
    let mut w = world("4", Some("3"));
    w.disk.insert("a.txt".into(), b"alpha".to_vec());
    w.disk.insert("old.txt".into(), b"x".to_vec());
    w.served.insert(format!("{BASE}/get/a.txt"), b"alpha".to_vec());
    w.changelist = UpdateInfo {
        download: names(&["a.txt"]),
        delete: names(&["old.txt"]),
        hashes: vec![("b.txt".into(), fingerprint_of(b"alpha"))],
    };
    let outcome = drive(&mut w);
    assert_eq!(outcome, Outcome::Failed(SyncError::MissingHashEntry { file: "a.txt".to_string() }));
    assert_eq!(exit_code(&outcome), 2);
    assert_eq!(w.log, vec![format!("GET {BASE}/version"), format!("GET {BASE}/changelist")]);
    assert_eq!(w.marker.as_deref(), Some("3"));
    assert!(w.disk.contains_key("old.txt"));
}

#[test]
fn absent_file_needs_no_fingerprint() {
    let mut w = world("4", Some("3"));
    w.served.insert(format!("{BASE}/get/a.txt"), b"alpha".to_vec());
    w.changelist = UpdateInfo { download: names(&["a.txt"]), delete: vec![], hashes: vec![] };
    assert_eq!(drive(&mut w), Outcome::Updated);
    assert_eq!(w.log[2], format!("GET {BASE}/get/a.txt -> a.txt"));
}

#[test]
fn declared_fingerprint_may_be_lower_case() {
    let mut w = world("4", Some("3"));
    w.disk.insert("a.txt".into(), b"alpha".to_vec());
    w.changelist = UpdateInfo {
        download: names(&["a.txt"]),
        delete: vec![],
        hashes: vec![("a.txt".into(), fingerprint_of(b"alpha").to_lowercase())],
    };
    assert_eq!(drive(&mut w), Outcome::Updated);
    assert_eq!(
        w.log,
        vec![
            format!("GET {BASE}/version"),
            format!("GET {BASE}/changelist"),
            "digest a.txt".to_string(),
            "marker \"4\\n\"".to_string(),
        ]
    );
}

#[test]
fn failed_download_stops_before_later_entries() {
    let mut w = world("4", Some("3"));
    w.disk.insert("old.txt".into(), b"x".to_vec());
    w.served.insert(format!("{BASE}/get/a.txt"), b"alpha".to_vec());
    w.served.insert(format!("{BASE}/get/c.txt"), b"gamma".to_vec());
    w.changelist = UpdateInfo {
        download: names(&["a.txt", "b.txt", "c.txt"]),
        delete: names(&["old.txt"]),
        hashes: vec![],
    };
    assert_eq!(drive(&mut w), Outcome::Failed(SyncError::Transport));
    assert_eq!(w.disk.get("a.txt").unwrap(), b"alpha");
    assert!(!w.disk.contains_key("c.txt"));
    assert!(w.disk.contains_key("old.txt"));
    assert_eq!(w.marker.as_deref(), Some("3"));
    assert_eq!(w.log.last().unwrap(), &format!("GET {BASE}/get/b.txt -> b.txt"));
}

#[test]
fn repeated_entries_are_each_taken_up() {
    let mut w = world("4", Some("3"));
    w.served.insert(format!("{BASE}/get/a.txt"), b"alpha".to_vec());
    w.changelist = UpdateInfo {
        download: names(&["a.txt", "a.txt"]),
        delete: vec![],
        hashes: vec![("a.txt".into(), fingerprint_of(b"alpha"))],
    };
    assert_eq!(drive(&mut w), Outcome::Updated);
    assert_eq!(
        w.log,
        vec![
            format!("GET {BASE}/version"),
            format!("GET {BASE}/changelist"),
            format!("GET {BASE}/get/a.txt -> a.txt"),
            "digest a.txt".to_string(),
            "marker \"4\\n\"".to_string(),
        ]
    );
}

#[test]
fn repeated_deletion_fails_the_second_time() {
    let mut w = world("4", Some("3"));
    w.disk.insert("old.txt".into(), b"x".to_vec());
    w.changelist = UpdateInfo {
        download: vec![],
        delete: names(&["old.txt", "old.txt"]),
        hashes: vec![],
    };
    assert_eq!(drive(&mut w), Outcome::Failed(SyncError::Io));
    assert_eq!(w.marker.as_deref(), Some("3"));
}

#[test]
fn deletions_follow_all_downloads_in_list_order() {
    let mut w = world("9", None);
    for f in ["x", "y", "z"] {
        w.served.insert(format!("{BASE}/get/{f}"), f.as_bytes().to_vec());
    }
    for f in ["p", "q"] {
        w.disk.insert(f.to_string(), vec![]);
    }
    w.changelist = UpdateInfo {
        download: names(&["z", "x", "y"]),
        delete: names(&["q", "p"]),
        hashes: vec![],
    };
    assert_eq!(drive(&mut w), Outcome::Updated);
    assert_eq!(
        w.log[2..].to_vec(),
        vec![
            format!("GET {BASE}/get/z -> z"),
            format!("GET {BASE}/get/x -> x"),
            format!("GET {BASE}/get/y -> y"),
            "remove q".to_string(),
            "remove p".to_string(),
            "marker \"9\\n\"".to_string(),
        ]
    );
}

#[test]
fn file_path_is_one_segment_of_the_address() {
    let mut w = world("4", Some("3"));
    w.served.insert(format!("{BASE}/get/mods%2Fa%20b.txt"), b"alpha".to_vec());
    w.changelist = UpdateInfo {
        download: names(&["mods/a b.txt"]),
        delete: vec![],
        hashes: vec![],
    };
    assert_eq!(drive(&mut w), Outcome::Updated);
    assert_eq!(w.disk.get("mods/a b.txt").unwrap(), b"alpha");
}

fn begin(marker: Option<&str>) -> (Sync, Action) {
    let config = config();
    let client = HttpClient::new(config.base_url(), config.apiKey).unwrap();
    Sync::begin(client, marker.map(|m| m.to_string()))
}

#[test]
fn a_pass_begins_by_asking_for_the_version() {
    let (sync, action) = begin(Some("3"));
    assert_eq!(sync.phase(), Phase::AwaitVersion);
    assert_eq!(
        action,
        Action::FetchVersion(Request {
            url: format!("{BASE}/version"),
            key: "pack-key-1".to_string(),
        })
    );
}

#[test]
fn a_stale_pass_asks_for_the_changelist() {
    let (mut sync, _) = begin(Some("3"));
    let action = sync.step(Event::Version("4".to_string()));
    assert_eq!(sync.phase(), Phase::AwaitChangelist);
    assert_eq!(
        action,
        Action::FetchChangelist(Request {
            url: format!("{BASE}/changelist"),
            key: "pack-key-1".to_string(),
        })
    );
}

#[test]
fn failed_version_request_is_a_transport_error() {
    let (mut sync, _) = begin(Some("3"));
    let action = sync.step(Event::Failed(Failure::Transport));
    assert_eq!(action, Action::Finish(Outcome::Failed(SyncError::Transport)));
    assert_eq!(sync.phase(), Phase::Failed);
}

#[test]
fn failed_changelist_applies_nothing() {
    let (mut sync, _) = begin(None);
    sync.step(Event::Version("4".to_string()));
    let action = sync.step(Event::Failed(Failure::Transport));
    assert_eq!(action, Action::Finish(Outcome::Failed(SyncError::Transport)));
    let info = UpdateInfo { download: names(&["a"]), delete: vec![], hashes: vec![] };
    assert_eq!(
        sync.step(Event::Changelist(info)),
        Action::Finish(Outcome::Failed(SyncError::Transport))
    );
}

#[test]
fn failed_fingerprint_is_an_io_error() {
    let (mut sync, _) = begin(None);
    sync.step(Event::Version("4".to_string()));
    let info = UpdateInfo {
        download: names(&["a"]),
        delete: vec![],
        hashes: vec![("a".into(), "00".into())],
    };
    assert_eq!(sync.step(Event::Changelist(info)), Action::Probe { file: "a".to_string() });
    assert_eq!(sync.phase(), Phase::Probing(0));
    assert_eq!(sync.step(Event::Probed(true)), Action::Digest { file: "a".to_string() });
    assert_eq!(sync.phase(), Phase::Hashing(0));
    assert_eq!(
        sync.step(Event::Failed(Failure::Io)),
        Action::Finish(Outcome::Failed(SyncError::Io))
    );
}

#[test]
fn failed_marker_write_fails_the_pass() {
    let (mut sync, _) = begin(None);
    sync.step(Event::Version("4".to_string()));
    let info = UpdateInfo { download: vec![], delete: vec![], hashes: vec![] };
    assert_eq!(
        sync.step(Event::Changelist(info)),
        Action::WriteMarker { content: "4\n".to_string() }
    );
    assert_eq!(sync.phase(), Phase::Persisting);
    assert_eq!(
        sync.step(Event::Failed(Failure::Io)),
        Action::Finish(Outcome::Failed(SyncError::Io))
    );
}

#[test]
fn an_event_out_of_turn_abandons_the_pass() {
    let (mut sync, _) = begin(Some("3"));
    let action = sync.step(Event::Stored);
    assert_eq!(action, Action::Finish(Outcome::Failed(SyncError::OutOfTurn)));
    assert_eq!(
        sync.step(Event::Version("4".to_string())),
        Action::Finish(Outcome::Failed(SyncError::OutOfTurn))
    );
}

#[test]
fn an_ended_pass_repeats_its_verdict() {
    let (mut sync, _) = begin(Some("4"));
    assert_eq!(sync.step(Event::Version("4".to_string())), Action::Finish(Outcome::UpToDate));
    assert_eq!(sync.phase(), Phase::UpToDate);
    assert_eq!(sync.step(Event::Failed(Failure::Io)), Action::Finish(Outcome::UpToDate));
    assert_eq!(sync.step(Event::Stored), Action::Finish(Outcome::UpToDate));

    let (mut done, _) = begin(None);
    done.step(Event::Version("4".to_string()));
    done.step(Event::Changelist(UpdateInfo { download: vec![], delete: vec![], hashes: vec![] }));
    assert_eq!(done.step(Event::Persisted), Action::Finish(Outcome::Updated));
    assert_eq!(done.phase(), Phase::Done);
    assert_eq!(done.step(Event::Removed), Action::Finish(Outcome::Updated));
}

#[test]
fn base_that_cannot_carry_a_path_is_refused_at_the_start() {
    let client = HttpClient::new("mailto:ops@example.com".to_string(), "k".to_string()).unwrap();
    let (sync, action) = Sync::begin(client, None);
    assert_eq!(action, Action::Finish(Outcome::Failed(SyncError::InvalidUrl)));
    assert_eq!(sync.phase(), Phase::Failed);
}
