use std::collections::hash_map::DefaultHasher;
use std::hash::{Hash, Hasher};

use shellmaster::services::editor::{
    editor_launch, is_session_temp_file, join_path, temp_file_name, temp_file_path, EditorLaunch,
    FileWatchEvent, WatchTable, WatchedFile,
};

fn watched(path: &str, session: &str, t: u128) -> WatchedFile {
    WatchedFile {
        local_path: path.to_string(),
        remote_path: format!("/remote{}", path),
        session_id: session.to_string(),
        last_modified: t,
    }
}

fn hash_of(s: &str) -> u64 {
    let mut h = DefaultHasher::new();
    s.hash(&mut h);
    h.finish()
}

#[test]
fn temp_file_names() {
    assert_eq!(temp_file_name("s1", 42, Some("a.txt".to_string())), "s1_42_a.txt");
    assert_eq!(temp_file_name("s1", 7, None), "s1_7_unknown");
    assert_eq!(join_path("/tmp/edit", "x"), "/tmp/edit/x");
    assert_eq!(join_path("/tmp/edit/", "x"), "/tmp/edit/x");
    assert_eq!(join_path("/tmp", "/abs"), "/abs");
}

#[test]
fn temp_file_path_uses_hash_and_file_name() {
    let p = temp_file_path("/tmp/shellmaster/edit", "sess", "/etc/nginx/nginx.conf");
    let expected = format!("/tmp/shellmaster/edit/sess_{}_nginx.conf", hash_of("/etc/nginx/nginx.conf"));
    assert_eq!(p, expected);
    let root = temp_file_path("/t", "s", "/");
    assert_eq!(root, format!("/t/s_{}_unknown", hash_of("/")));
    let up = temp_file_path("/t", "s", "/srv/app/..");
    assert_eq!(up, format!("/t/s_{}_unknown", hash_of("/srv/app/..")));
    let bare = temp_file_path("/t", "s", "main.rs");
    assert_eq!(bare, format!("/t/s_{}_main.rs", hash_of("main.rs")));
}

#[test]
fn session_temp_files_are_recognized() {
    assert!(is_session_temp_file("sess_1_a", "sess"));
    assert!(!is_session_temp_file("other_1_a", "sess"));
}

#[test]
fn editor_launch_choices() {
    assert!(matches!(editor_launch(None, false), EditorLaunch::SystemDefault));
    assert!(matches!(editor_launch(Some(""), true), EditorLaunch::SystemDefault));
    assert!(matches!(editor_launch(Some("/usr/bin/vim"), true), EditorLaunch::Program(ref p) if p == "/usr/bin/vim"));
    assert!(matches!(editor_launch(Some("/Applications/Zed.app"), true), EditorLaunch::AppBundle(_)));
    assert!(matches!(editor_launch(Some("/Applications/Zed.app"), false), EditorLaunch::Program(_)));
}

#[test]
fn watch_table_reports_newer_changes_once() {
    let mut t = WatchTable::new();
    assert!(t.is_empty());
    t.watch(watched("/tmp/a", "s1", 10));
    assert!(t.on_modified("/tmp/a", 10).is_none());
    match t.on_modified("/tmp/a", 11) {
        Some(FileWatchEvent::Modified { session_id, local_path, remote_path }) => {
            assert_eq!(session_id, "s1");
            assert_eq!(local_path, "/tmp/a");
            assert_eq!(remote_path, "/remote/tmp/a");
        }
        None => panic!("expected an event"),
    }
    // the same change is not reported twice
    assert!(t.on_modified("/tmp/a", 11).is_none());
    assert!(t.on_modified("/tmp/unknown", 99).is_none());
    t.update_last_modified("/tmp/a", 20);
    assert!(t.on_modified("/tmp/a", 15).is_none());
}

#[test]
fn watching_a_path_again_replaces_the_entry() {
    let mut t = WatchTable::new();
    t.watch(watched("/tmp/a", "s1", 1));
    t.watch(watched("/tmp/a", "s2", 5));
    assert_eq!(t.files().len(), 1);
    assert_eq!(t.files()[0].session_id, "s2");
    t.unwatch("/tmp/a");
    assert!(t.is_empty());
    t.unwatch("/tmp/a");
    assert!(t.is_empty());
}

#[test]
fn unwatching_a_session_returns_its_paths() {
    let mut t = WatchTable::new();
    t.watch(watched("/tmp/a", "s1", 1));
    t.watch(watched("/tmp/b", "s2", 1));
    t.watch(watched("/tmp/c", "s1", 1));
    let removed = t.unwatch_session("s1");
    assert_eq!(removed, vec!["/tmp/a".to_string(), "/tmp/c".to_string()]);
    assert_eq!(t.files().len(), 1);
    assert_eq!(t.files()[0].local_path, "/tmp/b");
    assert!(t.unwatch_session("s1").is_empty());
}
