use shellmaster::services::sftp::{
    child_path, chunk_failure, clamp_channels, create_chunk_tasks, download_failure, entry_name,
    file_kind, home_or_root, is_dot_entry, parent_dir, parents_to_preload, path_hierarchy,
    remote_entry, sftp_init_error, ChunkCursor, ChunkProgress, FileKind, MkdirPlan, PathProbe,
    MIN_CHUNK_SIZE,
};

#[test]
fn child_paths() {
    assert_eq!(child_path("/", "etc"), "/etc");
    assert_eq!(child_path("/home/u", "a.txt"), "/home/u/a.txt");
    assert_eq!(child_path("/home/u//", "a.txt"), "/home/u/a.txt");
    assert!(is_dot_entry("."));
    assert!(is_dot_entry(".."));
    assert!(!is_dot_entry("...") );
    assert_eq!(file_kind(true, true), FileKind::Directory);
    assert_eq!(file_kind(false, true), FileKind::Symlink);
    assert_eq!(file_kind(false, false), FileKind::File);
}

#[test]
fn entry_names_and_parents() {
    assert_eq!(entry_name("/var/log/syslog"), "syslog");
    assert_eq!(entry_name("relative"), "relative");
    assert_eq!(entry_name("/trailing/"), "");
    assert_eq!(parent_dir("/var/log").as_deref(), Some("/var"));
    assert_eq!(parent_dir("/var").as_deref(), Some("/"));
    assert_eq!(parent_dir("var"), None);
}

#[test]
fn listing_entries() {
    assert!(remote_entry("/", "..", true, false, None, None, None, None, None).is_none());
    let e = remote_entry("/home", "f", false, false, Some(10), None, Some(1000), None, Some(5)).unwrap();
    assert_eq!(e.path, "/home/f");
    assert_eq!(e.size, 10);
    assert_eq!(e.permissions, 0);
    assert_eq!(e.uid, Some(1000));
    assert_eq!(e.modified_secs, Some(5));
    assert_eq!(e.kind, FileKind::File);
}

#[test]
fn home_directory_and_init_error() {
    assert_eq!(home_or_root(Some("/home/u".to_string())), "/home/u");
    assert_eq!(home_or_root(None), "/");
    assert_eq!(sftp_init_error("refused"), "SFTP 初始化失败: refused");
}

#[test]
fn path_hierarchies() {
    assert_eq!(path_hierarchy("/home/wuyun"), vec!["/", "/home", "/home/wuyun"]);
    assert_eq!(path_hierarchy("/"), vec!["/"]);
    assert_eq!(path_hierarchy("//a///b/"), vec!["/", "/a", "/a/b"]);
    assert_eq!(path_hierarchy("rel/x"), vec!["/", "/rel", "/rel/x"]);
    assert_eq!(parents_to_preload("/home/wuyun"), vec!["/", "/home"]);
    assert!(parents_to_preload("/").is_empty());
}

#[test]
fn mkdir_walks_up_to_an_existing_directory() {
    let mut plan = MkdirPlan::new("/a/b/c");
    assert_eq!(plan.next_probe().as_deref(), Some("/a/b/c"));
    assert!(plan.on_probe(PathProbe::Missing).is_ok());
    assert_eq!(plan.next_probe().as_deref(), Some("/a/b"));
    assert!(plan.on_probe(PathProbe::Missing).is_ok());
    assert_eq!(plan.next_probe().as_deref(), Some("/a"));
    assert!(plan.on_probe(PathProbe::Directory).is_ok());
    assert!(plan.next_probe().is_none());
    assert_eq!(plan.creation_order(), vec!["/a/b", "/a/b/c"]);
}

#[test]
fn mkdir_stops_at_the_root_and_on_files() {
    let mut plan = MkdirPlan::new("/x");
    plan.on_probe(PathProbe::Missing).unwrap();
    assert!(plan.next_probe().is_none());
    assert_eq!(plan.creation_order(), vec!["/x"]);
    let mut bad = MkdirPlan::new("/file/sub");
    bad.on_probe(PathProbe::Missing).unwrap();
    let err = bad.on_probe(PathProbe::NotDirectory).unwrap_err();
    assert_eq!(err, "Path /file exists but is not a directory");
    let mut rel = MkdirPlan::new("dir");
    rel.on_probe(PathProbe::Missing).unwrap();
    assert!(rel.next_probe().is_none());
    assert!(MkdirPlan::new("/").next_probe().is_none());
}

#[test]
fn channel_count_is_clamped() {
    assert_eq!(clamp_channels(0), 1);
    assert_eq!(clamp_channels(4), 4);
    assert_eq!(clamp_channels(32), 8);
}

#[test]
fn chunks_tile_the_file() {
    let size = 10 * MIN_CHUNK_SIZE + 123;
    let tasks = create_chunk_tasks(size, 4);
    // ceil(size / 4) is over the minimum
    let chunk = (size + 3) / 4;
    assert_eq!(tasks.len(), 4);
    let mut offset = 0;
    for (i, t) in tasks.iter().enumerate() {
        assert_eq!(t.index, i);
        assert_eq!(t.offset, offset);
        offset += t.length;
    }
    assert_eq!(offset, size);
    assert_eq!(tasks[0].length, chunk);
    // small files use one-megabyte chunks
    let small = create_chunk_tasks(MIN_CHUNK_SIZE + 1, 8);
    assert_eq!(small.len(), 2);
    assert_eq!(small[0].length, MIN_CHUNK_SIZE);
    assert_eq!(small[1].length, 1);
    assert!(create_chunk_tasks(0, 3).is_empty());
}

#[test]
fn progress_totals_add_up() {
    let tasks = create_chunk_tasks(3 * MIN_CHUNK_SIZE - 10, 3);
    let mut p = ChunkProgress::new(&tasks);
    assert_eq!(p.len(), 3);
    assert_eq!(p.record(0, 100, 10), (100, 10));
    assert_eq!(p.record(2, 50, 5), (150, 15));
    assert_eq!(p.record(0, 120, 1), (170, 6));
    // a chunk never reports more than its length, so the total stays within the file
    assert_eq!(p.record(2, u64::MAX, 0), (120 + MIN_CHUNK_SIZE - 10, 1));
    let total = p.record(0, u64::MAX, u64::MAX);
    assert_eq!(total, (2 * MIN_CHUNK_SIZE - 10, u64::MAX));
}

#[test]
fn failure_messages() {
    assert_eq!(chunk_failure(2, "eof"), "Chunk 2: eof");
    let errs = vec!["Chunk 0: a".to_string(), "Chunk 3: b".to_string()];
    assert_eq!(download_failure(&errs), "Multi-channel download failed:\nChunk 0: a\nChunk 3: b");
    assert_eq!(download_failure(&[]), "Multi-channel download failed:\n");
}

#[test]
fn chunk_cursor_moves_through_a_chunk() {
    let mut c = ChunkCursor::new(1000, 600_000);
    assert_eq!(c.next_read_len(), 262144);
    assert_eq!(c.position(), 1000);
    c.advance(262144);
    assert_eq!(c.position(), 263144);
    c.advance(262144);
    assert_eq!(c.next_read_len(), 600_000 - 524288);
    c.advance(600_000 - 524288);
    assert_eq!(c.remaining(), 0);
    assert_eq!(c.next_read_len(), 0);
}

#[test]
fn directories_are_not_downloaded_and_walks_go_depth_first() {
    assert_eq!(
        shellmaster::services::sftp::check_download_source(true),
        Err("Cannot download a directory".to_string())
    );
    assert_eq!(shellmaster::services::sftp::check_download_source(false), Ok(()));
    let mut w = shellmaster::services::sftp::DirWalk::new("/r");
    assert_eq!(w.next_dir().as_deref(), Some("/r"));
    let listing = vec![
        remote_entry("/r", "a", true, false, None, None, None, None, None).unwrap(),
        remote_entry("/r", "f", false, false, None, None, None, None, None).unwrap(),
        remote_entry("/r", "b", true, false, None, None, None, None, None).unwrap(),
    ];
    w.add_subdirs(&listing);
    assert_eq!(w.next_dir().as_deref(), Some("/r/b"));
    assert_eq!(w.next_dir().as_deref(), Some("/r/a"));
    assert_eq!(w.next_dir(), None);
}
