use shellmaster::services::monitor::{
    build_stream_script, retries_exhausted_message, route_line, route_tagged_line, sampling_schedule,
    MonitorAction, MonitorEvent, MonitorLineBuffer, MonitorSettings, MonitorSignal, StreamRetry,
    STREAM_SCRIPT_TEMPLATE,
};

#[test]
fn default_monitor_settings() {
    let s = MonitorSettings::default();
    assert_eq!(s.load_interval_ms, 2000);
    assert_eq!(s.network_interval_ms, 2000);
    assert_eq!(s.disk_interval_ms, 10000);
    assert_eq!(sampling_schedule(&s), (2, 5));
}

#[test]
fn sampling_schedule_edges() {
    let fast = MonitorSettings { load_interval_ms: 500, network_interval_ms: 500, disk_interval_ms: 300 };
    assert_eq!(sampling_schedule(&fast), (1, 1));
    let zero = MonitorSettings { load_interval_ms: 0, network_interval_ms: 0, disk_interval_ms: 7 };
    assert_eq!(sampling_schedule(&zero), (1, 7));
    let slow = MonitorSettings { load_interval_ms: 5999, network_interval_ms: 0, disk_interval_ms: 60000 };
    assert_eq!(sampling_schedule(&slow), (5, 10));
}

#[test]
fn stream_script_has_the_schedule_filled_in() {
    let script = build_stream_script(2, 5);
    assert!(script.contains("\nINTERVAL=2\n"));
    assert!(script.contains("\nDISK_EVERY=5\n"));
    assert!(!script.contains("__INTERVAL__"));
    assert!(!script.contains("__DISK_EVERY__"));
    assert_eq!(
        script,
        STREAM_SCRIPT_TEMPLATE.replace("__INTERVAL__", "2").replace("__DISK_EVERY__", "5")
    );
}

#[test]
fn retry_policy_backs_off_and_gives_up() {
    let mut r = StreamRetry::new();
    assert_eq!(r.step(MonitorSignal::Check { stop_requested: false, alive: true }), MonitorAction::OpenStream);
    let mut waits = Vec::new();
    for _ in 0..10 {
        match r.step(MonitorSignal::OpenFailed) {
            MonitorAction::Wait(ms) => waits.push(ms),
            other => panic!("unexpected {:?}", other),
        }
        assert_eq!(
            r.step(MonitorSignal::WaitOver { stop_requested: false, alive: true }),
            MonitorAction::OpenStream
        );
    }
    assert_eq!(waits, vec![1000, 2000, 4000, 8000, 16000, 30000, 30000, 30000, 30000, 30000]);
    assert_eq!(r.step(MonitorSignal::OpenFailed), MonitorAction::GiveUp);
    assert_eq!(r.retries(), 11);
    assert_eq!(retries_exhausted_message(), "Monitor stream stopped after 10 retries");
}

#[test]
fn a_stream_with_data_resets_the_backoff() {
    let mut r = StreamRetry::new();
    r.step(MonitorSignal::OpenFailed);
    r.step(MonitorSignal::WaitOver { stop_requested: false, alive: true });
    r.step(MonitorSignal::OpenFailed);
    r.step(MonitorSignal::WaitOver { stop_requested: false, alive: true });
    assert_eq!(r.backoff_ms(), 4000);
    let a = r.step(MonitorSignal::StreamEnded { got_data: true, alive: true, stop_requested: false });
    assert_eq!(a, MonitorAction::Wait(1000));
    assert_eq!(r.retries(), 1);
    let b = r.step(MonitorSignal::StreamEnded { got_data: false, alive: true, stop_requested: false });
    assert_eq!(b, MonitorAction::Wait(1000));
    assert_eq!(r.retries(), 2);
}

#[test]
fn monitoring_ends_on_stop_or_dead_session() {
    let mut r = StreamRetry::new();
    assert_eq!(r.step(MonitorSignal::Check { stop_requested: true, alive: true }), MonitorAction::Finish);
    assert_eq!(r.step(MonitorSignal::Check { stop_requested: false, alive: false }), MonitorAction::Finish);
    assert_eq!(r.step(MonitorSignal::StreamStopped), MonitorAction::Finish);
    assert_eq!(
        r.step(MonitorSignal::StreamEnded { got_data: false, alive: false, stop_requested: false }),
        MonitorAction::Finish
    );
    assert_eq!(r.step(MonitorSignal::WaitOver { stop_requested: true, alive: true }), MonitorAction::Finish);
    assert_eq!(r.retries(), 0);
}

#[test]
fn line_buffer_cuts_trims_and_skips_blank_lines() {
    let mut b = MonitorLineBuffer::new();
    let lines = b.push_text("SYS {\"a\":1}\r\n  \nLOA");
    assert_eq!(lines, vec!["SYS {\"a\":1}".to_string()]);
    assert_eq!(b.pending(), "LOA");
    let lines = b.push_text("D {}\nNET {}\n");
    assert_eq!(lines, vec!["LOAD {}".to_string(), "NET {}".to_string()]);
    assert_eq!(b.pending(), "");
}

#[test]
fn line_buffer_decodes_bytes_lossily() {
    let mut b = MonitorLineBuffer::new();
    let lines = b.push_bytes(&[b'D', b'I', b'S', b'K', 0xff, b'\n']);
    assert_eq!(lines, vec!["DISK\u{fffd}".to_string()]);
}

#[test]
fn line_buffer_keeps_a_split_character_whole() {
    let b = "SYS {\"h\":\"主机\"}\n".as_bytes();
    for cut in 0..=b.len() {
        let mut buf = MonitorLineBuffer::new();
        let mut lines = buf.push_bytes(&b[..cut]);
        lines.extend(buf.push_bytes(&b[cut..]));
        assert_eq!(lines, vec!["SYS {\"h\":\"主机\"}".to_string()], "cut at {}", cut);
    }
}

#[test]
fn line_buffer_drops_an_overlong_line() {
    let mut b = MonitorLineBuffer::new();
    let big = "x".repeat(1_000_001);
    let lines = b.push_text(&big);
    assert!(lines.is_empty());
    assert_eq!(b.pending(), "");
    let exact = "y".repeat(1_000_000);
    b.push_text(&exact);
    assert_eq!(b.pending().len(), 1_000_000);
}

#[test]
fn chunk_boundaries_do_not_matter() {
    let text = "SYS {}\nLOAD {\"x\":[1,2]}\n\nNET {}\nDIS";
    let mut whole = MonitorLineBuffer::new();
    let all = whole.push_text(text);
    let mut parts = MonitorLineBuffer::new();
    let mut got = Vec::new();
    for chunk in ["SY", "S {}\nLO", "AD {\"x\":[1,2]}\n", "\nNET {}\nD", "IS"] {
        got.extend(parts.push_text(chunk));
    }
    assert_eq!(all, got);
    assert_eq!(whole.pending(), parts.pending());
}

#[test]
fn lines_are_routed_by_tag() {
    match route_line("SYS {\"host\":{}}") {
        Some(MonitorEvent::SystemInfo(j)) => assert_eq!(j, "{\"host\":{}}"),
        other => panic!("unexpected {:?}", other),
    }
    assert!(matches!(route_line("LOAD {}"), Some(MonitorEvent::LoadInfo(_))));
    assert!(matches!(route_line("NET []"), Some(MonitorEvent::NetworkInfo(_))));
    assert!(matches!(route_line("DISK {\"disks\":[]}"), Some(MonitorEvent::DiskInfo(_))));
    assert!(route_line("OTHER {}").is_none());
    assert!(route_line("NOTAG").is_none());
    assert!(route_line("LOAD {not json").is_none());
    assert!(route_tagged_line("LOAD whatever", false).is_none());
    match route_tagged_line("DISK x y", true) {
        Some(MonitorEvent::DiskInfo(j)) => assert_eq!(j, "x y"),
        other => panic!("unexpected {:?}", other),
    }
}
