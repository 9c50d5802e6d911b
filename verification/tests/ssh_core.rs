use shellmaster::ssh::connector::{steps_after, steps_before_connect, ConnectStep, CONNECT_PAUSE_MS};
use shellmaster::models::{AuthType, ConnectionSettings, KnownHost, ServerData};
use shellmaster::pages::connecting::ConnectingProgress;
use shellmaster::ssh::config::{
    build_reconnect_ssh_config, build_ssh_config, AuthMethod, KeepaliveConfig, ProxyType, SshConfig,
};
use shellmaster::ssh::connector::{apply_ui_update, ui_update_for, ConnectOutcome, UiUpdate};
use shellmaster::ssh::error::SshError;
use shellmaster::ssh::event::{ConnectionEvent, ConnectionStage, HostKeyAction, LogEntry, LogLevel};
use shellmaster::ssh::handler::{check_host_key, host_key_verdict, HostKeyCheck};
use shellmaster::ssh::manager::SessionRegistry;
use shellmaster::ssh::reconnect::{ReconnectAction, ReconnectPhase, Reconnector};
use shellmaster::ssh::session::{
    require_alive, sftp_read_result, terminal_read_result, ChannelMessage, CommandOutput,
    ExecCollector, PtyRequest,
};

fn saved_server() -> ServerData {
    ServerData {
        id: "s".to_string(),
        label: "S".to_string(),
        host: "h.example".to_string(),
        port: 2200,
        username: "me".to_string(),
        auth_type: AuthType::Password,
        password_encrypted: Some("pw".to_string()),
        private_key_path: None,
        private_key_filename: None,
        key_passphrase_encrypted: None,
        group_id: None,
        description: None,
        last_connected_at: None,
    }
}

#[test]
fn stage_labels_and_order() {
    assert_eq!(ConnectionStage::Initializing.label_en(), "Initializing");
    assert_eq!(ConnectionStage::Connected.next_direct(), None);
    assert_eq!(ConnectionStage::Initializing.next_direct(), Some(ConnectionStage::ConnectingHost));
    assert_eq!(ConnectionStage::ConnectingProxy.next_direct(), Some(ConnectionStage::ConnectingHost));
    let mut s = ConnectionStage::Initializing;
    let mut path = vec![s];
    while let Some(n) = s.next_direct() {
        path.push(n);
        s = n;
    }
    assert_eq!(path.len(), 7);
    assert_eq!(path[6], ConnectionStage::Connected);
    assert!(!ConnectionStage::Handshaking.label_zh().is_empty());
}

#[test]
fn log_levels_and_entries() {
    assert_eq!(LogLevel::Debug.as_str(), "DEBUG");
    assert_eq!(LogLevel::Info.as_str(), "INFO");
    assert_eq!(LogLevel::Warn.as_str(), "WARN");
    assert_eq!(LogLevel::Error.as_str(), "ERROR");
    let e = LogEntry::with_details(LogLevel::Warn, "m".to_string(), "d".to_string());
    assert_eq!(e.level, LogLevel::Warn);
    assert_eq!(e.details.as_deref(), Some("d"));
    assert_eq!(LogEntry::error("x".to_string()).level, LogLevel::Error);
    // %H:%M:%S
    assert_eq!(LogEntry::info("x".to_string()).timestamp.len(), 8);
}

#[test]
fn error_messages_of_each_kind() {
    assert_eq!(SshError::Timeout(30).message(), "Connection timeout after 30s");
    assert_eq!(SshError::Cancelled.message(), "Connection cancelled");
    assert_eq!(SshError::Io("reset".to_string()).message(), "IO error: reset");
    assert_eq!(SshError::JumpHost("x".to_string()).message(), "Jump host error: x");
    assert_eq!(SshError::Channel("x".to_string()).message(), "Channel error: x");
    assert_eq!(SshError::Disconnected("x".to_string()).message(), "Session disconnected: x");
    assert_eq!(SshError::Protocol("x".to_string()).message(), "SSH protocol error: x");
}

#[test]
fn configurations() {
    let d = SshConfig::default();
    assert_eq!(d.port, 22);
    assert_eq!(d.connect_timeout, 30);
    assert_eq!(d.keepalive, KeepaliveConfig { enabled: true, interval: 60, max_retries: 3 });
    assert_eq!(ProxyType::default(), ProxyType::Http);
    let c = build_ssh_config(&saved_server());
    assert_eq!(c.host, "h.example");
    assert_eq!(c.port, 2200);
    assert!(matches!(c.auth, AuthMethod::Password(ref p) if p == "pw"));
    let settings = ConnectionSettings {
        keepalive_interval_secs: 15,
        connection_timeout_secs: 10,
        reconnect_attempts: 3,
        reconnect_interval_secs: 5,
    };
    let r = build_reconnect_ssh_config(&saved_server(), &settings);
    assert_eq!(r.connect_timeout, 10);
    assert_eq!(r.keepalive.interval, 15);
    let t = r.transport_settings();
    assert_eq!(t.inactivity_timeout_secs, 10);
    assert_eq!(t.keepalive_interval_secs, Some(15));
}

#[test]
fn host_keys_are_checked_against_known_hosts() {
    let known = KnownHost {
        host: "h:22".to_string(),
        key_type: "ssh-ed25519".to_string(),
        fingerprint: "SHA256:a".to_string(),
        first_seen: String::new(),
        last_used: String::new(),
    };
    let h = "h".to_string();
    let kt = "ssh-ed25519".to_string();
    let same = check_host_key(Ok(Some(known.clone())), &h, 22, &kt, &"SHA256:a".to_string());
    assert!(matches!(same, HostKeyCheck::Trusted));
    match check_host_key(Ok(Some(known)), &h, 22, &kt, &"SHA256:b".to_string()) {
        HostKeyCheck::Ask(ConnectionEvent::HostKeyMismatch { expected_fingerprint, actual_fingerprint, .. }) => {
            assert_eq!(expected_fingerprint, "SHA256:a");
            assert_eq!(actual_fingerprint, "SHA256:b");
        }
        _ => panic!("expected a mismatch"),
    }
    assert!(matches!(
        check_host_key(Ok(None), &h, 22, &kt, &"f".to_string()),
        HostKeyCheck::Ask(ConnectionEvent::HostKeyVerification { .. })
    ));
    assert!(matches!(
        check_host_key(Err(()), &h, 22, &kt, &"f".to_string()),
        HostKeyCheck::Ask(ConnectionEvent::HostKeyVerification { .. })
    ));
    let v = host_key_verdict(Some(HostKeyAction::AcceptAndSave));
    assert!(v.accept && v.save);
    let v = host_key_verdict(Some(HostKeyAction::AcceptOnce));
    assert!(v.accept && !v.save);
    let v = host_key_verdict(None);
    assert!(!v.accept && !v.save);
    assert!(!host_key_verdict(Some(HostKeyAction::Reject)).accept);
}

#[test]
fn reconnection_retries_then_gives_up() {
    let (mut r, first) = Reconnector::start(2, 5);
    assert_eq!(first, ReconnectAction::StartAttempt { attempt: 1, max_attempts: 2 });
    let acts = r.on_event(Some(ConnectionEvent::Failed { error: "refused".to_string() }));
    assert_eq!(acts, vec![ReconnectAction::Wait { secs: 5 }]);
    assert_eq!(r.last_error, "refused");
    let acts = r.on_wait_elapsed();
    assert_eq!(acts, vec![ReconnectAction::StartAttempt { attempt: 2, max_attempts: 2 }]);
    let acts = r.on_event(Some(ConnectionEvent::HostKeyVerification {
        host: "h".to_string(),
        port: 22,
        key_type: "t".to_string(),
        fingerprint: "f".to_string(),
    }));
    assert_eq!(acts, vec![ReconnectAction::AnswerHostKey(HostKeyAction::Reject)]);
    let acts = r.on_event(None);
    assert_eq!(acts, vec![ReconnectAction::GiveUp]);
    assert_eq!(r.core.phase, ReconnectPhase::Finished);
    assert!(!r.core.reconnected);
    let (_, none) = Reconnector::start(0, 5);
    assert_eq!(none, ReconnectAction::GiveUp);
}

#[test]
fn reconnection_succeeds() {
    let (mut r, _) = Reconnector::start(3, 1);
    let acts = r.on_event(Some(ConnectionEvent::Connected { session_id: "x".to_string() }));
    assert_eq!(acts, vec![ReconnectAction::Reconnected]);
    assert!(r.core.reconnected);
    assert!(r.on_event(Some(ConnectionEvent::Failed { error: "late".to_string() })).is_empty());
}

#[test]
fn a_changed_key_is_refused_during_reconnection() {
    let (mut r, _) = Reconnector::start(1, 1);
    let acts = r.on_event(Some(ConnectionEvent::HostKeyMismatch {
        host: "h".to_string(),
        port: 22,
        expected_fingerprint: "a".to_string(),
        actual_fingerprint: "b".to_string(),
    }));
    assert_eq!(acts, vec![ReconnectAction::AnswerHostKey(HostKeyAction::Reject), ReconnectAction::GiveUp]);
    assert_eq!(r.last_error, "Host key mismatch - possible security risk");
}

#[test]
fn registry_reads_back_what_was_registered() {
    let mut reg: SessionRegistry<u32> = SessionRegistry::new();
    reg.register("a".to_string(), 1);
    reg.register("b".to_string(), 2);
    reg.register("a".to_string(), 3);
    assert_eq!(reg.get("a"), Some(&3));
    assert_eq!(reg.get("b"), Some(&2));
    assert_eq!(reg.remove("a"), Some(3));
    assert_eq!(reg.get("a"), None);
    assert_eq!(reg.remove("a"), None);
}

#[test]
fn channel_messages() {
    assert_eq!(terminal_read_result(Some(ChannelMessage::Data(vec![1, 2]))), Some(vec![1, 2]));
    assert_eq!(terminal_read_result(Some(ChannelMessage::ExtendedData { data: vec![3], ext: 1 })), Some(vec![3]));
    assert_eq!(terminal_read_result(Some(ChannelMessage::ExitStatus(0))), Some(vec![]));
    assert_eq!(terminal_read_result(Some(ChannelMessage::Eof)), None);
    assert_eq!(terminal_read_result(None), None);
    assert_eq!(sftp_read_result(Some(ChannelMessage::ExtendedData { data: vec![3], ext: 1 })), Some(vec![]));
    assert_eq!(sftp_read_result(Some(ChannelMessage::Close)), None);
    assert!(require_alive(true).is_ok());
    assert!(matches!(require_alive(false), Err(SshError::Disconnected(_))));
    let pty = PtyRequest::default();
    assert_eq!(pty.term, "xterm-256color");
    assert_eq!((pty.col_width, pty.row_height), (80, 24));
}

#[test]
fn command_output_is_collected() {
    let mut c = ExecCollector::new();
    assert!(c.receive(Some(ChannelMessage::Data(b"out".to_vec()))));
    assert!(c.receive(Some(ChannelMessage::ExtendedData { data: b"err".to_vec(), ext: 1 })));
    assert!(c.receive(Some(ChannelMessage::ExtendedData { data: b"x".to_vec(), ext: 2 })));
    assert!(c.receive(Some(ChannelMessage::ExitStatus(3))));
    assert!(!c.receive(Some(ChannelMessage::Close)));
    let out: CommandOutput = c.finish();
    assert_eq!(out.stdout_string(), "out");
    assert_eq!(out.stderr_string(), "err");
    assert_eq!(out.exit_code, 3);
    assert!(!out.is_success());
}

#[test]
fn exit_status_after_end_of_file_is_kept() {
    let mut c = ExecCollector::new();
    assert!(c.receive(Some(ChannelMessage::Data(b"out".to_vec()))));
    assert!(c.receive(Some(ChannelMessage::Eof)));
    assert!(c.receive(Some(ChannelMessage::ExitStatus(1))));
    assert!(!c.receive(Some(ChannelMessage::Close)));
    let out = c.finish();
    assert_eq!(out.stdout, b"out".to_vec());
    assert!(out.stderr.is_empty());
    assert_eq!(out.exit_code, 1);
    assert!(!out.is_success());
}

#[test]
fn connecting_page_follows_events() {
    let mut p: ConnectingProgress<u8> = ConnectingProgress::new("t".to_string());
    let mut tx = Some(7u8);
    let u = ui_update_for(ConnectionEvent::StageChanged(ConnectionStage::Handshaking));
    assert!(matches!(apply_ui_update(&mut p, u, &mut tx), ConnectOutcome::Continue));
    assert_eq!(p.current_stage, ConnectionStage::Handshaking);
    let u = ui_update_for(ConnectionEvent::HostKeyVerification {
        host: "h".to_string(),
        port: 22,
        key_type: "t".to_string(),
        fingerprint: "f".to_string(),
    });
    apply_ui_update(&mut p, u, &mut tx);
    assert!(tx.is_none());
    assert_eq!(p.take_host_key_tx(), Some(7));
    assert!(!p.host_key_verification.as_ref().unwrap().is_mismatch);
    let u = ui_update_for(ConnectionEvent::Failed { error: "nope".to_string() });
    assert!(matches!(apply_ui_update(&mut p, u, &mut tx), ConnectOutcome::Failed));
    assert_eq!(p.error_message.as_deref(), Some("nope"));
    assert!(matches!(
        apply_ui_update(&mut p, UiUpdate::Connected("sid".to_string()), &mut tx),
        ConnectOutcome::Connected(ref s) if s == "sid"
    ));
    p.set_stage(ConnectionStage::Connected);
    assert!(p.is_completed);
}

#[test]
fn a_successful_connection_records_pauses_and_opens_the_session() {
    assert!(matches!(steps_before_connect().as_slice(), [ConnectStep::Pause(300)]));
    assert_eq!(CONNECT_PAUSE_MS, 300);
    let steps = steps_after(&ConnectOutcome::Connected("s".to_string()), "srv", "tab");
    assert!(matches!(
        steps.as_slice(),
        [ConnectStep::RecordLastConnected(a), ConnectStep::Pause(300), ConnectStep::MarkTabConnected(b)]
            if a == "srv" && b == "tab"
    ));
    assert!(steps_after(&ConnectOutcome::Failed, "srv", "tab").is_empty());
    assert!(steps_after(&ConnectOutcome::Continue, "srv", "tab").is_empty());
}
