use shellmaster::ssh::client::{
    auth_outcome, decode_private_key, http_tunnel_failure, keyboard_interactive_error,
    key_read_error, milestone_events, no_address_error, resolve_error, socks5_failure,
    target_address, AuthKind, AuthReply, ConnectMilestone,
};
use shellmaster::ssh::config::SshConfig;
use shellmaster::ssh::error::SshError;
use shellmaster::ssh::event::{ConnectionEvent, ConnectionStage, LogLevel};

fn message(e: &SshError) -> String {
    e.message()
}

#[test]
fn addresses() {
    assert_eq!(target_address("example.com", 22), "example.com:22");
    assert_eq!(message(&resolve_error("no such host")), "Configuration error: Failed to resolve address: no such host");
    assert_eq!(message(&no_address_error()), "Configuration error: No valid address found");
}

#[test]
fn connection_reports_stages_in_order() {
    let mut config = SshConfig::default();
    config.host = "h".to_string();
    config.username = "u".to_string();
    let mut stages = Vec::new();
    let mut logs = Vec::new();
    let mut connected = None;
    for m in [
        ConnectMilestone::Started,
        ConnectMilestone::AddressResolved,
        ConnectMilestone::TcpConnected,
        ConnectMilestone::HandshakeDone,
        ConnectMilestone::Authenticated,
    ] {
        for e in milestone_events(m, &config, "10.0.0.1:22", "sid") {
            match e {
                ConnectionEvent::StageChanged(s) => stages.push(s),
                ConnectionEvent::Log(l) => logs.push((l.level, l.message)),
                ConnectionEvent::Connected { session_id } => connected = Some(session_id),
                _ => panic!("unexpected event"),
            }
        }
    }
    assert_eq!(
        stages,
        vec![
            ConnectionStage::Initializing,
            ConnectionStage::ConnectingHost,
            ConnectionStage::Handshaking,
            ConnectionStage::Authenticating,
            ConnectionStage::EstablishingChannel,
            ConnectionStage::StartingSession,
            ConnectionStage::Connected,
        ]
    );
    assert_eq!(logs[1], (LogLevel::Debug, "Target: u@h:22".to_string()));
    assert_eq!(logs[2], (LogLevel::Info, "Connecting to 10.0.0.1:22...".to_string()));
    assert_eq!(logs[6], (LogLevel::Info, "Authenticating as 'u'...".to_string()));
    assert_eq!(connected.as_deref(), Some("sid"));
}

#[test]
fn authentication_outcomes() {
    assert!(auth_outcome(AuthKind::Password, AuthReply::Success, "").is_ok());
    let partial = auth_outcome(AuthKind::PublicKey, AuthReply::Failure { partial_success: true }, "x").unwrap_err();
    assert_eq!(message(&partial), "Authentication failed: Partial authentication - additional auth required");
    let pw = auth_outcome(AuthKind::Password, AuthReply::Failure { partial_success: false }, "[PUBLICKEY]").unwrap_err();
    assert_eq!(message(&pw), "Authentication failed: Password authentication failed. Server suggests: [PUBLICKEY]");
    let pk = auth_outcome(AuthKind::PublicKey, AuthReply::Failure { partial_success: false }, "[]").unwrap_err();
    assert_eq!(message(&pk), "Authentication failed: Public key authentication failed. Server suggests: []");
    assert_eq!(
        message(&keyboard_interactive_error()),
        "Authentication failed: Keyboard interactive authentication not yet implemented"
    );
}

#[test]
fn private_keys_that_do_not_decode() {
    assert_eq!(message(&key_read_error("denied")), "Key error: Failed to read key file: denied");
    let e = decode_private_key(b"not a key", None).unwrap_err();
    assert!(message(&e).starts_with("Key error: Failed to decode key (no passphrase): "));
    let e = decode_private_key(b"not a key", Some("pw")).unwrap_err();
    assert!(message(&e).starts_with("Key error: Failed to decode key: "));
}

#[test]
fn proxy_failures_are_classified() {
    assert_eq!(
        message(&socks5_failure(true, "authentication failed")),
        "Proxy error: SOCKS5 proxy authentication failed: authentication failed"
    );
    assert_eq!(
        message(&socks5_failure(false, "authentication failed")),
        "Proxy error: SOCKS5 proxy connection failed: authentication failed"
    );
    assert_eq!(message(&socks5_failure(true, "refused")), "Proxy error: SOCKS5 proxy connection failed: refused");
    assert_eq!(message(&http_tunnel_failure(true, "status 407")), "Proxy error: HTTP proxy authentication failed (407)");
    assert_eq!(
        message(&http_tunnel_failure(false, "status 407")),
        "Proxy error: HTTP CONNECT tunnel failed: status 407"
    );
}
