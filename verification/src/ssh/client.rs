//! Establishing an SSH connection: the events it reports on the way, how authentication
//! replies and key files are judged, and how proxy failures are reported.
use vstd::prelude::*;
use crate::ssh::config::SshConfig;
use crate::ssh::error::SshError;
use crate::ssh::event::{ConnectionEvent, ConnectionStage, LogEntry, LogLevel};
use crate::ssh::session::{lossy_utf8, utf8_lossy};
use crate::text::{concat2, concat3, contains, decimal, decimal_string, from_chars, owned, push_str, to_chars};

verus! {

// ---------------------------------------------------------------------------
// Addresses
// ---------------------------------------------------------------------------
/// `host:port`.
pub open spec fn host_port(host: Seq<char>, port: u16) -> Seq<char> {
    host + ":"@ + decimal(port as nat)
}

/// The address `host:port` to resolve and connect to.
pub fn target_address(host: &str, port: u16) -> (res: String)
    ensures
        res@ == host_port(host@, port),
{
    let p = decimal_string(port as u64);
    concat3(host, ":", p.as_str())
}

/// The error when the target address does not resolve.
pub fn resolve_error(reason: &str) -> (res: SshError)
    ensures
        res matches SshError::Config(m) && m@ == "Failed to resolve address: "@ + reason@,
{
    SshError::Config(concat2("Failed to resolve address: ", reason))
}

/// The error when the target address resolves to nothing.
pub fn no_address_error() -> (res: SshError)
    ensures
        res matches SshError::Config(m) && m@ == "No valid address found"@,
{
    SshError::Config(owned("No valid address found"))
}

// ---------------------------------------------------------------------------
// What a connection reports on the way
// ---------------------------------------------------------------------------
/// The points a connection attempt passes.
#[derive(Clone, Copy, Debug, PartialEq, Eq, Structural)]
pub enum ConnectMilestone {
    /// The attempt starts.
    Started,
    /// The target address resolved.
    AddressResolved,
    /// The TCP connection is up.
    TcpConnected,
    /// The SSH handshake finished.
    HandshakeDone,
    /// Authentication succeeded.
    Authenticated,
}

/// What an event reports: a stage, a log line `(level, message)`, or success with a session id.
pub enum ReportView {
    Stage(ConnectionStage),
    Log(LogLevel, Seq<char>),
    Connected(Seq<char>),
    Other,
}

/// What `e` reports.
pub open spec fn report_view(e: ConnectionEvent) -> ReportView {
    match e {
        ConnectionEvent::StageChanged(s) => ReportView::Stage(s),
        ConnectionEvent::Log(l) => ReportView::Log(l.level, l.message@),
        ConnectionEvent::Connected { session_id } => ReportView::Connected(session_id@),
        _ => ReportView::Other,
    }
}

/// What the events of `v` report.
pub open spec fn reports_view(v: Seq<ConnectionEvent>) -> Seq<ReportView> {
    v.map_values(|e: ConnectionEvent| report_view(e))
}

/// The events reported at milestone `m` of a connection to `config`; `address` is the resolved
/// address and `session_id` the new session's id.
pub open spec fn milestone_reports(
    m: ConnectMilestone,
    config: SshConfig,
    address: Seq<char>,
    session_id: Seq<char>,
) -> Seq<ReportView> {
    match m {
        ConnectMilestone::Started => seq![
            ReportView::Stage(ConnectionStage::Initializing),
            ReportView::Log(LogLevel::Info, "Starting SSH connection..."@),
            ReportView::Log(
                LogLevel::Debug,
                "Target: "@ + config.username@ + "@"@ + host_port(config.host@, config.port),
            ),
        ],
        ConnectMilestone::AddressResolved => seq![
            ReportView::Stage(ConnectionStage::ConnectingHost),
            ReportView::Log(LogLevel::Info, "Connecting to "@ + address + "..."@),
        ],
        ConnectMilestone::TcpConnected => seq![
            ReportView::Log(LogLevel::Info, "TCP connection established"@),
            ReportView::Stage(ConnectionStage::Handshaking),
            ReportView::Log(LogLevel::Info, "Starting SSH handshake..."@),
        ],
        ConnectMilestone::HandshakeDone => seq![
            ReportView::Log(LogLevel::Info, "SSH handshake completed"@),
            ReportView::Stage(ConnectionStage::Authenticating),
            ReportView::Log(LogLevel::Info, "Authenticating as '"@ + config.username@ + "'..."@),
        ],
        ConnectMilestone::Authenticated => seq![
            ReportView::Log(LogLevel::Info, "Authentication successful"@),
            ReportView::Stage(ConnectionStage::EstablishingChannel),
            ReportView::Log(LogLevel::Info, "Establishing secure channel..."@),
            ReportView::Stage(ConnectionStage::StartingSession),
            ReportView::Log(LogLevel::Info, "Starting session..."@),
            ReportView::Stage(ConnectionStage::Connected),
            ReportView::Log(LogLevel::Info, "SSH connection established successfully!"@),
            ReportView::Connected(session_id),
        ],
    }
}

fn push_event(v: &mut Vec<ConnectionEvent>, e: ConnectionEvent)
    ensures
        reports_view(final(v)@) == reports_view(old(v)@).push(report_view(e)),
{
    let ghost before = v@;
    v.push(e);
    proof {
        assert(reports_view(v@) =~= reports_view(before).push(report_view(e)));
    }
}

fn info_event(text: &str) -> (res: ConnectionEvent)
    ensures
        report_view(res) == ReportView::Log(LogLevel::Info, text@),
{
    ConnectionEvent::Log(LogEntry::info(owned(text)))
}

/// The events a connection to `config` reports at milestone `m`, in order.
pub fn milestone_events(
    m: ConnectMilestone,
    config: &SshConfig,
    address: &str,
    session_id: &str,
) -> (res: Vec<ConnectionEvent>)
    ensures
        reports_view(res@) == milestone_reports(m, *config, address@, session_id@),
{
    let mut v: Vec<ConnectionEvent> = Vec::new();
    proof {
        assert(reports_view(v@) =~= Seq::<ReportView>::empty());
    }
    match m {
        ConnectMilestone::Started => {
            push_event(&mut v, ConnectionEvent::StageChanged(ConnectionStage::Initializing));
            push_event(&mut v, info_event("Starting SSH connection..."));
            let mut t = to_chars("Target: ");
            push_str(&mut t, config.username.as_str());
            push_str(&mut t, "@");
            push_str(&mut t, target_address(config.host.as_str(), config.port).as_str());
            push_event(&mut v, ConnectionEvent::Log(LogEntry::debug(from_chars(t.as_slice()))));
        },
        ConnectMilestone::AddressResolved => {
            push_event(&mut v, ConnectionEvent::StageChanged(ConnectionStage::ConnectingHost));
            let msg = concat3("Connecting to ", address, "...");
            push_event(&mut v, info_event(msg.as_str()));
        },
        ConnectMilestone::TcpConnected => {
            push_event(&mut v, info_event("TCP connection established"));
            push_event(&mut v, ConnectionEvent::StageChanged(ConnectionStage::Handshaking));
            push_event(&mut v, info_event("Starting SSH handshake..."));
        },
        ConnectMilestone::HandshakeDone => {
            push_event(&mut v, info_event("SSH handshake completed"));
            push_event(&mut v, ConnectionEvent::StageChanged(ConnectionStage::Authenticating));
            let msg = concat3("Authenticating as '", config.username.as_str(), "'...");
            push_event(&mut v, info_event(msg.as_str()));
        },
        ConnectMilestone::Authenticated => {
            push_event(&mut v, info_event("Authentication successful"));
            push_event(&mut v, ConnectionEvent::StageChanged(ConnectionStage::EstablishingChannel));
            push_event(&mut v, info_event("Establishing secure channel..."));
            push_event(&mut v, ConnectionEvent::StageChanged(ConnectionStage::StartingSession));
            push_event(&mut v, info_event("Starting session..."));
            push_event(&mut v, ConnectionEvent::StageChanged(ConnectionStage::Connected));
            push_event(&mut v, info_event("SSH connection established successfully!"));
            push_event(&mut v, ConnectionEvent::Connected { session_id: owned(session_id) });
        },
    }
    proof {
        assert(reports_view(v@) =~= milestone_reports(m, *config, address@, session_id@));
    }
    v
}

/// The stages reported by `reports`, in order.
pub open spec fn stages_of(reports: Seq<ReportView>) -> Seq<ConnectionStage>
    decreases reports.len(),
{
    if reports.len() == 0 {
        Seq::empty()
    } else {
        match reports.last() {
            ReportView::Stage(s) => stages_of(reports.drop_last()).push(s),
            _ => stages_of(reports.drop_last()),
        }
    }
}

/// The milestones of a successful connection, in order.
pub open spec fn all_milestones() -> Seq<ConnectMilestone> {
    seq![
        ConnectMilestone::Started,
        ConnectMilestone::AddressResolved,
        ConnectMilestone::TcpConnected,
        ConnectMilestone::HandshakeDone,
        ConnectMilestone::Authenticated,
    ]
}

/// A successful connection reports the stages of a direct connection, in order: initializing,
/// then every stage up to connected, none skipped or repeated.
pub proof fn lemma_connection_reports_direct_stages(config: SshConfig, address: Seq<char>, session_id: Seq<char>)
    ensures
        stages_of(
            milestone_reports(ConnectMilestone::Started, config, address, session_id)
                + milestone_reports(ConnectMilestone::AddressResolved, config, address, session_id)
                + milestone_reports(ConnectMilestone::TcpConnected, config, address, session_id)
                + milestone_reports(ConnectMilestone::HandshakeDone, config, address, session_id)
                + milestone_reports(ConnectMilestone::Authenticated, config, address, session_id),
        ) == seq![ConnectionStage::Initializing] + crate::ssh::event::direct_path(
            ConnectionStage::Initializing,
        ),
{
    let all = milestone_reports(ConnectMilestone::Started, config, address, session_id)
        + milestone_reports(ConnectMilestone::AddressResolved, config, address, session_id)
        + milestone_reports(ConnectMilestone::TcpConnected, config, address, session_id)
        + milestone_reports(ConnectMilestone::HandshakeDone, config, address, session_id)
        + milestone_reports(ConnectMilestone::Authenticated, config, address, session_id);
    crate::ssh::event::lemma_direct_connection_path();
    reveal_with_fuel(stages_of, 20);
    assert(all.len() == 19);
    assert(stages_of(all) =~= seq![
        ConnectionStage::Initializing,
        ConnectionStage::ConnectingHost,
        ConnectionStage::Handshaking,
        ConnectionStage::Authenticating,
        ConnectionStage::EstablishingChannel,
        ConnectionStage::StartingSession,
        ConnectionStage::Connected,
    ]);
}

// ---------------------------------------------------------------------------
// Authentication
// ---------------------------------------------------------------------------
/// The server's answer to an authentication request.
#[derive(Clone, Copy, Debug, PartialEq, Eq, Structural)]
pub enum AuthReply {
    Success,
    /// Refused; `partial_success`: one method passed but more are required.
    Failure { partial_success: bool },
}

/// The authentication methods the client tries.
#[derive(Clone, Copy, Debug, PartialEq, Eq, Structural)]
pub enum AuthKind {
    Password,
    PublicKey,
}

/// The result of authentication with method `kind`, given the server's reply; `suggested`
/// lists the methods the server suggests after a refusal.
pub fn auth_outcome(kind: AuthKind, reply: AuthReply, suggested: &str) -> (res: Result<(), SshError>)
    ensures
        match reply {
            AuthReply::Success => res is Ok,
            AuthReply::Failure { partial_success } => res matches Err(SshError::Auth(m)) && m@ == if partial_success {
                "Partial authentication - additional auth required"@
            } else if kind == AuthKind::Password {
                "Password authentication failed. Server suggests: "@ + suggested@
            } else {
                "Public key authentication failed. Server suggests: "@ + suggested@
            },
        },
{
    match reply {
        AuthReply::Success => Ok(()),
        AuthReply::Failure { partial_success } => {
            if partial_success {
                Err(SshError::Auth(owned("Partial authentication - additional auth required")))
            } else {
                match kind {
                    AuthKind::Password => Err(
                        SshError::Auth(concat2("Password authentication failed. Server suggests: ", suggested)),
                    ),
                    AuthKind::PublicKey => Err(
                        SshError::Auth(concat2("Public key authentication failed. Server suggests: ", suggested)),
                    ),
                }
            }
        },
    }
}

/// Keyboard-interactive authentication is refused before anything is sent.
pub fn keyboard_interactive_error() -> (res: SshError)
    ensures
        res matches SshError::Auth(m) && m@ == "Keyboard interactive authentication not yet implemented"@,
{
    SshError::Auth(owned("Keyboard interactive authentication not yet implemented"))
}

/// The error when a key file cannot be read.
pub fn key_read_error(reason: &str) -> (res: SshError)
    ensures
        res matches SshError::Key(m) && m@ == "Failed to read key file: "@ + reason@,
{
    SshError::Key(concat2("Failed to read key file: ", reason))
}

#[verifier::external_type_specification]
#[verifier::external_body]
pub struct ExPrivateKey(russh::keys::PrivateKey);

#[verifier::external_type_specification]
#[verifier::external_body]
pub struct ExKeyError(russh::keys::Error);

/// Whether `russh::keys::decode_secret_key` decodes `text` with `passphrase`.
pub uninterp spec fn secret_key_decodes(text: Seq<char>, passphrase: Option<Seq<char>>) -> bool;

/// The texts of an optional string.
pub open spec fn opt_text(o: Option<&str>) -> Option<Seq<char>> {
    match o {
        Some(s) => Some(s@),
        None => None,
    }
}

/// Decodes a private key file's text, deciphering it with `passphrase`
/// (`russh::keys::decode_secret_key`). Stated: whether it succeeds depends on the text and
/// the passphrase alone; the key itself is opaque here.
#[verifier::external_body]
fn decode_secret_key(text: &str, passphrase: Option<&str>) -> (res: Result<
    russh::keys::PrivateKey,
    russh::keys::Error,
>)
    ensures
        res is Ok == secret_key_decodes(text@, opt_text(passphrase)),
{
    russh::keys::decode_secret_key(text, passphrase)
}

/// The message of a key error (its `Display` text); nothing is stated of it.
#[verifier::external_body]
fn key_error_text(e: &russh::keys::Error) -> String {
    e.to_string()
}

/// The error message when a key does not decode for `reason`.
pub open spec fn key_decode_message(with_passphrase: bool, reason: Seq<char>) -> Seq<char> {
    if with_passphrase {
        "Failed to decode key: "@ + reason
    } else {
        "Failed to decode key (no passphrase): "@ + reason
    }
}

/// Decodes the private key in the bytes of a key file (read as UTF-8, invalid sequences
/// replaced), deciphering it with `passphrase` when one is given.
pub fn decode_private_key(key_data: &[u8], passphrase: Option<&str>) -> (res: Result<
    russh::keys::PrivateKey,
    SshError,
>)
    ensures
        res is Ok == secret_key_decodes(utf8_lossy(key_data@), opt_text(passphrase)),
        res matches Err(e) ==> (e matches SshError::Key(m) && exists|reason: Seq<char>|
            m@ == #[trigger] key_decode_message(passphrase is Some, reason)),
{
    let text = lossy_utf8(key_data);
    match decode_secret_key(text.as_str(), passphrase) {
        Ok(k) => Ok(k),
        Err(e) => {
            let reason = key_error_text(&e);
            let m = match passphrase {
                Some(_) => concat2("Failed to decode key: ", reason.as_str()),
                None => concat2("Failed to decode key (no passphrase): ", reason.as_str()),
            };
            assert(m@ == key_decode_message(passphrase is Some, reason@));
            Err(SshError::Key(m))
        },
    }
}

// ---------------------------------------------------------------------------
// Proxies
// ---------------------------------------------------------------------------
/// The error when the proxy address does not resolve.
pub fn proxy_resolve_error(reason: &str) -> (res: SshError)
    ensures
        res matches SshError::Proxy(m) && m@ == "Failed to resolve proxy address: "@ + reason@,
{
    SshError::Proxy(concat2("Failed to resolve proxy address: ", reason))
}

/// The error when the proxy address resolves to nothing.
pub fn no_proxy_address_error() -> (res: SshError)
    ensures
        res matches SshError::Proxy(m) && m@ == "No valid proxy address found"@,
{
    SshError::Proxy(owned("No valid proxy address found"))
}

/// The error when a SOCKS5 proxy does not answer in time.
pub fn socks5_timeout_error() -> (res: SshError)
    ensures
        res matches SshError::Proxy(m) && m@ == "SOCKS5 proxy connection timeout"@,
{
    SshError::Proxy(owned("SOCKS5 proxy connection timeout"))
}

/// The error of a failed SOCKS5 connection with message `reason`: with credentials, a
/// message mentioning authentication means they were refused.
pub fn socks5_failure(with_auth: bool, reason: &str) -> (res: SshError)
    ensures
        res matches SshError::Proxy(m) && m@ == if with_auth && (crate::text::contains_spec(reason@, "authentication"@)
            || crate::text::contains_spec(reason@, "auth"@)) {
            "SOCKS5 proxy authentication failed: "@ + reason@
        } else {
            "SOCKS5 proxy connection failed: "@ + reason@
        },
{
    let r = to_chars(reason);
    let auth_refused = with_auth && (contains(r.as_slice(), to_chars("authentication").as_slice())
        || contains(r.as_slice(), to_chars("auth").as_slice()));
    if auth_refused {
        SshError::Proxy(concat2("SOCKS5 proxy authentication failed: ", reason))
    } else {
        SshError::Proxy(concat2("SOCKS5 proxy connection failed: ", reason))
    }
}

/// The error when the TCP connection to an HTTP proxy does not come up in time.
pub fn http_proxy_timeout_error() -> (res: SshError)
    ensures
        res matches SshError::Proxy(m) && m@ == "HTTP proxy connection timeout"@,
{
    SshError::Proxy(owned("HTTP proxy connection timeout"))
}

/// The error when the TCP connection to an HTTP proxy fails.
pub fn http_proxy_connect_error(reason: &str) -> (res: SshError)
    ensures
        res matches SshError::Proxy(m) && m@ == "Failed to connect to HTTP proxy: "@ + reason@,
{
    SshError::Proxy(concat2("Failed to connect to HTTP proxy: ", reason))
}

/// The error when the HTTP `CONNECT` tunnel does not come up in time.
pub fn http_tunnel_timeout_error() -> (res: SshError)
    ensures
        res matches SshError::Proxy(m) && m@ == "HTTP CONNECT tunnel timeout"@,
{
    SshError::Proxy(owned("HTTP CONNECT tunnel timeout"))
}

/// The error of a failed HTTP `CONNECT` tunnel with message `reason`: with credentials, a
/// `407` answer means they were refused.
pub fn http_tunnel_failure(with_auth: bool, reason: &str) -> (res: SshError)
    ensures
        res matches SshError::Proxy(m) && m@ == if with_auth && (crate::text::contains_spec(reason@, "407"@)
            || crate::text::contains_spec(reason@, "Proxy Authentication Required"@)) {
            "HTTP proxy authentication failed (407)"@
        } else {
            "HTTP CONNECT tunnel failed: "@ + reason@
        },
{
    let r = to_chars(reason);
    let auth_refused = with_auth && (contains(r.as_slice(), to_chars("407").as_slice()) || contains(
        r.as_slice(),
        to_chars("Proxy Authentication Required").as_slice(),
    ));
    if auth_refused {
        SshError::Proxy(owned("HTTP proxy authentication failed (407)"))
    } else {
        SshError::Proxy(concat2("HTTP CONNECT tunnel failed: ", reason))
    }
}

} // verus!
