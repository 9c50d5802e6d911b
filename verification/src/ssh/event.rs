//! Connection events, stages and log entries shown while connecting.
use vstd::prelude::*;

verus! {

/// What the user decides about a server key.
#[derive(Clone, Copy, Debug, PartialEq, Eq, Structural)]
pub enum HostKeyAction {
    /// Trust the key and remember it.
    AcceptAndSave,
    /// Trust the key for this connection only.
    AcceptOnce,
    /// Refuse the connection.
    Reject,
}

/// Stages of establishing a connection, in the order they are passed.
#[derive(Clone, Copy, Debug, PartialEq, Eq, PartialOrd, Ord, Hash, Structural)]
pub enum ConnectionStage {
    /// Reading the configuration and preparing the connection.
    Initializing,
    /// Connecting to the proxy, when one is configured.
    ConnectingProxy,
    /// Connecting to the jump host, when one is configured.
    ConnectingJumpHost,
    /// TCP connection to the target host.
    ConnectingHost,
    /// SSH key exchange.
    Handshaking,
    /// Authentication.
    Authenticating,
    /// Opening the secure channel.
    EstablishingChannel,
    /// Starting the session.
    StartingSession,
    /// Connected.
    Connected,
}

/// Position of a stage in the connection sequence.
pub open spec fn stage_rank(s: ConnectionStage) -> int {
    match s {
        ConnectionStage::Initializing => 0,
        ConnectionStage::ConnectingProxy => 1,
        ConnectionStage::ConnectingJumpHost => 2,
        ConnectionStage::ConnectingHost => 3,
        ConnectionStage::Handshaking => 4,
        ConnectionStage::Authenticating => 5,
        ConnectionStage::EstablishingChannel => 6,
        ConnectionStage::StartingSession => 7,
        ConnectionStage::Connected => 8,
    }
}

/// The stage that follows `s` on a direct connection (no proxy, no jump host).
pub open spec fn next_direct_spec(s: ConnectionStage) -> Option<ConnectionStage> {
    match s {
        ConnectionStage::Initializing => Some(ConnectionStage::ConnectingHost),
        ConnectionStage::ConnectingHost => Some(ConnectionStage::Handshaking),
        ConnectionStage::Handshaking => Some(ConnectionStage::Authenticating),
        ConnectionStage::Authenticating => Some(ConnectionStage::EstablishingChannel),
        ConnectionStage::EstablishingChannel => Some(ConnectionStage::StartingSession),
        ConnectionStage::StartingSession => Some(ConnectionStage::Connected),
        ConnectionStage::Connected => None,
        ConnectionStage::ConnectingProxy => Some(ConnectionStage::ConnectingHost),
        ConnectionStage::ConnectingJumpHost => Some(ConnectionStage::ConnectingHost),
    }
}

/// The stages a direct connection passes from `s` on, `s` excluded.
pub open spec fn direct_path(s: ConnectionStage) -> Seq<ConnectionStage>
    decreases 8 - stage_rank(s),
{
    match next_direct_spec(s) {
        Some(t) => if stage_rank(t) > stage_rank(s) {
            seq![t] + direct_path(t)
        } else {
            seq![]
        },
        None => seq![],
    }
}

impl ConnectionStage {
    /// Simplified Chinese name of the stage.
    pub fn label_zh(&self) -> (res: &'static str)
        ensures
            res@ == match *self {
                ConnectionStage::Initializing => "初始化连接"@,
                ConnectionStage::ConnectingProxy => "连接代理服务器"@,
                ConnectionStage::ConnectingJumpHost => "连接跳板机"@,
                ConnectionStage::ConnectingHost => "连接目标主机"@,
                ConnectionStage::Handshaking => "SSH 握手"@,
                ConnectionStage::Authenticating => "验证身份"@,
                ConnectionStage::EstablishingChannel => "建立安全通道"@,
                ConnectionStage::StartingSession => "启动会话"@,
                ConnectionStage::Connected => "连接成功"@,
            },
    {
        match self {
            ConnectionStage::Initializing => "初始化连接",
            ConnectionStage::ConnectingProxy => "连接代理服务器",
            ConnectionStage::ConnectingJumpHost => "连接跳板机",
            ConnectionStage::ConnectingHost => "连接目标主机",
            ConnectionStage::Handshaking => "SSH 握手",
            ConnectionStage::Authenticating => "验证身份",
            ConnectionStage::EstablishingChannel => "建立安全通道",
            ConnectionStage::StartingSession => "启动会话",
            ConnectionStage::Connected => "连接成功",
        }
    }

    /// English name of the stage.
    pub fn label_en(&self) -> (res: &'static str)
        ensures
            res@ == match *self {
                ConnectionStage::Initializing => "Initializing"@,
                ConnectionStage::ConnectingProxy => "Connecting to proxy"@,
                ConnectionStage::ConnectingJumpHost => "Connecting to jump host"@,
                ConnectionStage::ConnectingHost => "Connecting to host"@,
                ConnectionStage::Handshaking => "SSH handshake"@,
                ConnectionStage::Authenticating => "Authenticating"@,
                ConnectionStage::EstablishingChannel => "Establishing channel"@,
                ConnectionStage::StartingSession => "Starting session"@,
                ConnectionStage::Connected => "Connected"@,
            },
    {
        match self {
            ConnectionStage::Initializing => "Initializing",
            ConnectionStage::ConnectingProxy => "Connecting to proxy",
            ConnectionStage::ConnectingJumpHost => "Connecting to jump host",
            ConnectionStage::ConnectingHost => "Connecting to host",
            ConnectionStage::Handshaking => "SSH handshake",
            ConnectionStage::Authenticating => "Authenticating",
            ConnectionStage::EstablishingChannel => "Establishing channel",
            ConnectionStage::StartingSession => "Starting session",
            ConnectionStage::Connected => "Connected",
        }
    }

    /// The next stage of a direct connection; proxy and jump-host stages lead to the host.
    pub fn next_direct(&self) -> (res: Option<ConnectionStage>)
        ensures
            res == next_direct_spec(*self),
    {
        match self {
            ConnectionStage::Initializing => Some(ConnectionStage::ConnectingHost),
            ConnectionStage::ConnectingHost => Some(ConnectionStage::Handshaking),
            ConnectionStage::Handshaking => Some(ConnectionStage::Authenticating),
            ConnectionStage::Authenticating => Some(ConnectionStage::EstablishingChannel),
            ConnectionStage::EstablishingChannel => Some(ConnectionStage::StartingSession),
            ConnectionStage::StartingSession => Some(ConnectionStage::Connected),
            ConnectionStage::Connected => None,
            _ => Some(ConnectionStage::ConnectingHost),
        }
    }
}

/// Every step of a direct connection moves strictly forward, and only `Connected` has no
/// successor.
pub proof fn lemma_next_direct_moves_forward(s: ConnectionStage)
    ensures
        next_direct_spec(s) is None <==> s == ConnectionStage::Connected,
        next_direct_spec(s) matches Some(t) ==> stage_rank(t) > stage_rank(s),
{
}

/// A direct connection from `Initializing` passes exactly host connection, handshake,
/// authentication, channel, session start and `Connected`, in that order.
pub proof fn lemma_direct_connection_path()
    ensures
        direct_path(ConnectionStage::Initializing) == seq![
            ConnectionStage::ConnectingHost,
            ConnectionStage::Handshaking,
            ConnectionStage::Authenticating,
            ConnectionStage::EstablishingChannel,
            ConnectionStage::StartingSession,
            ConnectionStage::Connected,
        ],
{
    reveal_with_fuel(direct_path, 8);
    assert(direct_path(ConnectionStage::Connected) == Seq::<ConnectionStage>::empty());
    assert(direct_path(ConnectionStage::StartingSession) =~= seq![ConnectionStage::Connected]);
    assert(direct_path(ConnectionStage::EstablishingChannel) =~= seq![
        ConnectionStage::StartingSession,
        ConnectionStage::Connected,
    ]);
    assert(direct_path(ConnectionStage::Authenticating) =~= seq![
        ConnectionStage::EstablishingChannel,
        ConnectionStage::StartingSession,
        ConnectionStage::Connected,
    ]);
    assert(direct_path(ConnectionStage::Handshaking) =~= seq![
        ConnectionStage::Authenticating,
        ConnectionStage::EstablishingChannel,
        ConnectionStage::StartingSession,
        ConnectionStage::Connected,
    ]);
    assert(direct_path(ConnectionStage::ConnectingHost) =~= seq![
        ConnectionStage::Handshaking,
        ConnectionStage::Authenticating,
        ConnectionStage::EstablishingChannel,
        ConnectionStage::StartingSession,
        ConnectionStage::Connected,
    ]);
    assert(direct_path(ConnectionStage::Initializing) =~= seq![
        ConnectionStage::ConnectingHost,
        ConnectionStage::Handshaking,
        ConnectionStage::Authenticating,
        ConnectionStage::EstablishingChannel,
        ConnectionStage::StartingSession,
        ConnectionStage::Connected,
    ]);
}

/// Severity of a log entry.
#[derive(Clone, Copy, Debug, PartialEq, Eq, Structural)]
pub enum LogLevel {
    Debug,
    Info,
    Warn,
    Error,
}

impl LogLevel {
    /// Upper-case name of the level.
    pub fn as_str(&self) -> (res: &'static str)
        ensures
            res@ == match *self {
                LogLevel::Debug => "DEBUG"@,
                LogLevel::Info => "INFO"@,
                LogLevel::Warn => "WARN"@,
                LogLevel::Error => "ERROR"@,
            },
    {
        match self {
            LogLevel::Debug => "DEBUG",
            LogLevel::Info => "INFO",
            LogLevel::Warn => "WARN",
            LogLevel::Error => "ERROR",
        }
    }
}

/// A line of the connection log.
#[derive(Clone, Debug)]
pub struct LogEntry {
    /// Local time of day at which the entry was made (`%H:%M:%S`).
    pub timestamp: String,
    pub level: LogLevel,
    pub message: String,
    pub details: Option<String>,
}

impl LogEntry {
    /// A new entry stamped with the current local time.
    pub fn new(level: LogLevel, message: String) -> (res: LogEntry)
        ensures
            res.level == level,
            res.message == message,
            res.details is None,
            crate::clock::time_of_day_shape(res.timestamp@),
    {
        LogEntry { timestamp: crate::clock::local_time_of_day(), level, message, details: None }
    }

    /// A new entry with details, stamped with the current local time.
    pub fn with_details(level: LogLevel, message: String, details: String) -> (res: LogEntry)
        ensures
            res.level == level,
            res.message == message,
            res.details == Some(details),
            crate::clock::time_of_day_shape(res.timestamp@),
    {
        LogEntry {
            timestamp: crate::clock::local_time_of_day(),
            level,
            message,
            details: Some(details),
        }
    }

    /// A new debug entry.
    pub fn debug(message: String) -> (res: LogEntry)
        ensures
            res.level == LogLevel::Debug,
            res.message == message,
            res.details is None,
            crate::clock::time_of_day_shape(res.timestamp@),
    {
        Self::new(LogLevel::Debug, message)
    }

    /// A new info entry.
    pub fn info(message: String) -> (res: LogEntry)
        ensures
            res.level == LogLevel::Info,
            res.message == message,
            res.details is None,
            crate::clock::time_of_day_shape(res.timestamp@),
    {
        Self::new(LogLevel::Info, message)
    }

    /// A new warning entry.
    pub fn warn(message: String) -> (res: LogEntry)
        ensures
            res.level == LogLevel::Warn,
            res.message == message,
            res.details is None,
            crate::clock::time_of_day_shape(res.timestamp@),
    {
        Self::new(LogLevel::Warn, message)
    }

    /// A new error entry.
    pub fn error(message: String) -> (res: LogEntry)
        ensures
            res.level == LogLevel::Error,
            res.message == message,
            res.details is None,
            crate::clock::time_of_day_shape(res.timestamp@),
    {
        Self::new(LogLevel::Error, message)
    }
}

/// What happens while a connection is being established, as reported to the interface.
#[derive(Clone, Debug)]
pub enum ConnectionEvent {
    /// A new stage was entered.
    StageChanged(ConnectionStage),
    /// A log line.
    Log(LogEntry),
    /// The connection succeeded.
    Connected { session_id: String },
    /// The connection failed.
    Failed { error: String },
    /// The connection was closed.
    Disconnected { reason: String },
    /// The server key is unknown; the user must decide.
    HostKeyVerification { host: String, port: u16, key_type: String, fingerprint: String },
    /// The server key differs from the remembered one; the user must decide.
    HostKeyMismatch {
        host: String,
        port: u16,
        expected_fingerprint: String,
        actual_fingerprint: String,
    },
}

} // verus!
