//! Connection configuration.
use vstd::prelude::*;
use crate::models::{AuthType, ConnectionSettings, ServerData};
use crate::text::owned;

verus! {

/// How to authenticate.
#[derive(Clone, Debug)]
pub enum AuthMethod {
    /// Password authentication.
    Password(String),
    /// Public-key authentication with the key file at `key_path`.
    PublicKey { key_path: String, passphrase: Option<String> },
    /// Keyboard-interactive authentication (not supported by the client).
    KeyboardInteractive,
}

/// A jump host to connect through.
#[derive(Clone, Debug)]
pub struct JumpHostConfig {
    pub host: String,
    pub port: u16,
    pub username: String,
    pub auth: AuthMethod,
}

/// Kind of proxy.
#[derive(Clone, Copy, Debug, PartialEq, Eq, Structural)]
pub enum ProxyType {
    Http,
    Socks5,
}

impl Default for ProxyType {
    fn default() -> (res: Self)
        ensures
            res == ProxyType::Http,
    {
        ProxyType::Http
    }
}

/// A proxy to connect through; `auth` is `(user, password)`.
#[derive(Clone, Debug)]
pub struct ProxyConfig {
    pub proxy_type: ProxyType,
    pub host: String,
    pub port: u16,
    pub auth: Option<(String, String)>,
}

/// Keep-alive settings.
#[derive(Clone, Copy, Debug, PartialEq, Eq, Structural)]
pub struct KeepaliveConfig {
    pub enabled: bool,
    /// Seconds between keep-alive messages.
    pub interval: u64,
    /// Unanswered keep-alive messages before the connection is given up.
    pub max_retries: u32,
}

impl Default for KeepaliveConfig {
    fn default() -> (res: Self)
        ensures
            res == (KeepaliveConfig { enabled: true, interval: 60, max_retries: 3 }),
    {
        KeepaliveConfig { enabled: true, interval: 60, max_retries: 3 }
    }
}

/// Everything needed to open a connection.
#[derive(Clone, Debug)]
pub struct SshConfig {
    pub host: String,
    pub port: u16,
    pub username: String,
    pub auth: AuthMethod,
    /// Connection timeout in seconds.
    pub connect_timeout: u64,
    pub jump_host: Option<JumpHostConfig>,
    pub proxy: Option<ProxyConfig>,
    pub keepalive: KeepaliveConfig,
}

impl Default for SshConfig {
    fn default() -> (res: Self)
        ensures
            res.host@ == Seq::<char>::empty(),
            res.port == 22,
            res.username@ == Seq::<char>::empty(),
            res.auth matches AuthMethod::Password(p) && p@ == Seq::<char>::empty(),
            res.connect_timeout == 30,
            res.jump_host is None,
            res.proxy is None,
            res.keepalive == (KeepaliveConfig { enabled: true, interval: 60, max_retries: 3 }),
    {
        SshConfig {
            host: String::new(),
            port: 22,
            username: String::new(),
            auth: AuthMethod::Password(String::new()),
            connect_timeout: 30,
            jump_host: None,
            proxy: None,
            keepalive: KeepaliveConfig::default(),
        }
    }
}

/// The transport settings handed to the SSH library.
#[derive(Clone, Copy, Debug, PartialEq, Eq, Structural)]
pub struct TransportSettings {
    /// Seconds of inactivity after which the connection is closed.
    pub inactivity_timeout_secs: u64,
    /// Seconds between keep-alive messages, when keep-alive is on.
    pub keepalive_interval_secs: Option<u64>,
    /// Unanswered keep-alive messages tolerated, when keep-alive is on.
    pub keepalive_max: Option<usize>,
}

impl SshConfig {
    /// The transport settings: the connection timeout doubles as inactivity timeout, and the
    /// keep-alive values apply only when keep-alive is enabled.
    pub fn transport_settings(&self) -> (res: TransportSettings)
        ensures
            res.inactivity_timeout_secs == self.connect_timeout,
            self.keepalive.enabled ==> res.keepalive_interval_secs == Some(self.keepalive.interval)
                && res.keepalive_max == Some(self.keepalive.max_retries as usize),
            !self.keepalive.enabled ==> res.keepalive_interval_secs is None && res.keepalive_max is None,
    {
        if self.keepalive.enabled {
            TransportSettings {
                inactivity_timeout_secs: self.connect_timeout,
                keepalive_interval_secs: Some(self.keepalive.interval),
                keepalive_max: Some(self.keepalive.max_retries as usize),
            }
        } else {
            TransportSettings {
                inactivity_timeout_secs: self.connect_timeout,
                keepalive_interval_secs: None,
                keepalive_max: None,
            }
        }
    }
}

/// The text of an optional string, empty when absent.
pub open spec fn text_or_empty(o: Option<String>) -> Seq<char> {
    match o {
        Some(s) => s@,
        None => Seq::empty(),
    }
}

fn text_or_empty_exec(o: &Option<String>) -> (res: String)
    ensures
        res@ == text_or_empty(*o),
{
    match o {
        Some(s) => s.clone(),
        None => String::new(),
    }
}

/// The authentication a saved server asks for: its stored password, or its key path (empty when
/// missing) with the stored passphrase.
pub open spec fn auth_matches_server(auth: AuthMethod, server: ServerData) -> bool {
    match server.auth_type {
        AuthType::Password => auth matches AuthMethod::Password(p) && p@ == text_or_empty(
            server.password_encrypted,
        ),
        AuthType::PublicKey => auth matches AuthMethod::PublicKey { key_path, passphrase } && key_path@
            == text_or_empty(server.private_key_path) && passphrase == server.key_passphrase_encrypted,
    }
}

fn auth_for_server(server: &ServerData) -> (res: AuthMethod)
    ensures
        auth_matches_server(res, *server),
{
    match server.auth_type {
        AuthType::Password => AuthMethod::Password(text_or_empty_exec(&server.password_encrypted)),
        AuthType::PublicKey => AuthMethod::PublicKey {
            key_path: text_or_empty_exec(&server.private_key_path),
            passphrase: crate::models::clone_opt(&server.key_passphrase_encrypted),
        },
    }
}

/// The configuration for connecting to a saved server: a 30 s timeout, default keep-alive, no
/// proxy and no jump host.
pub fn build_ssh_config(server: &ServerData) -> (res: SshConfig)
    ensures
        res.host == server.host,
        res.port == server.port,
        res.username == server.username,
        auth_matches_server(res.auth, *server),
        res.connect_timeout == 30,
        res.jump_host is None,
        res.proxy is None,
        res.keepalive == (KeepaliveConfig { enabled: true, interval: 60, max_retries: 3 }),
{
    SshConfig {
        host: server.host.clone(),
        port: server.port,
        username: server.username.clone(),
        auth: auth_for_server(server),
        connect_timeout: 30,
        jump_host: None,
        proxy: None,
        keepalive: KeepaliveConfig::default(),
    }
}

/// The configuration for reconnecting to a saved server under the user's connection settings:
/// their timeout, and keep-alive at their interval (off when it is 0) with 3 retries.
pub fn build_reconnect_ssh_config(server: &ServerData, settings: &ConnectionSettings) -> (res: SshConfig)
    ensures
        res.host == server.host,
        res.port == server.port,
        res.username == server.username,
        auth_matches_server(res.auth, *server),
        res.connect_timeout == settings.connection_timeout_secs as u64,
        res.jump_host is None,
        res.proxy is None,
        res.keepalive == (KeepaliveConfig {
            enabled: settings.keepalive_interval_secs > 0,
            interval: settings.keepalive_interval_secs as u64,
            max_retries: 3,
        }),
{
    SshConfig {
        host: server.host.clone(),
        port: server.port,
        username: server.username.clone(),
        auth: auth_for_server(server),
        connect_timeout: settings.connection_timeout_secs as u64,
        jump_host: None,
        proxy: None,
        keepalive: KeepaliveConfig {
            enabled: settings.keepalive_interval_secs > 0,
            interval: settings.keepalive_interval_secs as u64,
            max_retries: 3,
        },
    }
}

} // verus!
