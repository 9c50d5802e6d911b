//! Errors of the SSH layer.
use vstd::prelude::*;
use crate::text::{concat2, concat3, decimal, decimal_string, owned};

verus! {

/// An SSH error.
#[derive(Clone, Debug)]
pub enum SshError {
    /// Invalid configuration (such as an address that does not resolve).
    Config(String),
    /// Network I/O failed; the text is the I/O error's message.
    Io(String),
    /// Authentication failed.
    Auth(String),
    /// The SSH protocol failed.
    Protocol(String),
    /// A key could not be read or decoded.
    Key(String),
    /// The proxy failed.
    Proxy(String),
    /// The jump host failed.
    JumpHost(String),
    /// The connection timed out after the given seconds.
    Timeout(u64),
    /// A channel operation failed.
    Channel(String),
    /// The session is no longer connected.
    Disconnected(String),
    /// The connection was cancelled.
    Cancelled,
}

/// The message shown for an error.
pub open spec fn ssh_error_message(e: SshError) -> Seq<char> {
    match e {
        SshError::Config(s) => "Configuration error: "@ + s@,
        SshError::Io(s) => "IO error: "@ + s@,
        SshError::Auth(s) => "Authentication failed: "@ + s@,
        SshError::Protocol(s) => "SSH protocol error: "@ + s@,
        SshError::Key(s) => "Key error: "@ + s@,
        SshError::Proxy(s) => "Proxy error: "@ + s@,
        SshError::JumpHost(s) => "Jump host error: "@ + s@,
        SshError::Timeout(n) => "Connection timeout after "@ + decimal(n as nat) + "s"@,
        SshError::Channel(s) => "Channel error: "@ + s@,
        SshError::Disconnected(s) => "Session disconnected: "@ + s@,
        SshError::Cancelled => "Connection cancelled"@,
    }
}

impl SshError {
    /// The message shown for the error.
    pub fn message(&self) -> (res: String)
        ensures
            res@ == ssh_error_message(*self),
    {
        match self {
            SshError::Config(s) => concat2("Configuration error: ", s.as_str()),
            SshError::Io(s) => concat2("IO error: ", s.as_str()),
            SshError::Auth(s) => concat2("Authentication failed: ", s.as_str()),
            SshError::Protocol(s) => concat2("SSH protocol error: ", s.as_str()),
            SshError::Key(s) => concat2("Key error: ", s.as_str()),
            SshError::Proxy(s) => concat2("Proxy error: ", s.as_str()),
            SshError::JumpHost(s) => concat2("Jump host error: ", s.as_str()),
            SshError::Timeout(n) => {
                let d = decimal_string(*n);
                concat3("Connection timeout after ", d.as_str(), "s")
            },
            SshError::Channel(s) => concat2("Channel error: ", s.as_str()),
            SshError::Disconnected(s) => concat2("Session disconnected: ", s.as_str()),
            SshError::Cancelled => owned("Connection cancelled"),
        }
    }
}

} // verus!
