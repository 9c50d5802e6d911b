//! Persisted data: servers, groups, snippets, known hosts and connection settings.
use vstd::prelude::*;

verus! {

/// A copy of an optional string.
pub fn clone_opt(o: &Option<String>) -> (res: Option<String>)
    ensures
        res == *o,
{
    match o {
        Some(s) => Some(s.clone()),
        None => None,
    }
}

/// How a saved server authenticates.
#[derive(Clone, Copy, Debug, PartialEq, Eq, Structural)]
pub enum AuthType {
    Password,
    PublicKey,
}

/// A saved server entry.
#[derive(Debug)]
pub struct ServerData {
    pub id: String,
    pub label: String,
    pub host: String,
    pub port: u16,
    pub username: String,
    pub auth_type: AuthType,
    pub password_encrypted: Option<String>,
    /// Legacy absolute path of the private key.
    pub private_key_path: Option<String>,
    /// File name of the private key inside the application's key directory.
    pub private_key_filename: Option<String>,
    pub key_passphrase_encrypted: Option<String>,
    pub group_id: Option<String>,
    pub description: Option<String>,
    pub last_connected_at: Option<String>,
}

impl Clone for ServerData {
    fn clone(&self) -> (res: Self)
        ensures
            res == *self,
    {
        ServerData {
            id: self.id.clone(),
            label: self.label.clone(),
            host: self.host.clone(),
            port: self.port,
            username: self.username.clone(),
            auth_type: self.auth_type,
            password_encrypted: clone_opt(&self.password_encrypted),
            private_key_path: clone_opt(&self.private_key_path),
            private_key_filename: clone_opt(&self.private_key_filename),
            key_passphrase_encrypted: clone_opt(&self.key_passphrase_encrypted),
            group_id: clone_opt(&self.group_id),
            description: clone_opt(&self.description),
            last_connected_at: clone_opt(&self.last_connected_at),
        }
    }
}

/// A server group.
#[derive(Debug)]
pub struct ServerGroupData {
    pub id: String,
    pub name: String,
    pub icon_path: String,
}

impl Clone for ServerGroupData {
    fn clone(&self) -> (res: Self)
        ensures
            res == *self,
    {
        ServerGroupData { id: self.id.clone(), name: self.name.clone(), icon_path: self.icon_path.clone() }
    }
}

/// Everything stored in the servers file.
#[derive(Debug)]
pub struct ServerConfig {
    pub groups: Vec<ServerGroupData>,
    pub servers: Vec<ServerData>,
}

/// A snippet group; groups nest through `parent_id`.
#[derive(Debug)]
pub struct SnippetGroup {
    pub id: String,
    pub name: String,
    pub parent_id: Option<String>,
}

impl Clone for SnippetGroup {
    fn clone(&self) -> (res: Self)
        ensures
            res == *self,
    {
        SnippetGroup { id: self.id.clone(), name: self.name.clone(), parent_id: clone_opt(&self.parent_id) }
    }
}

/// A saved command; `group_id` is `None` for commands at the top level.
#[derive(Debug)]
pub struct SnippetCommand {
    pub id: String,
    pub name: String,
    pub command: String,
    pub group_id: Option<String>,
}

impl Clone for SnippetCommand {
    fn clone(&self) -> (res: Self)
        ensures
            res == *self,
    {
        SnippetCommand {
            id: self.id.clone(),
            name: self.name.clone(),
            command: self.command.clone(),
            group_id: clone_opt(&self.group_id),
        }
    }
}

/// Everything stored in the snippets file.
#[derive(Debug)]
pub struct SnippetsConfig {
    pub groups: Vec<SnippetGroup>,
    pub commands: Vec<SnippetCommand>,
}

/// A host whose key the user accepted; `host` is `"<host>:<port>"`.
#[derive(Debug)]
pub struct KnownHost {
    pub host: String,
    pub key_type: String,
    pub fingerprint: String,
    pub first_seen: String,
    pub last_used: String,
}

impl Clone for KnownHost {
    fn clone(&self) -> (res: Self)
        ensures
            res == *self,
    {
        KnownHost {
            host: self.host.clone(),
            key_type: self.key_type.clone(),
            fingerprint: self.fingerprint.clone(),
            first_seen: self.first_seen.clone(),
            last_used: self.last_used.clone(),
        }
    }
}

/// Everything stored in the known-hosts file.
#[derive(Debug)]
pub struct KnownHostsConfig {
    pub hosts: Vec<KnownHost>,
}

/// Connection settings chosen by the user.
#[derive(Clone, Copy, Debug)]
pub struct ConnectionSettings {
    pub keepalive_interval_secs: u32,
    pub connection_timeout_secs: u32,
    pub reconnect_attempts: u32,
    pub reconnect_interval_secs: u32,
}

} // verus!
