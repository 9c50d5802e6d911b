//! SSH connection logic: configuration, events, errors, sessions and the connection flows.
pub mod client;
pub mod config;
pub mod connector;
pub mod error;
pub mod event;
pub mod handler;
pub mod manager;
pub mod reconnect;
pub mod session;
