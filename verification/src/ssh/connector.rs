//! How the connecting page follows a connection.
use vstd::prelude::*;
use crate::pages::connecting::{ConnectingProgress, HostKeyVerificationState};
use crate::ssh::event::{ConnectionEvent, ConnectionStage, LogEntry};
use crate::text::owned;

verus! {

/// An update for the connecting page.
#[derive(Debug)]
pub enum UiUpdate {
    Stage(ConnectionStage),
    Log(LogEntry),
    Connected(String),
    Failed(String),
    Disconnected(String),
    HostKeyVerification { host: String, port: u16, key_type: String, fingerprint: String },
    HostKeyMismatch { host: String, port: u16, expected_fingerprint: String, actual_fingerprint: String },
}

/// The page update for a connection event: one update per event, carrying the same data.
pub open spec fn ui_update_spec(e: ConnectionEvent, u: UiUpdate) -> bool {
    match e {
        ConnectionEvent::StageChanged(s) => u == UiUpdate::Stage(s),
        ConnectionEvent::Log(l) => u == UiUpdate::Log(l),
        ConnectionEvent::Connected { session_id } => u == UiUpdate::Connected(session_id),
        ConnectionEvent::Failed { error } => u == UiUpdate::Failed(error),
        ConnectionEvent::Disconnected { reason } => u == UiUpdate::Disconnected(reason),
        ConnectionEvent::HostKeyVerification { host, port, key_type, fingerprint } => u
            == UiUpdate::HostKeyVerification { host, port, key_type, fingerprint },
        ConnectionEvent::HostKeyMismatch { host, port, expected_fingerprint, actual_fingerprint } => u
            == UiUpdate::HostKeyMismatch { host, port, expected_fingerprint, actual_fingerprint },
    }
}

/// Turns a connection event into the page update that carries it.
pub fn ui_update_for(event: ConnectionEvent) -> (res: UiUpdate)
    ensures
        ui_update_spec(event, res),
{
    match event {
        ConnectionEvent::StageChanged(s) => UiUpdate::Stage(s),
        ConnectionEvent::Log(l) => UiUpdate::Log(l),
        ConnectionEvent::Connected { session_id } => UiUpdate::Connected(session_id),
        ConnectionEvent::Failed { error } => UiUpdate::Failed(error),
        ConnectionEvent::Disconnected { reason } => UiUpdate::Disconnected(reason),
        ConnectionEvent::HostKeyVerification { host, port, key_type, fingerprint } => UiUpdate::HostKeyVerification {
            host,
            port,
            key_type,
            fingerprint,
        },
        ConnectionEvent::HostKeyMismatch { host, port, expected_fingerprint, actual_fingerprint } => UiUpdate::HostKeyMismatch {
            host,
            port,
            expected_fingerprint,
            actual_fingerprint,
        },
    }
}

/// What the page does after an update.
#[derive(Debug)]
pub enum ConnectOutcome {
    /// Keep following the connection.
    Continue,
    /// The session is up: record the connection time, play the success animation and open the
    /// session.
    Connected(String),
    /// The connection failed (the error is shown); stop following it.
    Failed,
    /// The connection closed; stop following it.
    Closed,
}

/// Applies a page update to the progress of the connection.
///
/// `answer_tx` holds the channel for the answer to the host-key question until a question is
/// shown; it is then handed to the page. For a changed key the page shows the new fingerprint
/// and no key type.
pub fn apply_ui_update<Tx>(progress: &mut ConnectingProgress<Tx>, update: UiUpdate, answer_tx: &mut Option<Tx>) -> (res: ConnectOutcome)
    ensures
        match update {
            UiUpdate::Stage(s) => res is Continue && final(progress).current_stage == s
                && final(progress).is_completed == (old(progress).is_completed || s == ConnectionStage::Connected)
                && final(progress).logs == old(progress).logs && final(progress).error_message == old(progress).error_message
                && final(progress).host_key_verification == old(progress).host_key_verification
                && final(progress).host_key_tx == old(progress).host_key_tx && *final(answer_tx) == *old(answer_tx),
            UiUpdate::Log(l) => res is Continue && final(progress).logs@ == old(progress).logs@.push(l)
                && final(progress).current_stage == old(progress).current_stage
                && final(progress).error_message == old(progress).error_message
                && final(progress).host_key_verification == old(progress).host_key_verification
                && final(progress).host_key_tx == old(progress).host_key_tx && *final(answer_tx) == *old(answer_tx),
            UiUpdate::HostKeyVerification { host, port, key_type, fingerprint } => res is Continue
                && final(progress).host_key_verification == Some(HostKeyVerificationState {
                    host,
                    port,
                    key_type,
                    fingerprint,
                    is_mismatch: false,
                }) && *final(answer_tx) is None && final(progress).host_key_tx == match *old(answer_tx) {
                    Some(tx) => Some(tx),
                    None => old(progress).host_key_tx,
                } && final(progress).current_stage == old(progress).current_stage
                && final(progress).logs == old(progress).logs,
            UiUpdate::HostKeyMismatch { host, port, expected_fingerprint, actual_fingerprint } => res is Continue
                && (final(progress).host_key_verification matches Some(v) && v.host == host && v.port == port
                    && v.key_type@ == Seq::<char>::empty() && v.fingerprint == actual_fingerprint && v.is_mismatch)
                && *final(answer_tx) is None && final(progress).host_key_tx == match *old(answer_tx) {
                    Some(tx) => Some(tx),
                    None => old(progress).host_key_tx,
                } && final(progress).current_stage == old(progress).current_stage
                && final(progress).logs == old(progress).logs,
            UiUpdate::Connected(id) => res == ConnectOutcome::Connected(id)
                && final(progress).current_stage == old(progress).current_stage
                && final(progress).logs == old(progress).logs
                && final(progress).error_message == old(progress).error_message
                && *final(answer_tx) == *old(answer_tx),
            UiUpdate::Failed(e) => res is Failed && final(progress).error_message == Some(e)
                && final(progress).current_stage == old(progress).current_stage
                && final(progress).logs == old(progress).logs && *final(answer_tx) == *old(answer_tx),
            UiUpdate::Disconnected(_) => res is Closed && final(progress).current_stage == old(progress).current_stage
                && final(progress).logs == old(progress).logs
                && final(progress).error_message == old(progress).error_message
                && *final(answer_tx) == *old(answer_tx),
        },
{
    match update {
        UiUpdate::Stage(s) => {
            progress.set_stage(s);
            ConnectOutcome::Continue
        },
        UiUpdate::Log(l) => {
            progress.add_log(l);
            ConnectOutcome::Continue
        },
        UiUpdate::HostKeyVerification { host, port, key_type, fingerprint } => {
            let tx = answer_tx.take();
            progress.set_host_key_verification(host, port, key_type, fingerprint, false);
            match tx {
                Some(t) => progress.set_host_key_tx(t),
                None => {},
            }
            ConnectOutcome::Continue
        },
        UiUpdate::HostKeyMismatch { host, port, expected_fingerprint: _, actual_fingerprint } => {
            let tx = answer_tx.take();
            progress.set_host_key_verification(host, port, String::new(), actual_fingerprint, true);
            match tx {
                Some(t) => progress.set_host_key_tx(t),
                None => {},
            }
            ConnectOutcome::Continue
        },
        UiUpdate::Connected(id) => ConnectOutcome::Connected(id),
        UiUpdate::Failed(e) => {
            progress.set_error(e);
            ConnectOutcome::Failed
        },
        UiUpdate::Disconnected(_) => ConnectOutcome::Closed,
    }
}

/// The pause before a connection starts, and between a successful connection and opening the
/// session, in milliseconds.
pub const CONNECT_PAUSE_MS: u64 = 300;

/// Something the page does around a connection.
#[derive(Debug)]
pub enum ConnectStep {
    /// Record now as the server's last connection time.
    RecordLastConnected(String),
    /// Pause this many milliseconds.
    Pause(u64),
    /// Mark the tab connected, which opens the session.
    MarkTabConnected(String),
}

/// What the page does before starting the connection: pause briefly.
pub fn steps_before_connect() -> (res: Vec<ConnectStep>)
    ensures
        res@.len() == 1,
        res@[0] matches ConnectStep::Pause(ms) && ms == CONNECT_PAUSE_MS,
{
    let mut v = Vec::new();
    v.push(ConnectStep::Pause(CONNECT_PAUSE_MS));
    v
}

/// What the page does once an update has been applied, for server `server_id` in tab
/// `tab_id`: after a success it records the connection time, pauses, then marks the tab
/// connected; otherwise nothing. Following the connection stops unless the outcome is
/// `Continue`.
pub fn steps_after(outcome: &ConnectOutcome, server_id: &str, tab_id: &str) -> (res: Vec<ConnectStep>)
    ensures
        match outcome {
            ConnectOutcome::Connected(_) => {
                &&& res@.len() == 3
                &&& res@[0] matches ConnectStep::RecordLastConnected(s) && s@ == server_id@
                &&& res@[1] matches ConnectStep::Pause(ms) && ms == CONNECT_PAUSE_MS
                &&& res@[2] matches ConnectStep::MarkTabConnected(t) && t@ == tab_id@
            },
            _ => res@.len() == 0,
        },
{
    let mut v = Vec::new();
    match outcome {
        ConnectOutcome::Connected(_) => {
            v.push(ConnectStep::RecordLastConnected(owned(server_id)));
            v.push(ConnectStep::Pause(CONNECT_PAUSE_MS));
            v.push(ConnectStep::MarkTabConnected(owned(tab_id)));
        },
        _ => {},
    }
    v
}

} // verus!
