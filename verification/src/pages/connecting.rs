//! State of the page shown while a connection is being established.
use vstd::prelude::*;
use crate::ssh::event::{ConnectionStage, LogEntry, LogLevel, stage_rank};

verus! {

/// The host-key question shown to the user.
#[derive(Clone, Debug)]
pub struct HostKeyVerificationState {
    pub host: String,
    pub port: u16,
    pub key_type: String,
    pub fingerprint: String,
    /// The key differs from the remembered one.
    pub is_mismatch: bool,
}

/// Progress of a connection; `Tx` carries the user's answer to the host-key question.
pub struct ConnectingProgress<Tx> {
    pub current_stage: ConnectionStage,
    pub logs: Vec<LogEntry>,
    pub error_message: Option<String>,
    pub is_completed: bool,
    pub connection_started: bool,
    pub host_key_verification: Option<HostKeyVerificationState>,
    /// The channel for the user's answer to the host-key question, while one is held.
    pub host_key_tx: Option<Tx>,
}

impl<Tx> ConnectingProgress<Tx> {
    /// The progress of a connection that has not started.
    pub fn new(_tab_id: String) -> (res: Self)
        ensures
            res.current_stage == ConnectionStage::Initializing,
            res.logs@.len() == 0,
            res.error_message is None,
            !res.is_completed,
            !res.connection_started,
            res.host_key_verification is None,
            res.host_key_tx is None,
    {
        ConnectingProgress {
            current_stage: ConnectionStage::Initializing,
            logs: Vec::new(),
            error_message: None,
            is_completed: false,
            connection_started: false,
            host_key_verification: None,
            host_key_tx: None,
        }
    }

    /// Enters `stage`; reaching `Connected` completes the progress.
    pub fn set_stage(&mut self, stage: ConnectionStage)
        ensures
            final(self).current_stage == stage,
            final(self).is_completed == (old(self).is_completed || stage == ConnectionStage::Connected),
            final(self).logs == old(self).logs,
            final(self).error_message == old(self).error_message,
            final(self).connection_started == old(self).connection_started,
            final(self).host_key_verification == old(self).host_key_verification,
            final(self).host_key_tx == old(self).host_key_tx,
    {
        self.current_stage = stage;
        if stage == ConnectionStage::Connected {
            self.is_completed = true;
        }
    }

    /// Appends a log entry.
    pub fn add_log(&mut self, log: LogEntry)
        ensures
            final(self).logs@ == old(self).logs@.push(log),
            final(self).current_stage == old(self).current_stage,
            final(self).is_completed == old(self).is_completed,
            final(self).error_message == old(self).error_message,
            final(self).connection_started == old(self).connection_started,
            final(self).host_key_verification == old(self).host_key_verification,
            final(self).host_key_tx == old(self).host_key_tx,
    {
        self.logs.push(log);
    }

    /// Records the error that ended the connection.
    pub fn set_error(&mut self, error: String)
        ensures
            final(self).error_message == Some(error),
            final(self).current_stage == old(self).current_stage,
            final(self).logs == old(self).logs,
            final(self).is_completed == old(self).is_completed,
            final(self).connection_started == old(self).connection_started,
            final(self).host_key_verification == old(self).host_key_verification,
            final(self).host_key_tx == old(self).host_key_tx,
    {
        self.error_message = Some(error);
    }

    /// Records that the connection was started.
    pub fn mark_started(&mut self)
        ensures
            final(self).connection_started,
            final(self).current_stage == old(self).current_stage,
            final(self).logs == old(self).logs,
            final(self).error_message == old(self).error_message,
            final(self).is_completed == old(self).is_completed,
            final(self).host_key_verification == old(self).host_key_verification,
            final(self).host_key_tx == old(self).host_key_tx,
    {
        self.connection_started = true;
    }

    /// Shows the host-key question.
    pub fn set_host_key_verification(
        &mut self,
        host: String,
        port: u16,
        key_type: String,
        fingerprint: String,
        is_mismatch: bool,
    )
        ensures
            final(self).host_key_verification == Some(
                HostKeyVerificationState { host, port, key_type, fingerprint, is_mismatch },
            ),
            final(self).current_stage == old(self).current_stage,
            final(self).logs == old(self).logs,
            final(self).error_message == old(self).error_message,
            final(self).is_completed == old(self).is_completed,
            final(self).connection_started == old(self).connection_started,
            final(self).host_key_tx == old(self).host_key_tx,
    {
        self.host_key_verification = Some(
            HostKeyVerificationState { host, port, key_type, fingerprint, is_mismatch },
        );
    }

    /// Hides the host-key question.
    pub fn clear_host_key_verification(&mut self)
        ensures
            final(self).host_key_verification is None,
            final(self).current_stage == old(self).current_stage,
            final(self).logs == old(self).logs,
            final(self).error_message == old(self).error_message,
            final(self).is_completed == old(self).is_completed,
            final(self).connection_started == old(self).connection_started,
            final(self).host_key_tx == old(self).host_key_tx,
    {
        self.host_key_verification = None;
    }

    /// Holds the channel for the user's answer.
    pub fn set_host_key_tx(&mut self, tx: Tx)
        ensures
            final(self).host_key_tx == Some(tx),
            final(self).current_stage == old(self).current_stage,
            final(self).logs == old(self).logs,
            final(self).error_message == old(self).error_message,
            final(self).is_completed == old(self).is_completed,
            final(self).connection_started == old(self).connection_started,
            final(self).host_key_verification == old(self).host_key_verification,
    {
        self.host_key_tx = Some(tx);
    }

    /// Hands out the channel for the user's answer; it is held no longer.
    pub fn take_host_key_tx(&mut self) -> (res: Option<Tx>)
        ensures
            res == old(self).host_key_tx,
            final(self).host_key_tx is None,
            final(self).current_stage == old(self).current_stage,
            final(self).logs == old(self).logs,
            final(self).error_message == old(self).error_message,
            final(self).is_completed == old(self).is_completed,
            final(self).connection_started == old(self).connection_started,
            final(self).host_key_verification == old(self).host_key_verification,
    {
        self.host_key_tx.take()
    }
}


// ---------------------------------------------------------------------------
// What the page shows
// ---------------------------------------------------------------------------
/// The stages the page shows as steps, in order.
pub open spec fn display_stages() -> Seq<ConnectionStage> {
    seq![
        ConnectionStage::Initializing,
        ConnectionStage::ConnectingHost,
        ConnectionStage::Handshaking,
        ConnectionStage::Authenticating,
        ConnectionStage::EstablishingChannel,
        ConnectionStage::StartingSession,
        ConnectionStage::Connected,
    ]
}

/// The stages the page shows as steps, in order.
pub fn display_stage_list() -> (res: Vec<ConnectionStage>)
    ensures
        res@ == display_stages(),
{
    let mut v: Vec<ConnectionStage> = Vec::new();
    v.push(ConnectionStage::Initializing);
    v.push(ConnectionStage::ConnectingHost);
    v.push(ConnectionStage::Handshaking);
    v.push(ConnectionStage::Authenticating);
    v.push(ConnectionStage::EstablishingChannel);
    v.push(ConnectionStage::StartingSession);
    v.push(ConnectionStage::Connected);
    assert(v@ =~= display_stages());
    v
}

/// The position of `s` in the connection sequence.
pub fn stage_position(s: ConnectionStage) -> (res: u8)
    ensures
        res == stage_rank(s),
{
    match s {
        ConnectionStage::Initializing => 0,
        ConnectionStage::ConnectingProxy => 1,
        ConnectionStage::ConnectingJumpHost => 2,
        ConnectionStage::ConnectingHost => 3,
        ConnectionStage::Handshaking => 4,
        ConnectionStage::Authenticating => 5,
        ConnectionStage::EstablishingChannel => 6,
        ConnectionStage::StartingSession => 7,
        ConnectionStage::Connected => 8,
    }
}

/// The step the page marks as current for stage `s`: the last shown stage not after `s`;
/// every step is passed once connected.
pub fn current_step_index(s: ConnectionStage) -> (res: usize)
    ensures
        res < 7,
        stage_rank(display_stages()[res as int]) <= stage_rank(s),
        forall|j: int| res < j < 7 ==> stage_rank(display_stages()[j]) > stage_rank(s),
        s == ConnectionStage::Connected ==> res == 6,
{
    let stages = display_stage_list();
    let r = stage_position(s);
    let mut k: usize = 7;
    while k > 0
        invariant
            k <= 7,
            stages@ == display_stages(),
            r == stage_rank(s),
            forall|j: int| k <= j < 7 ==> stage_rank(display_stages()[j]) > r,
        decreases k,
    {
        if stage_position(stages[k - 1]) <= r {
            return k - 1;
        }
        k = k - 1;
    }
    assert(stage_rank(display_stages()[0]) == 0);
    0
}

/// How a step is drawn.
#[derive(Clone, Copy, Debug, PartialEq, Eq, Structural)]
pub enum StepTone {
    /// The current step of a failed connection.
    Failed,
    /// A passed step of a finished connection.
    Succeeded,
    /// A passed step.
    Passed,
    /// A step still ahead.
    Pending,
}

/// How step `idx` is drawn when step `current` is the current one.
pub fn step_tone(idx: usize, current: usize, has_error: bool, stage: ConnectionStage) -> (res: StepTone)
    ensures
        res == if has_error && idx == current {
            StepTone::Failed
        } else if idx <= current {
            if stage == ConnectionStage::Connected {
                StepTone::Succeeded
            } else {
                StepTone::Passed
            }
        } else {
            StepTone::Pending
        },
{
    if has_error && idx == current {
        StepTone::Failed
    } else if idx <= current {
        if stage == ConnectionStage::Connected {
            StepTone::Succeeded
        } else {
            StepTone::Passed
        }
    } else {
        StepTone::Pending
    }
}

/// The translation key of the page title.
pub fn title_key(has_error: bool, stage: ConnectionStage) -> (res: &'static str)
    ensures
        res@ == if has_error {
            "connecting.error_title"@
        } else if stage == ConnectionStage::Connected {
            "connecting.connected"@
        } else {
            "connecting.title"@
        },
{
    proof {
        reveal_strlit("connecting.error_title");
        reveal_strlit("connecting.connected");
        reveal_strlit("connecting.title");
    }
    if has_error {
        "connecting.error_title"
    } else if stage == ConnectionStage::Connected {
        "connecting.connected"
    } else {
        "connecting.title"
    }
}

/// The translation key of the host-key question's headline.
pub fn host_key_message_key(is_mismatch: bool) -> (res: &'static str)
    ensures
        res@ == if is_mismatch {
            "connecting.host_key.key_changed"@
        } else {
            "connecting.host_key.first_connection"@
        },
{
    proof {
        reveal_strlit("connecting.host_key.key_changed");
        reveal_strlit("connecting.host_key.first_connection");
    }
    if is_mismatch {
        "connecting.host_key.key_changed"
    } else {
        "connecting.host_key.first_connection"
    }
}

/// The mark drawn before a log line of level `level`.
pub fn log_marker(level: LogLevel) -> (res: &'static str)
    ensures
        res@ == match level {
            LogLevel::Debug => "◦"@,
            LogLevel::Info => "•"@,
            LogLevel::Warn => "▲"@,
            LogLevel::Error => "✕"@,
        },
{
    proof {
        reveal_strlit("◦");
        reveal_strlit("•");
        reveal_strlit("▲");
        reveal_strlit("✕");
    }
    match level {
        LogLevel::Debug => "◦",
        LogLevel::Info => "•",
        LogLevel::Warn => "▲",
        LogLevel::Error => "✕",
    }
}

/// The cancel button is shown until the connection is established.
pub fn shows_cancel(stage: ConnectionStage) -> (res: bool)
    ensures
        res == (stage != ConnectionStage::Connected),
{
    stage != ConnectionStage::Connected
}

} // verus!
