//! Automatic reconnection after a session dropped.
//!
//! The reconnection loop is a state machine: the driver performs each returned action (showing
//! the attempt, connecting, answering the host-key question, waiting, reporting the end) and
//! feeds back what the connection reports.
use vstd::prelude::*;
use crate::ssh::event::{ConnectionEvent, HostKeyAction};
use crate::text::owned;

verus! {

/// Where the reconnection loop stands.
#[derive(Clone, Copy, Debug, PartialEq, Eq, Structural)]
pub enum ReconnectPhase {
    /// A connection attempt is running.
    Attempting,
    /// Waiting before the next attempt.
    Waiting,
    /// Reconnected, or every attempt failed.
    Finished,
}

/// What the driver must do.
#[derive(Clone, Copy, Debug, PartialEq, Eq, Structural)]
pub enum ReconnectAction {
    /// Show "reconnecting (attempt/max)" on the tab and start a connection.
    StartAttempt { attempt: u32, max_attempts: u32 },
    /// Answer the pending host-key question.
    AnswerHostKey(HostKeyAction),
    /// Wait this many seconds, then report that the wait elapsed.
    Wait { secs: u64 },
    /// The session is back: mark the tab connected, reset its terminal and restart its services.
    Reconnected,
    /// Every attempt failed: mark the tab disconnected.
    GiveUp,
}

/// The counters and flags of the loop.
#[derive(Clone, Copy, Debug, PartialEq, Eq, Structural)]
pub struct ReconnectCore {
    /// The current attempt, counting from 1.
    pub attempt: u64,
    pub max_attempts: u32,
    /// Seconds between attempts.
    pub interval_secs: u32,
    /// The host-key question of the current attempt was already answered.
    pub host_key_answered: bool,
    pub phase: ReconnectPhase,
    /// The loop ended with a live session.
    pub reconnected: bool,
}

/// The reconnection loop.
#[derive(Debug)]
pub struct Reconnector {
    pub core: ReconnectCore,
    /// Why the current (or last) attempt failed; empty when no reason was given.
    pub last_error: String,
}

/// The loop's bookkeeping is consistent: attempts count from 1, a running or pending attempt is
/// within the budget, and a loop that gave up has used the whole budget.
pub open spec fn reconnect_wf(c: ReconnectCore) -> bool {
    &&& 1 <= c.attempt
    &&& c.attempt <= c.max_attempts + 1
    &&& (c.phase != ReconnectPhase::Finished ==> c.attempt <= c.max_attempts && !c.reconnected)
    &&& (c.phase == ReconnectPhase::Finished && !c.reconnected ==> c.attempt == c.max_attempts + 1)
    &&& (c.reconnected ==> c.phase == ReconnectPhase::Finished && c.attempt <= c.max_attempts)
}

/// The state and actions after the current attempt failed with reason `msg`.
pub open spec fn fail_spec(c: ReconnectCore, msg: Seq<char>) -> (ReconnectCore, Seq<char>, Seq<ReconnectAction>) {
    let next = (c.attempt + 1) as u64;
    if next <= c.max_attempts {
        (
            ReconnectCore { attempt: next, phase: ReconnectPhase::Waiting, ..c },
            msg,
            seq![ReconnectAction::Wait { secs: c.interval_secs as u64 }],
        )
    } else {
        (ReconnectCore { attempt: next, phase: ReconnectPhase::Finished, ..c }, msg, seq![ReconnectAction::GiveUp])
    }
}

/// The state and actions after the connection reports `event` (`None`: it stopped reporting).
pub open spec fn on_event_spec(c: ReconnectCore, err: Seq<char>, event: Option<ConnectionEvent>) -> (
    ReconnectCore,
    Seq<char>,
    Seq<ReconnectAction>,
) {
    if c.phase != ReconnectPhase::Attempting {
        (c, err, seq![])
    } else {
        match event {
            Some(ConnectionEvent::Connected { .. }) => (
                ReconnectCore { phase: ReconnectPhase::Finished, reconnected: true, ..c },
                err,
                seq![ReconnectAction::Reconnected],
            ),
            Some(ConnectionEvent::Failed { error }) => fail_spec(c, error@),
            Some(ConnectionEvent::Disconnected { reason }) => fail_spec(c, reason@),
            Some(ConnectionEvent::HostKeyVerification { .. }) => if c.host_key_answered {
                (c, err, seq![])
            } else {
                (
                    ReconnectCore { host_key_answered: true, ..c },
                    err,
                    seq![ReconnectAction::AnswerHostKey(HostKeyAction::Reject)],
                )
            },
            Some(ConnectionEvent::HostKeyMismatch { .. }) => {
                let answered = ReconnectCore { host_key_answered: true, ..c };
                let f = fail_spec(answered, "Host key mismatch - possible security risk"@);
                if c.host_key_answered {
                    f
                } else {
                    (f.0, f.1, seq![ReconnectAction::AnswerHostKey(HostKeyAction::Reject)] + f.2)
                }
            },
            None => fail_spec(c, err),
            Some(_) => (c, err, seq![]),
        }
    }
}

impl Reconnector {
    /// Starts the loop with `max_attempts` attempts `interval_secs` apart.
    pub fn start(max_attempts: u32, interval_secs: u32) -> (res: (Reconnector, ReconnectAction))
        ensures
            reconnect_wf(res.0.core),
            res.0.core.max_attempts == max_attempts,
            res.0.core.interval_secs == interval_secs,
            !res.0.core.host_key_answered,
            res.0.last_error@ == Seq::<char>::empty(),
            max_attempts >= 1 ==> res.0.core.attempt == 1 && res.0.core.phase
                == ReconnectPhase::Attempting && res.1 == (ReconnectAction::StartAttempt {
                attempt: 1,
                max_attempts,
            }),
            max_attempts == 0 ==> res.0.core.phase == ReconnectPhase::Finished && !res.0.core.reconnected
                && res.1 == ReconnectAction::GiveUp,
    {
        if max_attempts >= 1 {
            (
                Reconnector {
                    core: ReconnectCore {
                        attempt: 1,
                        max_attempts,
                        interval_secs,
                        host_key_answered: false,
                        phase: ReconnectPhase::Attempting,
                        reconnected: false,
                    },
                    last_error: String::new(),
                },
                ReconnectAction::StartAttempt { attempt: 1, max_attempts },
            )
        } else {
            (
                Reconnector {
                    core: ReconnectCore {
                        attempt: 1,
                        max_attempts,
                        interval_secs,
                        host_key_answered: false,
                        phase: ReconnectPhase::Finished,
                        reconnected: false,
                    },
                    last_error: String::new(),
                },
                ReconnectAction::GiveUp,
            )
        }
    }

    fn fail(&mut self, msg: String) -> (acts: Vec<ReconnectAction>)
        requires
            reconnect_wf(old(self).core),
            old(self).core.phase == ReconnectPhase::Attempting,
        ensures
            (final(self).core, final(self).last_error@, acts@) == fail_spec(old(self).core, msg@),
    {
        self.core.attempt = self.core.attempt + 1;
        self.last_error = msg;
        let mut acts: Vec<ReconnectAction> = Vec::new();
        if self.core.attempt <= self.core.max_attempts as u64 {
            self.core.phase = ReconnectPhase::Waiting;
            acts.push(ReconnectAction::Wait { secs: self.core.interval_secs as u64 });
        } else {
            self.core.phase = ReconnectPhase::Finished;
            acts.push(ReconnectAction::GiveUp);
        }
        assert(acts@ =~= fail_spec(old(self).core, msg@).2);
        acts
    }

    /// Takes in what the connection reported and returns the actions to perform, in order.
    pub fn on_event(&mut self, event: Option<ConnectionEvent>) -> (acts: Vec<ReconnectAction>)
        requires
            reconnect_wf(old(self).core),
        ensures
            (final(self).core, final(self).last_error@, acts@) == on_event_spec(
                old(self).core,
                old(self).last_error@,
                event,
            ),
    {
        if self.core.phase != ReconnectPhase::Attempting {
            return Vec::new();
        }
        match event {
            Some(ConnectionEvent::Connected { .. }) => {
                self.core.phase = ReconnectPhase::Finished;
                self.core.reconnected = true;
                let mut acts = Vec::new();
                acts.push(ReconnectAction::Reconnected);
                assert(acts@ =~= seq![ReconnectAction::Reconnected]);
                acts
            },
            Some(ConnectionEvent::Failed { error }) => self.fail(error),
            Some(ConnectionEvent::Disconnected { reason }) => self.fail(reason),
            Some(ConnectionEvent::HostKeyVerification { .. }) => {
                if self.core.host_key_answered {
                    Vec::new()
                } else {
                    self.core.host_key_answered = true;
                    let mut acts = Vec::new();
                    acts.push(ReconnectAction::AnswerHostKey(HostKeyAction::Reject));
                    assert(acts@ =~= seq![ReconnectAction::AnswerHostKey(HostKeyAction::Reject)]);
                    acts
                }
            },
            Some(ConnectionEvent::HostKeyMismatch { .. }) => {
                let first = !self.core.host_key_answered;
                self.core.host_key_answered = true;
                let tail = self.fail(owned("Host key mismatch - possible security risk"));
                if first {
                    let mut acts = Vec::new();
                    acts.push(ReconnectAction::AnswerHostKey(HostKeyAction::Reject));
                    acts.extend_from_slice(tail.as_slice());
                    acts
                } else {
                    tail
                }
            },
            None => {
                let msg = self.last_error.clone();
                self.fail(msg)
            },
            Some(_) => Vec::new(),
        }
    }

    /// Reports that the wait between attempts elapsed; starts the next attempt.
    pub fn on_wait_elapsed(&mut self) -> (acts: Vec<ReconnectAction>)
        requires
            reconnect_wf(old(self).core),
        ensures
            old(self).core.phase == ReconnectPhase::Waiting ==> final(self).core == (ReconnectCore {
                phase: ReconnectPhase::Attempting,
                host_key_answered: false,
                ..old(self).core
            }) && final(self).last_error@ == Seq::<char>::empty() && acts@ == seq![
                ReconnectAction::StartAttempt {
                    attempt: old(self).core.attempt as u32,
                    max_attempts: old(self).core.max_attempts,
                },
            ],
            old(self).core.phase != ReconnectPhase::Waiting ==> final(self).core == old(self).core
                && final(self).last_error@ == old(self).last_error@ && acts@.len() == 0,
    {
        let mut acts = Vec::new();
        if self.core.phase == ReconnectPhase::Waiting {
            self.core.phase = ReconnectPhase::Attempting;
            self.core.host_key_answered = false;
            self.last_error = String::new();
            acts.push(ReconnectAction::StartAttempt {
                attempt: self.core.attempt as u32,
                max_attempts: self.core.max_attempts,
            });
            assert(acts@ =~= seq![
                ReconnectAction::StartAttempt {
                    attempt: old(self).core.attempt as u32,
                    max_attempts: old(self).core.max_attempts,
                },
            ]);
        }
        acts
    }
}

/// Every event keeps the loop consistent; every attempt it starts lies within the budget; a
/// failed attempt moves to the next one; and a finished loop ignores further events.
pub proof fn lemma_reconnect_event_step(c: ReconnectCore, err: Seq<char>, event: Option<ConnectionEvent>)
    requires
        reconnect_wf(c),
    ensures
        reconnect_wf(on_event_spec(c, err, event).0),
        on_event_spec(c, err, event).0.attempt >= c.attempt,
        on_event_spec(c, err, event).0.attempt <= c.attempt + 1,
        c.phase == ReconnectPhase::Finished ==> on_event_spec(c, err, event).0 == c
            && on_event_spec(c, err, event).2.len() == 0,
        c.phase == ReconnectPhase::Attempting && on_event_spec(c, err, event).0.phase == ReconnectPhase::Waiting ==> on_event_spec(
            c,
            err,
            event,
        ).0.attempt == c.attempt + 1,
        forall|i: int|
            0 <= i < on_event_spec(c, err, event).2.len() ==> !(#[trigger] on_event_spec(c, err, event).2[i] is StartAttempt),
{
}

/// Waiting ends in a new attempt within the budget.
pub proof fn lemma_reconnect_wait_step(c: ReconnectCore)
    requires
        reconnect_wf(c),
        c.phase == ReconnectPhase::Waiting,
    ensures
        reconnect_wf(ReconnectCore { phase: ReconnectPhase::Attempting, host_key_answered: false, ..c }),
        1 <= c.attempt <= c.max_attempts,
{
}

/// Only remembered keys pass during reconnection: a mismatched host key is refused and ends the
/// attempt, an unknown key is refused, and neither is ever accepted.
pub proof fn lemma_reconnect_host_keys(c: ReconnectCore, err: Seq<char>, event: Option<ConnectionEvent>)
    requires
        reconnect_wf(c),
        c.phase == ReconnectPhase::Attempting,
    ensures
        event matches Some(ConnectionEvent::HostKeyMismatch { .. }) ==> on_event_spec(c, err, event).0.phase
            != ReconnectPhase::Attempting && !on_event_spec(c, err, event).2.contains(
            ReconnectAction::AnswerHostKey(HostKeyAction::AcceptOnce),
        ) && !on_event_spec(c, err, event).2.contains(
            ReconnectAction::AnswerHostKey(HostKeyAction::AcceptAndSave),
        ),
        event matches Some(ConnectionEvent::HostKeyVerification { .. }) ==> !on_event_spec(
            c,
            err,
            event,
        ).2.contains(ReconnectAction::AnswerHostKey(HostKeyAction::AcceptOnce)) && !on_event_spec(
            c,
            err,
            event,
        ).2.contains(ReconnectAction::AnswerHostKey(HostKeyAction::AcceptAndSave)),
{
    if let Some(ConnectionEvent::HostKeyMismatch { .. }) = event {
        let r = on_event_spec(c, err, event);
        assert forall|i: int| 0 <= i < r.2.len() implies r.2[i] != ReconnectAction::AnswerHostKey(HostKeyAction::AcceptOnce) && r.2[i] != ReconnectAction::AnswerHostKey(HostKeyAction::AcceptAndSave) by {
            let answered = ReconnectCore { host_key_answered: true, ..c };
            let f = fail_spec(answered, "Host key mismatch - possible security risk"@);
            if !c.host_key_answered {
                if i > 0 {
                    assert(r.2[i] == f.2[i - 1]);
                }
            }
        }
    }
}

} // verus!
