//! Deciding whether to trust the key a server presents.
use vstd::prelude::*;
use crate::models::KnownHost;
use crate::ssh::event::{ConnectionEvent, HostKeyAction};

verus! {

/// What to do with a presented server key before asking anyone.
#[derive(Debug)]
pub enum HostKeyCheck {
    /// The key is the remembered one: accept it and refresh the host's last use.
    Trusted,
    /// Ask the user, with this event.
    Ask(ConnectionEvent),
}

/// The first step of checking a server key.
///
/// `lookup` is the result of looking the host up among the known hosts: `Err(())` when they
/// could not be read. A remembered entry with the same fingerprint is trusted; a remembered
/// entry with another fingerprint raises a mismatch warning; an unknown host, or an unreadable
/// list, asks for verification.
pub open spec fn host_key_check_spec(
    lookup: Result<Option<KnownHost>, ()>,
    host: Seq<char>,
    port: u16,
    key_type: Seq<char>,
    fingerprint: Seq<char>,
    res: HostKeyCheck,
) -> bool {
    match lookup {
        Ok(Some(known)) => if known.fingerprint@ == fingerprint {
            res is Trusted
        } else {
            res matches HostKeyCheck::Ask(ConnectionEvent::HostKeyMismatch {
                host: h,
                port: p,
                expected_fingerprint: e,
                actual_fingerprint: a,
            }) && h@ == host && p == port && e@ == known.fingerprint@ && a@ == fingerprint
        },
        _ => res matches HostKeyCheck::Ask(ConnectionEvent::HostKeyVerification {
            host: h,
            port: p,
            key_type: k,
            fingerprint: f,
        }) && h@ == host && p == port && k@ == key_type && f@ == fingerprint,
    }
}

/// Checks a presented server key against what is known of the host.
pub fn check_host_key(
    lookup: Result<Option<KnownHost>, ()>,
    host: &String,
    port: u16,
    key_type: &String,
    fingerprint: &String,
) -> (res: HostKeyCheck)
    ensures
        host_key_check_spec(lookup, host@, port, key_type@, fingerprint@, res),
{
    match lookup {
        Ok(Some(known)) => {
            if known.fingerprint == *fingerprint {
                HostKeyCheck::Trusted
            } else {
                HostKeyCheck::Ask(
                    ConnectionEvent::HostKeyMismatch {
                        host: host.clone(),
                        port,
                        expected_fingerprint: known.fingerprint,
                        actual_fingerprint: fingerprint.clone(),
                    },
                )
            }
        },
        _ => HostKeyCheck::Ask(
            ConnectionEvent::HostKeyVerification {
                host: host.clone(),
                port,
                key_type: key_type.clone(),
                fingerprint: fingerprint.clone(),
            },
        ),
    }
}

/// The outcome of asking the user about a key.
#[derive(Clone, Copy, Debug, PartialEq, Eq, Structural)]
pub struct HostKeyVerdict {
    /// Continue the connection.
    pub accept: bool,
    /// Remember the key for the host.
    pub save: bool,
}

/// What the user's answer means; `None` stands for no answer (no channel to ask through, or the
/// channel was dropped), which rejects.
pub fn host_key_verdict(answer: Option<HostKeyAction>) -> (res: HostKeyVerdict)
    ensures
        res.accept == (answer == Some(HostKeyAction::AcceptAndSave) || answer == Some(
            HostKeyAction::AcceptOnce,
        )),
        res.save == (answer == Some(HostKeyAction::AcceptAndSave)),
{
    match answer {
        Some(HostKeyAction::AcceptAndSave) => HostKeyVerdict { accept: true, save: true },
        Some(HostKeyAction::AcceptOnce) => HostKeyVerdict { accept: true, save: false },
        _ => HostKeyVerdict { accept: false, save: false },
    }
}

/// A key is accepted without asking only when it equals the remembered one; a changed key is
/// accepted only on an explicit accepting answer, and is remembered only on "accept and save".
pub proof fn lemma_changed_key_needs_consent(
    lookup: Result<Option<KnownHost>, ()>,
    host: Seq<char>,
    port: u16,
    key_type: Seq<char>,
    fingerprint: Seq<char>,
    check: HostKeyCheck,
    answer: Option<HostKeyAction>,
    verdict: HostKeyVerdict,
)
    requires
        host_key_check_spec(lookup, host, port, key_type, fingerprint, check),
        verdict.accept == (answer == Some(HostKeyAction::AcceptAndSave) || answer == Some(
            HostKeyAction::AcceptOnce,
        )),
        verdict.save == (answer == Some(HostKeyAction::AcceptAndSave)),
    ensures
        check is Trusted ==> (lookup matches Ok(Some(known)) && known.fingerprint@ == fingerprint),
        (lookup matches Ok(Some(known)) && known.fingerprint@ != fingerprint) ==> check is Ask,
        verdict.accept ==> answer is Some && answer != Some(HostKeyAction::Reject),
        verdict.save ==> verdict.accept,
        answer is None ==> !verdict.accept,
{
}

} // verus!
