//! What the terminal panel of a session shows.
use vstd::prelude::*;
use crate::state::SessionStatus;
use crate::text::{concat3, decimal, decimal_string, from_chars, owned, push_str, str_eq, to_chars};

verus! {

/// What fills the terminal area.
#[derive(Debug)]
pub enum TerminalView {
    /// The pseudo-terminal failed; the error is shown.
    Failed(String),
    /// The terminal, under a "reconnecting" overlay.
    Reconnecting { attempt: u32, max_attempts: u32 },
    /// The terminal, under a "disconnected" overlay with a reconnect button.
    Disconnected,
    /// The terminal itself.
    Live,
    /// The terminal is being set up.
    Loading,
}

/// What fills the terminal area: a pseudo-terminal error wins; then, once a terminal exists,
/// the tab's status decides the overlay; before that, a loading view.
pub fn terminal_view(status: &SessionStatus, pty_error: Option<String>, has_terminal: bool) -> (res: TerminalView)
    ensures
        match pty_error {
            Some(e) => res matches TerminalView::Failed(x) && x == e,
            None => if has_terminal {
                match *status {
                    SessionStatus::Reconnecting { attempt, max_attempts } => res
                        == (TerminalView::Reconnecting { attempt, max_attempts }),
                    SessionStatus::Disconnected => res is Disconnected,
                    _ => res is Live,
                }
            } else {
                res is Loading
            },
        },
{
    match pty_error {
        Some(e) => TerminalView::Failed(e),
        None => {
            if has_terminal {
                match status {
                    SessionStatus::Reconnecting { attempt, max_attempts } => TerminalView::Reconnecting {
                        attempt: *attempt,
                        max_attempts: *max_attempts,
                    },
                    SessionStatus::Disconnected => TerminalView::Disconnected,
                    _ => TerminalView::Live,
                }
            } else {
                TerminalView::Loading
            }
        },
    }
}

/// What a pseudo-terminal error stands for.
#[derive(Clone, Copy, Debug, PartialEq, Eq, Structural)]
pub enum TerminalErrorKind {
    /// The connection dropped.
    Disconnected,
    /// The remote shell ended.
    ShellExited,
    /// Anything else; the error text is shown.
    Other,
}

/// What the error text `error` stands for.
pub fn terminal_error_kind(error: &str) -> (res: TerminalErrorKind)
    ensures
        res == if error@ == "terminal.disconnected"@ {
            TerminalErrorKind::Disconnected
        } else if error@ == "terminal.shell_exited"@ {
            TerminalErrorKind::ShellExited
        } else {
            TerminalErrorKind::Other
        },
{
    if str_eq(error, "terminal.disconnected") {
        TerminalErrorKind::Disconnected
    } else if str_eq(error, "terminal.shell_exited") {
        TerminalErrorKind::ShellExited
    } else {
        TerminalErrorKind::Other
    }
}

/// The label of a terminal's tab: the title the remote application set, when not empty, else
/// `prefix` and the terminal's number.
pub fn terminal_tab_label(title: Option<&str>, prefix: &str, index: u32) -> (res: String)
    ensures
        res@ == match title {
            Some(t) => if t@.len() > 0 {
                t@
            } else {
                prefix@ + " "@ + decimal(index as nat)
            },
            None => prefix@ + " "@ + decimal(index as nat),
        },
{
    match title {
        Some(t) => {
            if to_chars(t).len() > 0 {
                return owned(t);
            }
        },
        None => {},
    }
    let d = decimal_string(index as u64);
    concat3(prefix, " ", d.as_str())
}

/// A terminal's tab shows a close button when it is the active one and not the only one.
pub fn shows_close_button(terminal_count: usize, is_active: bool) -> (res: bool)
    ensures
        res == (terminal_count > 1 && is_active),
{
    terminal_count > 1 && is_active
}

/// The search counter: current match and number of matches, as `current/total`.
pub fn search_count_text(current: usize, total: usize) -> (res: String)
    ensures
        res@ == decimal(current as nat) + "/"@ + decimal(total as nat),
{
    let c = decimal_string(current as u64);
    let t = decimal_string(total as u64);
    concat3(c.as_str(), "/", t.as_str())
}

/// The line under the "reconnecting" overlay: `label attempt/max`.
pub fn reconnect_attempt_text(label: &str, attempt: u32, max_attempts: u32) -> (res: String)
    ensures
        res@ == label@ + " "@ + decimal(attempt as nat) + "/"@ + decimal(max_attempts as nat),
{
    let mut v = to_chars(label);
    push_str(&mut v, " ");
    push_str(&mut v, decimal_string(attempt as u64).as_str());
    push_str(&mut v, "/");
    push_str(&mut v, decimal_string(max_attempts as u64).as_str());
    from_chars(v.as_slice())
}

/// The bytes the command box sends: the command in UTF-8 followed by a carriage return; nothing
/// for an empty command.
pub fn command_bytes(content: &str) -> (res: Option<Vec<u8>>)
    ensures
        content@.len() == 0 ==> res is None,
        content@.len() > 0 ==> (res matches Some(b) && b@ == vstd::utf8::encode_utf8(content@).push(0x0du8)),
{
    if to_chars(content).len() == 0 {
        return None;
    }
    let bytes = content.as_bytes();
    let mut v: Vec<u8> = Vec::new();
    let mut i: usize = 0;
    while i < bytes.len()
        invariant
            i <= bytes@.len(),
            v@ == bytes@.take(i as int),
        decreases bytes@.len() - i,
    {
        v.push(bytes[i]);
        i = i + 1;
    }
    assert(bytes@.take(i as int) =~= bytes@);
    v.push(0x0d);
    Some(v)
}

} // verus!
