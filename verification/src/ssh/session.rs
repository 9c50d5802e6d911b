//! What a session does with the messages of its channels.
use vstd::prelude::*;
use crate::text::owned;

verus! {

/// The text `String::from_utf8_lossy` makes of `bytes`.
pub uninterp spec fn utf8_lossy(bytes: Seq<u8>) -> Seq<char>;

/// Decodes `bytes` as UTF-8, replacing invalid sequences (`String::from_utf8_lossy`).
///
/// Stated: the result is a function of the bytes, and well-formed UTF-8 decodes exactly. How
/// invalid sequences are replaced is left unstated.
#[verifier::external_body]
pub(crate) fn lossy_utf8(bytes: &[u8]) -> (res: String)
    ensures
        res@ == utf8_lossy(bytes@),
        vstd::utf8::valid_utf8(bytes@) ==> res@ == vstd::utf8::decode_utf8(bytes@),
{
    String::from_utf8_lossy(bytes).to_string()
}

/// Parameters of a pseudo-terminal request; each mode is `(opcode, value)`.
#[derive(Clone, Debug)]
pub struct PtyRequest {
    pub term: String,
    pub col_width: u32,
    pub row_height: u32,
    pub pix_width: u32,
    pub pix_height: u32,
    pub modes: Vec<(u8, u32)>,
}

impl Default for PtyRequest {
    fn default() -> (res: Self)
        ensures
            res.term@ == "xterm-256color"@,
            res.col_width == 80,
            res.row_height == 24,
            res.pix_width == 0,
            res.pix_height == 0,
            res.modes@.len() == 0,
    {
        PtyRequest {
            term: owned("xterm-256color"),
            col_width: 80,
            row_height: 24,
            pix_width: 0,
            pix_height: 0,
            modes: Vec::new(),
        }
    }
}

/// A message received on a channel.
#[derive(Clone, Debug)]
pub enum ChannelMessage {
    /// Regular data.
    Data(Vec<u8>),
    /// Extended data; stream `1` is standard error.
    ExtendedData { data: Vec<u8>, ext: u32 },
    /// The remote command exited with this status.
    ExitStatus(u32),
    /// End of data.
    Eof,
    /// The channel was closed.
    Close,
    /// Any other message.
    Other,
}

/// What a terminal read yields for a received message (`None`: the channel ended).
pub open spec fn terminal_read_spec(msg: Option<ChannelMessage>) -> Option<Seq<u8>> {
    match msg {
        Some(ChannelMessage::Data(d)) => Some(d@),
        Some(ChannelMessage::ExtendedData { data, .. }) => Some(data@),
        Some(ChannelMessage::Eof) | Some(ChannelMessage::Close) | None => None,
        Some(_) => Some(Seq::empty()),
    }
}

/// What a terminal read yields: data of either stream, nothing for other messages, and `None`
/// once the channel ends.
pub fn terminal_read_result(msg: Option<ChannelMessage>) -> (res: Option<Vec<u8>>)
    ensures
        match res {
            Some(v) => terminal_read_spec(msg) == Some(v@),
            None => terminal_read_spec(msg) is None,
        },
{
    match msg {
        Some(ChannelMessage::Data(d)) => Some(d),
        Some(ChannelMessage::ExtendedData { data, .. }) => Some(data),
        Some(ChannelMessage::Eof) | Some(ChannelMessage::Close) | None => None,
        Some(_) => Some(Vec::new()),
    }
}

/// What a raw SFTP-channel read yields for a received message (`None`: the channel ended).
pub open spec fn sftp_read_spec(msg: Option<ChannelMessage>) -> Option<Seq<u8>> {
    match msg {
        Some(ChannelMessage::Data(d)) => Some(d@),
        Some(ChannelMessage::Eof) | Some(ChannelMessage::Close) | None => None,
        Some(_) => Some(Seq::empty()),
    }
}

/// What a raw SFTP-channel read yields: regular data, nothing for other messages, and `None`
/// once the channel ends.
pub fn sftp_read_result(msg: Option<ChannelMessage>) -> (res: Option<Vec<u8>>)
    ensures
        match res {
            Some(v) => sftp_read_spec(msg) == Some(v@),
            None => sftp_read_spec(msg) is None,
        },
{
    match msg {
        Some(ChannelMessage::Data(d)) => Some(d),
        Some(ChannelMessage::Eof) | Some(ChannelMessage::Close) | None => None,
        Some(_) => Some(Vec::new()),
    }
}

/// Output of a remote command.
#[derive(Debug)]
pub struct CommandOutput {
    pub stdout: Vec<u8>,
    pub stderr: Vec<u8>,
    pub exit_code: u32,
}

impl CommandOutput {
    /// Standard output decoded as UTF-8, invalid sequences replaced.
    pub fn stdout_string(&self) -> (res: String)
        ensures
            res@ == utf8_lossy(self.stdout@),
            vstd::utf8::valid_utf8(self.stdout@) ==> res@ == vstd::utf8::decode_utf8(self.stdout@),
    {
        lossy_utf8(self.stdout.as_slice())
    }

    /// Standard error decoded as UTF-8, invalid sequences replaced.
    pub fn stderr_string(&self) -> (res: String)
        ensures
            res@ == utf8_lossy(self.stderr@),
            vstd::utf8::valid_utf8(self.stderr@) ==> res@ == vstd::utf8::decode_utf8(self.stderr@),
    {
        lossy_utf8(self.stderr.as_slice())
    }

    /// Whether the command exited with status 0.
    pub fn is_success(&self) -> (res: bool)
        ensures
            res == (self.exit_code == 0),
    {
        self.exit_code == 0
    }
}

/// Collects the output of a command from the messages of its channel.
pub struct ExecCollector {
    pub stdout: Vec<u8>,
    pub stderr: Vec<u8>,
    pub exit_code: Option<u32>,
    /// The channel ended; later messages are ignored.
    pub done: bool,
}

/// The collector after receiving `msg` (`None`: the channel ended).
pub open spec fn collect_step(c: ExecCollector, msg: Option<ChannelMessage>) -> (
    Seq<u8>,
    Seq<u8>,
    Option<u32>,
    bool,
) {
    if c.done {
        (c.stdout@, c.stderr@, c.exit_code, true)
    } else {
        match msg {
            Some(ChannelMessage::Data(d)) => (c.stdout@ + d@, c.stderr@, c.exit_code, false),
            Some(ChannelMessage::ExtendedData { data, ext }) => if ext == 1 {
                (c.stdout@, c.stderr@ + data@, c.exit_code, false)
            } else {
                (c.stdout@, c.stderr@, c.exit_code, false)
            },
            Some(ChannelMessage::ExitStatus(code)) => (c.stdout@, c.stderr@, Some(code), false),
            Some(ChannelMessage::Close) | None => (c.stdout@, c.stderr@, c.exit_code, true),
            Some(ChannelMessage::Eof) | Some(ChannelMessage::Other) => (
                c.stdout@,
                c.stderr@,
                c.exit_code,
                false,
            ),
        }
    }
}

/// Collecting a command's output: only the channel's close (or its end) stops collection, so
/// an exit status that follows end of file is kept; data goes to standard output, extended
/// stream 1 to standard error, other extended streams nowhere; the last exit status received
/// is the one kept; nothing changes once collection stopped.
pub proof fn lemma_collection_rules(c: ExecCollector, msg: Option<ChannelMessage>)
    ensures
        collect_step(c, msg).3 <==> (c.done || msg is None || msg == Some(ChannelMessage::Close)),
        c.done ==> collect_step(c, msg) == (c.stdout@, c.stderr@, c.exit_code, true),
        !c.done && msg == Some(ChannelMessage::Eof) ==> collect_step(c, msg) == (
            c.stdout@,
            c.stderr@,
            c.exit_code,
            false,
        ),
        !c.done ==> match msg {
            Some(ChannelMessage::Data(d)) => collect_step(c, msg).0 == c.stdout@ + d@ && collect_step(c, msg).1
                == c.stderr@ && collect_step(c, msg).2 == c.exit_code,
            Some(ChannelMessage::ExtendedData { data, ext }) => collect_step(c, msg).0 == c.stdout@
                && collect_step(c, msg).1 == (if ext == 1 { c.stderr@ + data@ } else { c.stderr@ })
                && collect_step(c, msg).2 == c.exit_code,
            Some(ChannelMessage::ExitStatus(code)) => collect_step(c, msg).0 == c.stdout@ && collect_step(c, msg).1
                == c.stderr@ && collect_step(c, msg).2 == Some(code),
            _ => collect_step(c, msg).0 == c.stdout@ && collect_step(c, msg).1 == c.stderr@
                && collect_step(c, msg).2 == c.exit_code,
        },
{
}

impl ExecCollector {
    /// A collector that has received nothing.
    pub fn new() -> (res: ExecCollector)
        ensures
            res.stdout@.len() == 0,
            res.stderr@.len() == 0,
            res.exit_code is None,
            !res.done,
    {
        ExecCollector { stdout: Vec::new(), stderr: Vec::new(), exit_code: None, done: false }
    }

    /// Takes in one message: data goes to standard output, extended stream 1 to standard error,
    /// the last exit status received is remembered, and only the channel's close (or its end)
    /// finishes the collection: an exit status may still follow end of file. Returns whether
    /// more messages are wanted.
    pub fn receive(&mut self, msg: Option<ChannelMessage>) -> (more: bool)
        ensures
            (final(self).stdout@, final(self).stderr@, final(self).exit_code, final(self).done)
                == collect_step(*old(self), msg),
            more == !final(self).done,
    {
        if self.done {
            return false;
        }
        match msg {
            Some(ChannelMessage::Data(d)) => {
                self.stdout.extend_from_slice(d.as_slice());
            },
            Some(ChannelMessage::ExtendedData { data, ext }) => {
                if ext == 1 {
                    self.stderr.extend_from_slice(data.as_slice());
                }
            },
            Some(ChannelMessage::ExitStatus(code)) => {
                self.exit_code = Some(code);
            },
            Some(ChannelMessage::Close) | None => {
                self.done = true;
            },
            Some(ChannelMessage::Eof) | Some(ChannelMessage::Other) => {},
        }
        !self.done
    }

    /// The collected output; the exit status is 0 when none was received.
    pub fn finish(self) -> (res: CommandOutput)
        ensures
            res.stdout@ == self.stdout@,
            res.stderr@ == self.stderr@,
            res.exit_code == match self.exit_code {
                Some(c) => c,
                None => 0,
            },
    {
        let code = match self.exit_code {
            Some(c) => c,
            None => 0,
        };
        CommandOutput { stdout: self.stdout, stderr: self.stderr, exit_code: code }
    }
}

/// The message that rejects opening a channel on a session that is no longer alive.
pub fn require_alive(alive: bool) -> (res: Result<(), crate::ssh::error::SshError>)
    ensures
        alive ==> res is Ok,
        !alive ==> (res matches Err(crate::ssh::error::SshError::Disconnected(m)) && m@
            == "Session is disconnected"@),
{
    if alive {
        Ok(())
    } else {
        Err(crate::ssh::error::SshError::Disconnected(owned("Session is disconnected")))
    }
}

} // verus!
