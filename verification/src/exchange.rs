//! One request and its replies over a tmux control stream, without the stream.
//!
//! Every reply is registered before anything is written. A partial write or a
//! failed command list is never repeated. What is read is bounded.
use std::time::Duration;
use vstd::prelude::*;
use crate::command;
use crate::fault;
use crate::fault::{Cause, Fault};
use crate::ids::{PaneId, SessionId, WindowId};
use crate::interact::Permit;
use crate::inspect;
use crate::inspect::{AttachError, MAX_STDERR, MAX_TRANSFER};
use crate::model::SessionName;
use crate::sessions::push_bytes;
use crate::snapshot::Access;
use crate::ssh;
use crate::text;

verus! {

/// The most commands of one batch, and the most replies of one exchange.
pub const MAX_REPLIES: usize = 256;

/// The most bytes of one command of a batch.
pub const MAX_COMMAND_BYTES: usize = 4096;

/// One exchange is shorter than this many bytes.
pub const MAX_WIRE_BYTES: usize = 524_288;

/// Exchanges of at most this many replies are small enough to time.
pub const MAX_TIMED_REPLIES: usize = 8;

/// The most characters of a remote complaint that an error repeats.
pub const MAX_BRIEF: usize = 512;

/// What tmux says on its own account over a control stream.
#[derive(Debug)]
pub enum Notification {
    Output { pane: PaneId, bytes: Vec<u8> },
    ExtendedOutput { pane: PaneId, ms_behind: u64, bytes: Vec<u8> },
    LayoutChange { window: WindowId, layout: String },
    WindowAdd(WindowId),
    WindowClose(WindowId),
    WindowRenamed(WindowId, String),
    WindowPaneChanged { window: WindowId, pane: PaneId },
    UnlinkedWindowAdd(WindowId),
    UnlinkedWindowClose(WindowId),
    UnlinkedWindowRenamed(WindowId, String),
    SessionChanged(SessionId, String),
    SessionRenamed(SessionId, String),
    SessionWindowChanged { session: SessionId, window: WindowId },
    ClientSessionChanged { client: String, session: SessionId, name: String },
    SessionsChanged,
    PaneModeChanged(PaneId),
    Pause(PaneId),
    Continue(PaneId),
    SubscriptionChanged { name: String, value: String },
    Exit(Option<String>),
    Unknown(String),
}

/// What arrives over a control stream: the reply to a command, which is its
/// lines or how tmux rejected it, or something that tmux says on its own account.
#[derive(Debug)]
pub enum Incoming {
    Reply { id: u64, result: Result<Vec<String>, String> },
    Notification(Notification),
}

/// Why an exchange failed.
#[derive(Debug)]
pub enum ExchangeError {
    /// No commands, or too many.
    CommandCount,
    /// A command that cannot stand on one line of its own.
    InvalidCommand,
    BatchTooLong,
    ReplyCount,
    TransactionTooLong,
    WriteExpired,
    WriteClosed,
    WriteFailed(Fault),
    ReplyExpired,
    BudgetOverflow,
    OverBudget,
    UnexpectedReply,
    Rejected(String),
    /// tmux ended the stream before it answered anything: nothing was attached.
    NeverAttached,
    /// tmux ended the stream, perhaps with a reason.
    Ended(Option<String>),
    UnsolicitedReply,
    TooMuchStderr,
    StderrFailed(Fault),
    StdoutFailed(Fault),
    UnexpectedStdout,
    ChannelEnded,
    WaitFailed(Fault),
}

/// A reason as a programmer reads it.
pub open spec fn reason_text(reason: Option<Seq<char>>) -> Seq<char> {
    match reason {
        Some(said) => "Some("@ + text::debug_quoted(said) + ")"@,
        None => "None"@,
    }
}

/// What the user is told of an error that nothing lies behind.
pub open spec fn plain_text(error: ExchangeError) -> Option<Seq<char>> {
    match error {
        ExchangeError::CommandCount => Some("invalid command count"@),
        ExchangeError::InvalidCommand => Some("invalid internal control command"@),
        ExchangeError::BatchTooLong => Some("command batch exceeds 512 KiB"@),
        ExchangeError::ReplyCount => Some("invalid reply count"@),
        ExchangeError::TransactionTooLong => Some("control transaction exceeds budget"@),
        ExchangeError::BudgetOverflow => Some("wire budget overflow"@),
        ExchangeError::OverBudget => Some("tmux batch exceeds 8 MiB wire budget"@),
        ExchangeError::UnexpectedReply => Some("unexpected command reply"@),
        ExchangeError::Rejected(said) => Some("tmux rejected request: "@ + said@),
        ExchangeError::NeverAttached => Some(
            "tmux could not attach that session; it may not exist on this server"@,
        ),
        ExchangeError::Ended(reason) => Some(
            "tmux attachment ended ("@ + reason_text(
                match reason {
                    Some(said) => Some(said@),
                    None => None,
                },
            ) + ")"@,
        ),
        ExchangeError::UnsolicitedReply => Some("unsolicited command reply"@),
        ExchangeError::TooMuchStderr => Some("remote stderr exceeds 64 KiB"@),
        ExchangeError::UnexpectedStdout => Some("unexpected stdout in tmux control stream"@),
        _ => None,
    }
}

/// What an error is as a failure: a deadline is a timeout and an ended channel
/// is transport loss, whatever tmux said; the rest is text.
pub open spec fn is_fault_of(r: Fault, error: ExchangeError) -> bool {
    match error {
        ExchangeError::WriteExpired => fault::single_layer(
            r,
            Cause::Ssh(ssh::Kind::Timeout),
            "tmux write deadline expired; delivery is uncertain"@,
        ),
        ExchangeError::WriteClosed => fault::single_layer(
            r,
            Cause::Ssh(ssh::Kind::Transport),
            "tmux channel closed during write; delivery is uncertain"@,
        ),
        ExchangeError::WriteFailed(inner) => fault::wrapped(
            r,
            "tmux write failed; delivery is uncertain"@,
            inner,
        ),
        ExchangeError::ReplyExpired => fault::single_layer(
            r,
            Cause::Ssh(ssh::Kind::Timeout),
            "tmux reply deadline expired"@,
        ),
        ExchangeError::StderrFailed(inner) => fault::wrapped(r, "read SSH stderr"@, inner),
        ExchangeError::StdoutFailed(inner) => fault::wrapped(r, "read SSH stdout"@, inner),
        ExchangeError::ChannelEnded => fault::single_layer(
            r,
            Cause::Ssh(ssh::Kind::Transport),
            "SSH control channel ended before tmux reported an exit"@,
        ),
        ExchangeError::WaitFailed(inner) => r == inner,
        _ => fault::single_layer(r, Cause::Message, plain_text(error)->0),
    }
}

impl ExchangeError {
    /// The error as a failure that can be classified.
    pub fn into_fault(self) -> (r: Fault)
        ensures
            is_fault_of(r, self),
    {
        match self {
            ExchangeError::CommandCount => Fault::message("invalid command count"),
            ExchangeError::InvalidCommand => Fault::message("invalid internal control command"),
            ExchangeError::BatchTooLong => Fault::message("command batch exceeds 512 KiB"),
            ExchangeError::ReplyCount => Fault::message("invalid reply count"),
            ExchangeError::TransactionTooLong => Fault::message(
                "control transaction exceeds budget",
            ),
            ExchangeError::WriteExpired => Fault::ssh(
                ssh::Error::timeout("tmux write deadline expired; delivery is uncertain"),
            ),
            ExchangeError::WriteClosed => Fault::ssh(
                ssh::Error::transport("tmux channel closed during write; delivery is uncertain"),
            ),
            ExchangeError::WriteFailed(inner) => inner.context(
                "tmux write failed; delivery is uncertain",
            ),
            ExchangeError::ReplyExpired => Fault::ssh(
                ssh::Error::timeout("tmux reply deadline expired"),
            ),
            ExchangeError::BudgetOverflow => Fault::message("wire budget overflow"),
            ExchangeError::OverBudget => Fault::message("tmux batch exceeds 8 MiB wire budget"),
            ExchangeError::UnexpectedReply => Fault::message("unexpected command reply"),
            ExchangeError::Rejected(said) => {
                let mut message = "tmux rejected request: ".to_owned();
                text::push_text(&mut message, said.as_str());
                Fault::message(message.as_str())
            },
            ExchangeError::NeverAttached => Fault::message(
                "tmux could not attach that session; it may not exist on this server",
            ),
            ExchangeError::Ended(reason) => {
                let mut message = "tmux attachment ended (".to_owned();
                match reason {
                    Some(said) => {
                        let mut shown = "Some(".to_owned();
                        text::push_text(&mut shown, text::quote_debug(said.as_str()).as_str());
                        text::push_text(&mut shown, ")");
                        text::push_text(&mut message, shown.as_str());
                    },
                    None => text::push_text(&mut message, "None"),
                }
                text::push_text(&mut message, ")");
                Fault::message(message.as_str())
            },
            ExchangeError::UnsolicitedReply => Fault::message("unsolicited command reply"),
            ExchangeError::TooMuchStderr => Fault::message("remote stderr exceeds 64 KiB"),
            ExchangeError::StderrFailed(inner) => inner.context("read SSH stderr"),
            ExchangeError::StdoutFailed(inner) => inner.context("read SSH stdout"),
            ExchangeError::UnexpectedStdout => Fault::message(
                "unexpected stdout in tmux control stream",
            ),
            ExchangeError::ChannelEnded => Fault::ssh(
                ssh::Error::transport("SSH control channel ended before tmux reported an exit"),
            ),
            ExchangeError::WaitFailed(inner) => inner,
        }
    }
}

/// A command without the line feed that may end it.
pub open spec fn bare_command(s: Seq<char>) -> Seq<char> {
    if s.len() > 0 && s.last() == '\n' {
        s.drop_last()
    } else {
        s
    }
}

/// A character that would end a line or the stream.
pub open spec fn line_breaker(c: char) -> bool {
    c == '\n' || c == '\r' || c == '\0'
}

/// A command that can stand on one line with others.
pub open spec fn sound_command(s: Seq<char>) -> bool {
    s.len() > 0 && text::byte_len(s) <= MAX_COMMAND_BYTES && forall|i: int|
        0 <= i < s.len() ==> !line_breaker(#[trigger] s[i])
}

/// Commands on one line.
pub open spec fn one_line(commands: Seq<Seq<char>>) -> Seq<char>
    decreases commands.len(),
{
    if commands.len() == 0 {
        Seq::empty()
    } else if commands.len() == 1 {
        bare_command(commands[0])
    } else {
        one_line(commands.drop_last()) + " ; "@ + bare_command(commands.last())
    }
}

/// Every command can stand on one line with others.
pub open spec fn all_sound(commands: Seq<Seq<char>>) -> bool {
    forall|i: int|
        0 <= i < commands.len() ==> sound_command(bare_command(#[trigger] commands[i]))
}

/// Why commands cannot be sent as one batch, if they cannot.
pub open spec fn batch_error(commands: Seq<Seq<char>>) -> Option<ExchangeError> {
    if commands.len() == 0 || commands.len() > MAX_REPLIES {
        Some(ExchangeError::CommandCount)
    } else if !all_sound(commands) {
        Some(ExchangeError::InvalidCommand)
    } else if text::byte_len(one_line(commands)) >= MAX_WIRE_BYTES {
        Some(ExchangeError::BatchTooLong)
    } else {
        None
    }
}

/// The line that sends commands as one batch.
pub fn batch_wire(commands: &Vec<String>) -> (r: Result<String, ExchangeError>)
    ensures
        match r {
            Ok(wire) => batch_error(text::strings(commands@)) is None && wire@ == one_line(
                text::strings(commands@),
            ).push('\n'),
            Err(error) => batch_error(text::strings(commands@)) == Some(error),
        },
{
    if commands.len() == 0 || commands.len() > MAX_REPLIES {
        return Err(ExchangeError::CommandCount);
    }
    let ghost all = text::strings(commands@);
    let mut wire = String::new();
    assert(all.take(0) =~= Seq::<Seq<char>>::empty());
    for i in 0..commands.len()
        invariant
            all == text::strings(commands@),
            0 < commands@.len() <= MAX_REPLIES,
            wire@ == one_line(all.take(i as int)),
            all_sound(all.take(i as int)),
    {
        let ghost so_far = all.take(i + 1);
        assert(so_far.drop_last() =~= all.take(i as int));
        assert(so_far.last() == all[i as int]);
        let v = text::chars_of(commands[i].as_str());
        let end: usize = if v.len() > 0 && v[v.len() - 1] == '\n' {
            v.len() - 1
        } else {
            v.len()
        };
        let part = text::part_of(v.as_slice(), 0, end);
        assert(part@ =~= bare_command(all[i as int]));
        let bare = text::string_of(part.as_slice());
        let mut sound: bool = part.len() > 0 && text::byte_length(bare.as_str())
            <= MAX_COMMAND_BYTES;
        for j in 0..part.len()
            invariant
                sound ==> forall|k: int| 0 <= k < j ==> !line_breaker(#[trigger] part@[k]),
                sound ==> part@.len() > 0 && text::byte_len(part@) <= MAX_COMMAND_BYTES,
                !sound ==> !sound_command(part@),
        {
            if part[j] == '\n' || part[j] == '\r' || part[j] == '\0' {
                assert(line_breaker(part@[j as int]));
                sound = false;
            }
        }
        if !sound {
            assert(!sound_command(bare_command(all[i as int])));
            return Err(ExchangeError::InvalidCommand);
        }
        assert(sound_command(bare_command(all[i as int])));
        if i > 0 {
            text::push_text(&mut wire, " ; ");
        }
        text::push_text(&mut wire, bare.as_str());
        assert(wire@ =~= one_line(so_far));
        assert forall|k: int| 0 <= k < so_far.len() implies sound_command(
            bare_command(#[trigger] so_far[k]),
        ) by {
            if k < i {
                assert(so_far[k] == all.take(i as int)[k]);
            }
        }
    }
    assert(all.take(all.len() as int) =~= all);
    if text::byte_length(wire.as_str()) >= MAX_WIRE_BYTES {
        return Err(ExchangeError::BatchTooLong);
    }
    wire.push('\n');
    Ok(wire)
}

proof fn lemma_one_line_unbroken(commands: Seq<Seq<char>>)
    requires
        all_sound(commands),
    ensures
        forall|i: int|
            0 <= i < one_line(commands).len() ==> !line_breaker(#[trigger] one_line(commands)[i]),
    decreases commands.len(),
{
    reveal_strlit(" ; ");
    if commands.len() > 0 {
        assert(sound_command(bare_command(commands[commands.len() - 1])));
        if commands.len() > 1 {
            assert forall|i: int| 0 <= i < commands.drop_last().len() implies sound_command(
                bare_command(#[trigger] commands.drop_last()[i]),
            ) by {
                assert(commands.drop_last()[i] == commands[i]);
            }
            lemma_one_line_unbroken(commands.drop_last());
            let a = one_line(commands.drop_last());
            let c = bare_command(commands.last());
            assert forall|i: int| 0 <= i < one_line(commands).len() implies !line_breaker(
                #[trigger] one_line(commands)[i],
            ) by {
                if i < a.len() {
                    assert(one_line(commands)[i] == a[i]);
                } else if i >= a.len() + 3 {
                    assert(one_line(commands)[i] == c[i - a.len() - 3]);
                }
            }
        }
    }
}

/// A batch is a single line, whatever its commands hold.
pub proof fn a_batch_is_one_line(commands: Seq<Seq<char>>)
    requires
        batch_error(commands) is None,
    ensures
        forall|i: int|
            0 <= i < one_line(commands).len() ==> !line_breaker(#[trigger] one_line(commands)[i]),
{
    lemma_one_line_unbroken(commands);
}

/// The protocol state of one control attachment.
pub struct Inspector {
    pub stderr: Vec<u8>,
    /// What lets actions be sent, and the name of their private buffers.
    pub input_buffer_prefix: Option<Permit>,
    pub input_sequence: u64,
    /// Set once tmux has answered anything at all. Until then an ending stream
    /// means that the attach never happened.
    pub answered: bool,
    /// Round trip of the last small exchange.
    pub last_rtt: Option<Duration>,
}

impl Inspector {
    /// No more of a remote complaint is kept than its bound.
    pub open spec fn wf(&self) -> bool {
        self.stderr@.len() <= MAX_STDERR
    }

    /// Prepares a read-only attachment: its state, and the command to run.
    pub fn attach(session: &SessionName, socket: Option<&str>) -> (r: Result<
        (Self, String),
        AttachError,
    >)
        ensures
            match r {
                Ok((inspector, wire)) => fresh(inspector) && match socket {
                    Some(path) => inspect::usable_socket(path@) && wire@ == inspect::attach_wire(
                        session@,
                        Some(path@),
                        Access::ReadOnly,
                    ),
                    None => wire@ == inspect::attach_wire(session@, None, Access::ReadOnly),
                },
                Err(error) => error == AttachError::Socket && socket is Some
                    && !inspect::usable_socket(socket->0@),
            },
    {
        Self::attach_with_access(session, socket, Access::ReadOnly)
    }

    /// Prepares an attachment: its state, and the command to run.
    pub fn attach_with_access(
        session: &SessionName,
        socket: Option<&str>,
        access: Access,
    ) -> (r: Result<(Self, String), AttachError>)
        ensures
            match r {
                Ok((inspector, wire)) => fresh(inspector) && match socket {
                    Some(path) => inspect::usable_socket(path@) && wire@ == inspect::attach_wire(
                        session@,
                        Some(path@),
                        access,
                    ),
                    None => wire@ == inspect::attach_wire(session@, None, access),
                },
                Err(error) => error == AttachError::Socket && socket is Some
                    && !inspect::usable_socket(socket->0@),
            },
    {
        match inspect::attach_command_with_access(session, socket, access) {
            Ok(wire) => Ok(
                (
                    Inspector {
                        stderr: Vec::new(),
                        input_buffer_prefix: None,
                        input_sequence: 0,
                        answered: false,
                        last_rtt: None,
                    },
                    wire,
                ),
            ),
            Err(error) => Err(error),
        }
    }

    /// What a failed batch is as a failure: it repeats, in bounds, what the
    /// remote side complained about.
    pub fn batch_failed(&self, error: Fault) -> (r: Fault)
        ensures
            fault::wrapped(
                r,
                "tmux request failed; remote stderr: "@ + text::debug_quoted(
                    text::first(text::lossy(self.stderr@), MAX_BRIEF as nat),
                ),
                error,
            ),
    {
        let said = text::lossy_text(self.stderr.as_slice());
        let brief = text::first_chars(said.as_str(), MAX_BRIEF);
        let mut message = "tmux request failed; remote stderr: ".to_owned();
        text::push_text(&mut message, text::quote_debug(brief.as_str()).as_str());
        error.context(message.as_str())
    }
}

/// An attachment with which nothing has happened yet.
pub open spec fn fresh(inspector: Inspector) -> bool {
    &&& inspector.wf()
    &&& inspector.stderr@.len() == 0
    &&& inspector.input_buffer_prefix is None
    &&& inspector.input_sequence == 0
    &&& !inspector.answered
    &&& inspector.last_rtt is None
}

/// What a write came to.
#[derive(Debug)]
pub enum WriteOutcome {
    Wrote(usize),
    WouldBlock,
    Interrupted,
    Failed(Fault),
}

/// What to do next with a line that is being written.
#[derive(Clone, Copy, Debug, PartialEq, Eq, Structural)]
pub enum SendStep {
    /// All of it is written.
    Done,
    /// The deadline passed first.
    Expired,
    /// Write what is left.
    Write,
}

/// A line that is being written, and how much of it is.
pub struct Sender {
    pub wire: Vec<u8>,
    pub sent: usize,
}

/// What a write comes to.
pub open spec fn writes(
    before: Sender,
    outcome: WriteOutcome,
    r: Result<bool, ExchangeError>,
    after: Sender,
) -> bool {
    &&& after.wire == before.wire
    &&& match outcome {
        WriteOutcome::Wrote(count) => if count == 0 {
            r == Err::<bool, ExchangeError>(ExchangeError::WriteClosed) && after.sent
                == before.sent
        } else {
            r == Ok::<bool, ExchangeError>(false) && after.sent == before.sent
                + count
        },
        WriteOutcome::WouldBlock => r == Ok::<bool, ExchangeError>(true) && after.sent
            == before.sent,
        WriteOutcome::Interrupted => r == Ok::<bool, ExchangeError>(false) && after.sent == before.sent,
        WriteOutcome::Failed(error) => r == Err::<bool, ExchangeError>(
            ExchangeError::WriteFailed(error),
        ) && after.sent == before.sent,
    }
}

/// What is next with a line that is being written.
pub open spec fn sends_on(before: Sender, expired: bool, r: SendStep) -> bool {
    r == (if before.sent == before.wire@.len() {
        SendStep::Done
    } else if expired {
        SendStep::Expired
    } else {
        SendStep::Write
    })
}

impl Sender {
    pub open spec fn wf(&self) -> bool {
        self.sent <= self.wire@.len()
    }

    /// Takes up a line for an exchange of so many replies.
    pub fn new(wire: &str, reply_count: usize) -> (r: Result<Self, ExchangeError>)
        ensures
            match r {
                Ok(sender) => sender.wf() && sender.sent == 0 && sender.wire@
                    == vstd::utf8::encode_utf8(wire@) && 0 < reply_count <= MAX_REPLIES
                    && text::byte_len(wire@) < MAX_WIRE_BYTES,
                Err(ExchangeError::ReplyCount) => !(0 < reply_count <= MAX_REPLIES),
                Err(error) => error == ExchangeError::TransactionTooLong && 0 < reply_count
                    <= MAX_REPLIES && text::byte_len(wire@) >= MAX_WIRE_BYTES,
            },
    {
        if reply_count == 0 || reply_count > MAX_REPLIES {
            return Err(ExchangeError::ReplyCount);
        }
        let bytes: &[u8] = wire.as_bytes();
        if bytes.len() >= MAX_WIRE_BYTES {
            return Err(ExchangeError::TransactionTooLong);
        }
        let mut held: Vec<u8> = Vec::new();
        push_bytes(&mut held, bytes);
        assert(held@ =~= bytes@);
        Ok(Sender { wire: held, sent: 0 })
    }

    /// What to do next, from whether the deadline passed.
    pub fn next(&self, expired: bool) -> (r: SendStep)
        requires
            self.wf(),
        ensures
            sends_on(*self, expired, r),
    {
        if self.sent == self.wire.len() {
            SendStep::Done
        } else if expired {
            SendStep::Expired
        } else {
            SendStep::Write
        }
    }

    /// Takes what a write came to. Returns whether to wait before the next one.
    /// What was written is never written again.
    pub fn wrote(&mut self, outcome: WriteOutcome) -> (r: Result<bool, ExchangeError>)
        requires
            old(self).wf(),
            outcome is Wrote ==> outcome->Wrote_0 <= old(self).wire@.len() - old(self).sent,
        ensures
            final(self).wf(),
            writes(*old(self), outcome, r, *final(self)),
    {
        match outcome {
            WriteOutcome::Wrote(count) => {
                if count == 0 {
                    return Err(ExchangeError::WriteClosed);
                }
                assert(self.sent + count <= self.wire.len());
                self.sent = self.sent + count;
                Ok(false)
            },
            WriteOutcome::WouldBlock => Ok(true),
            WriteOutcome::Interrupted => Ok(false),
            WriteOutcome::Failed(error) => Err(ExchangeError::WriteFailed(error)),
        }
    }
}

/// How far an exchange has come.
pub struct Progress {
    pub replies: Seq<Vec<String>>,
    /// Each notification with the number of replies that came before it.
    pub notifications: Seq<(usize, Notification)>,
    pub answered: bool,
}

/// One more event: the progress with it, or why it ends the exchange.
pub open spec fn absorbed_one(p: Progress, ids: Seq<u64>, event: Incoming) -> (
    Progress,
    Option<ExchangeError>,
) {
    match event {
        Incoming::Reply { id, result } => if p.replies.len() >= ids.len()
            || ids[p.replies.len() as int] != id {
            (p, Some(ExchangeError::UnexpectedReply))
        } else {
            match result {
                Ok(lines) => (
                    Progress { replies: p.replies.push(lines), answered: true, ..p },
                    None,
                ),
                Err(said) => (p, Some(ExchangeError::Rejected(said))),
            }
        },
        Incoming::Notification(Notification::Exit(reason)) => if p.answered {
            (p, Some(ExchangeError::Ended(reason)))
        } else {
            (p, Some(ExchangeError::NeverAttached))
        },
        Incoming::Notification(notification) => (
            Progress {
                notifications: p.notifications.push((p.replies.len() as usize, notification)),
                ..p
            },
            None,
        ),
    }
}

/// More events in order, up to the first that ends the exchange.
pub open spec fn absorbed(p: Progress, ids: Seq<u64>, events: Seq<Incoming>) -> (
    Progress,
    Option<ExchangeError>,
)
    decreases events.len(),
{
    if events.len() == 0 {
        (p, None)
    } else {
        let (before, error) = absorbed(p, ids, events.drop_last());
        if error is Some {
            (before, error)
        } else {
            absorbed_one(before, ids, events.last())
        }
    }
}

proof fn lemma_ended_absorption(p: Progress, ids: Seq<u64>, events: Seq<Incoming>, n: int)
    requires
        0 <= n <= events.len(),
        absorbed(p, ids, events.take(n)).1 is Some,
    ensures
        absorbed(p, ids, events) == absorbed(p, ids, events.take(n)),
    decreases events.len(),
{
    if n < events.len() {
        assert(events.drop_last().take(n) =~= events.take(n));
        lemma_ended_absorption(p, ids, events.drop_last(), n);
    } else {
        assert(events.take(n) =~= events);
    }
}

/// The replies of one exchange as they come in.
pub struct Exchange {
    pub ids: Vec<u64>,
    pub replies: Vec<Vec<String>>,
    pub notifications: Vec<(usize, Notification)>,
    pub total: usize,
}

/// What reading more of an exchange comes to.
pub open spec fn takes(
    before: Exchange,
    inspector: Inspector,
    events: Seq<Incoming>,
    bytes: usize,
    r: Result<bool, ExchangeError>,
    after: Exchange,
    inspected: Inspector,
) -> bool {
    &&& after.ids == before.ids
    &&& inspected == (Inspector { answered: inspected.answered, ..inspector })
    &&& if before.total + bytes > usize::MAX {
        r == Err::<bool, ExchangeError>(ExchangeError::BudgetOverflow) && after
            == before && inspected == inspector
    } else if before.total + bytes > MAX_TRANSFER {
        r == Err::<bool, ExchangeError>(ExchangeError::OverBudget) && inspected
            == inspector && after == (Exchange {
            total: (before.total + bytes) as usize,
            ..before
        })
    } else {
        let (p, error) = absorbed(
            before.progress(inspector),
            before.ids@,
            events,
        );
        &&& after.total == before.total + bytes
        &&& after.progress(inspected) == p
        &&& r == (match error {
            Some(error) => Err::<bool, ExchangeError>(error),
            None => Ok(p.replies.len() == before.ids@.len()),
        })
    }
}

/// What ending an exchange comes to.
pub open spec fn times(
    before: Exchange,
    inspector: Inspector,
    elapsed: Duration,
    r: Batch,
    inspected: Inspector,
) -> bool {
    &&& r.replies == before.replies
    &&& r.notifications == before.notifications
    &&& inspected == (Inspector {
        last_rtt: if before.ids@.len() <= MAX_TIMED_REPLIES {
            Some(elapsed)
        } else {
            inspector.last_rtt
        },
        ..inspector
    })
}

impl Exchange {
    /// No more replies than were asked for.
    pub open spec fn wf(&self) -> bool {
        self.replies@.len() <= self.ids@.len()
    }

    pub open spec fn progress(&self, inspector: Inspector) -> Progress {
        Progress {
            replies: self.replies@,
            notifications: self.notifications@,
            answered: inspector.answered,
        }
    }

    /// Starts to wait for the replies to commands of these numbers.
    pub fn new(ids: Vec<u64>) -> (r: Self)
        ensures
            r.wf(),
            r.ids == ids,
            r.replies@.len() == 0,
            r.notifications@.len() == 0,
            r.total == 0,
    {
        Exchange { ids, replies: Vec::new(), notifications: Vec::new(), total: 0 }
    }

    /// Takes what was read in one go. Returns whether every reply has come.
    pub fn take(&mut self, inspector: &mut Inspector, events: Vec<Incoming>, bytes: usize) -> (r:
        Result<bool, ExchangeError>)
        requires
            old(self).wf(),
        ensures
            final(self).wf(),
            takes(*old(self), *old(inspector), events@, bytes, r, *final(self), *final(inspector)),
    {
        if bytes > usize::MAX - self.total {
            return Err(ExchangeError::BudgetOverflow);
        }
        self.total = self.total + bytes;
        if self.total > MAX_TRANSFER {
            return Err(ExchangeError::OverBudget);
        }
        let ghost start = old(self).progress(*old(inspector));
        let ghost all = events@;
        assert(all.take(0) =~= Seq::<Incoming>::empty());
        for event in it: events
            invariant
                all == it.seq(),
                start == old(self).progress(*old(inspector)),
                self.wf(),
                self.ids == old(self).ids,
                self.total == old(self).total + bytes,
                self.total <= MAX_TRANSFER,
                *inspector == (Inspector { answered: inspector.answered, ..*old(inspector) }),
                absorbed(start, self.ids@, all.take(it.index())) == (
                    self.progress(*inspector),
                    None::<ExchangeError>,
                ),
        {
            let ghost n = it.index();
            let ghost before = self.progress(*inspector);
            proof {
                assert(all.take(n + 1).drop_last() =~= all.take(n));
                assert(all.take(n + 1).last() == event);
                if absorbed(start, self.ids@, all.take(n + 1)).1 is Some {
                    lemma_ended_absorption(start, self.ids@, all, n + 1);
                }
            }
            match event {
                Incoming::Reply { id, result } => {
                    if self.replies.len() >= self.ids.len() || self.ids[self.replies.len()] != id {
                        return Err(ExchangeError::UnexpectedReply);
                    }
                    match result {
                        Ok(lines) => {
                            self.replies.push(lines);
                            inspector.answered = true;
                        },
                        Err(said) => return Err(ExchangeError::Rejected(said)),
                    }
                },
                Incoming::Notification(Notification::Exit(reason)) => {
                    if inspector.answered {
                        return Err(ExchangeError::Ended(reason));
                    }
                    return Err(ExchangeError::NeverAttached);
                },
                Incoming::Notification(notification) => {
                    self.notifications.push((self.replies.len(), notification));
                },
            }
        }
        assert(all.take(all.len() as int) =~= all);
        Ok(self.replies.len() == self.ids.len())
    }

    /// Ends a complete exchange. A small one times the round trip.
    pub fn finish(self, inspector: &mut Inspector, elapsed: Duration) -> (r: Batch)
        ensures
            times(self, *old(inspector), elapsed, r, *final(inspector)),
    {
        if self.ids.len() <= MAX_TIMED_REPLIES {
            inspector.last_rtt = Some(elapsed);
        }
        Batch { replies: self.replies, notifications: self.notifications }
    }
}

/// The replies to a batch, and what tmux said meanwhile.
pub struct Batch {
    pub replies: Vec<Vec<String>>,
    /// Each notification with the number of replies that came before it.
    pub notifications: Vec<(usize, Notification)>,
}

/// Replies come in the order of their commands, each command has at most one,
/// and every notification keeps its place among them.
pub proof fn replies_come_in_order(p: Progress, ids: Seq<u64>, events: Seq<Incoming>)
    requires
        p.replies.len() <= ids.len(),
    ensures
        ({
            let q = absorbed(p, ids, events).0;
            &&& p.replies.len() <= q.replies.len() <= ids.len()
            &&& q.replies.take(p.replies.len() as int) == p.replies
            &&& q.notifications.len() >= p.notifications.len()
            &&& q.notifications.take(p.notifications.len() as int) == p.notifications
            &&& p.answered ==> q.answered
        }),
    decreases events.len(),
{
    let q = absorbed(p, ids, events).0;
    if events.len() > 0 {
        replies_come_in_order(p, ids, events.drop_last());
        let (before, error) = absorbed(p, ids, events.drop_last());
        assert(q.replies.take(p.replies.len() as int) =~= before.replies.take(
            p.replies.len() as int,
        ));
        assert(q.notifications.take(p.notifications.len() as int) =~= before.notifications.take(
            p.notifications.len() as int,
        ));
    } else {
        assert(q.replies.take(p.replies.len() as int) =~= p.replies);
        assert(q.notifications.take(p.notifications.len() as int) =~= p.notifications);
    }
}

/// Why something is read.
#[derive(Clone, Copy, Debug, PartialEq, Eq, Structural)]
pub enum ReadPurpose {
    Reply,
    Poll,
}

/// What to do before a read.
#[derive(Debug)]
pub enum Gate {
    Read,
    /// Nothing came in time, and nothing had to.
    Idle,
    Fail(ExchangeError),
}

/// What is done before a read.
pub open spec fn reads_next(purpose: ReadPurpose, expired: bool, woken: bool, r: Gate) -> bool {
    r == (if expired {
        if purpose == ReadPurpose::Reply {
            Gate::Fail(ExchangeError::ReplyExpired)
        } else {
            Gate::Idle
        }
    } else if purpose == ReadPurpose::Poll && woken {
        Gate::Idle
    } else {
        Gate::Read
    })
}

/// What to do before a read: a reply that is late is a failure, while listening
/// simply ends at its deadline or when it is woken.
pub fn before_read(purpose: ReadPurpose, expired: bool, woken: bool) -> (r: Gate)
    ensures
        reads_next(purpose, expired, woken, r),
{
    if expired {
        if purpose == ReadPurpose::Reply {
            return Gate::Fail(ExchangeError::ReplyExpired);
        }
        return Gate::Idle;
    }
    if purpose == ReadPurpose::Poll && woken {
        return Gate::Idle;
    }
    Gate::Read
}

/// What a read came to.
#[derive(Debug)]
pub enum ReadOutcome {
    Read(Vec<u8>),
    WouldBlock,
    Interrupted,
    Failed(Fault),
}

/// What reading a complaint comes to.
pub open spec fn takes_complaint(
    before: Inspector,
    outcome: ReadOutcome,
    r: Result<usize, ExchangeError>,
    after: Inspector,
) -> bool {
    &&& after == (Inspector { stderr: after.stderr, ..before })
    &&& match outcome {
        ReadOutcome::Read(bytes) => if before.stderr@.len() + bytes@.len()
            <= MAX_STDERR {
            r == Ok::<usize, ExchangeError>(bytes@.len() as usize) && after.stderr@
                == before.stderr@ + bytes@
        } else {
            r == Err::<usize, ExchangeError>(ExchangeError::TooMuchStderr) && after.stderr == before.stderr
        },
        ReadOutcome::WouldBlock | ReadOutcome::Interrupted => r == Ok::<
            usize,
            ExchangeError,
        >(0) && after.stderr == before.stderr,
        ReadOutcome::Failed(error) => r == Err::<usize, ExchangeError>(
            ExchangeError::StderrFailed(error),
        ) && after.stderr == before.stderr,
    }
}

impl Inspector {
    /// Takes what was read of the remote side's complaints. Returns how many
    /// bytes that was.
    pub fn take_stderr(&mut self, outcome: ReadOutcome) -> (r: Result<usize, ExchangeError>)
        requires
            old(self).wf(),
        ensures
            final(self).wf(),
            takes_complaint(*old(self), outcome, r, *final(self)),
    {
        match outcome {
            ReadOutcome::Read(bytes) => {
                if bytes.len() > MAX_STDERR - self.stderr.len() {
                    return Err(ExchangeError::TooMuchStderr);
                }
                push_bytes(&mut self.stderr, bytes.as_slice());
                Ok(bytes.len())
            },
            ReadOutcome::WouldBlock | ReadOutcome::Interrupted => Ok(0),
            ReadOutcome::Failed(error) => Err(ExchangeError::StderrFailed(error)),
        }
    }
}

/// Something that no control stream holds: a line that is neither a reply nor
/// marked as a notification.
pub open spec fn stray(event: Incoming) -> bool {
    match event {
        Incoming::Notification(Notification::Unknown(line)) => line@.len() == 0 || line@[0] != '%',
        _ => false,
    }
}

/// Refuses events that no control stream holds.
pub fn check_events(events: &Vec<Incoming>) -> (r: Result<(), ExchangeError>)
    ensures
        match r {
            Ok(()) => forall|i: int| 0 <= i < events@.len() ==> !stray(#[trigger] events@[i]),
            Err(error) => error == ExchangeError::UnexpectedStdout && exists|i: int|
                0 <= i < events@.len() && stray(#[trigger] events@[i]),
        },
{
    for i in 0..events.len()
        invariant
            forall|j: int| 0 <= j < i ==> !stray(#[trigger] events@[j]),
    {
        if let Incoming::Notification(Notification::Unknown(line)) = &events[i] {
            let v = text::chars_of(line.as_str());
            if v.len() == 0 || v[0] != '%' {
                assert(stray(events@[i as int]));
                return Err(ExchangeError::UnexpectedStdout);
            }
        }
    }
    Ok(())
}

/// What to do after a read.
#[derive(Debug)]
pub enum AfterRead {
    /// Hand out what came.
    Deliver,
    /// Nothing came: wait for more.
    Wait,
    Fail(ExchangeError),
}

/// What is done after a read.
pub open spec fn goes_on(bytes: usize, ended: bool, r: AfterRead) -> bool {
    r == (if bytes != 0 {
        AfterRead::Deliver
    } else if ended {
        AfterRead::Fail(ExchangeError::ChannelEnded)
    } else {
        AfterRead::Wait
    })
}

/// What to do after a read that brought so many bytes. tmux announces an orderly
/// end, so an end without that is transport loss.
pub fn after_read(bytes: usize, ended: bool) -> (r: AfterRead)
    ensures
        goes_on(bytes, ended, r),
{
    if bytes != 0 {
        AfterRead::Deliver
    } else if ended {
        AfterRead::Fail(ExchangeError::ChannelEnded)
    } else {
        AfterRead::Wait
    }
}

/// What is done after a wait that failed.
pub open spec fn waits_on(purpose: ReadPurpose, error: ssh::Error, r: Gate) -> bool {
    if error.kind == ssh::Kind::Timeout && purpose == ReadPurpose::Poll {
        r == Gate::Idle
    } else {
        match r {
            Gate::Fail(ExchangeError::WaitFailed(fault)) => fault::single_layer(
                fault,
                Cause::Ssh(error.kind),
                error.message@,
            ),
            _ => false,
        }
    }
}

/// What to do after a wait that failed: listening ends at its deadline, and
/// everything else is passed on.
pub fn after_wait(purpose: ReadPurpose, error: ssh::Error) -> (r: Gate)
    ensures
        waits_on(purpose, error, r),
{
    if error.kind == ssh::Kind::Timeout && purpose == ReadPurpose::Poll {
        return Gate::Idle;
    }
    Gate::Fail(ExchangeError::WaitFailed(Fault::ssh(error)))
}

/// What listening brought: notifications alone, in order. A reply that nothing
/// asked for is a failure.
pub open spec fn notifications_of(events: Seq<Incoming>) -> Option<Seq<Notification>>
    decreases events.len(),
{
    if events.len() == 0 {
        Some(Seq::empty())
    } else {
        match (notifications_of(events.drop_last()), events.last()) {
            (Some(before), Incoming::Notification(notification)) => Some(before.push(notification)),
            _ => None,
        }
    }
}

proof fn lemma_no_notifications(events: Seq<Incoming>, n: int)
    requires
        0 <= n <= events.len(),
        notifications_of(events.take(n)) is None,
    ensures
        notifications_of(events) is None,
    decreases events.len(),
{
    if n < events.len() {
        assert(events.drop_last().take(n) =~= events.take(n));
        lemma_no_notifications(events.drop_last(), n);
    } else {
        assert(events.take(n) =~= events);
    }
}

/// What listening brought.
pub fn polled(events: Vec<Incoming>) -> (r: Result<Vec<Notification>, ExchangeError>)
    ensures
        match r {
            Ok(notifications) => notifications_of(events@) == Some(notifications@),
            Err(error) => error == ExchangeError::UnsolicitedReply && notifications_of(
                events@,
            ) is None,
        },
{
    let ghost all = events@;
    let mut notifications: Vec<Notification> = Vec::new();
    assert(all.take(0) =~= Seq::<Incoming>::empty());
    for event in it: events
        invariant
            all == it.seq(),
            notifications_of(all.take(it.index())) == Some(notifications@),
    {
        let ghost n = it.index();
        assert(all.take(n + 1).drop_last() =~= all.take(n));
        assert(all.take(n + 1).last() == event);
        match event {
            Incoming::Notification(notification) => notifications.push(notification),
            Incoming::Reply { .. } => {
                proof {
                    lemma_no_notifications(all, n + 1);
                }
                return Err(ExchangeError::UnsolicitedReply);
            },
        }
    }
    assert(all.take(all.len() as int) =~= all);
    Ok(notifications)
}

/// A rename that failed with these words leaves the stream usable.
pub open spec fn keeps_stream(said: Seq<char>, r: bool) -> bool {
    r == text::contains(said, "tmux rejected request"@)
}

/// Whether a rename that failed leaves the stream usable: a rejection completes
/// its reply, so the stream stays aligned; anything else might not.
pub fn rename_keeps_stream(error: &Fault) -> (r: bool)
    requires
        error.layers@.len() > 0,
    ensures
        keeps_stream(error.layers@[0].text@, r),
{
    let v = text::chars_of(error.layers[0].text.as_str());
    text::has(v.as_slice(), "tmux rejected request")
}

/// A deadline is a timeout and a channel that ends is transport loss, also where tmux
/// has answered; nothing else in an exchange is either.
pub proof fn which_exchange_errors_are_transport_loss(error: ExchangeError, fault: Fault)
    requires
        is_fault_of(fault, error),
        !(error is WriteFailed || error is StderrFailed || error is StdoutFailed
            || error is WaitFailed),
    ensures
        fault.layers@.len() == 1,
        error is WriteExpired || error is ReplyExpired <==> fault.layers@[0].cause == Cause::Ssh(
            ssh::Kind::Timeout,
        ),
        error is WriteClosed || error is ChannelEnded <==> fault.layers@[0].cause == Cause::Ssh(
            ssh::Kind::Transport,
        ),
        !(error is WriteExpired || error is ReplyExpired || error is WriteClosed
            || error is ChannelEnded) ==> fault.layers@[0].cause == Cause::Message,
{
}

/// Commands stand on one line in their order, with a separator between two of them;
/// a line feed at the end of a command is left out.
pub proof fn a_batch_keeps_its_commands_in_order(commands: Seq<Seq<char>>, command: Seq<char>)
    ensures
        !command.contains('\n') ==> one_line(seq![command]) == command,
        one_line(seq![command.push('\n')]) == command,
        commands.len() > 0 && !command.contains('\n') ==> one_line(commands.push(command))
            == one_line(commands) + seq![' ', ';', ' '] + command,
        commands.len() > 0 ==> one_line(commands.push(command.push('\n'))) == one_line(commands)
            + seq![' ', ';', ' '] + command,
{
    reveal_strlit(" ; ");
    assert(" ; "@ =~= seq![' ', ';', ' ']);
    assert(command.push('\n').drop_last() =~= command);
    assert(commands.push(command).drop_last() =~= commands);
    assert(commands.push(command.push('\n')).drop_last() =~= commands);
    if command.len() > 0 && command.last() == '\n' {
        assert(command.contains(command[command.len() - 1]));
    }
}

/// A batch is sent if it has from one to two hundred and fifty-six commands, each of
/// them one line of at most 4096 bytes, and is shorter than 512 KiB as a whole.
pub proof fn which_batches_are_sent(commands: Seq<Seq<char>>)
    ensures
        batch_error(commands) is None <==> 1 <= commands.len() <= 256 && all_sound(commands)
            && text::byte_len(one_line(commands)) < 524_288,
        commands.len() == 0 || commands.len() > 256 ==> batch_error(commands) == Some(
            ExchangeError::CommandCount,
        ),
{
}

/// A command is sound if it is not empty, has at most 4096 bytes, and holds no line
/// feed, no carriage return and no null.
pub proof fn which_commands_are_sound(s: Seq<char>, i: int)
    ensures
        sound_command(s) ==> s.len() > 0 && text::byte_len(s) <= 4096,
        sound_command(s) && 0 <= i < s.len() ==> s[i] != '\n' && s[i] != '\r' && s[i] != '\0',
        0 <= i < s.len() && (s[i] == '\n' || s[i] == '\r' || s[i] == '\0') ==> !sound_command(s),
{
    if 0 <= i < s.len() && (s[i] == '\n' || s[i] == '\r' || s[i] == '\0') {
        assert(line_breaker(s[i]));
    }
    if sound_command(s) && 0 <= i < s.len() {
        assert(!line_breaker(s[i]));
    }
}

/// The reply that is due is taken, with its lines; any other reply ends the exchange,
/// and so does one that tmux rejected, with what tmux said.
pub proof fn only_the_reply_that_is_due_is_taken(
    p: Progress,
    ids: Seq<u64>,
    id: u64,
    lines: Vec<String>,
    said: String,
)
    ensures
        ({
            let due = p.replies.len() < ids.len() && ids[p.replies.len() as int] == id;
            let taken = absorbed_one(p, ids, Incoming::Reply { id, result: Ok(lines) });
            let rejected = absorbed_one(p, ids, Incoming::Reply { id, result: Err(said) });
            &&& due ==> taken.1 is None && taken.0.replies == p.replies.push(lines)
                && taken.0.answered && taken.0.notifications == p.notifications
            &&& due ==> rejected.1 == Some(ExchangeError::Rejected(said)) && rejected.0 == p
            &&& !due ==> taken.1 == Some(ExchangeError::UnexpectedReply) && taken.0 == p
            &&& !due ==> rejected.1 == Some(ExchangeError::UnexpectedReply) && rejected.0 == p
        }),
{
}

/// An exit ends the exchange: before tmux answered anything it means that nothing was
/// attached. Any other notification is kept, with the number of replies before it.
pub proof fn notifications_keep_their_place(
    p: Progress,
    ids: Seq<u64>,
    reason: Option<String>,
    notification: Notification,
)
    requires
        p.replies.len() <= usize::MAX,
    ensures
        p.answered ==> absorbed_one(
            p,
            ids,
            Incoming::Notification(Notification::Exit(reason)),
        ).1 == Some(ExchangeError::Ended(reason)),
        !p.answered ==> absorbed_one(
            p,
            ids,
            Incoming::Notification(Notification::Exit(reason)),
        ).1 == Some(ExchangeError::NeverAttached),
        !(notification is Exit) ==> ({
            let (q, error) = absorbed_one(p, ids, Incoming::Notification(notification));
            &&& error is None
            &&& q.replies == p.replies && q.answered == p.answered
            &&& q.notifications.len() == p.notifications.len() + 1
            &&& q.notifications.drop_last() == p.notifications
            &&& q.notifications.last() == (p.replies.len() as usize, notification)
        }),
{
    if !(notification is Exit) {
        let q = absorbed_one(p, ids, Incoming::Notification(notification)).0;
        assert(q.notifications.drop_last() =~= p.notifications);
    }
}

/// Events are taken one after the other, and the first that ends the exchange is the
/// last that is looked at.
pub proof fn events_are_taken_in_order(
    p: Progress,
    ids: Seq<u64>,
    events: Seq<Incoming>,
    event: Incoming,
)
    ensures
        absorbed(p, ids, Seq::empty()) == (p, None::<ExchangeError>),
        absorbed(p, ids, events).1 is Some ==> absorbed(p, ids, events.push(event)) == absorbed(
            p,
            ids,
            events,
        ),
        absorbed(p, ids, events).1 is None ==> absorbed(p, ids, events.push(event))
            == absorbed_one(absorbed(p, ids, events).0, ids, event),
{
    assert(events.push(event).drop_last() =~= events);
}

/// Listening brings notifications in their order, and a reply among them is a failure.
pub proof fn listening_brings_notifications_in_order(
    events: Seq<Incoming>,
    notification: Notification,
    reply: Incoming,
)
    requires
        reply is Reply,
    ensures
        notifications_of(Seq::empty()) == Some(Seq::<Notification>::empty()),
        notifications_of(events) is Some ==> notifications_of(
            events.push(Incoming::Notification(notification)),
        ) == Some(notifications_of(events)->0.push(notification)),
        notifications_of(events) is None ==> notifications_of(
            events.push(Incoming::Notification(notification)),
        ) is None,
        notifications_of(events.push(reply)) is None,
{
    assert(events.push(Incoming::Notification(notification)).drop_last() =~= events);
    assert(events.push(reply).drop_last() =~= events);
}

/// A line that tmux does not mark as a notification belongs to no control stream; one
/// that it marks, and everything that was understood, does.
pub proof fn only_unmarked_lines_are_stray(line: String, event: Incoming)
    ensures
        line@.len() > 0 && line@[0] == '%' ==> !stray(
            Incoming::Notification(Notification::Unknown(line)),
        ),
        line@.len() == 0 || line@[0] != '%' ==> stray(
            Incoming::Notification(Notification::Unknown(line)),
        ),
        event is Reply ==> !stray(event),
        event is Notification && !(event->Notification_0 is Unknown) ==> !stray(event),
{
}

/// A reply that is late is a failure; listening ends at its deadline or when it is woken,
/// and otherwise something is read.
pub proof fn a_late_reply_is_a_failure(purpose: ReadPurpose, expired: bool, woken: bool, r: Gate)
    requires
        reads_next(purpose, expired, woken, r),
    ensures
        purpose == ReadPurpose::Reply && expired ==> r == Gate::Fail(ExchangeError::ReplyExpired),
        purpose == ReadPurpose::Reply && !expired ==> r == Gate::Read,
        purpose == ReadPurpose::Poll && (expired || woken) ==> r == Gate::Idle,
        purpose == ReadPurpose::Poll && !expired && !woken ==> r == Gate::Read,
{
}

/// What was read is handed out, even where the stream ended behind it; an end without
/// anything is transport loss.
pub proof fn an_end_without_a_word_is_a_failure(bytes: usize, ended: bool, r: AfterRead)
    requires
        goes_on(bytes, ended, r),
    ensures
        bytes > 0 ==> r is Deliver,
        bytes == 0 && ended ==> r == AfterRead::Fail(ExchangeError::ChannelEnded),
        bytes == 0 && !ended ==> r is Wait,
{
}

/// Only listening may run out of time; any other wait that failed is passed on as what it
/// is.
pub proof fn a_failed_wait_is_passed_on(purpose: ReadPurpose, error: ssh::Error, r: Gate)
    requires
        waits_on(purpose, error, r),
    ensures
        purpose == ReadPurpose::Poll && error.kind == ssh::Kind::Timeout ==> r == Gate::Idle,
        purpose == ReadPurpose::Reply || error.kind != ssh::Kind::Timeout ==> r is Fail
            && r->Fail_0 is WaitFailed && r->Fail_0->WaitFailed_0.layers@.len() == 1
            && r->Fail_0->WaitFailed_0.layers@[0].cause == Cause::Ssh(error.kind),
{
}

/// What was written is never written again and nothing is left out: a write moves on by
/// what it took, one that took nothing is a closed channel, and one that would block is
/// waited for.
pub proof fn a_write_moves_on_by_what_it_took(
    before: Sender,
    outcome: WriteOutcome,
    r: Result<bool, ExchangeError>,
    after: Sender,
)
    requires
        writes(before, outcome, r, after),
    ensures
        after.wire == before.wire,
        outcome is Wrote ==> after.sent == before.sent + outcome->Wrote_0,
        !(outcome is Wrote) ==> after.sent == before.sent,
        outcome is Wrote && outcome->Wrote_0 == 0 ==> r == Err::<bool, ExchangeError>(
            ExchangeError::WriteClosed,
        ),
        outcome is Wrote && outcome->Wrote_0 > 0 ==> r == Ok::<bool, ExchangeError>(false),
        outcome is WouldBlock ==> r == Ok::<bool, ExchangeError>(true),
        outcome is Interrupted ==> r == Ok::<bool, ExchangeError>(false),
        outcome is Failed ==> r is Err && r->Err_0 is WriteFailed,
{
}

/// An exchange is complete when every reply has come, and brings no more than 8 MiB.
pub proof fn an_exchange_is_complete_with_its_last_reply(
    before: Exchange,
    inspector: Inspector,
    events: Seq<Incoming>,
    bytes: usize,
    r: Result<bool, ExchangeError>,
    after: Exchange,
    inspected: Inspector,
)
    requires
        before.wf(),
        takes(before, inspector, events, bytes, r, after, inspected),
    ensures
        r is Ok ==> (r->Ok_0 <==> after.replies@.len() == after.ids@.len()),
        r is Ok ==> before.total + bytes <= 8_388_608 && after.total == before.total + bytes,
        before.total + bytes > 8_388_608 ==> r is Err,
        after.ids == before.ids,
        r is Ok ==> after.replies@.take(before.replies@.len() as int) == before.replies@,
{
    replies_come_in_order(before.progress(inspector), before.ids@, events);
}

/// A complaint is kept whole, up to 64 KiB.
pub proof fn a_complaint_is_kept_whole(
    before: Inspector,
    outcome: ReadOutcome,
    r: Result<usize, ExchangeError>,
    after: Inspector,
)
    requires
        takes_complaint(before, outcome, r, after),
    ensures
        outcome is Read && before.stderr@.len() + outcome->Read_0@.len() <= 65_536
            ==> after.stderr@ == before.stderr@ + outcome->Read_0@ && r == Ok::<
            usize,
            ExchangeError,
        >(outcome->Read_0@.len() as usize),
        outcome is Read && before.stderr@.len() + outcome->Read_0@.len() > 65_536 ==> r == Err::<
            usize,
            ExchangeError,
        >(ExchangeError::TooMuchStderr) && after.stderr == before.stderr,
        outcome is WouldBlock || outcome is Interrupted ==> r == Ok::<usize, ExchangeError>(0)
            && after.stderr == before.stderr,
        outcome is Failed ==> r is Err && r->Err_0 is StderrFailed && after.stderr
            == before.stderr,
{
}

/// A rename that tmux rejected leaves the stream usable, because what a rejection reads
/// like is what is looked for.
pub proof fn a_rejection_keeps_the_stream(error: ExchangeError, fault: Fault, r: bool)
    requires
        is_fault_of(fault, error),
        error is Rejected,
        keeps_stream(fault.layers@[0].text@, r),
    ensures
        r,
{
    reveal_strlit("tmux rejected request: ");
    reveal_strlit("tmux rejected request");
    let said = fault.layers@[0].text@;
    let part = "tmux rejected request"@;
    assert(said.subrange(0, part.len() as int) =~= part);
    assert(text::occurs_at(said, part, 0));
}

/// A deadline that passed or a channel that ended does not leave the stream usable.
pub proof fn a_lost_stream_is_not_kept(error: ExchangeError, fault: Fault, r: bool)
    requires
        is_fault_of(fault, error),
        error is ReplyExpired,
        keeps_stream(fault.layers@[0].text@, r),
    ensures
        !r,
{
    reveal_strlit("tmux reply deadline expired");
    reveal_strlit("tmux rejected request");
    let said = fault.layers@[0].text@;
    let part = "tmux rejected request"@;
    assert forall|i: int| !text::occurs_at(said, part, i) by {
        if text::occurs_at(said, part, i) {
            assert(said.subrange(i, i + part.len())[4] == said[i + 4]);
            assert(said.subrange(i, i + part.len())[7] == said[i + 7]);
            assert(part[4] == ' ' && part[7] == 'j');
            assert(0 <= i <= 6);
        }
    }
}

/// An exchange of at most eight replies times the round trip; a longer one keeps the time
/// before it. Either hands out every reply and every notification.
pub proof fn a_small_exchange_is_timed(
    before: Exchange,
    inspector: Inspector,
    elapsed: Duration,
    r: Batch,
    inspected: Inspector,
)
    requires
        times(before, inspector, elapsed, r, inspected),
    ensures
        r.replies == before.replies && r.notifications == before.notifications,
        before.ids@.len() <= 8 ==> inspected.last_rtt == Some(elapsed),
        before.ids@.len() > 8 ==> inspected.last_rtt == inspector.last_rtt,
        inspected.answered == inspector.answered && inspected.stderr == inspector.stderr,
{
}

/// A line is done when all of it is written, even where its deadline passed meanwhile.
pub proof fn a_line_is_done_when_it_is_written(before: Sender, expired: bool, r: SendStep)
    requires
        sends_on(before, expired, r),
    ensures
        before.sent == before.wire@.len() ==> r == SendStep::Done,
        before.sent < before.wire@.len() && expired ==> r == SendStep::Expired,
        before.sent < before.wire@.len() && !expired ==> r == SendStep::Write,
{
}

/// What the user is told of an exchange that failed.
pub proof fn what_is_told_of_a_failed_exchange(said: String)
    ensures
        plain_text(ExchangeError::CommandCount) == Some("invalid command count"@),
        plain_text(ExchangeError::InvalidCommand) == Some("invalid internal control command"@),
        plain_text(ExchangeError::BatchTooLong) == Some("command batch exceeds 512 KiB"@),
        plain_text(ExchangeError::ReplyCount) == Some("invalid reply count"@),
        plain_text(ExchangeError::TransactionTooLong) == Some(
            "control transaction exceeds budget"@,
        ),
        plain_text(ExchangeError::BudgetOverflow) == Some("wire budget overflow"@),
        plain_text(ExchangeError::OverBudget) == Some("tmux batch exceeds 8 MiB wire budget"@),
        plain_text(ExchangeError::UnexpectedReply) == Some("unexpected command reply"@),
        plain_text(ExchangeError::Rejected(said)) == Some("tmux rejected request: "@ + said@),
        plain_text(ExchangeError::NeverAttached) == Some(
            "tmux could not attach that session; it may not exist on this server"@,
        ),
        plain_text(ExchangeError::Ended(None)) == Some(
            "tmux attachment ended ("@ + "None"@ + ")"@,
        ),
        plain_text(ExchangeError::UnsolicitedReply) == Some("unsolicited command reply"@),
        plain_text(ExchangeError::TooMuchStderr) == Some("remote stderr exceeds 64 KiB"@),
        plain_text(ExchangeError::UnexpectedStdout) == Some(
            "unexpected stdout in tmux control stream"@,
        ),
{
}

/// A session that could not be attached is taken for a missing session, and a deadline
/// for transport loss.
pub proof fn how_exchange_errors_are_classified(error: ExchangeError, fault: Fault)
    requires
        is_fault_of(fault, error),
    ensures
        error is NeverAttached ==> crate::reconnect::classified(fault.layers@)
            == crate::reconnect::Failure::MissingSession,
        error is ChannelEnded || error is WriteClosed || error is WriteExpired
            || error is ReplyExpired ==> crate::reconnect::typed(fault.layers@) == Some(
            crate::reconnect::Failure::Transport,
        ),
{
    if error is NeverAttached {
        let whole = "tmux could not attach that session; it may not exist on this server"@;
        let part = "could not attach that session"@;
        reveal_strlit("tmux could not attach that session; it may not exist on this server");
        reveal_strlit("could not attach that session");
        let said = text::lowered(fault::rendered(fault.layers@));
        assert(fault::rendered(fault.layers@) == whole);
        assert(said.subrange(5, 5 + part.len() as int) =~= part);
        assert(text::occurs_at(said, part, 5));
        assert(crate::reconnect::verdict(fault.layers@[0].cause) is None);
        assert(fault.layers@.skip(1).len() == 0);
        assert(crate::reconnect::typed(fault.layers@.skip(1)) is None);
    }
}

} // verus!
