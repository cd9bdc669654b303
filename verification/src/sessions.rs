//! Explicit session discovery and creation, without changing attach semantics.
//!
//! Listing runs `tmux -N`, so asking what exists can never bring a server into
//! existence. Creating omits `-N` on purpose, because starting a server is the
//! whole point of that action. Nothing here is a fallback after a failed attach.
use vstd::prelude::*;
use crate::command;
use crate::model::{nameable, SessionName, Size};
use crate::text;

verus! {

/// The most bytes taken of either output stream.
pub const MAX_OUTPUT: usize = 65_536;

/// The most sessions that one host may list.
pub const MAX_SESSIONS: usize = 256;

/// The most characters of a remote complaint that are shown.
pub const MAX_COMPLAINT: usize = 512;

/// What a remote tmux server reports about one session. Names come from the
/// remote host, so they are data: bounded, control-free, and never a command.
#[derive(Clone, Debug)]
pub struct Summary {
    pub name: String,
    pub windows: usize,
    pub attached: usize,
}

/// What a summary says: name, windows, attached clients.
pub type Listed = (Seq<char>, nat, nat);

impl View for Summary {
    type V = Listed;

    open spec fn view(&self) -> Listed {
        (self.name@, self.windows as nat, self.attached as nat)
    }
}

/// What each summary of a list says.
pub open spec fn views(v: Seq<Summary>) -> Seq<Listed> {
    Seq::new(v.len(), |i: int| v[i]@)
}

/// How a session is described to the user.
pub open spec fn description(windows: nat, attached: nat) -> Seq<char> {
    text::digits(windows) + (if windows == 1 {
        " window"@
    } else {
        " windows"@
    }) + (if attached == 0 {
        Seq::empty()
    } else {
        ", attached"@
    })
}

impl Summary {
    /// How the session is described to the user.
    pub fn describe(&self) -> (r: String)
        ensures
            r@ == description(self@.1, self@.2),
    {
        let mut r = text::decimal(self.windows as u64);
        if self.windows == 1 {
            text::push_text(&mut r, " window");
        } else {
            text::push_text(&mut r, " windows");
        }
        if self.attached != 0 {
            text::push_text(&mut r, ", attached");
        }
        assert(r@ =~= description(self@.1, self@.2));
        r
    }
}

/// Why a query failed.
#[derive(Debug)]
pub enum Error {
    /// The socket path or session name cannot be quoted for the remote shell.
    Unquotable,
    /// The command ran past its deadline.
    Deadline,
    /// One of the output streams is too long.
    TooMuchOutput,
    /// tmux complained and printed nothing else; the complaint is escaped.
    Reported(String),
    NotUtf8,
    TooManySessions,
    UnexpectedListing,
    UntargetableName,
    InvalidWindowCount,
    InvalidAttachedCount,
}

/// What an error says, apart from how its complaint is held.
pub enum Refusal {
    Unquotable,
    Deadline,
    TooMuchOutput,
    Reported(Seq<char>),
    NotUtf8,
    TooManySessions,
    UnexpectedListing,
    UntargetableName,
    InvalidWindowCount,
    InvalidAttachedCount,
}

impl View for Error {
    type V = Refusal;

    open spec fn view(&self) -> Refusal {
        match *self {
            Error::Unquotable => Refusal::Unquotable,
            Error::Deadline => Refusal::Deadline,
            Error::TooMuchOutput => Refusal::TooMuchOutput,
            Error::Reported(detail) => Refusal::Reported(detail@),
            Error::NotUtf8 => Refusal::NotUtf8,
            Error::TooManySessions => Refusal::TooManySessions,
            Error::UnexpectedListing => Refusal::UnexpectedListing,
            Error::UntargetableName => Refusal::UntargetableName,
            Error::InvalidWindowCount => Refusal::InvalidWindowCount,
            Error::InvalidAttachedCount => Refusal::InvalidAttachedCount,
        }
    }
}

/// What the user is told about an error.
pub open spec fn refusal_text(refusal: Refusal) -> Seq<char> {
    match refusal {
        Refusal::Unquotable => "text for the remote shell holds control characters"@,
        Refusal::Deadline => "listing sessions exceeded its deadline"@,
        Refusal::TooMuchOutput => "remote output exceeds 65536 bytes"@,
        Refusal::Reported(detail) => "tmux reported: "@ + detail,
        Refusal::NotUtf8 => "remote output is not UTF-8"@,
        Refusal::TooManySessions => "host reports more than 256 sessions"@,
        Refusal::UnexpectedListing => "unexpected session listing from the host"@,
        Refusal::UntargetableName => "host listed a session name Starcom cannot target"@,
        Refusal::InvalidWindowCount => "invalid window count"@,
        Refusal::InvalidAttachedCount => "invalid attached count"@,
    }
}

impl Error {
    /// What the user is told.
    pub fn to_text(&self) -> (r: String)
        ensures
            r@ == refusal_text(self@),
    {
        match self {
            Error::Unquotable => "text for the remote shell holds control characters".to_owned(),
            Error::Deadline => "listing sessions exceeded its deadline".to_owned(),
            Error::TooMuchOutput => "remote output exceeds 65536 bytes".to_owned(),
            Error::Reported(detail) => {
                let mut r = "tmux reported: ".to_owned();
                text::push_text(&mut r, detail.as_str());
                r
            },
            Error::NotUtf8 => "remote output is not UTF-8".to_owned(),
            Error::TooManySessions => "host reports more than 256 sessions".to_owned(),
            Error::UnexpectedListing => "unexpected session listing from the host".to_owned(),
            Error::UntargetableName => "host listed a session name Starcom cannot target".to_owned(),
            Error::InvalidWindowCount => "invalid window count".to_owned(),
            Error::InvalidAttachedCount => "invalid attached count".to_owned(),
        }
    }
}

/// The option that names a socket, where one is given.
pub open spec fn socket_option(socket: Option<Seq<char>>) -> Seq<char> {
    match socket {
        Some(path) => " -S "@ + command::quoted(path),
        None => Seq::empty(),
    }
}

/// The socket, if there is one, can be quoted for a shell.
pub open spec fn socket_quotable(socket: Option<Seq<char>>) -> bool {
    match socket {
        Some(path) => !text::has_control(path),
        None => true,
    }
}

/// The text of an optional argument.
pub open spec fn given(socket: Option<&str>) -> Option<Seq<char>> {
    match socket {
        Some(s) => Some(s@),
        None => None,
    }
}

/// The command that lists a host's sessions.
pub open spec fn list_wire(socket: Option<Seq<char>>) -> Seq<char> {
    "exec tmux -N"@ + socket_option(socket)
        + " list-sessions -F '#{session_name}\t#{session_windows}\t#{session_attached}'"@
}

/// The command that creates a session.
pub open spec fn create_wire(
    socket: Option<Seq<char>>,
    session: Seq<char>,
    size: Size,
) -> Seq<char> {
    "exec tmux"@ + socket_option(socket) + " new-session -d -s "@ + command::quoted(session)
        + " -x "@ + text::digits(size.width()) + " -y "@ + text::digits(size.height())
}

fn push_socket(wire: &mut String, socket: Option<&str>) -> (r: Result<(), Error>)
    ensures
        match r {
            Ok(()) => socket_quotable(given(socket)) && final(wire)@ == old(wire)@ + socket_option(
                given(socket),
            ),
            Err(error) => error@ == Refusal::Unquotable && !socket_quotable(given(socket)),
        },
{
    match socket {
        Some(socket) => {
            text::push_text(wire, " -S ");
            match command::shell_quote(socket) {
                Ok(word) => {
                    text::push_text(wire, word.as_str());
                    assert(wire@ =~= old(wire)@ + (" -S "@ + command::quoted(socket@)));
                    Ok(())
                },
                Err(_) => Err(Error::Unquotable),
            }
        },
        None => {
            assert(wire@ =~= old(wire)@ + Seq::<char>::empty());
            Ok(())
        },
    }
}

/// The command that lists the sessions on a host. `-N` forbids starting a
/// server, so a host with no tmux running stays that way and lists nothing.
pub fn list(socket: Option<&str>) -> (r: Result<String, Error>)
    ensures
        match r {
            Ok(wire) => socket_quotable(given(socket)) && wire@ == list_wire(given(socket)),
            Err(error) => error@ == Refusal::Unquotable && !socket_quotable(given(socket)),
        },
{
    let mut wire = "exec tmux -N".to_owned();
    match push_socket(&mut wire, socket) {
        Ok(()) => {},
        Err(error) => return Err(error),
    }
    text::push_text(
        &mut wire,
        " list-sessions -F '#{session_name}\t#{session_windows}\t#{session_attached}'",
    );
    Ok(wire)
}

/// The command that creates a session and leaves it detached. It starts a tmux
/// server when none is running, so it stands behind an explicit action alone.
pub fn create(socket: Option<&str>, session: &SessionName, size: Size) -> (r: Result<
    String,
    Error,
>)
    ensures
        match r {
            Ok(wire) => socket_quotable(given(socket)) && wire@ == create_wire(
                given(socket),
                session@,
                size,
            ),
            Err(error) => error@ == Refusal::Unquotable && !socket_quotable(given(socket)),
        },
{
    let mut wire = "exec tmux".to_owned();
    match push_socket(&mut wire, socket) {
        Ok(()) => {},
        Err(error) => return Err(error),
    }
    text::push_text(&mut wire, " new-session -d -s ");
    match command::shell_quote(session.as_str()) {
        Ok(word) => text::push_text(&mut wire, word.as_str()),
        Err(_) => return Err(Error::Unquotable),
    }
    text::push_text(&mut wire, " -x ");
    text::push_decimal(&mut wire, size.columns() as u64);
    text::push_text(&mut wire, " -y ");
    text::push_decimal(&mut wire, size.rows() as u64);
    Ok(wire)
}

/// Listing never starts a server, and creating may: the one always carries `-N`
/// and the other never does.
pub proof fn listing_never_starts_a_server(socket: Option<Seq<char>>, session: Seq<char>, size: Size)
    ensures
        text::starts_with(list_wire(socket), "exec tmux -N"@),
        !text::starts_with(create_wire(socket, session, size), "exec tmux -N"@),
{
    reveal_strlit("exec tmux -N");
    reveal_strlit("exec tmux");
    reveal_strlit(" -S ");
    reveal_strlit(" new-session -d -s ");
    let list = list_wire(socket);
    assert(list.subrange(0, 12) =~= "exec tmux -N"@);
    let create = create_wire(socket, session, size);
    match socket {
        Some(path) => {
            assert(socket_option(socket)[2] == 'S');
            assert(create[11] == 'S');
        },
        None => {
            assert(create[11] == 'e');
        },
    }
    if text::starts_with(create, "exec tmux -N"@) {
        assert(create.subrange(0, 12)[11] == 'N');
    }
}

/// The two streams of a remote command.
#[derive(Clone, Copy, Debug, PartialEq, Eq, Structural)]
pub enum Stream {
    Stdout,
    Stderr,
}

/// What a remote command has printed so far, each stream within its bound.
#[derive(Debug)]
pub struct CommandOutput {
    pub stdout: Vec<u8>,
    pub stderr: Vec<u8>,
}

/// What to do next with a running command.
#[derive(Clone, Copy, Debug, PartialEq, Eq, Structural)]
pub enum Next {
    /// The command ended and everything was read.
    Finished,
    /// The deadline passed first.
    Expired,
    /// Read both streams once.
    Read,
}

/// What is next with a command that runs.
pub open spec fn runs_on(ended: bool, expired: bool, r: Next) -> bool {
    r == (if ended {
        Next::Finished
    } else if expired {
        Next::Expired
    } else {
        Next::Read
    })
}

/// What reading more of a stream comes to.
pub open spec fn takes(
    before: CommandOutput,
    stream: Stream,
    bytes: Seq<u8>,
    r: Result<(), Error>,
    after: CommandOutput,
) -> bool {
    match r {
        Ok(()) => match stream {
            Stream::Stdout => before.stdout@.len() + bytes.len() <= MAX_OUTPUT
                && after.stdout@ == before.stdout@ + bytes && after.stderr
                == before.stderr,
            Stream::Stderr => before.stderr@.len() + bytes.len() <= MAX_OUTPUT
                && after.stderr@ == before.stderr@ + bytes && after.stdout
                == before.stdout,
        },
        Err(error) => error@ == Refusal::TooMuchOutput && after == before
            && match stream {
            Stream::Stdout => before.stdout@.len() + bytes.len() > MAX_OUTPUT,
            Stream::Stderr => before.stderr@.len() + bytes.len() > MAX_OUTPUT,
        },
    }
}

impl CommandOutput {
    pub fn new() -> (r: Self)
        ensures
            r.stdout@.len() == 0,
            r.stderr@.len() == 0,
    {
        CommandOutput { stdout: Vec::new(), stderr: Vec::new() }
    }

    /// What to do next, from whether the channel ended and whether the deadline
    /// passed.
    pub fn next(ended: bool, expired: bool) -> (r: Next)
        ensures
            runs_on(ended, expired, r),
    {
        if ended {
            Next::Finished
        } else if expired {
            Next::Expired
        } else {
            Next::Read
        }
    }

    /// Takes what was read of one stream, if it stays within its bound. The
    /// other stream is as it was, and after a refusal both are.
    pub fn take(&mut self, stream: Stream, bytes: &[u8]) -> (r: Result<(), Error>)
        ensures
            takes(*old(self), stream, bytes@, r, *final(self)),
    {
        match stream {
            Stream::Stdout => {
                if self.stdout.len() > MAX_OUTPUT || bytes.len() > MAX_OUTPUT - self.stdout.len() {
                    return Err(Error::TooMuchOutput);
                }
                push_bytes(&mut self.stdout, bytes);
            },
            Stream::Stderr => {
                if self.stderr.len() > MAX_OUTPUT || bytes.len() > MAX_OUTPUT - self.stderr.len() {
                    return Err(Error::TooMuchOutput);
                }
                push_bytes(&mut self.stderr, bytes);
            },
        }
        Ok(())
    }
}

/// Appends bytes.
pub fn push_bytes(out: &mut Vec<u8>, bytes: &[u8])
    ensures
        final(out)@ == old(out)@ + bytes@,
{
    assert(old(out)@ + bytes@.take(0) =~= old(out)@);
    for i in 0..bytes.len()
        invariant
            out@ == old(out)@ + bytes@.take(i as int),
    {
        out.push(bytes[i]);
        assert(bytes@.take(i + 1) =~= bytes@.take(i as int).push(bytes@[i as int]));
        assert(out@ =~= old(out)@ + bytes@.take(i + 1));
    }
    assert(bytes@.take(bytes@.len() as int) =~= bytes@);
}

/// What a command's output amounts to: a complaint alone is a failure, and so is
/// output that is no UTF-8.
pub open spec fn output_text(stdout: Seq<u8>, stderr: Seq<u8>) -> Result<Seq<char>, Refusal> {
    if stdout.len() == 0 && stderr.len() > 0 {
        Err(
            Refusal::Reported(
                text::debug_escaped(text::first(text::lossy(stderr), MAX_COMPLAINT as nat)),
            ),
        )
    } else if vstd::utf8::valid_utf8(stdout) {
        Ok(vstd::utf8::decode_utf8(stdout))
    } else {
        Err(Refusal::NotUtf8)
    }
}

/// The text that a command printed. A complaint alone is escaped before it can
/// reach a label.
pub fn stdout_text(output: CommandOutput) -> (r: Result<String, Error>)
    ensures
        match r {
            Ok(s) => output_text(output.stdout@, output.stderr@) == Ok::<Seq<char>, Refusal>(s@),
            Err(error) => output_text(output.stdout@, output.stderr@) == Err::<
                Seq<char>,
                Refusal,
            >(error@),
        },
{
    if output.stdout.len() == 0 && output.stderr.len() > 0 {
        let said = text::lossy_text(output.stderr.as_slice());
        let brief = text::first_chars(said.as_str(), MAX_COMPLAINT);
        return Err(Error::Reported(text::escape_debug_text(brief.as_str())));
    }
    match text::utf8_text(output.stdout) {
        Some(s) => Ok(s),
        None => Err(Error::NotUtf8),
    }
}

/// What a query to create a session comes to.
pub fn created(output: CommandOutput) -> (r: Result<(), Error>)
    ensures
        match r {
            Ok(()) => output_text(output.stdout@, output.stderr@) is Ok,
            Err(error) => output_text(output.stdout@, output.stderr@) == Err::<
                Seq<char>,
                Refusal,
            >(error@),
        },
{
    match stdout_text(output) {
        Ok(_) => Ok(()),
        Err(error) => Err(error),
    }
}

/// The lines that say something: trimmed, and those left empty dropped.
pub open spec fn spoken(lines: Seq<Seq<char>>) -> Seq<Seq<char>>
    decreases lines.len(),
{
    if lines.len() == 0 {
        Seq::empty()
    } else {
        let before = spoken(lines.drop_last());
        let line = text::trimmed(lines.last());
        if line.len() == 0 {
            before
        } else {
            before.push(line)
        }
    }
}

/// tmux could not reach a server because there is none behind the socket. The
/// line is in small letters.
pub open spec fn connects_to_nothing(line: Seq<char>) -> bool {
    let prefix = "error connecting to "@;
    text::starts_with(line, prefix) && {
        let rest = line.skip(prefix.len() as int);
        text::ends_with(rest, "(no such file or directory)"@) || text::ends_with(
            rest,
            "(connection refused)"@,
        )
    }
}

/// A line by which tmux says that there is nothing to list.
pub open spec fn says_no_sessions(line: Seq<char>) -> bool {
    let low = text::lowered(line);
    low == "no sessions"@ || text::starts_with(low, "no server running"@) || connects_to_nothing(
        low,
    )
}

/// tmux said nothing but that there is nothing to list.
pub open spec fn no_sessions(said: Seq<char>) -> bool {
    let lines = spoken(text::lines(said));
    lines.len() == 1 && says_no_sessions(lines[0])
}

fn error_connecting_to_nothing(line: &[char]) -> (r: bool)
    ensures
        r == connects_to_nothing(line@),
{
    let prefix = text::chars_of("error connecting to ");
    if !text::stands_at(line, prefix.as_slice(), 0) {
        return false;
    }
    let rest = vstd::slice::slice_subrange(line, prefix.len(), line.len());
    assert(rest@ =~= line@.skip(prefix@.len() as int));
    text::ends(rest, "(no such file or directory)") || text::ends(rest, "(connection refused)")
}

/// Whether tmux said that there is nothing to list and nothing else.
pub fn host_has_no_sessions(stderr: &[u8]) -> (r: bool)
    ensures
        r == no_sessions(text::lossy(stderr@)),
        vstd::utf8::valid_utf8(stderr@) ==> r == no_sessions(vstd::utf8::decode_utf8(stderr@)),
{
    let said = text::lossy_text(stderr);
    let chars = text::chars_of(said.as_str());
    let lines = text::lines_of(chars.as_slice());
    let ghost all = text::texts(lines@);
    let mut found: Vec<Vec<char>> = Vec::new();
    assert(all.take(0) =~= Seq::<Seq<char>>::empty());
    assert(text::texts(found@) =~= spoken(all.take(0)));
    for i in 0..lines.len()
        invariant
            all == text::texts(lines@),
            text::texts(found@) == spoken(all.take(i as int)),
    {
        let line = text::trim(lines[i].as_slice());
        assert(all.take(i + 1).drop_last() =~= all.take(i as int));
        assert(all.take(i + 1).last() == lines@[i as int]@);
        if line.len() > 0 {
            let ghost before = text::texts(found@);
            found.push(line);
            assert(text::texts(found@) =~= before.push(line@));
        }
    }
    assert(all.take(all.len() as int) =~= all);
    assert(text::texts(found@).len() == found@.len());
    if found.len() != 1 {
        return false;
    }
    assert(text::texts(found@)[0] == found@[0]@);
    let low = text::to_lower(text::string_of(found[0].as_slice()).as_str());
    text::same_chars(low.as_slice(), "no sessions") || text::begins(
        low.as_slice(),
        "no server running",
    ) || error_connecting_to_nothing(low.as_slice())
}

/// One line of a listing.
pub open spec fn listed_line(line: Seq<char>) -> Result<Listed, Refusal> {
    let fields = text::split(line, '\t');
    if fields.len() != 3 {
        Err(Refusal::UnexpectedListing)
    } else if !nameable(fields[0]) {
        Err(Refusal::UntargetableName)
    } else {
        match (
            text::number_within(fields[1], usize::MAX as nat),
            text::number_within(fields[2], usize::MAX as nat),
        ) {
            (None, _) => Err(Refusal::InvalidWindowCount),
            (_, None) => Err(Refusal::InvalidAttachedCount),
            (Some(windows), Some(attached)) => Ok((fields[0], windows, attached)),
        }
    }
}

/// The sessions that the lines of a listing name, up to the first line that is
/// refused or is one too many; empty lines count for nothing.
pub open spec fn listed_lines(lines: Seq<Seq<char>>) -> Result<Seq<Listed>, Refusal>
    decreases lines.len(),
{
    if lines.len() == 0 {
        Ok(Seq::empty())
    } else {
        match listed_lines(lines.drop_last()) {
            Err(refusal) => Err(refusal),
            Ok(before) => if lines.last().len() == 0 {
                Ok(before)
            } else if before.len() >= MAX_SESSIONS {
                Err(Refusal::TooManySessions)
            } else {
                match listed_line(lines.last()) {
                    Ok(session) => Ok(before.push(session)),
                    Err(refusal) => Err(refusal),
                }
            },
        }
    }
}

/// A listing that was refused stays refused however it goes on.
proof fn lemma_refused_prefix(lines: Seq<Seq<char>>, n: int)
    requires
        0 <= n <= lines.len(),
        listed_lines(lines.take(n)) is Err,
    ensures
        listed_lines(lines) == listed_lines(lines.take(n)),
    decreases lines.len(),
{
    if n < lines.len() {
        assert(lines.drop_last().take(n) =~= lines.take(n));
        lemma_refused_prefix(lines.drop_last(), n);
    } else {
        assert(lines.take(n) =~= lines);
    }
}

fn parse_line(line: &[char]) -> (r: Result<Summary, Error>)
    ensures
        match r {
            Ok(session) => listed_line(line@) == Ok::<Listed, Refusal>(session@),
            Err(error) => listed_line(line@) == Err::<Listed, Refusal>(error@),
        },
{
    let fields = text::split_on(line, '\t');
    let ghost all = text::split(line@, '\t');
    assert(all.len() == fields@.len());
    if fields.len() != 3 {
        return Err(Error::UnexpectedListing);
    }
    assert(all[0] == fields@[0]@ && all[1] == fields@[1]@ && all[2] == fields@[2]@);
    let written = text::string_of(fields[0].as_slice());
    let name = match SessionName::new(written.as_str()) {
        Ok(name) => name,
        Err(_) => return Err(Error::UntargetableName),
    };
    let windows: usize = match text::parse(fields[1].as_slice(), usize::MAX as u64) {
        Some(n) => n as usize,
        None => return Err(Error::InvalidWindowCount),
    };
    let attached: usize = match text::parse(fields[2].as_slice(), usize::MAX as u64) {
        Some(n) => n as usize,
        None => return Err(Error::InvalidAttachedCount),
    };
    Ok(Summary { name: name.as_str().to_owned(), windows, attached })
}

/// Reads a listing.
pub fn parse(output: &str) -> (r: Result<Vec<Summary>, Error>)
    ensures
        match r {
            Ok(sessions) => listed_lines(text::lines(output@)) == Ok::<Seq<Listed>, Refusal>(
                views(sessions@),
            ),
            Err(error) => listed_lines(text::lines(output@)) == Err::<Seq<Listed>, Refusal>(error@),
        },
{
    let chars = text::chars_of(output);
    let lines = text::lines_of(chars.as_slice());
    let ghost all = text::lines(output@);
    let mut sessions: Vec<Summary> = Vec::new();
    assert(all.take(0) =~= Seq::<Seq<char>>::empty());
    assert(views(sessions@) =~= Seq::<Listed>::empty());
    for i in 0..lines.len()
        invariant
            all == text::lines(output@),
            all == text::texts(lines@),
            listed_lines(all.take(i as int)) == Ok::<Seq<Listed>, Refusal>(views(sessions@)),
    {
        let ghost so_far = all.take(i + 1);
        assert(so_far.drop_last() =~= all.take(i as int));
        assert(so_far.last() == lines@[i as int]@);
        if lines[i].len() > 0 {
            assert(views(sessions@).len() == sessions@.len());
            if sessions.len() >= MAX_SESSIONS {
                proof {
                    lemma_refused_prefix(all, i + 1);
                }
                return Err(Error::TooManySessions);
            }
            match parse_line(lines[i].as_slice()) {
                Ok(session) => {
                    let ghost before = views(sessions@);
                    sessions.push(session);
                    assert(views(sessions@) =~= before.push(session@));
                },
                Err(error) => {
                    proof {
                        lemma_refused_prefix(all, i + 1);
                    }
                    return Err(error);
                },
            }
        }
    }
    assert(all.take(all.len() as int) =~= all);
    Ok(sessions)
}

/// What the output of the listing command amounts to.
pub open spec fn listing(stdout: Seq<u8>, stderr: Seq<u8>) -> Result<Seq<Listed>, Refusal> {
    if stdout.len() == 0 && no_sessions(text::lossy(stderr)) {
        Ok(Seq::empty())
    } else {
        match output_text(stdout, stderr) {
            Ok(printed) => listed_lines(text::lines(printed)),
            Err(refusal) => Err(refusal),
        }
    }
}

/// The sessions that the listing command reported. tmux saying that there is
/// nothing to list is an empty list; any other complaint is a failure.
pub fn listed(output: CommandOutput) -> (r: Result<Vec<Summary>, Error>)
    ensures
        match r {
            Ok(sessions) => listing(output.stdout@, output.stderr@) == Ok::<Seq<Listed>, Refusal>(
                views(sessions@),
            ),
            Err(error) => listing(output.stdout@, output.stderr@) == Err::<Seq<Listed>, Refusal>(
                error@,
            ),
        },
{
    if output.stdout.len() == 0 && host_has_no_sessions(output.stderr.as_slice()) {
        let none: Vec<Summary> = Vec::new();
        assert(views(none@) =~= Seq::<Listed>::empty());
        return Ok(none);
    }
    match stdout_text(output) {
        Ok(printed) => parse(printed.as_str()),
        Err(error) => Err(error),
    }
}

/// Every session of an accepted listing can be targeted, and there are never
/// more of them than the bound.
pub proof fn a_listed_session_can_be_targeted(lines: Seq<Seq<char>>)
    ensures
        match listed_lines(lines) {
            Ok(sessions) => sessions.len() <= MAX_SESSIONS && forall|i: int|
                0 <= i < sessions.len() ==> nameable((#[trigger] sessions[i]).0),
            Err(_) => true,
        },
    decreases lines.len(),
{
    if lines.len() > 0 {
        a_listed_session_can_be_targeted(lines.drop_last());
    }
}

/// An accepted listing names one session for each line that is not empty.
pub proof fn a_listing_drops_nothing(lines: Seq<Seq<char>>)
    ensures
        match listed_lines(lines) {
            Ok(sessions) => sessions.len() == lines.filter(|line: Seq<char>| line.len() > 0).len(),
            Err(_) => true,
        },
    decreases lines.len(),
{
    reveal(Seq::filter);
    if lines.len() > 0 {
        a_listing_drops_nothing(lines.drop_last());
    }
}

/// Listing asks for the name, the windows and the attached clients of each session, in
/// the order in which they are read; creating leaves the session detached and gives it
/// its name and its size. Either names the socket where there is one.
pub proof fn the_commands_say_what_they_ask(path: Seq<char>, session: Seq<char>, size: Size)
    ensures
        list_wire(None)
            == "exec tmux -N list-sessions -F '#{session_name}\t#{session_windows}\t#{session_attached}'"@,
        list_wire(Some(path)) == "exec tmux -N -S "@ + command::quoted(path)
            + " list-sessions -F '#{session_name}\t#{session_windows}\t#{session_attached}'"@,
        create_wire(None, session, size) == "exec tmux new-session -d -s "@ + command::quoted(
            session,
        ) + " -x "@ + text::digits(size.width()) + " -y "@ + text::digits(size.height()),
        create_wire(Some(path), session, size) == "exec tmux -S "@ + command::quoted(path)
            + " new-session -d -s "@ + command::quoted(session) + " -x "@ + text::digits(
            size.width(),
        ) + " -y "@ + text::digits(size.height()),
{
    reveal_strlit("exec tmux -N");
    reveal_strlit("exec tmux -N -S ");
    reveal_strlit(" -S ");
    reveal_strlit("exec tmux");
    reveal_strlit("exec tmux -S ");
    reveal_strlit(" new-session -d -s ");
    reveal_strlit("exec tmux new-session -d -s ");
    reveal_strlit(
        " list-sessions -F '#{session_name}\t#{session_windows}\t#{session_attached}'",
    );
    reveal_strlit(
        "exec tmux -N list-sessions -F '#{session_name}\t#{session_windows}\t#{session_attached}'",
    );
    assert(list_wire(None)
        =~= "exec tmux -N list-sessions -F '#{session_name}\t#{session_windows}\t#{session_attached}'"@);
    assert(list_wire(Some(path)) =~= "exec tmux -N -S "@ + command::quoted(path)
        + " list-sessions -F '#{session_name}\t#{session_windows}\t#{session_attached}'"@);
    assert(create_wire(None, session, size) =~= "exec tmux new-session -d -s "@ + command::quoted(
        session,
    ) + " -x "@ + text::digits(size.width()) + " -y "@ + text::digits(size.height()));
    assert(create_wire(Some(path), session, size) =~= "exec tmux -S "@ + command::quoted(path)
        + " new-session -d -s "@ + command::quoted(session) + " -x "@ + text::digits(size.width())
        + " -y "@ + text::digits(size.height()));
}

/// A session is described by its windows, one or more, and by whether a client is
/// attached to it.
pub proof fn a_session_is_described(windows: nat, attached: nat)
    ensures
        windows == 1 && attached == 0 ==> description(windows, attached) == text::digits(1)
            + " window"@,
        windows != 1 && attached == 0 ==> description(windows, attached) == text::digits(windows)
            + " windows"@,
        attached > 0 ==> description(windows, attached) == description(windows, 0) + ", attached"@,
{
    let one = text::digits(windows) + (if windows == 1 {
        " window"@
    } else {
        " windows"@
    });
    assert(one + Seq::<char>::empty() =~= one);
}

/// A line of a listing reads back as the session that it tells of, provided that its
/// name can be targeted.
pub proof fn a_listed_line_reads_back(
    line: Seq<char>,
    name: Seq<char>,
    windows: usize,
    attached: usize,
)
    requires
        text::split(line, '\t') == seq![
            name,
            text::digits(windows as nat),
            text::digits(attached as nat),
        ],
    ensures
        nameable(name) ==> listed_line(line) == Ok::<Listed, Refusal>(
            (name, windows as nat, attached as nat),
        ),
        !nameable(name) ==> listed_line(line) == Err::<Listed, Refusal>(Refusal::UntargetableName),
{
    text::a_rendered_number_reads_back(windows as nat);
    text::a_rendered_number_reads_back(attached as nat);
}

/// A listing is read line by line; an empty line says nothing, a line that is refused
/// refuses the listing, and so does a line beyond two hundred and fifty-six sessions.
pub proof fn a_listing_is_read_line_by_line(lines: Seq<Seq<char>>, line: Seq<char>)
    ensures
        listed_lines(Seq::empty()) == Ok::<Seq<Listed>, Refusal>(Seq::empty()),
        ({
            let before = listed_lines(lines);
            let after = listed_lines(lines.push(line));
            &&& before is Err ==> after == before
            &&& line.len() == 0 ==> after == before
            &&& before is Ok && line.len() > 0 && before->Ok_0.len() >= 256 ==> after == Err::<
                Seq<Listed>,
                Refusal,
            >(Refusal::TooManySessions)
            &&& before is Ok && line.len() > 0 && before->Ok_0.len() < 256 && listed_line(line)
                is Ok ==> after is Ok && after->Ok_0 == before->Ok_0.push(listed_line(line)->Ok_0)
            &&& before is Ok && line.len() > 0 && before->Ok_0.len() < 256 && listed_line(line)
                is Err ==> after is Err && after->Err_0 == listed_line(line)->Err_0
        }),
{
    assert(lines.push(line).drop_last() =~= lines);
}

/// A host without a server has no sessions, and that is no failure; any other complaint
/// alone is one, and what was printed is read otherwise.
pub proof fn a_host_without_a_server_lists_nothing(stdout: Seq<u8>, stderr: Seq<u8>)
    ensures
        stdout.len() == 0 && no_sessions(text::lossy(stderr)) ==> listing(stdout, stderr) == Ok::<
            Seq<Listed>,
            Refusal,
        >(Seq::empty()),
        stdout.len() == 0 && stderr.len() > 0 && !no_sessions(text::lossy(stderr)) ==> listing(
            stdout,
            stderr,
        ) is Err && listing(stdout, stderr)->Err_0 is Reported,
        stdout.len() > 0 && vstd::utf8::valid_utf8(stdout) ==> listing(stdout, stderr)
            == listed_lines(text::lines(vstd::utf8::decode_utf8(stdout))),
        stdout.len() > 0 && !vstd::utf8::valid_utf8(stdout) ==> listing(stdout, stderr) == Err::<
            Seq<Listed>,
            Refusal,
        >(Refusal::NotUtf8),
{
}

/// tmux says that there is nothing to list in three ways, in letters of either case:
/// that there are no sessions, that no server is running, and that nothing answers at
/// the socket.
pub proof fn how_tmux_says_that_there_is_nothing(line: Seq<char>, rest: Seq<char>)
    ensures
        text::lowered(line) == "no sessions"@ ==> says_no_sessions(line),
        text::lowered(line) == "no server running"@ + rest ==> says_no_sessions(line),
        text::lowered(line) == "error connecting to "@ + rest + "(no such file or directory)"@
            ==> says_no_sessions(line),
        text::lowered(line) == "error connecting to "@ + rest + "(connection refused)"@
            ==> says_no_sessions(line),
        text::lowered(line) == "error connecting to "@ + rest + "(permission denied)"@
            ==> !says_no_sessions(line),
{
    reveal_strlit("no sessions");
    reveal_strlit("no server running");
    reveal_strlit("error connecting to ");
    reveal_strlit("(no such file or directory)");
    reveal_strlit("(connection refused)");
    reveal_strlit("(permission denied)");
    let low = text::lowered(line);
    let prefix = "error connecting to "@;
    let n = prefix.len() as int;
    if low == "no server running"@ + rest {
        assert(low.subrange(0, "no server running"@.len() as int) =~= "no server running"@);
    }
    let a = "(no such file or directory)"@;
    let b = "(connection refused)"@;
    let c = "(permission denied)"@;
    if low == prefix + rest + a {
        assert(low.subrange(0, n) =~= prefix);
        let after = low.skip(n);
        assert(after =~= rest + a);
        assert(after.subrange(after.len() - a.len(), after.len() as int) =~= a);
    }
    if low == prefix + rest + b {
        assert(low.subrange(0, n) =~= prefix);
        let after = low.skip(n);
        assert(after =~= rest + b);
        assert(after.subrange(after.len() - b.len(), after.len() as int) =~= b);
    }
    if low == prefix + rest + c {
        assert(low[0] == 'e');
        assert("no sessions"@[0] == 'n');
        assert(low != "no sessions"@);
        if text::starts_with(low, "no server running"@) {
            assert(low.subrange(0, "no server running"@.len() as int)[0] == low[0]);
        }
        let after = low.skip(n);
        assert(after =~= rest + c);
        let k = after.len() - 2;
        assert(after[k] == c[c.len() - 2]);
        if text::ends_with(after, a) {
            assert(after.subrange(after.len() - a.len(), after.len() as int)[a.len() - 2]
                == after[k]);
            assert(after.subrange(after.len() - a.len(), after.len() as int)[a.len() - 3]
                == after[k - 1]);
            assert(after[k - 1] == c[c.len() - 3]);
            assert(a[a.len() - 2] == 'y');
        }
        if text::ends_with(after, b) {
            assert(after.subrange(after.len() - b.len(), after.len() as int)[b.len() - 3]
                == after[k - 1]);
            assert(after.subrange(after.len() - b.len(), after.len() as int)[b.len() - 4]
                == after[k - 2]);
            assert(after[k - 1] == c[c.len() - 3]);
            assert(after[k - 2] == c[c.len() - 4]);
        }
    }
}

/// Whatever else was said beside it counts: only one spoken line says that there is
/// nothing to list.
pub proof fn one_line_says_that_there_is_nothing(said: Seq<char>)
    ensures
        no_sessions(said) ==> spoken(text::lines(said)).len() == 1 && says_no_sessions(
            spoken(text::lines(said))[0],
        ),
        spoken(text::lines(said)).len() != 1 ==> !no_sessions(said),
{
}

/// The lines that say something are the trimmed ones that are not empty, in order.
pub proof fn empty_lines_say_nothing(lines: Seq<Seq<char>>, line: Seq<char>)
    ensures
        spoken(Seq::empty()) == Seq::<Seq<char>>::empty(),
        text::trimmed(line).len() == 0 ==> spoken(lines.push(line)) == spoken(lines),
        text::trimmed(line).len() > 0 ==> spoken(lines.push(line)) == spoken(lines).push(
            text::trimmed(line),
        ),
{
    assert(lines.push(line).drop_last() =~= lines);
}

/// A command that ended is finished, even where its deadline passed meanwhile.
pub proof fn a_command_that_ended_is_finished(ended: bool, expired: bool, r: Next)
    requires
        runs_on(ended, expired, r),
    ensures
        ended ==> r == Next::Finished,
        !ended && expired ==> r == Next::Expired,
        !ended && !expired ==> r == Next::Read,
{
}

/// Each stream is kept whole and apart from the other, up to 65536 bytes.
pub proof fn streams_are_kept_apart(
    before: CommandOutput,
    stream: Stream,
    bytes: Seq<u8>,
    r: Result<(), Error>,
    after: CommandOutput,
)
    requires
        takes(before, stream, bytes, r, after),
    ensures
        stream == Stream::Stdout && before.stdout@.len() + bytes.len() <= 65_536 ==> r is Ok
            && after.stdout@ == before.stdout@ + bytes && after.stderr == before.stderr,
        stream == Stream::Stderr && before.stderr@.len() + bytes.len() <= 65_536 ==> r is Ok
            && after.stderr@ == before.stderr@ + bytes && after.stdout == before.stdout,
        stream == Stream::Stdout && before.stdout@.len() + bytes.len() > 65_536 ==> r is Err
            && after == before,
        stream == Stream::Stderr && before.stderr@.len() + bytes.len() > 65_536 ==> r is Err
            && after == before,
        r is Err ==> r->Err_0@ == Refusal::TooMuchOutput,
{
}

/// A complaint alone is a failure, shown as its first 512 characters, escaped; a complaint
/// beside output is none.
pub proof fn a_complaint_alone_is_a_failure(stdout: Seq<u8>, stderr: Seq<u8>)
    ensures
        stdout.len() == 0 && stderr.len() > 0 ==> output_text(stdout, stderr) == Err::<
            Seq<char>,
            Refusal,
        >(Refusal::Reported(text::debug_escaped(text::first(text::lossy(stderr), 512)))),
        (stdout.len() > 0 || stderr.len() == 0) && vstd::utf8::valid_utf8(stdout) ==> output_text(
            stdout,
            stderr,
        ) == Ok::<Seq<char>, Refusal>(vstd::utf8::decode_utf8(stdout)),
        (stdout.len() > 0 || stderr.len() == 0) && !vstd::utf8::valid_utf8(stdout) ==> output_text(
            stdout,
            stderr,
        ) == Err::<Seq<char>, Refusal>(Refusal::NotUtf8),
{
}

/// What the user is told of a query that failed.
pub proof fn what_is_told_of_a_failed_query(detail: Seq<char>)
    ensures
        refusal_text(Refusal::Unquotable) == "text for the remote shell holds control characters"@,
        refusal_text(Refusal::Deadline) == "listing sessions exceeded its deadline"@,
        refusal_text(Refusal::TooMuchOutput) == "remote output exceeds 65536 bytes"@,
        refusal_text(Refusal::Reported(detail)) == "tmux reported: "@ + detail,
        refusal_text(Refusal::NotUtf8) == "remote output is not UTF-8"@,
        refusal_text(Refusal::TooManySessions) == "host reports more than 256 sessions"@,
        refusal_text(Refusal::UnexpectedListing) == "unexpected session listing from the host"@,
        refusal_text(Refusal::UntargetableName)
            == "host listed a session name Starcom cannot target"@,
        refusal_text(Refusal::InvalidWindowCount) == "invalid window count"@,
        refusal_text(Refusal::InvalidAttachedCount) == "invalid attached count"@,
        socket_quotable(None),
        socket_quotable(Some(detail)) <==> !text::has_control(detail),
{
}

} // verus!
