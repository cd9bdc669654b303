//! Bounded tmux inspection and explicitly authorized interactive requests.
use vstd::prelude::*;
use crate::command;
use crate::ids;
use crate::ids::{PaneId, SessionId, WindowId};
use crate::model::{clamp_column, clamp_row, sizable, SessionName, Size};
use crate::snapshot::Access;
use crate::text;

verus! {

/// The most panes that a session may have.
pub const MAX_PANES: usize = 128;

/// The most bytes of a remote complaint that are kept.
pub const MAX_STDERR: usize = 65_536;

/// The most bytes that one exchange may bring.
pub const MAX_TRANSFER: usize = 8_388_608;

/// The most history lines that an observation asks for.
pub const MAX_HISTORY_LINES: usize = 1000;

/// The most bytes of a socket path.
pub const MAX_SOCKET_BYTES: usize = 4096;

/// The farthest from the window's corner that a pane may stand.
pub const MAX_POSITION: usize = 65_535;

/// The most bytes of a tmux version.
pub const MAX_VERSION_BYTES: usize = 64;

/// What makes one attachment the same session as the last one. A session number
/// is not enough: a fresh tmux server numbers its first session the same again.
#[derive(Clone, Copy, Debug, PartialEq, Eq, Structural)]
pub struct Identity {
    pub server: u32,
    pub session: SessionId,
    pub created: u64,
}

/// A pane as tmux reports it.
#[derive(Clone, Copy, Debug, PartialEq, Eq, Structural)]
pub struct Pane {
    pub id: PaneId,
    pub window: WindowId,
    pub size: Size,
    pub left: usize,
    pub top: usize,
    pub cursor_x: usize,
    pub cursor_y: usize,
    pub alternate_screen: bool,
    pub history_size: usize,
    pub history_limit: usize,
}

/// Why an attachment cannot be asked for.
#[derive(Clone, Copy, Debug, PartialEq, Eq, Structural)]
pub enum AttachError {
    /// The socket path is empty, too long or holds control characters.
    Socket,
    /// The session's name cannot be quoted for a shell.
    Unquotable,
}

/// A socket path that can be passed on.
pub open spec fn usable_socket(socket: Seq<char>) -> bool {
    socket.len() > 0 && text::byte_len(socket) <= MAX_SOCKET_BYTES && !text::has_control(socket)
}

/// The command that attaches. It never starts a server and leaves the session's
/// environment alone; a read-only client takes no part in the layout.
pub open spec fn attach_wire(session: Seq<char>, socket: Option<Seq<char>>, access: Access) -> Seq<
    char,
> {
    "exec tmux -N -C"@ + (match socket {
        Some(path) => " -S "@ + command::quoted(path),
        None => Seq::empty(),
    }) + " attach-session -E -f "@ + (if access == Access::ReadOnly {
        "read-only,ignore-size,no-output -t "@
    } else {
        "no-output -t "@
    }) + command::quoted(seq!['='] + session)
}

/// The command that attaches to an existing session, exactly by its name.
pub fn attach_command_with_access(
    session: &SessionName,
    socket: Option<&str>,
    access: Access,
) -> (r: Result<String, AttachError>)
    ensures
        match r {
            Ok(wire) => match socket {
                Some(path) => usable_socket(path@) && wire@ == attach_wire(
                    session@,
                    Some(path@),
                    access,
                ),
                None => wire@ == attach_wire(session@, None, access),
            },
            Err(error) => error == AttachError::Socket && socket is Some && !usable_socket(
                socket->0@,
            ),
        },
{
    let mut wire = "exec tmux -N -C".to_owned();
    match socket {
        Some(path) => {
            let v = text::chars_of(path);
            if v.len() == 0 || text::byte_length(path) > MAX_SOCKET_BYTES || text::any_control(
                v.as_slice(),
            ) {
                return Err(AttachError::Socket);
            }
            match command::shell_quote(path) {
                Ok(word) => {
                    text::push_text(&mut wire, " -S ");
                    text::push_text(&mut wire, word.as_str());
                },
                Err(_) => return Err(AttachError::Socket),
            }
            assert(wire@ =~= "exec tmux -N -C"@ + (" -S "@ + command::quoted(path@)));
        },
        None => {
            assert(wire@ =~= "exec tmux -N -C"@ + Seq::<char>::empty());
        },
    }
    text::push_text(&mut wire, " attach-session -E -f ");
    if access == Access::ReadOnly {
        text::push_text(&mut wire, "read-only,ignore-size,no-output -t ");
    } else {
        text::push_text(&mut wire, "no-output -t ");
    }
    let mut exact = String::new();
    exact.push('=');
    text::push_text(&mut exact, session.as_str());
    proof {
        assert(exact@ =~= seq!['='] + session@);
        assert forall|i: int| 0 <= i < exact@.len() implies !text::control(#[trigger] exact@[i]) by {
            if i > 0 {
                assert(exact@[i] == session@[i - 1]);
            }
        }
    }
    match command::shell_quote(exact.as_str()) {
        Ok(word) => text::push_text(&mut wire, word.as_str()),
        Err(_) => return Err(AttachError::Unquotable),
    }
    Ok(wire)
}

/// The command that attaches for reading.
pub fn attach_command(session: &SessionName, socket: Option<&str>) -> (r: Result<
    String,
    AttachError,
>)
    ensures
        match r {
            Ok(wire) => match socket {
                Some(path) => usable_socket(path@) && wire@ == attach_wire(
                    session@,
                    Some(path@),
                    Access::ReadOnly,
                ),
                None => wire@ == attach_wire(session@, None, Access::ReadOnly),
            },
            Err(error) => error == AttachError::Socket && socket is Some && !usable_socket(
                socket->0@,
            ),
        },
{
    attach_command_with_access(session, socket, Access::ReadOnly)
}

/// Attaching never starts a server, whatever it is asked for.
pub proof fn attaching_never_starts_a_server(
    session: Seq<char>,
    socket: Option<Seq<char>>,
    access: Access,
)
    ensures
        text::starts_with(attach_wire(session, socket, access), "exec tmux -N -C"@),
{
    let wire = attach_wire(session, socket, access);
    let head = "exec tmux -N -C"@;
    assert(wire.subrange(0, head.len() as int) =~= head);
}

/// Why client metadata was not accepted.
#[derive(Clone, Copy, Debug, PartialEq, Eq, Structural)]
pub enum InfoError {
    /// Not exactly one line.
    Lines,
    /// Fields are missing or the version is not usable.
    Metadata,
    /// Not the access that was asked for, or a terminal was allocated.
    Access,
    /// The safety flags are not in force.
    Flags,
    SessionId,
    SessionNumber,
}

/// One of the comma-separated flags.
pub open spec fn has_flag(flags: Seq<char>, flag: Seq<char>) -> bool {
    text::split(flags, ',').contains(flag)
}

/// What a line of client metadata says: tmux's version and the session.
pub open spec fn client_info(line: Seq<char>, access: Access) -> Result<
    (Seq<char>, SessionId),
    InfoError,
> {
    let fields = text::split(line, '|');
    if fields.len() != 6 || text::byte_len(fields[0]) > MAX_VERSION_BYTES || fields[0].len() == 0 {
        Err(InfoError::Metadata)
    } else if fields[2] != "1"@ || fields[3] != (if access == Access::ReadOnly {
        "1"@
    } else {
        "0"@
    }) || fields[5].len() != 0 {
        Err(InfoError::Access)
    } else if !has_flag(fields[4], "no-output"@) || has_flag(fields[4], "ignore-size"@) != (access
        == Access::ReadOnly) {
        Err(InfoError::Flags)
    } else if fields[1].len() == 0 || fields[1][0] != '$' {
        Err(InfoError::SessionId)
    } else {
        match text::number_within(fields[1].skip(1), u32::MAX as nat) {
            Some(n) => Ok((fields[0], SessionId(n as u32))),
            None => Err(InfoError::SessionNumber),
        }
    }
}

pub(crate) fn flag_among(flags: &[char], flag: &str) -> (r: bool)
    ensures
        r == has_flag(flags@, flag@),
{
    let parts = text::split_on(flags, ',');
    let ghost all = text::split(flags@, ',');
    for i in 0..parts.len()
        invariant
            all == text::split(flags@, ','),
            all == text::texts(parts@),
            forall|j: int| 0 <= j < i ==> all[j] != flag@,
    {
        assert(all[i as int] == parts@[i as int]@);
        if text::same_chars(parts[i].as_slice(), flag) {
            assert(all.contains(flag@)) by {
                assert(all[i as int] == flag@);
            }
            return true;
        }
    }
    assert(all.len() == parts@.len());
    false
}

/// Reads client metadata and checks that tmux applied what was asked for.
pub fn parse_info_with_access(lines: &Vec<String>, access: Access) -> (r: Result<
    (String, SessionId),
    InfoError,
>)
    ensures
        match r {
            Ok(info) => lines@.len() == 1 && client_info(lines@[0]@, access) == Ok::<
                (Seq<char>, SessionId),
                InfoError,
            >((info.0@, info.1)),
            Err(error) => if lines@.len() != 1 {
                error == InfoError::Lines
            } else {
                client_info(lines@[0]@, access) == Err::<(Seq<char>, SessionId), InfoError>(error)
            },
        },
{
    if lines.len() != 1 {
        return Err(InfoError::Lines);
    }
    let line = text::chars_of(lines[0].as_str());
    let fields = text::split_on(line.as_slice(), '|');
    let ghost all = text::split(line@, '|');
    assert(all.len() == fields@.len());
    assert(forall|i: int| 0 <= i < all.len() ==> #[trigger] all[i] == fields@[i]@);
    if fields.len() != 6 {
        return Err(InfoError::Metadata);
    }
    let version = text::string_of(fields[0].as_slice());
    if text::byte_length(version.as_str()) > MAX_VERSION_BYTES || fields[0].len() == 0 {
        return Err(InfoError::Metadata);
    }
    let readonly: &str = if access == Access::ReadOnly {
        "1"
    } else {
        "0"
    };
    if !text::same_chars(fields[2].as_slice(), "1") || !text::same_chars(
        fields[3].as_slice(),
        readonly,
    ) || fields[5].len() != 0 {
        return Err(InfoError::Access);
    }
    if !flag_among(fields[4].as_slice(), "no-output") || flag_among(
        fields[4].as_slice(),
        "ignore-size",
    ) != (access == Access::ReadOnly) {
        return Err(InfoError::Flags);
    }
    if fields[1].len() == 0 || fields[1][0] != '$' {
        return Err(InfoError::SessionId);
    }
    match ids::read(fields[1].as_slice(), '$') {
        Some(n) => Ok((version, SessionId(n))),
        None => Err(InfoError::SessionNumber),
    }
}

/// Reads the metadata of a read-only client.
pub fn parse_info(lines: &Vec<String>) -> (r: Result<(String, SessionId), InfoError>)
    ensures
        match r {
            Ok(info) => lines@.len() == 1 && client_info(lines@[0]@, Access::ReadOnly) == Ok::<
                (Seq<char>, SessionId),
                InfoError,
            >((info.0@, info.1)),
            Err(error) => if lines@.len() != 1 {
                error == InfoError::Lines
            } else {
                client_info(lines@[0]@, Access::ReadOnly) == Err::<
                    (Seq<char>, SessionId),
                    InfoError,
                >(error)
            },
        },
{
    parse_info_with_access(lines, Access::ReadOnly)
}

/// A read-only client that is accepted is read-only, produces no output yet and
/// takes no part in the layout; an interactive one does take part in it.
pub proof fn capabilities_are_checked(line: Seq<char>, access: Access)
    ensures
        client_info(line, access) is Ok ==> ({
            let fields = text::split(line, '|');
            &&& has_flag(fields[4], "no-output"@)
            &&& has_flag(fields[4], "ignore-size"@) == (access == Access::ReadOnly)
            &&& fields[3] == (if access == Access::ReadOnly {
                "1"@
            } else {
                "0"@
            })
            &&& fields[5].len() == 0
        }),
{
}

/// Why pane metadata was not accepted.
#[derive(Clone, Copy, Debug, PartialEq, Eq, Structural)]
pub enum PaneError {
    /// No panes, or too many.
    Count,
    /// A line does not have its eleven fields.
    Metadata,
    PaneId,
    DuplicatePane,
    WindowId,
    /// A field is no number, or one that is too large.
    Number,
    Size,
    AlternateScreen,
    Position,
}

/// The number in a field, where it fits a machine word.
pub open spec fn word_number(field: Seq<char>) -> Option<nat> {
    text::number_within(field, usize::MAX as nat)
}

/// The number behind a sigil, and which half is missing where one is.
pub open spec fn sigil_number(field: Seq<char>, sigil: char, missing: PaneError) -> Result<
    u32,
    PaneError,
> {
    if field.len() == 0 || field[0] != sigil {
        Err(missing)
    } else {
        match text::number_within(field.skip(1), u32::MAX as nat) {
            Some(n) => Ok(n as u32),
            None => Err(PaneError::Number),
        }
    }
}

/// The pane whose number this already is.
pub open spec fn has_id(panes: Seq<Pane>, id: PaneId) -> bool {
    exists|i: int| 0 <= i < panes.len() && (#[trigger] panes[i]).id == id
}

/// What one line of pane metadata says, after the panes before it.
pub open spec fn pane_line(line: Seq<char>, before: Seq<Pane>) -> Result<Pane, PaneError> {
    let fields = text::words(line);
    if fields.len() != 11 {
        Err(PaneError::Metadata)
    } else {
        match sigil_number(fields[0], '%', PaneError::PaneId) {
            Err(error) => Err(error),
            Ok(id) => if has_id(before, PaneId(id)) {
                Err(PaneError::DuplicatePane)
            } else {
                match sigil_number(fields[1], '@', PaneError::WindowId) {
                    Err(error) => Err(error),
                    Ok(window) => pane_fields(PaneId(id), WindowId(window), fields),
                }
            },
        }
    }
}

/// What the numbers of a pane's line say.
pub open spec fn pane_fields(id: PaneId, window: WindowId, fields: Seq<Seq<char>>) -> Result<
    Pane,
    PaneError,
> {
    match (word_number(fields[2]), word_number(fields[3])) {
        (Some(columns), Some(rows)) => if !sizable(columns, rows) {
            Err(PaneError::Size)
        } else {
            match (
                word_number(fields[4]),
                word_number(fields[5]),
                word_number(fields[6]),
                word_number(fields[7]),
            ) {
                (Some(left), Some(top), Some(x), Some(y)) => if fields[8] != "0"@ && fields[8]
                    != "1"@ {
                    Err(PaneError::AlternateScreen)
                } else if left > MAX_POSITION || top > MAX_POSITION {
                    Err(PaneError::Position)
                } else {
                    match (word_number(fields[9]), word_number(fields[10])) {
                        (Some(history_size), Some(history_limit)) => Ok(
                            Pane {
                                id,
                                window,
                                size: Size::of(columns, rows),
                                left: left as usize,
                                top: top as usize,
                                cursor_x: clamp_column(x, columns) as usize,
                                cursor_y: clamp_row(y, rows) as usize,
                                alternate_screen: fields[8] == "1"@,
                                history_size: history_size as usize,
                                history_limit: history_limit as usize,
                            },
                        ),
                        _ => Err(PaneError::Number),
                    }
                },
                _ => Err(PaneError::Number),
            }
        },
        _ => Err(PaneError::Number),
    }
}

/// What lines of pane metadata say, in their order, up to the first that is
/// refused.
pub open spec fn pane_lines(lines: Seq<Seq<char>>) -> Result<Seq<Pane>, PaneError>
    decreases lines.len(),
{
    if lines.len() == 0 {
        Ok(Seq::empty())
    } else {
        match pane_lines(lines.drop_last()) {
            Err(error) => Err(error),
            Ok(before) => match pane_line(lines.last(), before) {
                Err(error) => Err(error),
                Ok(pane) => Ok(before.push(pane)),
            },
        }
    }
}

/// Panes in ascending order of their numbers, none of them twice.
pub open spec fn ascending(panes: Seq<Pane>) -> bool {
    forall|i: int, j: int| 0 <= i < j < panes.len() ==> panes[i].id.0 < panes[j].id.0
}

proof fn lemma_refused_lines(lines: Seq<Seq<char>>, n: int)
    requires
        0 <= n <= lines.len(),
        pane_lines(lines.take(n)) is Err,
    ensures
        pane_lines(lines) == pane_lines(lines.take(n)),
    decreases lines.len(),
{
    if n < lines.len() {
        assert(lines.drop_last().take(n) =~= lines.take(n));
        lemma_refused_lines(lines.drop_last(), n);
    } else {
        assert(lines.take(n) =~= lines);
    }
}

/// The multiset of a sequence with one more element, wherever it was put.
proof fn lemma_insert_multiset(s: Seq<Pane>, i: int, pane: Pane)
    requires
        0 <= i <= s.len(),
    ensures
        s.insert(i, pane).to_multiset() == s.to_multiset().insert(pane),
{
    broadcast use vstd::seq_lib::group_to_multiset_ensures;

    let t = s.insert(i, pane);
    assert(t.remove(i) =~= s);
    assert(t[i] == pane);
    assert(t.contains(pane));
    assert(t.to_multiset() =~= s.to_multiset().insert(pane));
}

proof fn lemma_same_ids(a: Seq<Pane>, b: Seq<Pane>, id: PaneId)
    requires
        a.to_multiset() == b.to_multiset(),
    ensures
        has_id(a, id) == has_id(b, id),
{
    broadcast use vstd::seq_lib::group_to_multiset_ensures;

    if has_id(a, id) {
        let i = choose|i: int| 0 <= i < a.len() && (#[trigger] a[i]).id == id;
        assert(a.contains(a[i]));
        assert(b.to_multiset().count(a[i]) > 0);
        assert(b.contains(a[i]));
        let j = choose|j: int| 0 <= j < b.len() && b[j] == a[i];
        assert(b[j].id == id);
    }
    if has_id(b, id) {
        let i = choose|i: int| 0 <= i < b.len() && (#[trigger] b[i]).id == id;
        assert(b.contains(b[i]));
        assert(a.to_multiset().count(b[i]) > 0);
        assert(a.contains(b[i]));
        let j = choose|j: int| 0 <= j < a.len() && a[j] == b[i];
        assert(a[j].id == id);
    }
}

fn sigiled_field(field: &[char], sigil: char, missing: PaneError) -> (r: Result<u32, PaneError>)
    ensures
        r == sigil_number(field@, sigil, missing),
{
    if field.len() == 0 || field[0] != sigil {
        return Err(missing);
    }
    match ids::read(field, sigil) {
        Some(n) => Ok(n),
        None => Err(PaneError::Number),
    }
}

fn number_field(field: &Vec<char>) -> (r: Option<usize>)
    ensures
        match r {
            Some(n) => word_number(field@) == Some(n as nat),
            None => word_number(field@) is None,
        },
{
    match text::parse(field.as_slice(), usize::MAX as u64) {
        Some(n) => Some(n as usize),
        None => None,
    }
}

fn parse_pane_fields(id: PaneId, window: WindowId, fields: &Vec<Vec<char>>) -> (r: Result<
    Pane,
    PaneError,
>)
    requires
        fields@.len() == 11,
    ensures
        r == pane_fields(id, window, text::texts(fields@)),
{
    let ghost all = text::texts(fields@);
    assert(forall|i: int| 0 <= i < all.len() ==> #[trigger] all[i] == fields@[i]@);
    let (columns, rows) = match (number_field(&fields[2]), number_field(&fields[3])) {
        (Some(columns), Some(rows)) => (columns, rows),
        _ => return Err(PaneError::Number),
    };
    let size = match Size::new(columns, rows) {
        Ok(size) => size,
        Err(_) => return Err(PaneError::Size),
    };
    let (left, top, x, y) = match (
        number_field(&fields[4]),
        number_field(&fields[5]),
        number_field(&fields[6]),
        number_field(&fields[7]),
    ) {
        (Some(left), Some(top), Some(x), Some(y)) => (left, top, x, y),
        _ => return Err(PaneError::Number),
    };
    let (cursor_x, cursor_y) = size.clamp_cursor(x, y);
    let on: bool = text::same_chars(fields[8].as_slice(), "1");
    if !on && !text::same_chars(fields[8].as_slice(), "0") {
        return Err(PaneError::AlternateScreen);
    }
    if left > MAX_POSITION || top > MAX_POSITION {
        return Err(PaneError::Position);
    }
    match (number_field(&fields[9]), number_field(&fields[10])) {
        (Some(history_size), Some(history_limit)) => Ok(
            Pane {
                id,
                window,
                size,
                left,
                top,
                cursor_x,
                cursor_y,
                alternate_screen: on,
                history_size,
                history_limit,
            },
        ),
        _ => Err(PaneError::Number),
    }
}

/// Where a pane of this number stands, or where it would have to be put.
fn position(panes: &Vec<Pane>, id: PaneId) -> (r: (usize, bool))
    requires
        ascending(panes@),
    ensures
        r.0 <= panes@.len(),
        r.1 == has_id(panes@, id),
        !r.1 ==> forall|i: int| 0 <= i < r.0 ==> (#[trigger] panes@[i]).id.0 < id.0,
        !r.1 ==> forall|i: int| r.0 <= i < panes@.len() ==> (#[trigger] panes@[i]).id.0 > id.0,
{
    for i in 0..panes.len()
        invariant
            ascending(panes@),
            forall|j: int| 0 <= j < i ==> (#[trigger] panes@[j]).id.0 < id.0,
    {
        if panes[i].id == id {
            assert(panes@[i as int].id == id);
            return (i, true);
        }
        if panes[i].id.0 > id.0 {
            assert forall|j: int| i <= j < panes@.len() implies (#[trigger] panes@[j]).id.0
                > id.0 by {
                if j > i {
                    assert(panes@[i as int].id.0 < panes@[j].id.0);
                }
            }
            return (i, false);
        }
    }
    (panes.len(), false)
}

/// Reads pane metadata: every line, or nothing. The panes come out in ascending
/// order of their numbers, and none of them twice.
pub fn parse_panes(lines: &Vec<String>) -> (r: Result<Vec<Pane>, PaneError>)
    ensures
        match r {
            Ok(panes) => {
                &&& 1 <= lines@.len() <= MAX_PANES
                &&& pane_lines(text::strings(lines@)) is Ok
                &&& panes@.to_multiset() == pane_lines(text::strings(lines@))->Ok_0.to_multiset()
                &&& ascending(panes@)
                &&& panes@.len() == lines@.len()
            },
            Err(error) => if 1 <= lines@.len() <= MAX_PANES {
                pane_lines(text::strings(lines@)) == Err::<Seq<Pane>, PaneError>(error)
            } else {
                error == PaneError::Count
            },
        },
{
    if lines.len() == 0 || lines.len() > MAX_PANES {
        return Err(PaneError::Count);
    }
    let ghost all = text::strings(lines@);
    let mut panes: Vec<Pane> = Vec::new();
    assert(all.take(0) =~= Seq::<Seq<char>>::empty());
    for i in 0..lines.len()
        invariant
            all == text::strings(lines@),
            1 <= lines@.len() <= MAX_PANES,
            pane_lines(all.take(i as int)) is Ok,
            panes@.to_multiset() == pane_lines(all.take(i as int))->Ok_0.to_multiset(),
            ascending(panes@),
            panes@.len() == i,
    {
        let ghost so_far = all.take(i + 1);
        let ghost before = pane_lines(all.take(i as int))->Ok_0;
        let ghost line = all[i as int];
        proof {
            assert(so_far.drop_last() =~= all.take(i as int));
            assert(so_far.last() == line);
            if pane_lines(so_far) is Err {
                lemma_refused_lines(all, i + 1);
            }
        }
        let chars = text::chars_of(lines[i].as_str());
        let fields = text::words_of(chars.as_slice());
        let ghost words = text::words(line);
        assert(words.len() == fields@.len());
        if fields.len() != 11 {
            return Err(PaneError::Metadata);
        }
        assert(words[0] == fields@[0]@ && words[1] == fields@[1]@);
        let id: PaneId = match sigiled_field(fields[0].as_slice(), '%', PaneError::PaneId) {
            Ok(n) => PaneId(n),
            Err(error) => return Err(error),
        };
        let (at, seen) = position(&panes, id);
        proof {
            lemma_same_ids(panes@, before, id);
        }
        if seen {
            return Err(PaneError::DuplicatePane);
        }
        let window: WindowId = match sigiled_field(
            fields[1].as_slice(),
            '@',
            PaneError::WindowId,
        ) {
            Ok(n) => WindowId(n),
            Err(error) => return Err(error),
        };
        let pane: Pane = match parse_pane_fields(id, window, &fields) {
            Ok(pane) => pane,
            Err(error) => return Err(error),
        };
        let ghost held = panes@;
        assert(pane.id == id);
        panes.insert(at, pane);
        proof {
            lemma_insert_multiset(held, at as int, pane);
            broadcast use vstd::seq_lib::group_to_multiset_ensures;

            assert(panes@ =~= held.insert(at as int, pane));
            assert(pane_lines(so_far) == Ok::<Seq<Pane>, PaneError>(before.push(pane)));
            assert(before.push(pane).to_multiset() =~= before.to_multiset().insert(pane));
        }
    }
    assert(all.take(all.len() as int) =~= all);
    Ok(panes)
}

/// Why the identity reply was not accepted.
#[derive(Clone, Copy, Debug, PartialEq, Eq, Structural)]
pub enum IdentityError {
    /// Not exactly one line of three fields.
    Reply,
    Server,
    SessionId,
    SessionNumber,
    Created,
}

/// What an identity line says.
pub open spec fn identity_line(line: Seq<char>) -> Result<Identity, IdentityError> {
    let fields = text::split(line, '|');
    if fields.len() != 3 {
        Err(IdentityError::Reply)
    } else {
        match text::number_within(fields[0], u32::MAX as nat) {
            None => Err(IdentityError::Server),
            Some(server) => if fields[1].len() == 0 || fields[1][0] != '$' {
                Err(IdentityError::SessionId)
            } else {
                match text::number_within(fields[1].skip(1), u32::MAX as nat) {
                    None => Err(IdentityError::SessionNumber),
                    Some(session) => match text::number_within(fields[2], u64::MAX as nat) {
                        None => Err(IdentityError::Created),
                        Some(created) => Ok(
                            Identity {
                                server: server as u32,
                                session: SessionId(session as u32),
                                created: created as u64,
                            },
                        ),
                    },
                }
            },
        }
    }
}

/// Reads the reply that identifies the attached server and session.
pub fn parse_identity(lines: &Vec<String>) -> (r: Result<Identity, IdentityError>)
    ensures
        if lines@.len() != 1 {
            r == Err::<Identity, IdentityError>(IdentityError::Reply)
        } else {
            r == identity_line(lines@[0]@)
        },
{
    if lines.len() != 1 {
        return Err(IdentityError::Reply);
    }
    let line = text::chars_of(lines[0].as_str());
    let fields = text::split_on(line.as_slice(), '|');
    let ghost all = text::split(line@, '|');
    assert(all.len() == fields@.len());
    if fields.len() != 3 {
        return Err(IdentityError::Reply);
    }
    assert(all[0] == fields@[0]@ && all[1] == fields@[1]@ && all[2] == fields@[2]@);
    let server: u32 = match text::parse(fields[0].as_slice(), u32::MAX as u64) {
        Some(n) => n as u32,
        None => return Err(IdentityError::Server),
    };
    if fields[1].len() == 0 || fields[1][0] != '$' {
        return Err(IdentityError::SessionId);
    }
    let session: SessionId = match ids::read(fields[1].as_slice(), '$') {
        Some(n) => SessionId(n),
        None => return Err(IdentityError::SessionNumber),
    };
    match text::parse(fields[2].as_slice(), u64::MAX) {
        Some(created) => Ok(Identity { server, session, created }),
        None => Err(IdentityError::Created),
    }
}

/// What a capture of one pane brought: its rows in tmux's escaped form.
pub struct Capture {
    pub pane: Pane,
    pub escaped_rows: Vec<String>,
}

/// What was observed of a session. It is no atomic snapshot.
pub struct Observation {
    pub tmux_version: String,
    pub session: SessionId,
    pub fingerprint: String,
    pub captures: Vec<Capture>,
    /// A useful warning, and no proof of atomicity when it is false.
    pub metadata_changed_during_capture: bool,
}

/// Why an observation failed.
#[derive(Clone, Copy, Debug, PartialEq, Eq, Structural)]
pub enum ObserveError {
    History,
    Info(InfoError),
    Panes(PaneError),
    /// The captures together are too large.
    TooLarge,
}

/// The query for client metadata.
pub open spec fn info_query() -> Seq<char> {
    "display-message -p '#{version}|#{session_id}|#{client_control_mode}|#{client_readonly}|#{client_flags}|#{client_tty}'\n"@
}

/// The query for pane metadata.
pub open spec fn panes_query() -> Seq<char> {
    "list-panes -s -F '#{pane_id} #{window_id} #{pane_width} #{pane_height} #{pane_left} #{pane_top} #{cursor_x} #{cursor_y} #{alternate_on} #{history_size} #{history_limit}'\n"@
}

/// The query for the rows of one pane and so many lines of its history.
pub open spec fn capture_query(pane: PaneId, history: usize) -> Seq<char> {
    "capture-pane -p -C -t "@ + ids::sigiled('%', pane.0) + " -S -"@ + text::digits(history as nat)
        + " -E -\n"@
}

/// Asks tmux about the attached client.
pub fn info_request() -> (r: &'static str)
    ensures
        r@ == info_query(),
{
    "display-message -p '#{version}|#{session_id}|#{client_control_mode}|#{client_readonly}|#{client_flags}|#{client_tty}'\n"
}

/// Asks tmux about the panes of the session.
pub fn panes_request() -> (r: &'static str)
    ensures
        r@ == panes_query(),
{
    "list-panes -s -F '#{pane_id} #{window_id} #{pane_width} #{pane_height} #{pane_left} #{pane_top} #{cursor_x} #{cursor_y} #{alternate_on} #{history_size} #{history_limit}'\n"
}

/// The query by which the attached server and session are identified.
pub fn identity_query() -> (r: &'static str)
    ensures
        r@ == "display-message -p '#{pid}|#{session_id}|#{session_created}'\n"@,
{
    "display-message -p '#{pid}|#{session_id}|#{session_created}'\n"
}

/// The bytes of rows together.
pub open spec fn rows_bytes(rows: Seq<String>) -> nat
    decreases rows.len(),
{
    if rows.len() == 0 {
        0
    } else {
        rows_bytes(rows.drop_last()) + text::byte_len(rows.last()@)
    }
}

/// How far an observation has come.
#[derive(Clone, Copy, Debug, PartialEq, Eq, Structural)]
pub enum Stage {
    Info,
    PanesBefore,
    Captures,
    PanesAfter,
    Done,
}

/// A bounded, read-only observation of a session: which request comes next, and
/// what its reply adds. Nothing is ever asked twice.
pub struct Observer {
    pub history: usize,
    pub stage: Stage,
    pub version: String,
    pub session: SessionId,
    pub before: Vec<Pane>,
    pub captures: Vec<Capture>,
    pub total: usize,
    pub changed: bool,
}

proof fn lemma_rows_prefix(rows: Seq<String>, n: int)
    requires
        0 <= n <= rows.len(),
    ensures
        rows_bytes(rows.take(n)) <= rows_bytes(rows),
    decreases rows.len(),
{
    if n < rows.len() {
        assert(rows.drop_last().take(n) =~= rows.take(n));
        lemma_rows_prefix(rows.drop_last(), n);
    } else {
        assert(rows.take(n) =~= rows);
    }
}

fn same_panes(a: &Vec<Pane>, b: &Vec<Pane>) -> (r: bool)
    ensures
        r == (a@ == b@),
{
    if a.len() != b.len() {
        return false;
    }
    for i in 0..a.len()
        invariant
            a@.len() == b@.len(),
            forall|j: int| 0 <= j < i ==> a@[j] == b@[j],
    {
        if a[i] != b[i] {
            return false;
        }
    }
    assert(a@ =~= b@);
    true
}

/// What a reply adds to an observation.
pub open spec fn observes(
    before: Observer,
    lines: Vec<String>,
    r: Result<(), ObserveError>,
    after: Observer,
) -> bool {
    &&& r is Err ==> after == before
    &&& match before.stage {
        Stage::Info => match r {
            Ok(()) => {
                &&& lines@.len() == 1
                &&& client_info(lines@[0]@, Access::ReadOnly) == Ok::<
                    (Seq<char>, SessionId),
                    InfoError,
                >((after.version@, after.session))
                &&& after == (Observer {
                    stage: Stage::PanesBefore,
                    version: after.version,
                    session: after.session,
                    ..before
                })
            },
            Err(ObserveError::Info(error)) => if lines@.len() == 1 {
                client_info(lines@[0]@, Access::ReadOnly) == Err::<
                    (Seq<char>, SessionId),
                    InfoError,
                >(error)
            } else {
                error == InfoError::Lines
            },
            Err(_) => false,
        },
        Stage::PanesBefore => match r {
            Ok(()) => {
                &&& 1 <= lines@.len() <= MAX_PANES
                &&& pane_lines(text::strings(lines@)) is Ok
                &&& after.before@.to_multiset() == pane_lines(
                    text::strings(lines@),
                )->Ok_0.to_multiset()
                &&& ascending(after.before@)
                &&& after.captures@.len() == 0
                &&& after == (Observer {
                    stage: Stage::Captures,
                    before: after.before,
                    captures: after.captures,
                    ..before
                })
            },
            Err(ObserveError::Panes(error)) => if 1 <= lines@.len() <= MAX_PANES {
                pane_lines(text::strings(lines@)) == Err::<Seq<Pane>, PaneError>(error)
            } else {
                error == PaneError::Count
            },
            Err(_) => false,
        },
        Stage::Captures => match r {
            Ok(()) => {
                let n = before.captures@.len() as int;
                &&& before.total + rows_bytes(lines@) <= MAX_TRANSFER
                &&& after.captures@ == before.captures@.push(
                    Capture { pane: before.before@[n], escaped_rows: lines },
                )
                &&& after == (Observer {
                    captures: after.captures,
                    total: (before.total + rows_bytes(lines@)) as usize,
                    stage: if n + 1 == before.before@.len() {
                        Stage::PanesAfter
                    } else {
                        Stage::Captures
                    },
                    ..before
                })
            },
            Err(error) => error == ObserveError::TooLarge && before.total + rows_bytes(
                lines@,
            ) > MAX_TRANSFER,
        },
        Stage::PanesAfter => match r {
            Ok(()) => {
                &&& 1 <= lines@.len() <= MAX_PANES
                &&& pane_lines(text::strings(lines@)) is Ok
                &&& after == (Observer {
                    stage: Stage::Done,
                    changed: after.changed,
                    ..before
                })
                &&& exists|panes: Seq<Pane>|
                    ascending(panes) && #[trigger] panes.to_multiset() == pane_lines(
                        text::strings(lines@),
                    )->Ok_0.to_multiset() && after.changed == (panes != before.before@)
            },
            Err(ObserveError::Panes(error)) => if 1 <= lines@.len() <= MAX_PANES {
                pane_lines(text::strings(lines@)) == Err::<Seq<Pane>, PaneError>(error)
            } else {
                error == PaneError::Count
            },
            Err(_) => false,
        },
        Stage::Done => true,
    }
}

/// What an observation asks for next.
pub open spec fn asks(before: Observer, r: Option<String>) -> bool {
    match before.stage {
        Stage::Info => r is Some && r->0@ == info_query(),
        Stage::PanesBefore | Stage::PanesAfter => r is Some && r->0@ == panes_query(),
        Stage::Captures => r is Some && r->0@ == capture_query(
            before.before@[before.captures@.len() as int].id,
            before.history,
        ),
        Stage::Done => r is None,
    }
}

impl Observer {
    /// A capture for each pane so far, within the bound.
    pub open spec fn wf(&self) -> bool {
        &&& self.total <= MAX_TRANSFER
        &&& self.captures@.len() <= self.before@.len()
        &&& self.stage == Stage::Captures ==> self.captures@.len() < self.before@.len()
        &&& (self.stage == Stage::PanesAfter || self.stage == Stage::Done) ==> self.captures@.len()
            == self.before@.len()
        &&& forall|i: int|
            0 <= i < self.captures@.len() ==> (#[trigger] self.captures@[i]).pane == self.before@[i]
    }

    /// Starts an observation with so many lines of history.
    pub fn new(history: usize) -> (r: Result<Self, ObserveError>)
        ensures
            match r {
                Ok(observer) => history <= MAX_HISTORY_LINES && observer.wf() && observer.history
                    == history && observer.stage == Stage::Info && observer.before@.len() == 0
                    && observer.captures@.len() == 0 && observer.total == 0 && !observer.changed,
                Err(error) => error == ObserveError::History && history > MAX_HISTORY_LINES,
            },
    {
        if history > MAX_HISTORY_LINES {
            return Err(ObserveError::History);
        }
        Ok(
            Observer {
                history,
                stage: Stage::Info,
                version: String::new(),
                session: SessionId(0),
                before: Vec::new(),
                captures: Vec::new(),
                total: 0,
                changed: false,
            },
        )
    }

    /// The next request, or none when everything was asked.
    pub fn request(&self) -> (r: Option<String>)
        requires
            self.wf(),
        ensures
            asks(*self, r),
    {
        match self.stage {
            Stage::Info => Some(info_request().to_owned()),
            Stage::PanesBefore | Stage::PanesAfter => Some(panes_request().to_owned()),
            Stage::Captures => {
                let mut query = "capture-pane -p -C -t ".to_owned();
                text::push_text(&mut query, self.before[self.captures.len()].id.to_text().as_str());
                text::push_text(&mut query, " -S -");
                text::push_decimal(&mut query, self.history as u64);
                text::push_text(&mut query, " -E -\n");
                Some(query)
            },
            Stage::Done => None,
        }
    }

    /// Takes the reply to the request that is due. A refused reply leaves the
    /// observation where it was.
    pub fn reply(&mut self, lines: Vec<String>) -> (r: Result<(), ObserveError>)
        requires
            old(self).wf(),
            old(self).stage != Stage::Done,
        ensures
            final(self).wf(),
            observes(*old(self), lines, r, *final(self)),
    {
        match self.stage {
            Stage::Info => match parse_info(&lines) {
                Ok((version, session)) => {
                    self.version = version;
                    self.session = session;
                    self.stage = Stage::PanesBefore;
                    Ok(())
                },
                Err(error) => Err(ObserveError::Info(error)),
            },
            Stage::PanesBefore => match parse_panes(&lines) {
                Ok(panes) => {
                    self.before = panes;
                    self.captures = Vec::new();
                    self.stage = Stage::Captures;
                    Ok(())
                },
                Err(error) => Err(ObserveError::Panes(error)),
            },
            Stage::Captures => {
                let mut total: usize = self.total;
                assert(lines@.take(0) =~= Seq::<String>::empty());
                for i in 0..lines.len()
                    invariant
                        self.total <= total <= MAX_TRANSFER,
                        *self == *old(self),
                        old(self).stage == Stage::Captures,
                        old(self).wf(),
                        total == self.total + rows_bytes(lines@.take(i as int)),
                {
                    assert(lines@.take(i + 1).drop_last() =~= lines@.take(i as int));
                    let row: usize = text::byte_length(lines[i].as_str());
                    if row > MAX_TRANSFER - total {
                        proof {
                            lemma_rows_prefix(lines@, i + 1);
                        }
                        return Err(ObserveError::TooLarge);
                    }
                    total = total + row;
                }
                assert(lines@.take(lines@.len() as int) =~= lines@);
                let at: usize = self.captures.len();
                let pane: Pane = self.before[at];
                self.captures.push(Capture { pane, escaped_rows: lines });
                self.total = total;
                if at == self.before.len() - 1 {
                    self.stage = Stage::PanesAfter;
                }
                Ok(())
            },
            Stage::PanesAfter => match parse_panes(&lines) {
                Ok(panes) => {
                    self.changed = !same_panes(&panes, &self.before);
                    self.stage = Stage::Done;
                    assert(panes@.to_multiset() == pane_lines(
                        text::strings(lines@),
                    )->Ok_0.to_multiset());
                    Ok(())
                },
                Err(error) => Err(ObserveError::Panes(error)),
            },
            Stage::Done => Ok(()),
        }
    }

    /// What was observed, once everything was asked.
    pub fn finish(self, fingerprint: String) -> (r: Observation)
        requires
            self.wf(),
            self.stage == Stage::Done,
        ensures
            r == (Observation {
                tmux_version: self.version,
                session: self.session,
                fingerprint,
                captures: self.captures,
                metadata_changed_during_capture: self.changed,
            }),
            r.captures@.len() == self.before@.len(),
    {
        Observation {
            tmux_version: self.version,
            session: self.session,
            fingerprint,
            captures: self.captures,
            metadata_changed_during_capture: self.changed,
        }
    }
}

/// Attaching to read asks for no output, no part in the size of the window and no
/// right to type; attaching to type asks for no output yet. Either names the session
/// exactly, and the socket where there is one.
pub proof fn an_attachment_asks_for_what_it_needs(
    session: Seq<char>,
    path: Seq<char>,
    access: Access,
)
    ensures
        attach_wire(session, None, Access::ReadOnly)
            == "exec tmux -N -C attach-session -E -f read-only,ignore-size,no-output -t "@
            + command::quoted(seq!['='] + session),
        attach_wire(session, None, Access::Interactive)
            == "exec tmux -N -C attach-session -E -f no-output -t "@ + command::quoted(
            seq!['='] + session,
        ),
        attach_wire(session, Some(path), Access::ReadOnly) == "exec tmux -N -C -S "@
            + command::quoted(path)
            + " attach-session -E -f read-only,ignore-size,no-output -t "@ + command::quoted(
            seq!['='] + session,
        ),
        attach_wire(session, Some(path), Access::Interactive) == "exec tmux -N -C -S "@
            + command::quoted(path) + " attach-session -E -f no-output -t "@ + command::quoted(
            seq!['='] + session,
        ),
{
    reveal_strlit("exec tmux -N -C");
    reveal_strlit(" -S ");
    reveal_strlit("exec tmux -N -C -S ");
    reveal_strlit(" attach-session -E -f ");
    reveal_strlit("read-only,ignore-size,no-output -t ");
    reveal_strlit("no-output -t ");
    reveal_strlit("exec tmux -N -C attach-session -E -f read-only,ignore-size,no-output -t ");
    reveal_strlit("exec tmux -N -C attach-session -E -f no-output -t ");
    reveal_strlit(" attach-session -E -f read-only,ignore-size,no-output -t ");
    reveal_strlit(" attach-session -E -f no-output -t ");
    let name = command::quoted(seq!['='] + session);
    assert(attach_wire(session, None, Access::ReadOnly)
        =~= "exec tmux -N -C attach-session -E -f read-only,ignore-size,no-output -t "@ + name);
    assert(attach_wire(session, None, Access::Interactive)
        =~= "exec tmux -N -C attach-session -E -f no-output -t "@ + name);
    assert(attach_wire(session, Some(path), Access::ReadOnly) =~= "exec tmux -N -C -S "@
        + command::quoted(path) + " attach-session -E -f read-only,ignore-size,no-output -t "@
        + name);
    assert(attach_wire(session, Some(path), Access::Interactive) =~= "exec tmux -N -C -S "@
        + command::quoted(path) + " attach-session -E -f no-output -t "@ + name);
}

/// A socket path is usable if it is not empty, has at most 4096 bytes and holds no
/// control character.
pub proof fn which_sockets_are_usable(socket: Seq<char>)
    ensures
        usable_socket(socket) <==> socket.len() > 0 && text::byte_len(socket) <= 4096
            && !text::has_control(socket),
{
}

/// What is asked about the client, the panes and one pane's rows, field by field in
/// the order in which the replies are read.
pub proof fn the_queries_ask_for_these_fields(pane: PaneId, history: usize)
    ensures
        info_query()
            == "display-message -p '#{version}|#{session_id}|#{client_control_mode}|#{client_readonly}|#{client_flags}|#{client_tty}'\n"@,
        panes_query()
            == "list-panes -s -F '#{pane_id} #{window_id} #{pane_width} #{pane_height} #{pane_left} #{pane_top} #{cursor_x} #{cursor_y} #{alternate_on} #{history_size} #{history_limit}'\n"@,
        capture_query(pane, history) == "capture-pane -p -C -t %"@ + text::digits(pane.0 as nat)
            + " -S -"@ + text::digits(history as nat) + " -E -\n"@,
{
    reveal_strlit("capture-pane -p -C -t ");
    reveal_strlit("capture-pane -p -C -t %");
    assert("capture-pane -p -C -t "@ + ids::sigiled('%', pane.0) =~= "capture-pane -p -C -t %"@
        + text::digits(pane.0 as nat));
}

/// What a client says about itself is accepted if it is a control client without a
/// terminal, with the access and the flags that were asked for; then the version and
/// the session are what it said.
pub proof fn which_clients_are_accepted(
    line: Seq<char>,
    version: Seq<char>,
    session: u32,
    control: Seq<char>,
    readonly: Seq<char>,
    flags: Seq<char>,
    tty: Seq<char>,
    access: Access,
)
    requires
        text::split(line, '|') == seq![
            version,
            seq!['$'] + text::digits(session as nat),
            control,
            readonly,
            flags,
            tty,
        ],
        version.len() > 0 && text::byte_len(version) <= 64,
    ensures
        ({
            let sound = control == "1"@ && tty.len() == 0 && has_flag(flags, "no-output"@)
                && match access {
                Access::ReadOnly => readonly == "1"@ && has_flag(flags, "ignore-size"@),
                Access::Interactive => readonly == "0"@ && !has_flag(flags, "ignore-size"@),
            };
            &&& sound ==> client_info(line, access) == Ok::<(Seq<char>, SessionId), InfoError>(
                (version, SessionId(session)),
            )
            &&& !sound ==> client_info(line, access) is Err
        }),
{
    let field = seq!['$'] + text::digits(session as nat);
    text::a_rendered_number_reads_back(session as nat);
    assert(field.skip(1) =~= text::digits(session as nat));
}

/// A pane's line reads back as the pane that it tells of: each number stands in its
/// own field, and a cursor outside is held within the pane.
pub proof fn a_pane_line_reads_back(
    line: Seq<char>,
    before: Seq<Pane>,
    pane: Pane,
    x: usize,
    y: usize,
)
    requires
        !has_id(before, pane.id),
        sizable(pane.size.width(), pane.size.height()),
        pane.left <= 65_535 && pane.top <= 65_535,
        text::words(line) == seq![
            seq!['%'] + text::digits(pane.id.0 as nat),
            seq!['@'] + text::digits(pane.window.0 as nat),
            text::digits(pane.size.width()),
            text::digits(pane.size.height()),
            text::digits(pane.left as nat),
            text::digits(pane.top as nat),
            text::digits(x as nat),
            text::digits(y as nat),
            if pane.alternate_screen {
                "1"@
            } else {
                "0"@
            },
            text::digits(pane.history_size as nat),
            text::digits(pane.history_limit as nat),
        ],
        pane.cursor_x == (if x <= pane.size.width() {
            x as nat
        } else {
            pane.size.width()
        }),
        pane.cursor_y == (if y < pane.size.height() {
            y as int
        } else {
            pane.size.height() - 1
        }),
    ensures
        pane_line(line, before) == Ok::<Pane, PaneError>(pane),
{
    reveal_strlit("0");
    reveal_strlit("1");
    assert("0"@[0] == '0' && "1"@[0] == '1');
    let fields = text::words(line);
    assert(fields[0].skip(1) =~= text::digits(pane.id.0 as nat));
    assert(fields[1].skip(1) =~= text::digits(pane.window.0 as nat));
    text::a_rendered_number_reads_back(pane.id.0 as nat);
    text::a_rendered_number_reads_back(pane.window.0 as nat);
    text::a_rendered_number_reads_back(pane.size.width());
    text::a_rendered_number_reads_back(pane.size.height());
    text::a_rendered_number_reads_back(pane.left as nat);
    text::a_rendered_number_reads_back(pane.top as nat);
    text::a_rendered_number_reads_back(x as nat);
    text::a_rendered_number_reads_back(y as nat);
    text::a_rendered_number_reads_back(pane.history_size as nat);
    text::a_rendered_number_reads_back(pane.history_limit as nat);
    Size::a_size_is_its_cells(pane.size.width(), pane.size.height(), pane.size);
}

/// Lines are read one after the other; one that is refused refuses them all, and a
/// pane that was there already is refused.
pub proof fn pane_lines_are_read_in_order(lines: Seq<Seq<char>>, line: Seq<char>)
    ensures
        pane_lines(Seq::empty()) == Ok::<Seq<Pane>, PaneError>(Seq::empty()),
        ({
            let before = pane_lines(lines);
            let after = pane_lines(lines.push(line));
            &&& before is Err ==> after == before
            &&& before is Ok && pane_line(line, before->Ok_0) is Ok ==> after is Ok && after->Ok_0
                == before->Ok_0.push(pane_line(line, before->Ok_0)->Ok_0)
            &&& before is Ok && pane_line(line, before->Ok_0) is Err ==> after is Err
                && after->Err_0 == pane_line(line, before->Ok_0)->Err_0
        }),
{
    assert(lines.push(line).drop_last() =~= lines);
}

/// An identity reads back: the server's process, the session's number and when the
/// session was made.
pub proof fn an_identity_reads_back(line: Seq<char>, identity: Identity)
    requires
        text::split(line, '|') == seq![
            text::digits(identity.server as nat),
            seq!['$'] + text::digits(identity.session.0 as nat),
            text::digits(identity.created as nat),
        ],
    ensures
        identity_line(line) == Ok::<Identity, IdentityError>(identity),
{
    let fields = text::split(line, '|');
    assert(fields[1].skip(1) =~= text::digits(identity.session.0 as nat));
    text::a_rendered_number_reads_back(identity.server as nat);
    text::a_rendered_number_reads_back(identity.session.0 as nat);
    text::a_rendered_number_reads_back(identity.created as nat);
}

/// The bytes of rows add up.
pub proof fn row_bytes_add_up(rows: Seq<String>, row: String)
    ensures
        rows_bytes(Seq::empty()) == 0,
        rows_bytes(rows.push(row)) == rows_bytes(rows) + text::byte_len(row@),
{
    assert(rows.push(row).drop_last() =~= rows);
}

/// An observation asks about the client, then about the panes, then for the rows of each
/// pane in the order of their numbers, and then about the panes again; after that it asks
/// for nothing.
pub proof fn an_observation_asks_in_order(before: Observer, r: Option<String>)
    requires
        before.wf(),
        asks(before, r),
    ensures
        before.stage == Stage::Info ==> r is Some && r->0@ == info_query(),
        before.stage == Stage::PanesBefore || before.stage == Stage::PanesAfter ==> r is Some
            && r->0@ == panes_query(),
        before.stage == Stage::Captures ==> r is Some && r->0@ == capture_query(
            before.before@[before.captures@.len() as int].id,
            before.history,
        ),
        before.stage == Stage::Done ==> r is None,
{
}

/// A reply that is accepted moves the observation on by one step; one that is refused
/// leaves it where it was.
pub proof fn an_observation_moves_on_step_by_step(
    before: Observer,
    lines: Vec<String>,
    r: Result<(), ObserveError>,
    after: Observer,
)
    requires
        before.wf(),
        before.stage != Stage::Done,
        observes(before, lines, r, after),
    ensures
        r is Err ==> after == before,
        r is Ok && before.stage == Stage::Info ==> after.stage == Stage::PanesBefore,
        r is Ok && before.stage == Stage::PanesBefore ==> after.stage == Stage::Captures
            && ascending(after.before@) && after.captures@.len() == 0,
        r is Ok && before.stage == Stage::Captures ==> {
            let n = before.captures@.len() as int;
            &&& after.captures@.len() == n + 1
            &&& after.captures@[n].pane == before.before@[n]
            &&& after.captures@[n].escaped_rows == lines
            &&& after.stage == (if n + 1 == before.before@.len() {
                Stage::PanesAfter
            } else {
                Stage::Captures
            })
            &&& after.total == before.total + rows_bytes(lines@) && after.total <= 8_388_608
        },
        r is Ok && before.stage == Stage::PanesAfter ==> after.stage == Stage::Done
            && after.captures == before.captures,
        r is Ok ==> after.history == before.history,
{
}

} // verus!
