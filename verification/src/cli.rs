//! What the command lines ask for.
//!
//! An argument is `None` where it is no UTF-8. File names are taken as they are,
//! so they are given by their places.
use vstd::prelude::*;
use crate::desktop::Startup;
use crate::inspect::MAX_HISTORY_LINES;
use crate::model::{nameable, sizable, SessionName, Size};
use crate::text;
use crate::tmux;

verus! {

/// Why a command line is refused.
#[derive(Clone, Copy, Debug, PartialEq, Eq, Structural)]
pub enum CliError {
    /// An option was given more than once: its place.
    Twice(usize),
    /// An option needs something behind it: its place.
    NeedsValue(usize),
    /// A size that is no UTF-8, not two numbers with an x between them, or too
    /// small or large.
    SizeText,
    SizeShape,
    SizeNumber,
    SizeRange,
    /// An argument that means nothing: its place.
    Unrecognized(usize),
    ReplayWithDesktop,
    SizeWithoutReplay,
    SnapshotWithoutDemo,
}

/// What the desktop's command line asks for.
pub enum Command {
    Help,
    Version,
    /// Replay a recording: the place of its file name.
    Replay { file: usize, size: Size },
    /// Save a picture of the demo: the place of its file name.
    Snapshot(usize),
    /// Open the window.
    Desktop(Startup),
}

/// What was found so far.
#[derive(Clone, Copy, Debug, PartialEq, Eq, Structural)]
pub struct Found {
    pub replay: Option<usize>,
    pub snapshot: Option<usize>,
    pub demo: bool,
    pub size: Option<Size>,
}

/// The text of an argument, where it is text.
pub open spec fn arg_text(arg: Option<String>) -> Option<Seq<char>> {
    match arg {
        Some(s) => Some(s@),
        None => None,
    }
}

/// The size that a text names: columns and rows with an x between them.
pub open spec fn size_of(arg: Option<String>) -> Result<Size, CliError> {
    match arg_text(arg) {
        None => Err(CliError::SizeText),
        Some(s) => {
            let parts = text::split(s, 'x');
            if parts.len() < 2 {
                Err(CliError::SizeShape)
            } else {
                let rest = s.skip(parts[0].len() as int + 1);
                match (
                    text::number_within(parts[0], usize::MAX as nat),
                    text::number_within(rest, usize::MAX as nat),
                ) {
                    (Some(columns), Some(rows)) => if sizable(columns, rows) {
                        Ok(Size::of(columns, rows))
                    } else {
                        Err(CliError::SizeRange)
                    },
                    _ => Err(CliError::SizeNumber),
                }
            }
        },
    }
}

/// What one argument, and what stands behind it, adds: the rest of the way from
/// there. The first component says that help (`true`) or the version was asked
/// for.
pub open spec fn scanned(args: Seq<Option<String>>, i: int, found: Found) -> Result<
    Result<Found, bool>,
    CliError,
>
    decreases args.len() - i,
{
    if i < 0 || i >= args.len() {
        Ok(Ok(found))
    } else {
        let arg = arg_text(args[i]);
        if arg == Some("--help"@) || arg == Some("-h"@) {
            Ok(Err(true))
        } else if arg == Some("--version"@) {
            Ok(Err(false))
        } else if arg == Some("--demo"@) {
            if found.demo {
                Err(CliError::Twice(i as usize))
            } else {
                scanned(args, i + 1, Found { demo: true, ..found })
            }
        } else if arg == Some("--snapshot"@) {
            if found.snapshot is Some {
                Err(CliError::Twice(i as usize))
            } else if i + 1 >= args.len() {
                Err(CliError::NeedsValue(i as usize))
            } else {
                scanned(args, i + 2, Found { snapshot: Some((i + 1) as usize), ..found })
            }
        } else if arg == Some("--replay"@) {
            if found.replay is Some {
                Err(CliError::Twice(i as usize))
            } else if i + 1 >= args.len() {
                Err(CliError::NeedsValue(i as usize))
            } else {
                scanned(args, i + 2, Found { replay: Some((i + 1) as usize), ..found })
            }
        } else if arg == Some("--size"@) {
            if found.size is Some {
                Err(CliError::Twice(i as usize))
            } else if i + 1 >= args.len() {
                Err(CliError::NeedsValue(i as usize))
            } else {
                match size_of(args[i + 1]) {
                    Err(error) => Err(error),
                    Ok(size) => scanned(args, i + 2, Found { size: Some(size), ..found }),
                }
            }
        } else {
            Err(CliError::Unrecognized(i as usize))
        }
    }
}

/// A command line with nothing on it.
pub open spec fn nothing() -> Found {
    Found { replay: None, snapshot: None, demo: false, size: None }
}

/// What was found comes to.
pub open spec fn chosen(found: Found) -> Result<Command, CliError> {
    match found.replay {
        Some(file) => if found.demo || found.snapshot is Some {
            Err(CliError::ReplayWithDesktop)
        } else {
            Ok(
                Command::Replay {
                    file,
                    size: match found.size {
                        Some(size) => size,
                        None => Size::of(80, 24),
                    },
                },
            )
        },
        None => if found.size is Some {
            Err(CliError::SizeWithoutReplay)
        } else {
            match found.snapshot {
                Some(file) => if found.demo {
                    Ok(Command::Snapshot(file))
                } else {
                    Err(CliError::SnapshotWithoutDemo)
                },
                None => Ok(
                    Command::Desktop(
                        if found.demo {
                            Startup::Demo
                        } else {
                            Startup::ConnectionForm
                        },
                    ),
                ),
            }
        },
    }
}

/// What a command line asks for.
pub open spec fn asked(args: Seq<Option<String>>) -> Result<Command, CliError> {
    match scanned(args, 0, nothing()) {
        Err(error) => Err(error),
        Ok(Err(help)) => if help {
            Ok(Command::Help)
        } else {
            Ok(Command::Version)
        },
        Ok(Ok(found)) => chosen(found),
    }
}

fn is_arg(arg: &Option<String>, name: &str) -> (r: bool)
    ensures
        r == (arg_text(*arg) == Some(name@)),
{
    match arg {
        Some(s) => text::same(s.as_str(), name),
        None => false,
    }
}

fn parse_size(arg: &Option<String>) -> (r: Result<Size, CliError>)
    ensures
        r == size_of(*arg),
{
    let s: &String = match arg {
        Some(s) => s,
        None => return Err(CliError::SizeText),
    };
    let v = text::chars_of(s.as_str());
    let parts = text::split_on(v.as_slice(), 'x');
    let ghost all = text::split(v@, 'x');
    assert(all.len() == parts@.len());
    if parts.len() < 2 {
        return Err(CliError::SizeShape);
    }
    assert(all[0] == parts@[0]@);
    proof {
        text::lemma_split_first(v@, 'x');
    }
    let rest = vstd::slice::slice_subrange(v.as_slice(), parts[0].len() + 1, v.len());
    assert(rest@ =~= v@.skip(parts@[0]@.len() as int + 1));
    match (
        text::parse(parts[0].as_slice(), usize::MAX as u64),
        text::parse(rest, usize::MAX as u64),
    ) {
        (Some(columns), Some(rows)) => match Size::new(columns as usize, rows as usize) {
            Ok(size) => Ok(size),
            Err(_) => Err(CliError::SizeRange),
        },
        _ => Err(CliError::SizeNumber),
    }
}

/// Reads the desktop's command line.
pub fn parse(args: &Vec<Option<String>>) -> (r: Result<Command, CliError>)
    ensures
        r == asked(args@),
{
    let mut found = Found { replay: None, snapshot: None, demo: false, size: None };
    let mut i: usize = 0;
    while i < args.len()
        invariant
            i <= args@.len(),
            scanned(args@, 0, nothing()) == scanned(args@, i as int, found),
        decreases args@.len() - i,
    {
        let arg: &Option<String> = &args[i];
        if is_arg(arg, "--help") || is_arg(arg, "-h") {
            return Ok(Command::Help);
        }
        if is_arg(arg, "--version") {
            return Ok(Command::Version);
        }
        if is_arg(arg, "--demo") {
            if found.demo {
                return Err(CliError::Twice(i));
            }
            found.demo = true;
            i = i + 1;
        } else if is_arg(arg, "--snapshot") {
            if found.snapshot.is_some() {
                return Err(CliError::Twice(i));
            }
            if args.len() - i < 2 {
                return Err(CliError::NeedsValue(i));
            }
            found.snapshot = Some(i + 1);
            i = i + 2;
        } else if is_arg(arg, "--replay") {
            if found.replay.is_some() {
                return Err(CliError::Twice(i));
            }
            if args.len() - i < 2 {
                return Err(CliError::NeedsValue(i));
            }
            found.replay = Some(i + 1);
            i = i + 2;
        } else if is_arg(arg, "--size") {
            if found.size.is_some() {
                return Err(CliError::Twice(i));
            }
            if args.len() - i < 2 {
                return Err(CliError::NeedsValue(i));
            }
            match parse_size(&args[i + 1]) {
                Ok(size) => {
                    found.size = Some(size);
                },
                Err(error) => return Err(error),
            }
            i = i + 2;
        } else {
            return Err(CliError::Unrecognized(i));
        }
    }
    choose_command(found)
}

fn choose_command(found: Found) -> (r: Result<Command, CliError>)
    ensures
        r == chosen(found),
{
    match found.replay {
        Some(file) => {
            if found.demo || found.snapshot.is_some() {
                return Err(CliError::ReplayWithDesktop);
            }
            let size: Size = match found.size {
                Some(size) => size,
                None => {
                    let size = Size::default();
                    proof {
                        Size::a_size_is_its_cells(80, 24, size);
                    }
                    size
                },
            };
            Ok(Command::Replay { file, size })
        },
        None => {
            if found.size.is_some() {
                return Err(CliError::SizeWithoutReplay);
            }
            match found.snapshot {
                Some(file) => if found.demo {
                    Ok(Command::Snapshot(file))
                } else {
                    Err(CliError::SnapshotWithoutDemo)
                },
                None => Ok(
                    Command::Desktop(
                        if found.demo {
                            Startup::Demo
                        } else {
                            Startup::ConnectionForm
                        },
                    ),
                ),
            }
        },
    }
}

/// Bytes of a recording that are read at most.
pub const MAX_REPLAY_BYTES: usize = 16_777_216;

/// The bytes of a recording so far.
pub open spec fn reads_on(total: usize, count: usize, r: Option<usize>) -> bool {
    match r {
        Some(sum) => sum == total + count && sum <= MAX_REPLAY_BYTES,
        None => total + count > MAX_REPLAY_BYTES,
    }
}

/// The bytes of a recording read so far, where they are not too many.
pub fn replay_total(total: usize, count: usize) -> (r: Option<usize>)
    requires
        total <= MAX_REPLAY_BYTES,
    ensures
        reads_on(total, count, r),
{
    if count > MAX_REPLAY_BYTES - total {
        return None;
    }
    Some(total + count)
}

/// The options of the inspector that take a value.
#[derive(Clone, Copy, Debug, PartialEq, Eq, Structural)]
pub enum Opt {
    Host,
    User,
    Session,
    KnownHosts,
    Port,
    Socket,
    History,
    Timeout,
    Watch,
}

/// Why the inspector's command line is refused.
#[derive(Clone, Copy, Debug, PartialEq, Eq, Structural)]
pub enum InspectError {
    /// An option that is no UTF-8: its place.
    NotUtf8(usize),
    Twice(usize),
    NeedsValue(usize),
    Unrecognized(usize),
    Required(Opt),
    /// A value that has to be UTF-8 and is not.
    ValueNotUtf8(Opt),
    SessionName,
    /// Neither an identity nor the agent was offered.
    NoAuthentication,
    InvalidNumber(Opt),
    HistoryTooLong,
    WatchRange,
}

/// The option that a text names, if it names one that takes a value.
pub open spec fn opt_named(arg: Seq<char>) -> Option<Opt> {
    if arg == "--host"@ {
        Some(Opt::Host)
    } else if arg == "--user"@ {
        Some(Opt::User)
    } else if arg == "--session"@ {
        Some(Opt::Session)
    } else if arg == "--known-hosts"@ {
        Some(Opt::KnownHosts)
    } else if arg == "--port"@ {
        Some(Opt::Port)
    } else if arg == "--socket"@ {
        Some(Opt::Socket)
    } else if arg == "--history"@ {
        Some(Opt::History)
    } else if arg == "--timeout"@ {
        Some(Opt::Timeout)
    } else if arg == "--watch"@ {
        Some(Opt::Watch)
    } else {
        None
    }
}

/// The places of the values that were given.
#[derive(Clone, Copy, Debug, PartialEq, Eq, Structural)]
pub struct Places {
    pub host: Option<usize>,
    pub user: Option<usize>,
    pub session: Option<usize>,
    pub known_hosts: Option<usize>,
    pub port: Option<usize>,
    pub socket: Option<usize>,
    pub history: Option<usize>,
    pub timeout: Option<usize>,
    pub watch: Option<usize>,
}

/// Where the value of an option is.
pub open spec fn place(places: Places, opt: Opt) -> Option<usize> {
    match opt {
        Opt::Host => places.host,
        Opt::User => places.user,
        Opt::Session => places.session,
        Opt::KnownHosts => places.known_hosts,
        Opt::Port => places.port,
        Opt::Socket => places.socket,
        Opt::History => places.history,
        Opt::Timeout => places.timeout,
        Opt::Watch => places.watch,
    }
}

/// The places with one more.
pub open spec fn placed(places: Places, opt: Opt, at: usize) -> Places {
    match opt {
        Opt::Host => Places { host: Some(at), ..places },
        Opt::User => Places { user: Some(at), ..places },
        Opt::Session => Places { session: Some(at), ..places },
        Opt::KnownHosts => Places { known_hosts: Some(at), ..places },
        Opt::Port => Places { port: Some(at), ..places },
        Opt::Socket => Places { socket: Some(at), ..places },
        Opt::History => Places { history: Some(at), ..places },
        Opt::Timeout => Places { timeout: Some(at), ..places },
        Opt::Watch => Places { watch: Some(at), ..places },
    }
}

/// No value was given.
pub open spec fn no_places() -> Places {
    Places {
        host: None,
        user: None,
        session: None,
        known_hosts: None,
        port: None,
        socket: None,
        history: None,
        timeout: None,
        watch: None,
    }
}

/// What was found on the inspector's command line so far.
pub struct Heap {
    pub places: Places,
    pub agent: bool,
    pub identities: Seq<usize>,
}

/// What the arguments from `i` on add. `None` says that help was asked for.
pub open spec fn collected(args: Seq<Option<String>>, i: int, heap: Heap) -> Result<
    Option<Heap>,
    InspectError,
>
    decreases args.len() - i,
{
    if i < 0 || i >= args.len() {
        Ok(Some(heap))
    } else {
        match arg_text(args[i]) {
            None => Err(InspectError::NotUtf8(i as usize)),
            Some(arg) => if arg == "--help"@ || arg == "-h"@ {
                Ok(None)
            } else if arg == "--agent"@ {
                if heap.agent {
                    Err(InspectError::Twice(i as usize))
                } else {
                    collected(args, i + 1, Heap { agent: true, ..heap })
                }
            } else if arg == "--identity"@ {
                if i + 1 >= args.len() {
                    Err(InspectError::NeedsValue(i as usize))
                } else {
                    collected(
                        args,
                        i + 2,
                        Heap { identities: heap.identities.push((i + 1) as usize), ..heap },
                    )
                }
            } else {
                match opt_named(arg) {
                    None => Err(InspectError::Unrecognized(i as usize)),
                    Some(opt) => if i + 1 >= args.len() {
                        Err(InspectError::NeedsValue(i as usize))
                    } else if place(heap.places, opt) is Some {
                        Err(InspectError::Twice(i as usize))
                    } else {
                        collected(
                            args,
                            i + 2,
                            Heap { places: placed(heap.places, opt, (i + 1) as usize), ..heap },
                        )
                    },
                }
            },
        }
    }
}

/// A value that has to be there and to be UTF-8.
pub open spec fn required_text(args: Seq<Option<String>>, places: Places, opt: Opt) -> Result<
    Seq<char>,
    InspectError,
> {
    match place(places, opt) {
        None => Err(InspectError::Required(opt)),
        Some(at) => match arg_text(args[at as int]) {
            None => Err(InspectError::ValueNotUtf8(opt)),
            Some(s) => Ok(s),
        },
    }
}

/// A number that may be left out.
pub open spec fn optional_number(
    args: Seq<Option<String>>,
    places: Places,
    opt: Opt,
    default: nat,
    limit: nat,
) -> Result<nat, InspectError> {
    match place(places, opt) {
        None => Ok(default),
        Some(at) => match arg_text(args[at as int]) {
            None => Err(InspectError::ValueNotUtf8(opt)),
            Some(s) => match text::number_within(s, limit) {
                Some(n) => Ok(n),
                None => Err(InspectError::InvalidNumber(opt)),
            },
        },
    }
}

/// What the inspector is to do. Files are given by their places.
pub struct Inspection {
    pub host: String,
    pub user: String,
    pub session: SessionName,
    pub known_hosts: usize,
    pub identities: Vec<usize>,
    pub agent: bool,
    pub port: u16,
    pub history: usize,
    pub timeout_secs: u64,
    pub socket: Option<String>,
    pub watch_secs: Option<u64>,
}

/// What the inspector is to do, apart from how its texts are held.
pub struct Order {
    pub host: Seq<char>,
    pub user: Seq<char>,
    pub session: Seq<char>,
    pub known_hosts: usize,
    pub identities: Seq<usize>,
    pub agent: bool,
    pub port: nat,
    pub history: nat,
    pub timeout_secs: nat,
    pub socket: Option<Seq<char>>,
    pub watch_secs: Option<nat>,
}

impl View for Inspection {
    type V = Order;

    open spec fn view(&self) -> Order {
        Order {
            host: self.host@,
            user: self.user@,
            session: self.session@,
            known_hosts: self.known_hosts,
            identities: self.identities@,
            agent: self.agent,
            port: self.port as nat,
            history: self.history as nat,
            timeout_secs: self.timeout_secs as nat,
            socket: arg_text(self.socket),
            watch_secs: match self.watch_secs {
                Some(secs) => Some(secs as nat),
                None => None,
            },
        }
    }
}

/// The shortest and longest observation, in seconds.
pub open spec fn watchable(secs: nat) -> bool {
    1 <= secs <= 3600
}

/// The part of an order that says where to connect, checked in its order.
pub open spec fn endpoint(args: Seq<Option<String>>, heap: Heap) -> Result<
    (Seq<char>, Seq<char>, Seq<char>, usize),
    InspectError,
> {
    match required_text(args, heap.places, Opt::Host) {
        Err(error) => Err(error),
        Ok(host) => match required_text(args, heap.places, Opt::User) {
            Err(error) => Err(error),
            Ok(user) => match required_text(args, heap.places, Opt::Session) {
                Err(error) => Err(error),
                Ok(session) => if !nameable(session) {
                    Err(InspectError::SessionName)
                } else {
                    match heap.places.known_hosts {
                        None => Err(InspectError::Required(Opt::KnownHosts)),
                        Some(known_hosts) => if !heap.agent && heap.identities.len() == 0 {
                            Err(InspectError::NoAuthentication)
                        } else {
                            Ok((host, user, session, known_hosts))
                        },
                    }
                },
            },
        },
    }
}

/// The part of an order that says how much and how long, checked in its order.
pub open spec fn limits(args: Seq<Option<String>>, places: Places) -> Result<
    (nat, nat, nat, Option<Seq<char>>, Option<nat>),
    InspectError,
> {
    match optional_number(args, places, Opt::Port, 22, u16::MAX as nat) {
        Err(error) => Err(error),
        Ok(port) => match optional_number(args, places, Opt::History, 200, usize::MAX as nat) {
            Err(error) => Err(error),
            Ok(history) => match optional_number(args, places, Opt::Timeout, 10, u64::MAX as nat) {
                Err(error) => Err(error),
                Ok(timeout) => if places.socket is Some && arg_text(
                    args[places.socket->0 as int],
                ) is None {
                    Err(InspectError::ValueNotUtf8(Opt::Socket))
                } else {
                    let socket = match places.socket {
                        Some(at) => arg_text(args[at as int]),
                        None => None,
                    };
                    if history > MAX_HISTORY_LINES {
                        Err(InspectError::HistoryTooLong)
                    } else if places.watch is None {
                        Ok((port, history, timeout, socket, None))
                    } else {
                        match optional_number(args, places, Opt::Watch, 0, u64::MAX as nat) {
                            Err(error) => Err(error),
                            Ok(secs) => if watchable(secs) {
                                Ok((port, history, timeout, socket, Some(secs)))
                            } else {
                                Err(InspectError::WatchRange)
                            },
                        }
                    }
                },
            },
        },
    }
}

/// What the inspector's command line asks for. `None` is help, which an empty
/// command line asks for too.
pub open spec fn ordered(args: Seq<Option<String>>) -> Result<Option<Order>, InspectError> {
    match collected(args, 0, Heap { places: no_places(), agent: false, identities: Seq::empty() }) {
        Err(error) => Err(error),
        Ok(None) => Ok(None),
        Ok(Some(heap)) => if heap.places == no_places() && !heap.agent && heap.identities.len()
            == 0 {
            Ok(None)
        } else {
            match endpoint(args, heap) {
                Err(error) => Err(error),
                Ok((host, user, session, known_hosts)) => match limits(args, heap.places) {
                    Err(error) => Err(error),
                    Ok((port, history, timeout_secs, socket, watch_secs)) => Ok(
                        Some(
                            Order {
                                host,
                                user,
                                session,
                                known_hosts,
                                identities: heap.identities,
                                agent: heap.agent,
                                port,
                                history,
                                timeout_secs,
                                socket,
                                watch_secs,
                            },
                        ),
                    ),
                },
            }
        },
    }
}

/// Every place that was noted is one of the command line.
pub open spec fn inside(places: Places, len: nat) -> bool {
    &&& places.host is Some ==> places.host->0 < len
    &&& places.user is Some ==> places.user->0 < len
    &&& places.session is Some ==> places.session->0 < len
    &&& places.known_hosts is Some ==> places.known_hosts->0 < len
    &&& places.port is Some ==> places.port->0 < len
    &&& places.socket is Some ==> places.socket->0 < len
    &&& places.history is Some ==> places.history->0 < len
    &&& places.timeout is Some ==> places.timeout->0 < len
    &&& places.watch is Some ==> places.watch->0 < len
}

fn find_opt(arg: &str) -> (r: Option<Opt>)
    ensures
        r == opt_named(arg@),
{
    if text::same(arg, "--host") {
        Some(Opt::Host)
    } else if text::same(arg, "--user") {
        Some(Opt::User)
    } else if text::same(arg, "--session") {
        Some(Opt::Session)
    } else if text::same(arg, "--known-hosts") {
        Some(Opt::KnownHosts)
    } else if text::same(arg, "--port") {
        Some(Opt::Port)
    } else if text::same(arg, "--socket") {
        Some(Opt::Socket)
    } else if text::same(arg, "--history") {
        Some(Opt::History)
    } else if text::same(arg, "--timeout") {
        Some(Opt::Timeout)
    } else if text::same(arg, "--watch") {
        Some(Opt::Watch)
    } else {
        None
    }
}

impl Places {
    fn get(self, opt: Opt) -> (r: Option<usize>)
        ensures
            r == place(self, opt),
    {
        match opt {
            Opt::Host => self.host,
            Opt::User => self.user,
            Opt::Session => self.session,
            Opt::KnownHosts => self.known_hosts,
            Opt::Port => self.port,
            Opt::Socket => self.socket,
            Opt::History => self.history,
            Opt::Timeout => self.timeout,
            Opt::Watch => self.watch,
        }
    }

    fn put(self, opt: Opt, at: usize) -> (r: Self)
        ensures
            r == placed(self, opt, at),
    {
        let mut places: Places = self;
        match opt {
            Opt::Host => places.host = Some(at),
            Opt::User => places.user = Some(at),
            Opt::Session => places.session = Some(at),
            Opt::KnownHosts => places.known_hosts = Some(at),
            Opt::Port => places.port = Some(at),
            Opt::Socket => places.socket = Some(at),
            Opt::History => places.history = Some(at),
            Opt::Timeout => places.timeout = Some(at),
            Opt::Watch => places.watch = Some(at),
        }
        places
    }
}

fn required(args: &Vec<Option<String>>, places: Places, opt: Opt) -> (r: Result<
    String,
    InspectError,
>)
    requires
        inside(places, args@.len()),
    ensures
        match r {
            Ok(s) => required_text(args@, places, opt) == Ok::<Seq<char>, InspectError>(s@),
            Err(error) => required_text(args@, places, opt) == Err::<Seq<char>, InspectError>(error),
        },
{
    match places.get(opt) {
        None => Err(InspectError::Required(opt)),
        Some(at) => match &args[at] {
            None => Err(InspectError::ValueNotUtf8(opt)),
            Some(s) => Ok(s.clone()),
        },
    }
}

fn number(
    args: &Vec<Option<String>>,
    places: Places,
    opt: Opt,
    default: u64,
    limit: u64,
) -> (r: Result<u64, InspectError>)
    requires
        inside(places, args@.len()),
        default <= limit,
    ensures
        match r {
            Ok(n) => n <= limit && optional_number(
                args@,
                places,
                opt,
                default as nat,
                limit as nat,
            ) == Ok::<nat, InspectError>(n as nat),
            Err(error) => optional_number(args@, places, opt, default as nat, limit as nat)
                == Err::<nat, InspectError>(error),
        },
{
    match places.get(opt) {
        None => Ok(default),
        Some(at) => match &args[at] {
            None => Err(InspectError::ValueNotUtf8(opt)),
            Some(s) => {
                let v = text::chars_of(s.as_str());
                match text::parse(v.as_slice(), limit) {
                    Some(n) => Ok(n),
                    None => Err(InspectError::InvalidNumber(opt)),
                }
            },
        },
    }
}

/// Reads the inspector's command line. `None` asks for help.
pub fn parse_inspect(args: &Vec<Option<String>>) -> (r: Result<Option<Inspection>, InspectError>)
    ensures
        match r {
            Ok(Some(inspection)) => ordered(args@) == Ok::<Option<Order>, InspectError>(
                Some(inspection@),
            ),
            Ok(None) => ordered(args@) == Ok::<Option<Order>, InspectError>(None),
            Err(error) => ordered(args@) == Err::<Option<Order>, InspectError>(error),
        },
{
    let mut places = Places {
        host: None,
        user: None,
        session: None,
        known_hosts: None,
        port: None,
        socket: None,
        history: None,
        timeout: None,
        watch: None,
    };
    let mut agent: bool = false;
    let mut identities: Vec<usize> = Vec::new();
    let ghost empty = Heap { places: no_places(), agent: false, identities: Seq::empty() };
    assert(identities@ =~= Seq::<usize>::empty());
    let mut i: usize = 0;
    while i < args.len()
        invariant
            i <= args@.len(),
            inside(places, args@.len()),
            empty == (Heap { places: no_places(), agent: false, identities: Seq::empty() }),
            collected(args@, 0, empty) == collected(
                args@,
                i as int,
                Heap { places, agent, identities: identities@ },
            ),
        decreases args@.len() - i,
    {
        let arg: &String = match &args[i] {
            Some(arg) => arg,
            None => return Err(InspectError::NotUtf8(i)),
        };
        if text::same(arg.as_str(), "--help") || text::same(arg.as_str(), "-h") {
            return Ok(None);
        }
        if text::same(arg.as_str(), "--agent") {
            if agent {
                return Err(InspectError::Twice(i));
            }
            agent = true;
            i = i + 1;
        } else if text::same(arg.as_str(), "--identity") {
            if args.len() - i < 2 {
                return Err(InspectError::NeedsValue(i));
            }
            identities.push(i + 1);
            i = i + 2;
        } else {
            match find_opt(arg.as_str()) {
                None => return Err(InspectError::Unrecognized(i)),
                Some(opt) => {
                    if args.len() - i < 2 {
                        return Err(InspectError::NeedsValue(i));
                    }
                    if places.get(opt).is_some() {
                        return Err(InspectError::Twice(i));
                    }
                    places = places.put(opt, i + 1);
                    i = i + 2;
                },
            }
        }
    }
    let none = Places {
        host: None,
        user: None,
        session: None,
        known_hosts: None,
        port: None,
        socket: None,
        history: None,
        timeout: None,
        watch: None,
    };
    if same_places(places, none) && !agent && identities.len() == 0 {
        return Ok(None);
    }
    build_inspection(args, places, agent, identities)
}

fn same_place(a: Option<usize>, b: Option<usize>) -> (r: bool)
    ensures
        r == (a == b),
{
    match (a, b) {
        (Some(a), Some(b)) => a == b,
        (None, None) => true,
        _ => false,
    }
}

fn same_places(a: Places, b: Places) -> (r: bool)
    ensures
        r == (a == b),
{
    same_place(a.host, b.host) && same_place(a.user, b.user) && same_place(a.session, b.session)
        && same_place(a.known_hosts, b.known_hosts) && same_place(a.port, b.port) && same_place(
        a.socket,
        b.socket,
    ) && same_place(a.history, b.history) && same_place(a.timeout, b.timeout) && same_place(
        a.watch,
        b.watch,
    )
}

fn build_inspection(
    args: &Vec<Option<String>>,
    places: Places,
    agent: bool,
    identities: Vec<usize>,
) -> (r: Result<Option<Inspection>, InspectError>)
    requires
        inside(places, args@.len()),
    ensures
        ({
            let heap = Heap { places, agent, identities: identities@ };
            match endpoint(args@, heap) {
                Err(error) => r == Err::<Option<Inspection>, InspectError>(error),
                Ok((host, user, session, known_hosts)) => match limits(args@, places) {
                    Err(error) => r == Err::<Option<Inspection>, InspectError>(error),
                    Ok((port, history, timeout_secs, socket, watch_secs)) => r is Ok && r->Ok_0
                        is Some && r->Ok_0->0@ == (Order {
                        host,
                        user,
                        session,
                        known_hosts,
                        identities: identities@,
                        agent,
                        port,
                        history,
                        timeout_secs,
                        socket,
                        watch_secs,
                    }),
                },
            }
        }),
{
    let host: String = match required(args, places, Opt::Host) {
        Ok(host) => host,
        Err(error) => return Err(error),
    };
    let user: String = match required(args, places, Opt::User) {
        Ok(user) => user,
        Err(error) => return Err(error),
    };
    let named: String = match required(args, places, Opt::Session) {
        Ok(named) => named,
        Err(error) => return Err(error),
    };
    let session: SessionName = match SessionName::new(named.as_str()) {
        Ok(session) => session,
        Err(_) => return Err(InspectError::SessionName),
    };
    let known_hosts: usize = match places.known_hosts {
        Some(at) => at,
        None => return Err(InspectError::Required(Opt::KnownHosts)),
    };
    if !agent && identities.len() == 0 {
        return Err(InspectError::NoAuthentication);
    }
    let port: u16 = match number(args, places, Opt::Port, 22, u16::MAX as u64) {
        Ok(port) => port as u16,
        Err(error) => return Err(error),
    };
    let history: usize = match number(args, places, Opt::History, 200, usize::MAX as u64) {
        Ok(history) => history as usize,
        Err(error) => return Err(error),
    };
    let timeout_secs: u64 = match number(args, places, Opt::Timeout, 10, u64::MAX) {
        Ok(secs) => secs,
        Err(error) => return Err(error),
    };
    let socket: Option<String> = match places.socket {
        Some(at) => match &args[at] {
            Some(path) => Some(path.clone()),
            None => return Err(InspectError::ValueNotUtf8(Opt::Socket)),
        },
        None => None,
    };
    if history > MAX_HISTORY_LINES {
        return Err(InspectError::HistoryTooLong);
    }
    let watch_secs: Option<u64> = match places.watch {
        Some(_) => match number(args, places, Opt::Watch, 0, u64::MAX) {
            Ok(secs) => {
                if secs < 1 || secs > 3600 {
                    return Err(InspectError::WatchRange);
                }
                Some(secs)
            },
            Err(error) => return Err(error),
        },
        None => None,
    };
    Ok(
        Some(
            Inspection {
                host,
                user,
                session,
                known_hosts,
                identities,
                agent,
                port,
                history,
                timeout_secs,
                socket,
                watch_secs,
            },
        ),
    )
}

/// A size reads back from its columns and rows with an `x` between them, if it is one.
pub proof fn a_size_reads_back(arg: Option<String>, columns: usize, rows: usize)
    requires
        arg_text(arg) == Some(
            text::digits(columns as nat) + seq!['x'] + text::digits(rows as nat),
        ),
    ensures
        sizable(columns as nat, rows as nat) ==> size_of(arg) is Ok && size_of(arg)->Ok_0.width()
            == columns && size_of(arg)->Ok_0.height() == rows,
        !sizable(columns as nat, rows as nat) ==> size_of(arg) == Err::<Size, CliError>(
            CliError::SizeRange,
        ),
{
    let a = text::digits(columns as nat);
    let b = text::digits(rows as nat);
    let s = arg_text(arg)->0;
    text::lemma_digits(columns as nat);
    assert forall|i: int| 0 <= i < a.len() implies a[i] != 'x' by {
        assert(text::is_digit(a[i]));
    }
    tmux::lemma_split_join(a, b, 'x');
    tmux::lemma_split_one(a, 'x');
    text::lemma_split_first(b, 'x');
    text::a_rendered_number_reads_back(columns as nat);
    text::a_rendered_number_reads_back(rows as nat);
    assert(s.skip(a.len() as int + 1) =~= b);
    if sizable(columns as nat, rows as nat) {
        Size::a_size_is_its_cells(columns as nat, rows as nat, Size::of(columns as nat, rows as nat));
    }
}

/// Asking for help or for the version ends the reading.
pub proof fn help_and_version_end_the_reading(args: Seq<Option<String>>, i: int, found: Found)
    requires
        0 <= i < args.len(),
    ensures
        arg_text(args[i]) == Some("--help"@) || arg_text(args[i]) == Some("-h"@) ==> scanned(
            args,
            i,
            found,
        ) == Ok::<Result<Found, bool>, CliError>(Err(true)),
        arg_text(args[i]) == Some("--version"@) ==> scanned(args, i, found) == Ok::<
            Result<Found, bool>,
            CliError,
        >(Err(false)),
{
    reveal_strlit("--help");
    reveal_strlit("-h");
    reveal_strlit("--version");
    assert("--version"@[2] == 'v' && "--help"@[2] == 'h');
    assert("-h"@.len() == 2);
}

/// The demo is asked for once.
pub proof fn the_demo_is_asked_for_once(args: Seq<Option<String>>, i: int, found: Found)
    requires
        0 <= i < args.len(),
        arg_text(args[i]) == Some("--demo"@),
    ensures
        !found.demo ==> scanned(args, i, found) == scanned(
            args,
            i + 1,
            Found { demo: true, ..found },
        ),
        found.demo ==> scanned(args, i, found) == Err::<Result<Found, bool>, CliError>(
            CliError::Twice(i as usize),
        ),
{
    reveal_strlit("--help");
    reveal_strlit("-h");
    reveal_strlit("--version");
    reveal_strlit("--demo");
    assert("--demo"@[2] == 'd' && "--version"@[2] == 'v' && "--help"@[2] == 'h');
    assert("-h"@.len() == 2);
}

/// A picture's file stands behind its option, which is given once.
pub proof fn a_picture_goes_to_the_file_behind_its_option(
    args: Seq<Option<String>>,
    i: int,
    found: Found,
)
    requires
        0 <= i < args.len(),
        arg_text(args[i]) == Some("--snapshot"@),
    ensures
        found.snapshot is None && i + 1 < args.len() ==> scanned(args, i, found) == scanned(
            args,
            i + 2,
            Found { snapshot: Some((i + 1) as usize), ..found },
        ),
        found.snapshot is Some ==> scanned(args, i, found) == Err::<Result<Found, bool>, CliError>(
            CliError::Twice(i as usize),
        ),
        found.snapshot is None && i + 1 >= args.len() ==> scanned(args, i, found) == Err::<
            Result<Found, bool>,
            CliError,
        >(CliError::NeedsValue(i as usize)),
{
    reveal_strlit("--help");
    reveal_strlit("-h");
    reveal_strlit("--version");
    reveal_strlit("--demo");
    reveal_strlit("--snapshot");
    assert("--snapshot"@[3] == 'n' && "--demo"@[3] == 'e' && "--version"@[3] == 'e'
        && "--help"@[3] == 'e');
    assert("-h"@.len() == 2);
}

/// A recording's file stands behind its option, which is given once.
pub proof fn a_recording_comes_from_the_file_behind_its_option(
    args: Seq<Option<String>>,
    i: int,
    found: Found,
)
    requires
        0 <= i < args.len(),
        arg_text(args[i]) == Some("--replay"@),
    ensures
        found.replay is None && i + 1 < args.len() ==> scanned(args, i, found) == scanned(
            args,
            i + 2,
            Found { replay: Some((i + 1) as usize), ..found },
        ),
        found.replay is Some ==> scanned(args, i, found) == Err::<Result<Found, bool>, CliError>(
            CliError::Twice(i as usize),
        ),
        found.replay is None && i + 1 >= args.len() ==> scanned(args, i, found) == Err::<
            Result<Found, bool>,
            CliError,
        >(CliError::NeedsValue(i as usize)),
{
    reveal_strlit("--help");
    reveal_strlit("-h");
    reveal_strlit("--version");
    reveal_strlit("--demo");
    reveal_strlit("--snapshot");
    reveal_strlit("--replay");
    assert("--replay"@[2] == 'r' && "--snapshot"@[2] == 's' && "--demo"@[2] == 'd'
        && "--version"@[2] == 'v' && "--help"@[2] == 'h');
    assert("-h"@.len() == 2);
}

/// A size stands behind its option, which is given once, and is refused for what is
/// wrong with it.
pub proof fn a_size_stands_behind_its_option(args: Seq<Option<String>>, i: int, found: Found)
    requires
        0 <= i < args.len(),
        arg_text(args[i]) == Some("--size"@),
    ensures
        found.size is None && i + 1 < args.len() && size_of(args[i + 1]) is Ok ==> scanned(
            args,
            i,
            found,
        ) == scanned(args, i + 2, Found { size: Some(size_of(args[i + 1])->Ok_0), ..found }),
        found.size is None && i + 1 < args.len() && size_of(args[i + 1]) is Err ==> scanned(
            args,
            i,
            found,
        ) == Err::<Result<Found, bool>, CliError>(size_of(args[i + 1])->Err_0),
        found.size is Some ==> scanned(args, i, found) == Err::<Result<Found, bool>, CliError>(
            CliError::Twice(i as usize),
        ),
        found.size is None && i + 1 >= args.len() ==> scanned(args, i, found) == Err::<
            Result<Found, bool>,
            CliError,
        >(CliError::NeedsValue(i as usize)),
{
    reveal_strlit("--help");
    reveal_strlit("-h");
    reveal_strlit("--version");
    reveal_strlit("--demo");
    reveal_strlit("--snapshot");
    reveal_strlit("--replay");
    reveal_strlit("--size");
    assert("--size"@[3] == 'i' && "--replay"@[3] == 'e' && "--snapshot"@[3] == 'n'
        && "--demo"@[3] == 'e' && "--version"@[3] == 'e' && "--help"@[3] == 'e');
    assert("-h"@.len() == 2);
}

/// At the end of the command line what was found stands, and an argument that is none of
/// the options is refused.
pub proof fn nothing_else_is_recognized(args: Seq<Option<String>>, i: int, found: Found)
    requires
        0 <= i <= args.len(),
    ensures
        i == args.len() ==> scanned(args, i, found) == Ok::<Result<Found, bool>, CliError>(
            Ok(found),
        ),
        i < args.len() && arg_text(args[i]) != Some("--help"@) && arg_text(args[i]) != Some("-h"@)
            && arg_text(args[i]) != Some("--version"@) && arg_text(args[i]) != Some("--demo"@)
            && arg_text(args[i]) != Some("--snapshot"@) && arg_text(args[i]) != Some("--replay"@)
            && arg_text(args[i]) != Some("--size"@) ==> scanned(args, i, found) == Err::<
            Result<Found, bool>,
            CliError,
        >(CliError::Unrecognized(i as usize)),
{
}

/// A replay excludes the desktop's options and has eighty columns and twenty-four rows
/// unless another size is given; a size needs a replay, and a picture the demo.
pub proof fn what_the_options_come_to(found: Found)
    ensures
        found.replay is Some && (found.demo || found.snapshot is Some) ==> chosen(found) == Err::<
            Command,
            CliError,
        >(CliError::ReplayWithDesktop),
        found.replay is Some && !found.demo && found.snapshot is None && found.size is Some
            ==> chosen(found) == Ok::<Command, CliError>(
            Command::Replay { file: found.replay->0, size: found.size->0 },
        ),
        found.replay is Some && !found.demo && found.snapshot is None && found.size is None
            ==> chosen(found) is Ok && chosen(found)->Ok_0 is Replay && chosen(
            found,
        )->Ok_0->file == found.replay->0 && chosen(found)->Ok_0->size.width() == 80 && chosen(
            found,
        )->Ok_0->size.height() == 24,
        found.replay is None && found.size is Some ==> chosen(found) == Err::<Command, CliError>(
            CliError::SizeWithoutReplay,
        ),
        found.replay is None && found.size is None && found.snapshot is Some && found.demo
            ==> chosen(found) == Ok::<Command, CliError>(Command::Snapshot(found.snapshot->0)),
        found.replay is None && found.size is None && found.snapshot is Some && !found.demo
            ==> chosen(found) == Err::<Command, CliError>(CliError::SnapshotWithoutDemo),
        found.replay is None && found.size is None && found.snapshot is None && found.demo
            ==> chosen(found) == Ok::<Command, CliError>(Command::Desktop(Startup::Demo)),
        found.replay is None && found.size is None && found.snapshot is None && !found.demo
            ==> chosen(found) == Ok::<Command, CliError>(Command::Desktop(Startup::ConnectionForm)),
{
    Size::a_size_is_its_cells(80, 24, Size::of(80, 24));
}

/// A command line asks for what its options come to, from the first one on; an empty one
/// opens the connection form.
pub proof fn an_empty_command_line_opens_the_form(args: Seq<Option<String>>)
    ensures
        args.len() == 0 ==> asked(args) == Ok::<Command, CliError>(
            Command::Desktop(Startup::ConnectionForm),
        ),
        match scanned(
            args,
            0,
            Found { replay: None, snapshot: None, demo: false, size: None },
        ) {
            Err(error) => asked(args) == Err::<Command, CliError>(error),
            Ok(Err(true)) => asked(args) == Ok::<Command, CliError>(Command::Help),
            Ok(Err(false)) => asked(args) == Ok::<Command, CliError>(Command::Version),
            Ok(Ok(found)) => asked(args) == chosen(found),
        },
{
}

/// Each of the inspector's options goes by its own name.
pub proof fn each_option_has_its_name()
    ensures
        opt_named("--host"@) == Some(Opt::Host),
        opt_named("--user"@) == Some(Opt::User),
        opt_named("--session"@) == Some(Opt::Session),
        opt_named("--known-hosts"@) == Some(Opt::KnownHosts),
        opt_named("--port"@) == Some(Opt::Port),
        opt_named("--socket"@) == Some(Opt::Socket),
        opt_named("--history"@) == Some(Opt::History),
        opt_named("--timeout"@) == Some(Opt::Timeout),
        opt_named("--watch"@) == Some(Opt::Watch),
{
    reveal_strlit("--host");
    reveal_strlit("--user");
    reveal_strlit("--session");
    reveal_strlit("--known-hosts");
    reveal_strlit("--port");
    reveal_strlit("--socket");
    reveal_strlit("--history");
    reveal_strlit("--timeout");
    reveal_strlit("--watch");
    assert("--host"@[3] == 'o' && "--host"@.len() == 6);
    assert("--user"@[2] == 'u');
    assert("--session"@[2] == 's' && "--session"@[3] == 'e');
    assert("--known-hosts"@[2] == 'k');
    assert("--port"@[2] == 'p');
    assert("--socket"@[2] == 's' && "--socket"@[3] == 'o');
    assert("--history"@[2] == 'h' && "--history"@.len() == 9);
    assert("--timeout"@[2] == 't');
    assert("--watch"@[2] == 'w');
}

/// A value is noted for its own option, and every other option keeps what it had.
pub proof fn a_value_belongs_to_its_option(places: Places, opt: Opt, other: Opt, at: usize)
    ensures
        place(placed(places, opt, at), opt) == Some(at),
        other != opt ==> place(placed(places, opt, at), other) == place(places, other),
        place(no_places(), opt) is None,
        place(places, Opt::Host) == places.host,
        place(places, Opt::User) == places.user,
        place(places, Opt::Session) == places.session,
        place(places, Opt::KnownHosts) == places.known_hosts,
        place(places, Opt::Port) == places.port,
        place(places, Opt::Socket) == places.socket,
        place(places, Opt::History) == places.history,
        place(places, Opt::Timeout) == places.timeout,
        place(places, Opt::Watch) == places.watch,
{
}

/// An option of the inspector takes what stands behind it, once.
pub proof fn an_option_takes_what_stands_behind_it(
    args: Seq<Option<String>>,
    i: int,
    heap: Heap,
    arg: Seq<char>,
    opt: Opt,
)
    requires
        0 <= i < args.len(),
        arg_text(args[i]) == Some(arg),
        opt_named(arg) == Some(opt),
    ensures
        i + 1 < args.len() && place(heap.places, opt) is None ==> collected(args, i, heap)
            == collected(
            args,
            i + 2,
            Heap { places: placed(heap.places, opt, (i + 1) as usize), ..heap },
        ),
        i + 1 < args.len() && place(heap.places, opt) is Some ==> collected(args, i, heap) == Err::<
            Option<Heap>,
            InspectError,
        >(InspectError::Twice(i as usize)),
        i + 1 >= args.len() ==> collected(args, i, heap) == Err::<Option<Heap>, InspectError>(
            InspectError::NeedsValue(i as usize),
        ),
{
    reveal_strlit("--help");
    reveal_strlit("-h");
    reveal_strlit("--agent");
    reveal_strlit("--identity");
    reveal_strlit("--host");
    reveal_strlit("--user");
    reveal_strlit("--session");
    reveal_strlit("--known-hosts");
    reveal_strlit("--port");
    reveal_strlit("--socket");
    reveal_strlit("--history");
    reveal_strlit("--timeout");
    reveal_strlit("--watch");
    assert("-h"@.len() == 2);
    assert("--help"@[2] == 'h' && "--help"@[3] == 'e');
    assert("--agent"@[2] == 'a');
    assert("--identity"@[2] == 'i');
    assert("--host"@[2] == 'h' && "--host"@[3] == 'o');
    assert("--user"@[2] == 'u');
    assert("--session"@[2] == 's');
    assert("--known-hosts"@[2] == 'k');
    assert("--port"@[2] == 'p');
    assert("--socket"@[2] == 's');
    assert("--history"@[2] == 'h' && "--history"@[3] == 'i');
    assert("--timeout"@[2] == 't');
    assert("--watch"@[2] == 'w');
}

/// The agent is offered once, every identity is kept in its order, help ends the
/// reading, and what is no text or no option is refused.
pub proof fn what_else_the_inspector_reads(args: Seq<Option<String>>, i: int, heap: Heap)
    requires
        0 <= i <= args.len(),
    ensures
        i == args.len() ==> collected(args, i, heap) == Ok::<Option<Heap>, InspectError>(
            Some(heap),
        ),
        i < args.len() ==> match arg_text(args[i]) {
            None => collected(args, i, heap) == Err::<Option<Heap>, InspectError>(
                InspectError::NotUtf8(i as usize),
            ),
            Some(arg) => {
                &&& arg == "--help"@ || arg == "-h"@ ==> collected(args, i, heap) == Ok::<
                    Option<Heap>,
                    InspectError,
                >(None)
                &&& arg == "--agent"@ && !heap.agent ==> collected(args, i, heap) == collected(
                    args,
                    i + 1,
                    Heap { agent: true, ..heap },
                )
                &&& arg == "--agent"@ && heap.agent ==> collected(args, i, heap) == Err::<
                    Option<Heap>,
                    InspectError,
                >(InspectError::Twice(i as usize))
                &&& arg == "--identity"@ && i + 1 < args.len() ==> collected(args, i, heap)
                    == collected(
                    args,
                    i + 2,
                    Heap { identities: heap.identities.push((i + 1) as usize), ..heap },
                )
                &&& arg == "--identity"@ && i + 1 >= args.len() ==> collected(args, i, heap)
                    == Err::<Option<Heap>, InspectError>(InspectError::NeedsValue(i as usize))
                &&& arg != "--help"@ && arg != "-h"@ && arg != "--agent"@ && arg != "--identity"@
                    && opt_named(arg) is None ==> collected(args, i, heap) == Err::<
                    Option<Heap>,
                    InspectError,
                >(InspectError::Unrecognized(i as usize))
            },
        },
{
    reveal_strlit("--help");
    reveal_strlit("-h");
    reveal_strlit("--agent");
    reveal_strlit("--identity");
    assert("-h"@.len() == 2);
    assert("--help"@[2] == 'h');
    assert("--agent"@[2] == 'a');
    assert("--identity"@[2] == 'i');
}

/// A value that has to be there is what stands at its place; a number that may be left
/// out is what stands there, or else what it is without.
pub proof fn what_values_are(
    args: Seq<Option<String>>,
    places: Places,
    opt: Opt,
    default: nat,
    limit: nat,
    n: nat,
)
    ensures
        place(places, opt) is None ==> required_text(args, places, opt) == Err::<
            Seq<char>,
            InspectError,
        >(InspectError::Required(opt)),
        place(places, opt) is Some && arg_text(args[place(places, opt)->0 as int]) is Some
            ==> required_text(args, places, opt) == Ok::<Seq<char>, InspectError>(
            arg_text(args[place(places, opt)->0 as int])->0,
        ),
        place(places, opt) is None ==> optional_number(args, places, opt, default, limit) == Ok::<
            nat,
            InspectError,
        >(default),
        place(places, opt) is Some && arg_text(args[place(places, opt)->0 as int]) == Some(
            text::digits(n),
        ) && n <= limit ==> optional_number(args, places, opt, default, limit) == Ok::<
            nat,
            InspectError,
        >(n),
        place(places, opt) is Some && arg_text(args[place(places, opt)->0 as int]) == Some(
            text::digits(n),
        ) && n > limit ==> optional_number(args, places, opt, default, limit) == Err::<
            nat,
            InspectError,
        >(InspectError::InvalidNumber(opt)),
{
    text::a_rendered_number_reads_back(n);
}

/// An inspection that is ordered connects to the host, the user and the session that
/// were named, with the identities and the agent that were offered, one at least, and
/// keeps within its bounds; what was left out is port 22, two hundred lines and ten
/// seconds.
pub proof fn an_order_is_what_was_asked(args: Seq<Option<String>>, heap: Heap)
    requires
        collected(
            args,
            0,
            Heap { places: no_places(), agent: false, identities: Seq::empty() },
        ) == Ok::<Option<Heap>, InspectError>(Some(heap)),
        ordered(args) is Ok,
        ordered(args)->Ok_0 is Some,
    ensures
        ({
            let order = ordered(args)->Ok_0->0;
            let places = heap.places;
            &&& places.host is Some && arg_text(args[places.host->0 as int]) == Some(order.host)
            &&& places.user is Some && arg_text(args[places.user->0 as int]) == Some(order.user)
            &&& places.session is Some && arg_text(args[places.session->0 as int]) == Some(
                order.session,
            )
            &&& nameable(order.session)
            &&& places.known_hosts == Some(order.known_hosts)
            &&& order.identities == heap.identities && order.agent == heap.agent
            &&& order.agent || order.identities.len() > 0
            &&& order.history <= 1000
            &&& places.port is None ==> order.port == 22
            &&& places.port is Some ==> text::number_within(
                arg_text(args[places.port->0 as int])->0,
                65_535,
            ) == Some(order.port)
            &&& places.history is None ==> order.history == 200
            &&& places.history is Some ==> text::number(
                arg_text(args[places.history->0 as int])->0,
            ) == Some(order.history)
            &&& places.timeout is None ==> order.timeout_secs == 10
            &&& places.timeout is Some ==> text::number(
                arg_text(args[places.timeout->0 as int])->0,
            ) == Some(order.timeout_secs)
            &&& places.socket is None ==> order.socket is None
            &&& places.socket is Some ==> order.socket is Some && order.socket == arg_text(
                args[places.socket->0 as int],
            )
            &&& places.watch is None ==> order.watch_secs is None
            &&& places.watch is Some ==> order.watch_secs is Some && 1 <= order.watch_secs->0
                && order.watch_secs->0 <= 3600 && text::number(
                arg_text(args[places.watch->0 as int])->0,
            ) == order.watch_secs
        }),
{
}

/// Every command line of the inspector that asks for something can be carried out or is
/// refused; asking for nothing asks for help.
pub proof fn asking_for_nothing_asks_for_help(args: Seq<Option<String>>)
    ensures
        args.len() == 0 ==> ordered(args) == Ok::<Option<Order>, InspectError>(None),
        collected(
            args,
            0,
            Heap { places: no_places(), agent: false, identities: Seq::empty() },
        ) == Ok::<Option<Heap>, InspectError>(None) ==> ordered(args) == Ok::<
            Option<Order>,
            InspectError,
        >(None),
{
}

/// An inspection that names its host, its user, a session, the known hosts and an
/// identity, and nothing else, is carried out.
pub proof fn a_sufficient_order_is_carried_out(
    args: Seq<Option<String>>,
    heap: Heap,
    host: Seq<char>,
    user: Seq<char>,
    session: Seq<char>,
)
    requires
        collected(
            args,
            0,
            Heap { places: no_places(), agent: false, identities: Seq::empty() },
        ) == Ok::<Option<Heap>, InspectError>(Some(heap)),
        heap.places.host is Some && arg_text(args[heap.places.host->0 as int]) == Some(host),
        heap.places.user is Some && arg_text(args[heap.places.user->0 as int]) == Some(user),
        heap.places.session is Some && arg_text(args[heap.places.session->0 as int]) == Some(
            session,
        ),
        nameable(session),
        heap.places.known_hosts is Some,
        heap.agent || heap.identities.len() > 0,
        heap.places.port is None && heap.places.history is None && heap.places.timeout is None
            && heap.places.socket is None && heap.places.watch is None,
    ensures
        ordered(args) is Ok && ordered(args)->Ok_0 is Some,
{
}

/// A recording of up to 16 MiB is read, and a longer one is not.
pub proof fn a_recording_has_its_bound(total: usize, count: usize, r: Option<usize>)
    requires
        reads_on(total, count, r),
    ensures
        r is Some <==> total + count <= 16_777_216,
        r is Some ==> r->0 == total + count,
{
}

/// What is missing from an inspection is asked for: first the host, then the user, then a
/// session that can be targeted, then the known hosts, and then an identity or the agent.
pub proof fn what_is_missing_is_asked_for(args: Seq<Option<String>>, heap: Heap)
    ensures
        heap.places.host is None ==> endpoint(args, heap) is Err && endpoint(args, heap)->Err_0
            == InspectError::Required(Opt::Host),
        ({
            let host = required_text(args, heap.places, Opt::Host) is Ok;
            let user = required_text(args, heap.places, Opt::User) is Ok;
            let session = required_text(args, heap.places, Opt::Session);
            &&& host && heap.places.user is None ==> endpoint(args, heap) is Err && endpoint(
                args,
                heap,
            )->Err_0 == InspectError::Required(Opt::User)
            &&& host && user && heap.places.session is None ==> endpoint(args, heap) is Err
                && endpoint(args, heap)->Err_0 == InspectError::Required(Opt::Session)
            &&& host && user && session is Ok && !nameable(session->Ok_0) ==> endpoint(args, heap)
                is Err && endpoint(args, heap)->Err_0 == InspectError::SessionName
            &&& host && user && session is Ok && nameable(session->Ok_0) && heap.places.known_hosts
                is None ==> endpoint(args, heap) is Err && endpoint(args, heap)->Err_0
                == InspectError::Required(Opt::KnownHosts)
            &&& host && user && session is Ok && nameable(session->Ok_0) && heap.places.known_hosts
                is Some && !heap.agent && heap.identities.len() == 0 ==> endpoint(args, heap) is Err
                && endpoint(args, heap)->Err_0 == InspectError::NoAuthentication
        }),
{
}

/// An observation lasts from a second to an hour.
pub proof fn an_observation_lasts_up_to_an_hour(secs: nat)
    ensures
        watchable(secs) <==> secs >= 1 && secs <= 3600,
{
}

} // verus!
