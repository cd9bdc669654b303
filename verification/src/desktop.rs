//! Desktop state: one cancellable connection with bounded user input.
//!
//! Everything here runs under the model's lock and does no I/O. A request that
//! was replaced cannot publish into the next connection's view.
use std::collections::VecDeque;
use std::time::{Duration, Instant};
use vstd::prelude::*;
use crate::clock;
use crate::command;
use crate::exchange::Notification;
use crate::fault;
use crate::fault::Fault;
use crate::ids;
use crate::ids::{PaneId, SessionId};
use crate::input;
use crate::input::{input_error, input_size, Action, Input};
use crate::inspect::Identity;
use crate::model::{SessionName, Size};
use crate::reconnect;
use crate::reconnect::{Backoff, Failure};
use crate::sessions;
use crate::snapshot;
use crate::snapshot::{Access, Status};
use crate::ssh;
use crate::text;

verus! {

/// A connection that the user asked for.
#[derive(Clone)]
pub struct Connection {
    pub options: ssh::Options,
    pub session: SessionName,
    pub socket: Option<String>,
    pub history: usize,
    pub access: Access,
    /// Retry transport loss automatically. Only transport loss: authentication,
    /// trust, missing-session, and detach never retry regardless of this.
    pub reconnect: bool,
}

/// What the window opens with.
#[derive(Clone, Copy, Debug, PartialEq, Eq, Structural)]
pub enum Startup {
    ConnectionForm,
    Demo,
}

#[derive(Clone, Copy, Debug, PartialEq, Eq, Structural)]
pub enum Phase {
    Idle,
    Connecting,
    Watching,
    Resynchronizing,
    /// Waiting out a backoff delay before another attachment attempt. The last
    /// view stays readable; nothing typed here is queued for later delivery.
    Reconnecting,
    Disconnected,
    Failed,
    Demo,
}

/// How a phase is named to the user.
pub open spec fn phase_label(phase: Phase) -> Seq<char> {
    match phase {
        Phase::Idle => "Not connected"@,
        Phase::Connecting => "Connecting"@,
        Phase::Watching => "Connected"@,
        Phase::Resynchronizing => "Resynchronizing"@,
        Phase::Reconnecting => "Reconnecting"@,
        Phase::Disconnected => "Disconnected"@,
        Phase::Failed => "Connection failed"@,
        Phase::Demo => "Demo data"@,
    }
}

impl Phase {
    /// How the phase is named to the user.
    pub fn label(self) -> (r: &'static str)
        ensures
            r@ == phase_label(self),
    {
        match self {
            Phase::Idle => "Not connected",
            Phase::Connecting => "Connecting",
            Phase::Watching => "Connected",
            Phase::Resynchronizing => "Resynchronizing",
            Phase::Reconnecting => "Reconnecting",
            Phase::Disconnected => "Disconnected",
            Phase::Failed => "Connection failed",
            Phase::Demo => "Demo data",
        }
    }
}

/// Visible retry state: an automatic reconnection is never something happening
/// silently behind the user.
#[derive(Clone, Copy, Debug)]
pub struct Retry {
    pub attempt: u32,
    pub resume_at: Instant,
    pub failure: Failure,
}

impl Retry {
    /// The wait that is left, by the monotonic clock as it reads now.
    pub fn remaining(self) -> (r: Duration)
        ensures
            exists|now: Instant|
                clock::nanos(r) == #[trigger] clock::between(self.resume_at, now),
    {
        self.remaining_at(clock::now())
    }

    /// The wait that is left at a given time; none once that time has come.
    pub fn remaining_at(self, now: Instant) -> (r: Duration)
        ensures
            clock::nanos(r) == clock::between(self.resume_at, now),
    {
        clock::since(self.resume_at, now)
    }
}

/// The most actions that wait to be sent.
pub const MAX_PENDING_ACTIONS: usize = 64;

/// The most bytes that wait to be sent.
pub const MAX_PENDING_BYTES: usize = 131_072;

/// The most actions that go out in one transaction.
pub const MAX_TRANSACTION_ACTIONS: usize = 32;

/// The most characters of an error that are kept.
pub const MAX_ERROR_CHARS: usize = 2048;

/// The most characters of a failed discovery that are kept.
pub const MAX_DISCOVERY_CHARS: usize = 1024;

/// A UI action is bound to the exact connection and reconstructed view in which
/// it originated. Pane numbers alone are unsafe across a new tmux server.
#[derive(Clone, Copy, Debug, PartialEq, Eq, Structural)]
pub struct Target {
    pub epoch: u64,
    pub generation: u64,
    pub pane: PaneId,
}

impl Target {
    pub fn pane(self) -> (r: PaneId)
        ensures
            r == self.pane,
    {
        self.pane
    }
}

/// An action that waits to be sent.
pub struct Pending {
    pub target: Target,
    pub action: Action,
}

/// What a waiting action is, apart from how its content is held.
pub struct Entry {
    pub target: Target,
    pub input: Input,
}

impl View for Pending {
    type V = Entry;

    open spec fn view(&self) -> Entry {
        Entry { target: self.target, input: self.action@ }
    }
}

/// What the worker has been asked to do next. Discovery and creation are
/// one-shot queries; they neither disturb nor become an attachment.
pub enum Request {
    Attach(Connection),
    ListSessions(Connection),
    /// Explicitly start a session, which starts a server if none is running.
    CreateSession(Connection, Size),
}

/// The outcome of the last discovery request, for the connection form.
pub enum Discovery {
    Running,
    Sessions(Vec<sessions::Summary>),
    Created(String),
    Failed(String),
}

/// Why a request or an action was not accepted.
#[derive(Clone, Copy, Debug, PartialEq, Eq, Structural)]
pub enum Refused {
    /// The connection or layout that the action was made for is gone.
    Stale,
    ResizeDisabled,
    Invalid(input::Error),
    QueueFull,
    HistoryTooLong,
    /// A host cannot be asked about its sessions while a connection is open.
    Connected,
    /// Another request is already running.
    Busy,
}

pub struct State {
    /// Moves on just before a worker asks for this client to be looked at again.
    pub revision: u64,
    pub epoch: u64,
    pub pending: Option<Request>,
    pub stopping: bool,
    pub generation: u64,
    pub phase: Phase,
    pub view: Option<snapshot::SessionView>,
    pub error: Option<String>,
    pub access: Access,
    pub allow_resize: bool,
    /// Set while an automatic reconnection is scheduled.
    pub retry: Option<Retry>,
    /// A report that the reattached session is not the one that was lost.
    pub continuity: Option<String>,
    /// How the last attachment ended, once it has ended.
    pub failure: Option<Failure>,
    pub discovery: Option<Discovery>,
    /// Last interactive round trip, from traffic that is sent anyway.
    pub last_rtt: Option<Duration>,
    pub actions: VecDeque<Pending>,
    pub action_bytes: usize,
    /// Whether a worker waits on a socket and can be woken.
    pub io_wake: bool,
}

/// What waits in a queue.
pub open spec fn entries(q: Seq<Pending>) -> Seq<Entry> {
    Seq::new(q.len(), |i: int| q[i]@)
}

/// The bytes that the actions of a queue count for together.
pub open spec fn total(q: Seq<Entry>) -> nat
    decreases q.len(),
{
    if q.len() == 0 {
        0
    } else {
        total(q.drop_last()) + input_size(q.last().input)
    }
}

/// Text joins the text that waits last for the same target, where both together
/// still fit one command.
pub open spec fn joins(q: Seq<Entry>, entry: Entry) -> bool {
    match entry.input {
        Input::Bytes(bytes) => q.len() > 0 && q.last().target == entry.target
            && match q.last().input {
            Input::Bytes(before) => before.len() + bytes.len() <= command::MAX_INPUT_BYTES,
            _ => false,
        },
        _ => false,
    }
}

/// The queue with one more action.
pub open spec fn queued(q: Seq<Entry>, entry: Entry) -> Seq<Entry> {
    if joins(q, entry) {
        q.drop_last().push(
            Entry {
                target: entry.target,
                input: Input::Bytes(q.last().input->Bytes_0 + entry.input->Bytes_0),
            },
        )
    } else {
        q.push(entry)
    }
}

/// The queue with more actions, in order.
pub open spec fn queued_all(q: Seq<Entry>, more: Seq<Entry>) -> Seq<Entry>
    decreases more.len(),
{
    if more.len() == 0 {
        q
    } else {
        queued(queued_all(q, more.drop_last()), more.last())
    }
}

/// The view is current and the user may type.
pub open spec fn ready(s: State) -> bool {
    s.phase == Phase::Watching && s.access == Access::Interactive && s.view is Some
        && s.view->0.status == Status::Watching
}

/// The token that an action aimed at this pane carries, if there is one now.
pub open spec fn token(s: State, pane: PaneId) -> Option<Target> {
    if ready(s) && snapshot::has_pane(s.view->0.panes@, pane) {
        Some(Target { epoch: s.epoch, generation: s.generation, pane })
    } else {
        None
    }
}

/// Why an action is not even looked at for room, if it is not.
pub open spec fn inadmissible(s: State, entry: Entry) -> Option<Refused> {
    if token(s, entry.target.pane) != Some(entry.target) {
        Some(Refused::Stale)
    } else if input::alters_window_size(entry.input) && !s.allow_resize {
        Some(Refused::ResizeDisabled)
    } else {
        match input_error(entry.input) {
            Some(error) => Some(Refused::Invalid(error)),
            None => None,
        }
    }
}

/// Why an action is refused, if it is.
pub open spec fn refusal(s: State, entry: Entry) -> Option<Refused> {
    match inadmissible(s, entry) {
        Some(refused) => Some(refused),
        None => if s.actions@.len() < MAX_PENDING_ACTIONS && s.action_bytes + input_size(
            entry.input,
        ) <= MAX_PENDING_BYTES {
            None
        } else {
            Some(Refused::QueueFull)
        },
    }
}

/// The first reason that an action of a batch is inadmissible.
pub open spec fn first_inadmissible(s: State, batch: Seq<Entry>) -> Option<Refused>
    decreases batch.len(),
{
    if batch.len() == 0 {
        None
    } else {
        match first_inadmissible(s, batch.drop_last()) {
            Some(refused) => Some(refused),
            None => inadmissible(s, batch.last()),
        }
    }
}

/// Why a batch is refused as a whole, if it is: room first, then its actions in
/// order.
pub open spec fn batch_refusal(s: State, batch: Seq<Entry>) -> Option<Refused> {
    if s.actions@.len() + batch.len() <= MAX_PENDING_ACTIONS && s.action_bytes + total(batch)
        <= MAX_PENDING_BYTES {
        first_inadmissible(s, batch)
    } else {
        Some(Refused::QueueFull)
    }
}

/// A connection that may still publish.
pub open spec fn current(s: State, epoch: u64) -> bool {
    !s.stopping && s.epoch == epoch
}

/// The phases in which a host is not asked about its sessions.
pub open spec fn engaged(phase: Phase) -> bool {
    phase == Phase::Connecting || phase == Phase::Watching || phase == Phase::Resynchronizing
        || phase == Phase::Reconnecting
}

/// The view, if there is one, with its liveness revoked.
pub open spec fn unplugged(view: Option<snapshot::SessionView>) -> Option<snapshot::SessionView> {
    match view {
        Some(view) => Some(snapshot::SessionView { status: Status::Disconnected, ..view }),
        None => None,
    }
}

impl State {
    /// The queue is within its bounds and its size is accounted for.
    pub open spec fn wf(&self) -> bool {
        &&& self.actions@.len() <= MAX_PENDING_ACTIONS
        &&& self.action_bytes <= MAX_PENDING_BYTES
        &&& self.action_bytes == total(entries(self.actions@))
    }

    pub open spec fn queue(&self) -> Seq<Entry> {
        entries(self.actions@)
    }
}

impl Default for State {
    fn default() -> (r: Self)
        ensures
            r.wf(),
            r.revision == 0 && r.epoch == 0 && r.generation == 0,
            r.pending is None && !r.stopping && r.phase == Phase::Idle,
            r.view is None && r.error is None && r.retry is None && r.continuity is None,
            r.failure is None && r.discovery is None && r.last_rtt is None,
            r.access == Access::ReadOnly && !r.allow_resize && !r.io_wake,
            r.actions@.len() == 0 && r.action_bytes == 0,
    {
        State {
            revision: 0,
            epoch: 0,
            pending: None,
            stopping: false,
            generation: 0,
            phase: Phase::Idle,
            view: None,
            error: None,
            access: Access::ReadOnly,
            allow_resize: false,
            retry: None,
            continuity: None,
            failure: None,
            discovery: None,
            last_rtt: None,
            actions: VecDeque::new(),
            action_bytes: 0,
            io_wake: false,
        }
    }
}

/// What is left of a state once its connection is cancelled.
pub open spec fn cancelled(before: State, after: State) -> bool {
    &&& after == (State {
        epoch: (before.epoch + 1) as u64,
        pending: None,
        error: None,
        retry: None,
        continuity: None,
        failure: None,
        access: Access::ReadOnly,
        allow_resize: false,
        io_wake: false,
        view: unplugged(before.view),
        actions: after.actions,
        action_bytes: 0,
        ..before
    })
    &&& after.actions@.len() == 0
}

/// What queueing an action comes to.
pub open spec fn enqueues(
    before: State,
    target: Target,
    input: Input,
    r: Result<bool, Refused>,
    after: State,
) -> bool {
    let entry = Entry { target, input };
    match r {
        Ok(wake) => {
            &&& refusal(before, entry) is None
            &&& wake == before.io_wake
            &&& after.queue() == queued(before.queue(), entry)
            &&& after == (State {
                actions: after.actions,
                action_bytes: (before.action_bytes + input_size(input)) as usize,
                ..before
            })
        },
        Err(refused) => refusal(before, entry) == Some(refused) && after
            == before,
    }
}

/// The client is to be looked at again.
pub open spec fn bumped(before: State, after: State) -> bool {
    after == (State {
        revision: if before.revision < u64::MAX {
            (before.revision + 1) as u64
        } else {
            0
        },
        ..before
    })
}

impl State {
    fn discard_actions(&mut self)
        ensures
            final(self).actions@.len() == 0,
            *final(self) == (State { actions: final(self).actions, action_bytes: 0, ..*old(self) }),
    {
        self.actions.clear();
        self.action_bytes = 0;
    }

    /// Gives up the connection: its epoch ends, and with it every token made for
    /// it. Returns whether a worker is to be woken.
    pub fn cancel(&mut self) -> (wake: bool)
        requires
            old(self).epoch < u64::MAX,
        ensures
            cancelled(*old(self), *final(self)),
            final(self).wf(),
            wake == old(self).io_wake,
    {
        self.epoch = self.epoch + 1;
        self.pending = None;
        self.error = None;
        self.retry = None;
        self.continuity = None;
        self.failure = None;
        self.discard_actions();
        self.access = Access::ReadOnly;
        self.allow_resize = false;
        let wake: bool = self.io_wake;
        self.io_wake = false;
        self.unplug();
        wake
    }

    fn unplug(&mut self)
        ensures
            *final(self) == (State { view: unplugged(old(self).view), ..*old(self) }),
    {
        match self.view.take() {
            Some(view) => {
                let mut view = view;
                view.disconnect();
                self.view = Some(view);
            },
            None => {},
        }
    }

    pub fn epoch(&self) -> (r: u64)
        ensures
            r == self.epoch,
    {
        self.epoch
    }

    pub fn revision(&self) -> (r: u64)
        ensures
            r == self.revision,
    {
        self.revision
    }

    /// Marks that this client is to be looked at again.
    pub fn bump(&mut self)
        ensures
            bumped(*old(self), *final(self)),
    {
        self.revision = if self.revision < u64::MAX {
            self.revision + 1
        } else {
            0
        };
    }

    /// Whether the view is current and the user may type.
    pub fn input_ready(&self) -> (r: bool)
        ensures
            r == ready(*self),
    {
        self.phase == Phase::Watching && self.access == Access::Interactive && match &self.view {
            Some(view) => view.status() == Status::Watching,
            None => false,
        }
    }

    /// The token that an action aimed at this pane carries. Keep it with a
    /// delayed action; never make it again on retry.
    pub fn target(&self, pane: PaneId) -> (r: Option<Target>)
        ensures
            r == token(*self, pane),
    {
        if !self.input_ready() {
            return None;
        }
        match &self.view {
            Some(view) => match view.find(pane) {
                Some(_) => Some(Target { epoch: self.epoch, generation: self.generation, pane }),
                None => None,
            },
            None => None,
        }
    }

    fn check_current(&self, target: Target, action: &Action) -> (r: Result<(), Refused>)
        ensures
            match r {
                Ok(()) => inadmissible(*self, Entry { target, input: action@ }) is None,
                Err(refused) => inadmissible(*self, Entry { target, input: action@ }) == Some(
                    refused,
                ),
            },
    {
        match self.target(target.pane) {
            Some(current) => if current != target {
                return Err(Refused::Stale);
            },
            None => return Err(Refused::Stale),
        }
        if action.changes_window_size() && !self.allow_resize {
            return Err(Refused::ResizeDisabled);
        }
        match action.validate() {
            Ok(()) => Ok(()),
            Err(error) => Err(Refused::Invalid(error)),
        }
    }

    /// Queues an action for the worker. Ordinary text joins the text that waits
    /// last, without moving past a key, a paste or a resize. Returns whether a
    /// worker is to be woken; a refused action changes nothing.
    pub fn enqueue(&mut self, target: Target, action: Action) -> (r: Result<bool, Refused>)
        requires
            old(self).wf(),
        ensures
            final(self).wf(),
            enqueues(*old(self), target, action@, r, *final(self)),
    {
        match self.check_current(target, &action) {
            Ok(()) => {},
            Err(refused) => return Err(refused),
        }
        let size: usize = action.size();
        if self.actions.len() >= MAX_PENDING_ACTIONS || size > MAX_PENDING_BYTES
            - self.action_bytes {
            return Err(Refused::QueueFull);
        }
        let ghost entry = Entry { target, input: action@ };
        let ghost before = self.queue();
        proof {
            lemma_total_queued(before, entry);
        }
        self.put(target, action);
        self.action_bytes = self.action_bytes + size;
        Ok(self.io_wake)
    }

    fn put(&mut self, target: Target, action: Action)
        ensures
            final(self).queue() == queued(
                old(self).queue(),
                Entry { target, input: action@ },
            ),
            final(self).actions@.len() <= old(self).actions@.len() + 1,
            *final(self) == (State { actions: final(self).actions, ..*old(self) }),
    {
        let ghost entry = Entry { target, input: action@ };
        let ghost before = self.queue();
        let ghost held = self.actions@;
        let mut action = action;
        if let Action::Bytes(bytes) = &mut action {
            let ghost added = bytes@;
            match self.actions.pop_back() {
                Some(last) => {
                    assert(before.last() == last@);
                    assert(entries(held.drop_last()) =~= before.drop_last());
                    let mut last = last;
                    let mut joined: bool = false;
                    if last.target == target {
                        if let Action::Bytes(waiting) = &mut last.action {
                            if waiting.len() <= command::MAX_INPUT_BYTES && bytes.len()
                                <= command::MAX_INPUT_BYTES - waiting.len() {
                                let ghost first = waiting@;
                                waiting.append(bytes);
                                joined = true;
                            }
                        }
                    }
                    let ghost kept = last@;
                    self.actions.push_back(last);
                    assert(entries(self.actions@) =~= before.drop_last().push(kept));
                    if joined {
                        assert(joins(before, entry));
                        return ;
                    }
                    assert(before =~= before.drop_last().push(kept));
                },
                None => {},
            }
        }
        assert(!joins(before, entry));
        let ghost now = self.actions@;
        self.actions.push_back(Pending { target, action });
        assert(self.queue() =~= before.push(entry));
    }
}

/// A longer queue counts for what the new action adds.
pub proof fn lemma_total_queued(q: Seq<Entry>, entry: Entry)
    ensures
        total(queued(q, entry)) == total(q) + input_size(entry.input),
{
    if joins(q, entry) {
        let joined = Entry {
            target: entry.target,
            input: Input::Bytes(q.last().input->Bytes_0 + entry.input->Bytes_0),
        };
        assert(q.drop_last().push(joined).drop_last() =~= q.drop_last());
    } else {
        assert(q.push(entry).drop_last() =~= q);
    }
}

/// What a batch of actions asks for.
pub open spec fn batch(v: Seq<(Target, Action)>) -> Seq<Entry> {
    Seq::new(v.len(), |i: int| Entry { target: v[i].0, input: v[i].1@ })
}

/// What a list of actions asks for.
pub open spec fn inputs(v: Seq<Action>) -> Seq<Input> {
    Seq::new(v.len(), |i: int| v[i]@)
}

/// The inputs of a part of a queue.
pub open spec fn inputs_of(q: Seq<Entry>) -> Seq<Input> {
    Seq::new(q.len(), |i: int| q[i].input)
}

proof fn lemma_total_prefix(q: Seq<Entry>, n: int)
    requires
        0 <= n <= q.len(),
    ensures
        total(q.take(n)) <= total(q),
    decreases q.len(),
{
    if n < q.len() {
        assert(q.drop_last().take(n) =~= q.take(n));
        lemma_total_prefix(q.drop_last(), n);
    } else {
        assert(q.take(n) =~= q);
    }
}

proof fn lemma_total_first(q: Seq<Entry>)
    requires
        q.len() > 0,
    ensures
        total(q) == input_size(q[0].input) + total(q.drop_first()),
    decreases q.len(),
{
    if q.len() == 1 {
        assert(q.drop_first() =~= Seq::<Entry>::empty());
        assert(q.drop_last() =~= Seq::<Entry>::empty());
    } else {
        lemma_total_first(q.drop_last());
        assert(q.drop_first().drop_last() =~= q.drop_last().drop_first());
        assert(q.drop_first().last() == q.last());
    }
}

proof fn lemma_each_admissible(s: State, q: Seq<Entry>, i: int)
    requires
        first_inadmissible(s, q) is None,
        0 <= i < q.len(),
    ensures
        inadmissible(s, q[i]) is None,
    decreases q.len(),
{
    if i < q.len() - 1 {
        lemma_each_admissible(s, q.drop_last(), i);
    }
}

proof fn lemma_first_inadmissible_prefix(s: State, q: Seq<Entry>, n: int)
    requires
        0 <= n <= q.len(),
        first_inadmissible(s, q.take(n)) is Some,
    ensures
        first_inadmissible(s, q) == first_inadmissible(s, q.take(n)),
    decreases q.len(),
{
    if n < q.len() {
        assert(q.drop_last().take(n) =~= q.take(n));
        lemma_first_inadmissible_prefix(s, q.drop_last(), n);
    } else {
        assert(q.take(n) =~= q);
    }
}

/// What queueing a batch comes to.
pub open spec fn submits(
    before: State,
    entered: Seq<Entry>,
    r: Result<bool, Refused>,
    after: State,
) -> bool {
    match r {
        Ok(wake) => {
            &&& batch_refusal(before, entered) is None
            &&& wake == (before.io_wake && entered.len() > 0)
            &&& after.queue() == queued_all(before.queue(), entered)
            &&& after == (State {
                actions: after.actions,
                action_bytes: (before.action_bytes + total(entered)) as usize,
                ..before
            })
        },
        Err(refused) => batch_refusal(before, entered) == Some(refused)
            && after == before,
    }
}

/// What asking for a connection comes to.
pub open spec fn connects(
    before: State,
    connection: Connection,
    r: Result<bool, Refused>,
    after: State,
) -> bool {
    match r {
        Ok(wake) => {
            &&& connection.history <= snapshot::MAX_HISTORY_LINES
            &&& wake == before.io_wake
            &&& after.phase == Phase::Connecting
            &&& after.pending == Some(Request::Attach(connection))
            &&& cancelled(
                before,
                State { phase: before.phase, pending: None, ..after },
            )
        },
        Err(refused) => refused == Refused::HistoryTooLong && connection.history
            > snapshot::MAX_HISTORY_LINES && after == before,
    }
}

/// What asking a host comes to.
pub open spec fn queries(
    before: State,
    request: Request,
    r: Result<(), Refused>,
    after: State,
) -> bool {
    match r {
        Ok(()) => {
            &&& !engaged(before.phase)
            &&& before.pending is None
            &&& after == (State {
                discovery: Some(Discovery::Running),
                pending: Some(request),
                ..before
            })
        },
        Err(Refused::Connected) => engaged(before.phase) && after == before,
        Err(refused) => refused == Refused::Busy && !engaged(before.phase) && before.pending is Some && after == before,
    }
}

/// What ending a connection comes to.
pub open spec fn disconnects(before: State, wake: bool, after: State) -> bool {
    &&& wake == before.io_wake
    &&& after.phase == Phase::Disconnected
    &&& cancelled(before, State { phase: before.phase, ..after })
}

/// What taking a fresh epoch comes to.
pub open spec fn renews(before: State, previous: u64, r: Option<u64>, after: State) -> bool {
    match r {
        Some(epoch) => {
            &&& current(before, previous)
            &&& epoch == before.epoch + 1
            &&& after.actions@.len() == 0
            &&& after.wf()
            &&& after == (State {
                epoch,
                retry: None,
                actions: after.actions,
                action_bytes: 0,
                ..before
            })
        },
        None => !current(before, previous) && after == before,
    }
}

/// What moving to a fresh epoch for a retry comes to.
pub open spec fn retries(before: State, epoch: u64, r: Option<u64>, after: State) -> bool {
    match r {
        Some(renewed) => {
            &&& current(before, epoch)
            &&& renewed == before.epoch + 1
            &&& after.actions@.len() == 0
            &&& after.wf()
            &&& after == (State {
                epoch: renewed,
                retry: None,
                phase: Phase::Connecting,
                actions: after.actions,
                action_bytes: 0,
                ..before
            })
        },
        None => !current(before, epoch) && after == before,
    }
}

impl State {
    fn check_batch(&self, actions: &Vec<(Target, Action)>) -> (r: Result<(), Refused>)
        requires
            self.wf(),
        ensures
            match r {
                Ok(()) => batch_refusal(*self, batch(actions@)) is None,
                Err(refused) => batch_refusal(*self, batch(actions@)) == Some(refused),
            },
    {
        let ghost all = batch(actions@);
        if actions.len() > MAX_PENDING_ACTIONS - self.actions.len() {
            return Err(Refused::QueueFull);
        }
        let mut size: usize = 0;
        assert(all.take(0) =~= Seq::<Entry>::empty());
        for i in 0..actions.len()
            invariant
                self.wf(),
                all == batch(actions@),
                size == total(all.take(i as int)),
                self.action_bytes + size <= MAX_PENDING_BYTES,
        {
            let more: usize = actions[i].1.size();
            proof {
                assert(all.take(i + 1).drop_last() =~= all.take(i as int));
                lemma_total_prefix(all, i + 1);
            }
            if more > MAX_PENDING_BYTES - self.action_bytes - size {
                return Err(Refused::QueueFull);
            }
            size = size + more;
        }
        assert(all.take(all.len() as int) =~= all);
        for i in 0..actions.len()
            invariant
                all == batch(actions@),
                self.actions@.len() + all.len() <= MAX_PENDING_ACTIONS,
                self.action_bytes + total(all) <= MAX_PENDING_BYTES,
                first_inadmissible(*self, all.take(i as int)) is None,
        {
            assert(all.take(i + 1).drop_last() =~= all.take(i as int));
            assert(all.take(i + 1).last() == all[i as int]);
            match self.check_current(actions[i].0, &actions[i].1) {
                Ok(()) => {},
                Err(refused) => {
                    proof {
                        lemma_first_inadmissible_prefix(*self, all, i + 1);
                    }
                    return Err(refused);
                },
            }
        }
        assert(all.take(all.len() as int) =~= all);
        Ok(())
    }

    /// Queues the actions of one frame, all of them or none: a full queue cannot
    /// take half of a text, nor can a paste be parted from the keys that follow
    /// it. Returns whether a worker is to be woken.
    pub fn submit_batch(&mut self, actions: Vec<(Target, Action)>) -> (r: Result<bool, Refused>)
        requires
            old(self).wf(),
        ensures
            final(self).wf(),
            submits(*old(self), batch(actions@), r, *final(self)),
    {
        match self.check_batch(&actions) {
            Ok(()) => {},
            Err(refused) => return Err(refused),
        }
        let ghost all = batch(actions@);
        let ghost given = actions@;
        let wake: bool = self.io_wake && actions.len() > 0;
        let mut actions = actions;
        let ghost mut done: int = 0;
        assert(all.take(0) =~= Seq::<Entry>::empty());
        assert(given.skip(0) =~= given);
        while actions.len() > 0
            invariant
                old(self).wf(),
                self.wf(),
                all == batch(given),
                0 <= done <= given.len(),
                actions@ == given.skip(done),
                batch_refusal(*old(self), all) is None,
                self.queue() == queued_all(old(self).queue(), all.take(done)),
                self.actions@.len() <= old(self).actions@.len() + done,
                *self == (State {
                    actions: self.actions,
                    action_bytes: (old(self).action_bytes + total(all.take(done))) as usize,
                    ..*old(self)
                }),
            decreases actions@.len(),
        {
            let ghost here = *self;
            let (target, action) = actions.remove(0);
            let ghost entry = Entry { target, input: action@ };
            proof {
                assert(given.skip(done).remove(0) =~= given.skip(done + 1));
                assert(all[done] == entry);
                assert(all.take(done + 1).drop_last() =~= all.take(done));
                assert(all.take(done + 1).last() == entry);
                lemma_total_prefix(all, done + 1);
                lemma_total_prefix(all, done);
                lemma_each_admissible(*old(self), all, done);
                assert(inadmissible(*self, entry) == inadmissible(*old(self), entry));
            }
            let accepted = self.enqueue(target, action);
            proof {
                assert(accepted is Ok);
                assert(self.actions@.len() == queued(here.queue(), entry).len());
                done = done + 1;
            }
        }
        assert(all.take(all.len() as int) =~= all);
        Ok(wake)
    }

    /// Whether this connection may still publish.
    pub fn accepts(&self, epoch: u64) -> (r: bool)
        ensures
            r == current(*self, epoch),
    {
        !self.stopping && self.epoch == epoch
    }

    /// Takes a fresh epoch for the next attempt, unless the user has superseded
    /// this connection. Every token becomes invalid. Unlike a cancellation this
    /// keeps the consent to resize: it is the same profile and session.
    pub fn renew(&mut self, previous: u64) -> (r: Option<u64>)
        requires
            old(self).epoch < u64::MAX,
        ensures
            renews(*old(self), previous, r, *final(self)),
    {
        if !self.accepts(previous) {
            return None;
        }
        self.epoch = self.epoch + 1;
        self.discard_actions();
        self.retry = None;
        Some(self.epoch)
    }

    /// Moves to a fresh epoch for a retry and shows that it is connecting.
    pub fn renew_epoch(&mut self, epoch: u64) -> (r: Option<u64>)
        requires
            old(self).epoch < u64::MAX,
        ensures
            retries(*old(self), epoch, r, *final(self)),
    {
        let renewed = self.renew(epoch);
        if renewed.is_some() {
            self.phase = Phase::Connecting;
        }
        renewed
    }

    /// Replaces whatever went on by a new connection. Returns whether a worker
    /// that waits on a socket is to be woken; a refused request changes nothing.
    pub fn connect(&mut self, connection: Connection) -> (r: Result<bool, Refused>)
        requires
            old(self).epoch < u64::MAX,
            old(self).wf(),
        ensures
            final(self).wf(),
            connects(*old(self), connection, r, *final(self)),
    {
        if connection.history > snapshot::MAX_HISTORY_LINES {
            return Err(Refused::HistoryTooLong);
        }
        let wake: bool = self.cancel();
        self.phase = Phase::Connecting;
        self.pending = Some(Request::Attach(connection));
        Ok(wake)
    }

    /// Asks the host something on a connection of its own, which neither becomes
    /// nor disturbs an attachment.
    pub fn query(&mut self, request: Request) -> (r: Result<(), Refused>)
        ensures
            queries(*old(self), request, r, *final(self)),
    {
        match self.phase {
            Phase::Connecting
            | Phase::Watching
            | Phase::Resynchronizing
            | Phase::Reconnecting => return Err(Refused::Connected),
            _ => {},
        }
        if self.pending.is_some() {
            return Err(Refused::Busy);
        }
        self.discovery = Some(Discovery::Running);
        self.pending = Some(request);
        Ok(())
    }

    pub fn clear_discovery(&mut self)
        ensures
            *final(self) == (State { discovery: None, ..*old(self) }),
    {
        self.discovery = None;
    }

    /// Ends the connection at the user's request. Returns whether a worker that
    /// waits on a socket is to be woken.
    pub fn disconnect(&mut self) -> (wake: bool)
        requires
            old(self).epoch < u64::MAX,
        ensures
            final(self).wf(),
            disconnects(*old(self), wake, *final(self)),
    {
        let wake: bool = self.cancel();
        self.phase = Phase::Disconnected;
        wake
    }

    /// Shows built-in data in place of a connection.
    pub fn demo(&mut self, view: snapshot::SessionView) -> (wake: bool)
        requires
            old(self).epoch < u64::MAX,
            old(self).generation < u64::MAX,
        ensures
            wake == old(self).io_wake,
            final(self).wf(),
            final(self).phase == Phase::Demo,
            final(self).view == Some(view),
            final(self).generation == old(self).generation + 1,
            cancelled(
                *old(self),
                State {
                    phase: old(self).phase,
                    view: unplugged(old(self).view),
                    generation: old(self).generation,
                    ..*final(self)
                },
            ),
    {
        let wake: bool = self.cancel();
        self.view = Some(view);
        self.generation = self.generation + 1;
        self.phase = Phase::Demo;
        wake
    }

    /// Explicit consent for this connection; it is off unless given.
    pub fn allow_remote_resize(&mut self, allow: bool)
        ensures
            *final(self) == (State { allow_resize: allow, ..*old(self) }),
    {
        self.allow_resize = allow;
    }

    /// The client is going away: nothing is published any more.
    pub fn stop(&mut self) -> (wake: bool)
        requires
            old(self).epoch < u64::MAX,
        ensures
            wake == old(self).io_wake,
            final(self).wf(),
            final(self).stopping,
            cancelled(*old(self), State { stopping: old(self).stopping, ..*final(self) }),
    {
        let wake: bool = self.cancel();
        self.stopping = true;
        wake
    }
}

/// A place in the stream of what the user asked for: one byte of text, or one
/// action that is no text.
pub enum Atom {
    Byte(Target, u8),
    Whole(Entry),
}

/// What one action adds to the stream.
pub open spec fn atoms(entry: Entry) -> Seq<Atom> {
    match entry.input {
        Input::Bytes(bytes) => Seq::new(bytes.len(), |i: int| Atom::Byte(entry.target, bytes[i])),
        _ => seq![Atom::Whole(entry)],
    }
}

/// The stream that a queue holds.
pub open spec fn stream(q: Seq<Entry>) -> Seq<Atom>
    decreases q.len(),
{
    if q.len() == 0 {
        Seq::empty()
    } else {
        stream(q.drop_last()) + atoms(q.last())
    }
}

/// Queueing an action adds what it asks for at the end and moves nothing:
/// joining texts never carries a byte past a key, a paste, a resize or another
/// pane's input.
pub proof fn queueing_keeps_the_order(q: Seq<Entry>, entry: Entry)
    ensures
        stream(queued(q, entry)) == stream(q) + atoms(entry),
{
    if joins(q, entry) {
        let joined = Entry {
            target: entry.target,
            input: Input::Bytes(q.last().input->Bytes_0 + entry.input->Bytes_0),
        };
        assert(q.drop_last().push(joined).drop_last() =~= q.drop_last());
        assert(atoms(joined) =~= atoms(q.last()) + atoms(entry));
        assert(stream(queued(q, entry)) =~= stream(q) + atoms(entry));
    } else {
        assert(q.push(entry).drop_last() =~= q);
    }
}

/// A batch adds what it asks for at the end, in its own order.
pub proof fn a_batch_keeps_the_order(q: Seq<Entry>, more: Seq<Entry>)
    ensures
        stream(queued_all(q, more)) == stream(q) + stream(more),
    decreases more.len(),
{
    if more.len() == 0 {
        assert(stream(q) + stream(more) =~= stream(q));
    } else {
        a_batch_keeps_the_order(q, more.drop_last());
        queueing_keeps_the_order(queued_all(q, more.drop_last()), more.last());
        assert(stream(q) + stream(more) =~= stream(q) + stream(more.drop_last()) + atoms(
            more.last(),
        ));
    }
}

/// What is taken from the front of a queue and what still waits behind it are
/// together what waited before, in its order: nothing is taken twice and nothing
/// is lost between the two.
pub proof fn taking_work_splits_the_stream(q: Seq<Entry>, n: int)
    requires
        0 <= n <= q.len(),
    ensures
        stream(q) == stream(q.take(n)) + stream(q.skip(n)),
    decreases q.len(),
{
    if n == q.len() {
        assert(q.take(n) =~= q);
        assert(stream(q.skip(n)) =~= Seq::<Atom>::empty());
        assert(stream(q) =~= stream(q.take(n)) + stream(q.skip(n)));
    } else {
        taking_work_splits_the_stream(q.drop_last(), n);
        assert(q.drop_last().take(n) =~= q.take(n));
        assert(q.drop_last().skip(n) =~= q.skip(n).drop_last());
        assert(q.skip(n).last() == q.last());
        assert(stream(q) =~= stream(q.take(n)) + stream(q.skip(n)));
    }
}

/// An action is accepted only in the connection and the reconstructed view for
/// which it was made.
pub proof fn an_accepted_action_is_current(s: State, entry: Entry)
    requires
        refusal(s, entry) is None,
    ensures
        entry.target.epoch == s.epoch,
        entry.target.generation == s.generation,
        snapshot::has_pane(s.view->0.panes@, entry.target.pane),
        s.view->0.status == Status::Watching,
        s.access == Access::Interactive,
        s.phase == Phase::Watching,
{
}

/// A cancelled connection can publish nothing, takes no action whatever token it
/// carries, and holds none.
pub proof fn cancelling_invalidates_everything(before: State, after: State, entry: Entry)
    requires
        before.epoch < u64::MAX,
        cancelled(before, after),
    ensures
        !current(after, before.epoch),
        refusal(after, entry) == Some(Refused::Stale),
        after.queue().len() == 0,
{
}

/// After a renewal no token that the connection gave out before is accepted.
pub proof fn renewing_invalidates_every_token(before: State, after: State, entry: Entry)
    requires
        before.epoch < u64::MAX,
        after.epoch == before.epoch + 1,
        entry.target.epoch <= before.epoch,
    ensures
        refusal(after, entry) == Some(Refused::Stale),
        !current(after, before.epoch),
{
}

/// A client that is going away publishes nothing.
pub proof fn a_stopping_client_publishes_nothing(s: State, epoch: u64)
    requires
        s.stopping,
    ensures
        !current(s, epoch),
{
}

/// What queued input met with when the layout moved under it.
pub open spec fn discarded_text() -> Seq<char> {
    "Layout changed; queued input was discarded, not replayed."@
}

/// What a blocked action met with.
pub open spec fn blocked_text() -> Seq<char> {
    "tmux blocked this action: the pane changed, is in a mode, or synchronize-panes/zoom is enabled. Nothing was retried."@
}

/// The text of a message, if there is one.
pub open spec fn said(message: Option<String>) -> Option<Seq<char>> {
    match message {
        Some(s) => Some(s@),
        None => None,
    }
}

/// What a reattachment reports where the session is not the one that was lost:
/// another session of the same server, or another server.
pub open spec fn continuity_text(previous: Option<Identity>, identity: Identity) -> Option<
    Seq<char>,
> {
    match previous {
        Some(lost) => if lost == identity {
            None
        } else if lost.server == identity.server {
            Some(
                "Reattached to a different tmux session ("@ + ids::sigiled('$', identity.session.0)
                    + " replaced "@ + ids::sigiled('$', lost.session.0)
                    + "). The earlier session and its scrollback are gone."@,
            )
        } else {
            Some(
                "The remote tmux server restarted. This is a new session that only shares the old name; the earlier session and its scrollback are gone."@,
            )
        },
        None => None,
    }
}

/// Compares a reattached session with the one that was lost. A session number
/// alone cannot tell: a fresh server numbers its first session the same again.
pub fn continuity(previous: Option<Identity>, identity: Identity) -> (r: Option<String>)
    ensures
        said(r) == continuity_text(previous, identity),
{
    match previous {
        Some(lost) => {
            if lost == identity {
                None
            } else if lost.server == identity.server {
                let mut r = "Reattached to a different tmux session (".to_owned();
                text::push_text(&mut r, identity.session.to_text().as_str());
                text::push_text(&mut r, " replaced ");
                text::push_text(&mut r, lost.session.to_text().as_str());
                text::push_text(&mut r, "). The earlier session and its scrollback are gone.");
                Some(r)
            } else {
                Some(
                    "The remote tmux server restarted. This is a new session that only shares the old name; the earlier session and its scrollback are gone.".to_owned(),
                )
            }
        },
        None => None,
    }
}

/// What is made of the session that a reattachment found.
pub open spec fn recognizes(
    session: SessionId,
    identity: Identity,
    previous: Option<Identity>,
    r: Result<Option<String>, Fault>,
) -> bool {
    match r {
        Ok(report) => identity.session == session && said(report) == continuity_text(
            previous,
            identity,
        ),
        Err(error) => identity.session != session && fault::single_layer(
            error,
            fault::Cause::Message,
            "the attached session changed while identifying it"@,
        ),
    }
}

/// What a reattachment reports about the session that it found. An attachment
/// whose session changed while it was identified is refused.
pub fn recognize(session: SessionId, identity: Identity, previous: Option<Identity>) -> (r: Result<
    Option<String>,
    Fault,
>)
    ensures
        recognizes(session, identity, previous, r),
{
    if identity.session != session {
        return Err(Fault::message("the attached session changed while identifying it"));
    }
    Ok(continuity(previous, identity))
}

/// The error of an attachment on a machine that slept: its stream is not known to
/// have survived.
pub fn slept() -> (r: Fault)
    ensures
        fault::single_layer(r, fault::Cause::Ssh(ssh::Kind::Timeout), slept_text()),
{
    Fault::ssh(
        ssh::Error::timeout("the machine slept; the control stream is not known to have survived"),
    )
}

/// What the user is told about a machine that slept.
pub open spec fn slept_text() -> Seq<char> {
    "the machine slept; the control stream is not known to have survived"@
}

/// What a view became once the notifications that arrived were applied to it.
pub struct Update {
    pub status: Status,
    pub exit: Option<Option<String>>,
    pub seq: u64,
}

/// What becomes of a view with something that tmux says on its own account: output
/// moves the display on, an exit ends the view, and a change of the layout or a
/// paused pane asks for a fresh snapshot.
pub open spec fn noted(
    update: Update,
    panes: Seq<snapshot::PaneState>,
    event: Notification,
) -> Update {
    match event {
        Notification::Output { pane, .. } | Notification::ExtendedOutput { pane, .. } => Update {
            seq: if !snapshot::has_pane(panes, pane) {
                update.seq
            } else if update.seq < u64::MAX {
                (update.seq + 1) as u64
            } else {
                0
            },
            ..update
        },
        Notification::Exit(reason) => Update {
            status: Status::Disconnected,
            exit: Some(reason),
            ..update
        },
        Notification::LayoutChange { .. }
        | Notification::WindowAdd(_)
        | Notification::WindowClose(_)
        | Notification::SessionChanged(..)
        | Notification::Pause(_) => Update {
            status: if update.status == Status::Disconnected {
                Status::Disconnected
            } else {
                Status::NeedsResync
            },
            ..update
        },
        _ => update,
    }
}

/// The output that an event carries to one of these panes, if it does.
pub open spec fn carried(panes: Seq<snapshot::PaneState>, event: Notification) -> Option<
    (PaneId, Seq<u8>),
> {
    match event {
        Notification::Output { pane, bytes } | Notification::ExtendedOutput { pane, bytes, .. } =>
        if snapshot::has_pane(panes, pane) {
            Some((pane, bytes@))
        } else {
            None
        },
        _ => None,
    }
}

/// A view that ended stays ended, whatever tmux says after that.
pub proof fn an_ended_view_stays_ended(
    update: Update,
    panes: Seq<snapshot::PaneState>,
    event: Notification,
)
    requires
        update.status == Status::Disconnected,
    ensures
        noted(update, panes, event).status == Status::Disconnected,
{
}

impl Update {
    /// What a view is.
    pub fn of(view: &snapshot::SessionView) -> (r: Self)
        ensures
            r.status == view.status,
            r.seq == view.seq,
            r.exit is Some == view.exit is Some,
            snapshot::reason_of(r.exit) == snapshot::reason_of(view.exit),
    {
        let exit: Option<Option<String>> = match &view.exit {
            Some(Some(reason)) => Some(Some(reason.as_str().to_owned())),
            Some(None) => Some(None),
            None => None,
        };
        Update { status: view.status, exit, seq: view.seq }
    }

    /// Takes something that tmux said on its own account about a view of these
    /// panes. Returns the output that is to be fed to a pane's terminal.
    pub fn apply(&mut self, view: &snapshot::SessionView, event: Notification) -> (r: Option<
        (PaneId, Vec<u8>),
    >)
        ensures
            *final(self) == noted(*old(self), view.panes@, event),
            old(self).status != Status::Disconnected && (event is LayoutChange || event is WindowAdd
                || event is WindowClose || event is SessionChanged || event is Pause)
                ==> final(self).status == Status::NeedsResync,
            event is Exit ==> final(self).status == Status::Disconnected,
            match r {
                Some((pane, bytes)) => carried(view.panes@, event) == Some((pane, bytes@)),
                None => carried(view.panes@, event) is None,
            },
    {
        match event {
            Notification::Output { pane, bytes }
            | Notification::ExtendedOutput { pane, bytes, .. } => {
                if view.find(pane).is_none() {
                    return None;
                }
                self.seq = if self.seq < u64::MAX {
                    self.seq + 1
                } else {
                    0
                };
                Some((pane, bytes))
            },
            Notification::Exit(reason) => {
                self.status = Status::Disconnected;
                self.exit = Some(reason);
                None
            },
            Notification::LayoutChange { .. }
            | Notification::WindowAdd(_)
            | Notification::WindowClose(_)
            | Notification::SessionChanged(..)
            | Notification::Pause(_) => {
                if self.status != Status::Disconnected {
                    self.status = Status::NeedsResync;
                }
                None
            },
            _ => None,
        }
    }
}

/// The view after an update.
pub open spec fn updated(view: snapshot::SessionView, update: Update) -> snapshot::SessionView {
    snapshot::SessionView {
        status: update.status,
        exit: update.exit,
        seq: update.seq,
        ..view
    }
}

/// The view with its layout no longer relied on.
pub open spec fn invalidated(view: snapshot::SessionView) -> snapshot::SessionView {
    snapshot::SessionView {
        status: if view.status == Status::Disconnected {
            Status::Disconnected
        } else {
            Status::NeedsResync
        },
        ..view
    }
}

/// What the worker does next with an attachment.
#[derive(Clone, Copy, Debug, PartialEq, Eq, Structural)]
pub enum Step {
    /// The user replaced or cancelled this connection. Say nothing further.
    Cancelled,
    /// tmux ended the control session.
    Ended(Failure),
    /// Take a fresh snapshot.
    Resynchronize,
    /// Send what waits, or listen.
    Watch,
}

/// What the worker sends next.
pub enum Work {
    /// The user replaced or cancelled this connection.
    Cancelled,
    /// Nothing waits: listen.
    Idle,
    /// The action that waited first is not sent and not kept.
    Dropped,
    /// Tell tmux the client's size, then take a fresh snapshot.
    ClientSize(Size),
    /// Send these actions in one transaction. They are never queued again.
    Interact { target: input::Target, actions: Vec<Action> },
}

/// What listening came to.
#[derive(Clone, Copy, Debug, PartialEq, Eq, Structural)]
pub enum Heard {
    Cancelled,
    /// Nothing that is displayed changed.
    Unchanged,
    Changed,
}

/// How far a transaction reaches once it holds the first `n` waiting actions:
/// typing for one target goes out together, up to the bound.
pub open spec fn run_from(q: Seq<Entry>, n: nat) -> nat
    decreases q.len() - n,
{
    if n < MAX_TRANSACTION_ACTIONS && n < q.len() && q[n as int].target == q[0].target
        && input::is_typing(q[n as int].input) {
        run_from(q, n + 1)
    } else {
        n
    }
}

/// How many waiting actions go out in the next transaction.
pub open spec fn run_length(q: Seq<Entry>) -> nat {
    if q.len() > 0 && input::is_typing(q[0].input) {
        run_from(q, 1)
    } else if q.len() > 0 {
        1
    } else {
        0
    }
}

/// The action that waits first is not to be sent: what it was made for is gone,
/// or it would resize without consent.
pub open spec fn unsendable(s: State, entry: Entry) -> bool {
    if entry.input is ClientSize {
        !s.allow_resize
    } else {
        token(s, entry.target.pane) != Some(entry.target) || (input::alters_window_size(entry.input)
            && !s.allow_resize)
    }
}

/// The state while the layout is reconstructed: the queue is dropped, and where
/// it held anything the user is told.
pub open spec fn reconstructing(before: State, dropped: bool, after: State) -> bool {
    &&& after == (State {
        phase: Phase::Resynchronizing,
        error: after.error,
        actions: after.actions,
        action_bytes: 0,
        ..before
    })
    &&& after.actions@.len() == 0
    &&& if dropped {
        said(after.error) == Some(discarded_text())
    } else {
        after.error == before.error
    }
}

/// A transaction starts with the first action, holds no more than the queue and
/// its bound, and beyond the first action holds only typing for one target.
pub proof fn a_transaction_is_bounded_typing_for_one_pane(q: Seq<Entry>)
    requires
        q.len() > 0,
    ensures
        1 <= run_length(q) <= q.len(),
        run_length(q) <= MAX_TRANSACTION_ACTIONS,
        forall|i: int|
            0 <= i < run_length(q) ==> (#[trigger] q[i]).target == q[0].target,
        run_length(q) > 1 ==> forall|i: int|
            0 <= i < run_length(q) ==> input::is_typing((#[trigger] q[i]).input),
{
    if input::is_typing(q[0].input) {
        lemma_run(q, 1);
    }
}

proof fn lemma_run(q: Seq<Entry>, n: nat)
    requires
        1 <= n <= q.len(),
        n <= MAX_TRANSACTION_ACTIONS,
        forall|i: int|
            0 <= i < n ==> (#[trigger] q[i]).target == q[0].target && input::is_typing(q[i].input),
    ensures
        n <= run_from(q, n) <= q.len(),
        run_from(q, n) <= MAX_TRANSACTION_ACTIONS,
        forall|i: int|
            0 <= i < run_from(q, n) ==> (#[trigger] q[i]).target == q[0].target
                && input::is_typing(q[i].input),
    decreases q.len() - n,
{
    if n < MAX_TRANSACTION_ACTIONS && n < q.len() && q[n as int].target == q[0].target
        && input::is_typing(q[n as int].input) {
        lemma_run(q, n + 1);
    }
}

/// What taking the next work out of the queue comes to.
pub open spec fn work_taken(before: State, epoch: u64, r: Work, after: State) -> bool {
    let q = before.queue();
    if !current(before, epoch) {
        r is Cancelled && after == before
    } else if q.len() == 0 {
        r is Idle && after == before
    } else if unsendable(before, q[0]) {
        &&& r is Dropped
        &&& after.queue() == q.drop_first()
        &&& after == (State {
            actions: after.actions,
            action_bytes: after.action_bytes,
            ..before
        })
    } else if q[0].input is ClientSize {
        &&& r == Work::ClientSize(q[0].input->ClientSize_0)
        &&& after.actions@.len() == 0
        &&& after == (State {
            phase: Phase::Resynchronizing,
            view: Some(invalidated(before.view->0)),
            actions: after.actions,
            action_bytes: 0,
            ..before
        })
    } else {
        let n = run_length(q) as int;
        &&& r is Interact
        &&& inputs(r->Interact_actions@) == inputs_of(q.take(n))
        &&& exists|i: int|
            snapshot::pane_at(before.view->0.panes@, q[0].target.pane, i)
                && r->Interact_target == snapshot::aimed(
                before.view->0.session,
                #[trigger] before.view->0.panes@[i],
            )
        &&& if input::alters_layout(q[0].input) {
            reconstructing(
                State { view: Some(invalidated(before.view->0)), ..before },
                q.len() > n,
                after,
            )
        } else {
            &&& after.queue() == q.skip(n)
            &&& after == (State {
                actions: after.actions,
                action_bytes: after.action_bytes,
                ..before
            })
        }
    }
}

/// What looking at an attachment comes to.
pub open spec fn stepped(before: State, epoch: u64, r: Step, after: State) -> bool {
    if !current(before, epoch) {
        r == Step::Cancelled && after == before
    } else {
        match before.view->0.status {
            Status::Disconnected => r == Step::Ended(
                reconnect::exit_failure(snapshot::exit_reason(before.view->0)),
            ) && after == before,
            Status::NeedsResync => r == Step::Resynchronize && reconstructing(
                before,
                before.actions@.len() > 0,
                after,
            ),
            Status::Watching => r == Step::Watch && after == before,
        }
    }
}

/// What publishing an attachment comes to.
pub open spec fn attaches(
    before: State,
    epoch: u64,
    view: snapshot::SessionView,
    access: Access,
    rtt: Option<Duration>,
    continuity: Option<String>,
    r: bool,
    after: State,
) -> bool {
    &&& r == current(before, epoch)
    &&& !r ==> after == before
    &&& r ==> after == (State {
        view: Some(view),
        access,
        io_wake: true,
        generation: (before.generation + 1) as u64,
        last_rtt: rtt,
        phase: Phase::Watching,
        retry: None,
        error: None,
        failure: None,
        continuity,
        allow_resize: before.allow_resize || access == Access::Interactive,
        ..before
    })
}

/// What publishing a fresh snapshot comes to.
pub open spec fn refreshes(
    before: State,
    epoch: u64,
    view: snapshot::SessionView,
    rtt: Option<Duration>,
    r: bool,
    after: State,
) -> bool {
    &&& r == current(before, epoch)
    &&& !r ==> after == before
    &&& r ==> after == (State {
        view: Some(view),
        generation: (before.generation + 1) as u64,
        last_rtt: rtt,
        phase: Phase::Watching,
        continuity: None,
        ..before
    })
}

/// What the outcome of a transaction comes to.
pub open spec fn takes_outcome(
    before: State,
    epoch: u64,
    applied: bool,
    update: Update,
    rtt: Option<Duration>,
    r: bool,
    after: State,
) -> bool {
    &&& r == current(before, epoch)
    &&& !r ==> after == before
    &&& r && applied ==> after == (State {
        view: Some(updated(before.view->0, update)),
        last_rtt: rtt,
        ..before
    })
    &&& r && !applied ==> said(after.error) == Some(blocked_text()) && after == (
    State {
        view: Some(invalidated(updated(before.view->0, update))),
        error: after.error,
        last_rtt: rtt,
        ..before
    })
}

/// What listening comes to.
pub open spec fn hears(before: State, epoch: u64, update: Update, r: Heard, after: State) -> bool {
    if !current(before, epoch) {
        r == Heard::Cancelled && after == before
    } else {
        &&& after == (State {
            view: Some(updated(before.view->0, update)),
            ..before
        })
        &&& r == (if before.view->0.seq == update.seq {
            Heard::Unchanged
        } else {
            Heard::Changed
        })
    }
}

impl State {
    /// Publishes a restored attachment, unless it was superseded.
    pub fn attached(
        &mut self,
        epoch: u64,
        view: snapshot::SessionView,
        access: Access,
        rtt: Option<Duration>,
        continuity: Option<String>,
    ) -> (r: bool)
        requires
            old(self).wf(),
            old(self).generation < u64::MAX,
        ensures
            final(self).wf(),
            attaches(*old(self), epoch, view, access, rtt, continuity, r, *final(self)),
    {
        if !self.accepts(epoch) {
            return false;
        }
        self.view = Some(view);
        self.access = access;
        self.io_wake = true;
        self.generation = self.generation + 1;
        self.last_rtt = rtt;
        self.phase = Phase::Watching;
        self.retry = None;
        self.error = None;
        self.failure = None;
        self.continuity = continuity;
        if access == Access::Interactive {
            self.allow_resize = true;
        }
        true
    }

    fn begin_reconstruction(&mut self)
        ensures
            reconstructing(*old(self), old(self).actions@.len() > 0, *final(self)),
            final(self).wf(),
    {
        if self.actions.len() > 0 {
            self.error = Some(
                "Layout changed; queued input was discarded, not replayed.".to_owned(),
            );
        }
        self.discard_actions();
        self.phase = Phase::Resynchronizing;
    }

    /// What to do next with the attachment, by what its view has become. Queued
    /// input is dropped before a fresh snapshot, and never replayed after it.
    pub fn step(&mut self, epoch: u64) -> (r: Step)
        requires
            old(self).wf(),
            current(*old(self), epoch) ==> old(self).view is Some,
        ensures
            final(self).wf(),
            stepped(*old(self), epoch, r, *final(self)),
    {
        if !self.accepts(epoch) {
            return Step::Cancelled;
        }
        let mut resynchronize: bool = false;
        match &self.view {
            Some(view) => match view.status() {
                Status::Disconnected => {
                    let reason: Option<&str> = match &view.exit {
                        Some(Some(reason)) => Some(reason.as_str()),
                        _ => None,
                    };
                    return Step::Ended(reconnect::classify_exit(reason));
                },
                Status::NeedsResync => {
                    resynchronize = true;
                },
                Status::Watching => {},
            },
            None => {},
        }
        if resynchronize {
            self.begin_reconstruction();
            Step::Resynchronize
        } else {
            Step::Watch
        }
    }

    /// Publishes a fresh snapshot, unless the connection was superseded.
    pub fn resynchronized(
        &mut self,
        epoch: u64,
        view: snapshot::SessionView,
        rtt: Option<Duration>,
    ) -> (r: bool)
        requires
            old(self).wf(),
            old(self).generation < u64::MAX,
        ensures
            final(self).wf(),
            refreshes(*old(self), epoch, view, rtt, r, *final(self)),
    {
        if !self.accepts(epoch) {
            return false;
        }
        self.view = Some(view);
        self.generation = self.generation + 1;
        self.last_rtt = rtt;
        self.phase = Phase::Watching;
        self.continuity = None;
        true
    }

    fn invalidate_view(&mut self)
        ensures
            *final(self) == (State {
                view: match old(self).view {
                    Some(view) => Some(invalidated(view)),
                    None => None,
                },
                ..*old(self)
            }),
    {
        match self.view.take() {
            Some(view) => {
                let mut view = view;
                view.invalidate();
                self.view = Some(view);
            },
            None => {},
        }
    }

    fn take_first(&mut self) -> (r: Option<Pending>)
        requires
            old(self).wf(),
        ensures
            final(self).wf(),
            match r {
                Some(first) => {
                    &&& old(self).queue().len() > 0
                    &&& first@ == old(self).queue()[0]
                    &&& final(self).queue() == old(self).queue().drop_first()
                    &&& *final(self) == (State {
                        actions: final(self).actions,
                        action_bytes: (old(self).action_bytes - input_size(
                            first.action@,
                        )) as usize,
                        ..*old(self)
                    })
                },
                None => old(self).queue().len() == 0 && *final(self) == *old(self),
            },
    {
        if self.actions.len() == 0 {
            return None;
        }
        let ghost before = self.queue();
        match self.actions.pop_front() {
            Some(first) => {
                proof {
                    assert(first@ == before[0]);
                    assert(entries(self.actions@) =~= before.drop_first());
                    lemma_total_first(before);
                }
                self.action_bytes = self.action_bytes - first.action.size();
                Some(first)
            },
            None => None,
        }
    }

    /// Takes the next work out of the queue: this is the dispatch boundary, and
    /// what it takes is never queued again, whatever becomes of it.
    pub fn take_work(&mut self, epoch: u64) -> (r: Work)
        requires
            old(self).wf(),
            current(*old(self), epoch) ==> old(self).view is Some,
        ensures
            final(self).wf(),
            work_taken(*old(self), epoch, r, *final(self)),
    {
        if !self.accepts(epoch) {
            return Work::Cancelled;
        }
        let ghost q = self.queue();
        let ghost before = *self;
        let first = match self.take_first() {
            Some(first) => first,
            None => return Work::Idle,
        };
        if let Action::ClientSize(size) = &first.action {
            if !self.allow_resize {
                return Work::Dropped;
            }
            let size: Size = *size;
            self.invalidate_view();
            self.phase = Phase::Resynchronizing;
            self.discard_actions();
            return Work::ClientSize(size);
        }
        let kept: bool = match self.target(first.target.pane) {
            Some(now) => now == first.target,
            None => false,
        };
        if !kept || (first.action.changes_window_size() && !self.allow_resize) {
            return Work::Dropped;
        }
        let aimed: Option<input::Target> = match &self.view {
            Some(view) => view.action_target(first.target.pane),
            None => None,
        };
        let target: input::Target = match aimed {
            Some(target) => target,
            None => return Work::Dropped,
        };
        let resizing: bool = first.action.changes_layout();
        let typing: bool = first.action.typing();
        let goal: Target = first.target;
        let mut actions: Vec<Action> = Vec::new();
        actions.push(first.action);
        assert(inputs(actions@) =~= inputs_of(q.take(1)));
        assert(q.skip(1) =~= q.drop_first());
        if typing {
            self.take_typing(goal, &mut actions, Ghost(q));
        }
        if resizing {
            self.invalidate_view();
            self.begin_reconstruction();
        }
        Work::Interact { target, actions }
    }

    fn take_typing(&mut self, goal: Target, actions: &mut Vec<Action>, Ghost(q): Ghost<Seq<Entry>>)
        requires
            old(self).wf(),
            q.len() > 0,
            q[0].target == goal,
            old(actions)@.len() == 1,
            inputs(old(actions)@) == inputs_of(q.take(1)),
            old(self).queue() == q.skip(1),
        ensures
            final(self).wf(),
            inputs(final(actions)@) == inputs_of(q.take(run_from(q, 1) as int)),
            final(self).queue() == q.skip(run_from(q, 1) as int),
            *final(self) == (State {
                actions: final(self).actions,
                action_bytes: final(self).action_bytes,
                ..*old(self)
            }),
    {
        while actions.len() < MAX_TRANSACTION_ACTIONS
            invariant_except_break
                1 <= actions@.len() <= MAX_TRANSACTION_ACTIONS,
                actions@.len() <= q.len(),
                run_from(q, 1) == run_from(q, actions@.len()),
            invariant
                self.wf(),
                q.len() > 0,
                q[0].target == goal,
                inputs(actions@) == inputs_of(q.take(actions@.len() as int)),
                self.queue() == q.skip(actions@.len() as int),
                *self == (State {
                    actions: self.actions,
                    action_bytes: self.action_bytes,
                    ..*old(self)
                }),
            ensures
                run_from(q, 1) == actions@.len(),
            decreases MAX_TRANSACTION_ACTIONS - actions@.len(),
        {
            let ghost n = actions@.len() as int;
            assert(self.queue().len() == self.actions@.len());
            if self.actions.len() == 0 {
                break ;
            }
            assert(self.actions@[0]@ == q[n]) by {
                assert(self.queue()[0] == q.skip(n)[0]);
            }
            let next: &Pending = &self.actions[0];
            if next.target != goal || !next.action.typing() {
                break ;
            }
            match self.take_first() {
                Some(next) => {
                    let ghost held = actions@;
                    actions.push(next.action);
                    assert(q.skip(n).drop_first() =~= q.skip(n + 1));
                    assert(inputs(actions@) =~= inputs_of(q.take(n + 1))) by {
                        assert(inputs(actions@) =~= inputs(held).push(next.action@));
                        assert(inputs_of(q.take(n + 1)) =~= inputs_of(q.take(n)).push(q[n].input));
                    }
                },
                None => {
                    break ;
                },
            }
        }
    }

    /// Notes the round trip of a size report, unless the connection was
    /// superseded.
    pub fn client_size_set(&mut self, epoch: u64, rtt: Option<Duration>)
        ensures
            *final(self) == (if current(*old(self), epoch) {
                State { last_rtt: rtt, ..*old(self) }
            } else {
                *old(self)
            }),
    {
        if self.accepts(epoch) {
            self.last_rtt = rtt;
        }
    }

    fn apply(&mut self, update: Update)
        ensures
            *final(self) == (State {
                view: match old(self).view {
                    Some(view) => Some(updated(view, update)),
                    None => None,
                },
                ..*old(self)
            }),
    {
        match self.view.take() {
            Some(view) => {
                let mut view = view;
                view.status = update.status;
                view.exit = update.exit;
                view.seq = update.seq;
                self.view = Some(view);
            },
            None => {},
        }
    }

    /// Takes the outcome of a transaction, unless the connection was superseded.
    /// A blocked action is reported and not retried.
    pub fn interacted(
        &mut self,
        epoch: u64,
        applied: bool,
        update: Update,
        rtt: Option<Duration>,
    ) -> (r: bool)
        requires
            old(self).wf(),
            current(*old(self), epoch) ==> old(self).view is Some,
        ensures
            final(self).wf(),
            takes_outcome(*old(self), epoch, applied, update, rtt, r, *final(self)),
    {
        if !self.accepts(epoch) {
            return false;
        }
        self.apply(update);
        if !applied {
            self.error = Some(
                "tmux blocked this action: the pane changed, is in a mode, or synchronize-panes/zoom is enabled. Nothing was retried.".to_owned(),
            );
            self.invalidate_view();
        }
        self.last_rtt = rtt;
        true
    }

    /// Takes what listening brought, unless the connection was superseded.
    pub fn heard(&mut self, epoch: u64, update: Update) -> (r: Heard)
        requires
            old(self).wf(),
            current(*old(self), epoch) ==> old(self).view is Some,
        ensures
            final(self).wf(),
            hears(*old(self), epoch, update, r, *final(self)),
    {
        if !self.accepts(epoch) {
            return Heard::Cancelled;
        }
        let before: u64 = match &self.view {
            Some(view) => view.display_seq(),
            None => 0,
        };
        let after: u64 = update.seq;
        self.apply(update);
        if before == after {
            Heard::Unchanged
        } else {
            Heard::Changed
        }
    }
}

/// A request to give the session another name, bound to the connection in which it
/// was made.
pub struct Renaming {
    pub epoch: u64,
    pub name: SessionName,
}

/// What a rename comes to.
pub open spec fn finishes_rename(
    before: State,
    epoch: u64,
    outcome: Result<Update, Fault>,
    r: bool,
    after: State,
) -> bool {
    &&& r == current(before, epoch)
    &&& !r ==> after == before
    &&& r ==> match outcome {
        Ok(update) => after == (State {
            view: Some(updated(before.view->0, update)),
            ..before
        }),
        Err(error) => said(after.error) == Some(
            text::first(fault::rendered(error.layers@), MAX_ERROR_CHARS as nat),
        ) && after == (State { error: after.error, ..before }),
    }
}

/// What asking for another name comes to.
pub open spec fn asks_rename(before: State, name: SessionName, r: Option<Renaming>) -> bool {
    match r {
        Some(renaming) => before.phase == Phase::Watching && renaming.epoch == before.epoch
            && renaming.name == name,
        None => before.phase != Phase::Watching,
    }
}

/// A worker is to rename the session.
pub open spec fn renames_now(before: State, epoch: u64, renaming: Renaming, r: bool) -> bool {
    r == (current(before, epoch) && renaming.epoch == epoch)
}

impl State {
    /// Asks for another name. Only an attachment that is watched has a session to
    /// rename.
    pub fn rename(&self, name: SessionName) -> (r: Option<Renaming>)
        ensures
            asks_rename(*self, name, r),
    {
        if self.phase == Phase::Watching {
            Some(Renaming { epoch: self.epoch, name })
        } else {
            None
        }
    }

    /// Whether a worker is to rename the session: a request that was made in another
    /// connection is dropped.
    pub fn may_rename(&self, epoch: u64, renaming: &Renaming) -> (r: bool)
        ensures
            renames_now(*self, epoch, *renaming, r),
    {
        self.accepts(epoch) && renaming.epoch == epoch
    }

    /// Takes what renaming came to, unless the connection was superseded: what tmux
    /// said meanwhile, or why it failed, cut to the bound of an error.
    pub fn rename_finished(&mut self, epoch: u64, outcome: Result<Update, Fault>) -> (r: bool)
        requires
            old(self).wf(),
            current(*old(self), epoch) ==> old(self).view is Some,
        ensures
            final(self).wf(),
            finishes_rename(*old(self), epoch, outcome, r, *final(self)),
    {
        if !self.accepts(epoch) {
            return false;
        }
        match outcome {
            Ok(update) => {
                self.apply(update);
            },
            Err(error) => {
                let shown = error.to_text();
                self.error = Some(text::first_chars(shown.as_str(), MAX_ERROR_CHARS));
            },
        }
        true
    }
}

/// What the worker is to do when it looks for a request.
pub enum Taken {
    /// The client is going away.
    Stop,
    /// Nothing was asked.
    Wait,
    Run { epoch: u64, request: Request },
}

/// What a finished attachment is to the user: how it failed, and the detail.
pub open spec fn ended(outcome: Result<Failure, Seq<fault::Layer>>) -> (Failure, Seq<char>) {
    match outcome {
        Ok(failure) => (failure, reconnect::summary_text(failure)),
        Err(layers) => (
            reconnect::classified(layers),
            text::first(fault::rendered(layers), MAX_ERROR_CHARS as nat),
        ),
    }
}

/// How an attachment failed, and the detail that is shown: tmux's own reason,
/// or a classified error cut to a length of its own.
pub fn explain(outcome: Result<Failure, Fault>) -> (r: (Failure, String))
    ensures
        (r.0, r.1@) == ended(
            match outcome {
                Ok(failure) => Ok(failure),
                Err(error) => Err(error.layers@),
            },
        ),
{
    match outcome {
        Ok(failure) => (failure, failure.summary().to_owned()),
        Err(error) => {
            let said = error.to_text();
            (reconnect::classify(&error), text::first_chars(said.as_str(), MAX_ERROR_CHARS))
        },
    }
}

/// What planning another attempt comes to.
pub open spec fn plans_retry(
    failure: Failure,
    reconnect: bool,
    backoff: reconnect::Schedule,
    r: Option<(u32, Duration)>,
    after: reconnect::Schedule,
) -> bool {
    match r {
        Some((attempt, delay)) => {
            &&& failure == Failure::Transport && reconnect
            &&& after == reconnect::advanced(backoff)
            &&& attempt == after.attempt
            &&& clock::nanos(delay) == reconnect::delay_of(backoff) * 1_000_000
        },
        None => !(failure == Failure::Transport && reconnect) && after == backoff,
    }
}

/// Plans the next attempt: only transport loss is retried, and only where the
/// connection asks for it. The schedule moves on only if it is used.
pub fn plan_retry(failure: Failure, reconnect: bool, backoff: &mut Backoff) -> (r: Option<
    (u32, Duration),
>)
    ensures
        plans_retry(failure, reconnect, old(backoff)@, r, final(backoff)@),
{
    if failure.retriable() && reconnect {
        let delay = backoff.next_delay();
        Some((backoff.attempt(), delay))
    } else {
        None
    }
}

/// The host is asked what sessions it does have.
pub open spec fn lists_after(failure: Failure, scheduled: bool, r: bool) -> bool {
    r == (!scheduled && failure == Failure::MissingSession)
}

/// Whether to ask the host what sessions it does have: only where the session is
/// missing and nothing is scheduled.
pub fn lists_sessions_after(failure: Failure, scheduled: bool) -> (r: bool)
    ensures
        lists_after(failure, scheduled, r),
{
    !scheduled && failure == Failure::MissingSession
}

/// A retry that waits.
pub enum Wait {
    /// The user superseded the connection.
    Superseded,
    /// The time has come.
    Due,
    /// Sleep that long, unless woken.
    Sleep(Duration),
}

/// What an attachment that ended comes to.
pub open spec fn reports(
    before: State,
    epoch: u64,
    failure: Failure,
    detail: Seq<char>,
    retry: Option<(u32, Instant)>,
    r: Option<Instant>,
    after: State,
) -> bool {
    if !current(before, epoch) {
        r is None && after == before
    } else {
        &&& r == (match retry {
            Some((_, resume_at)) => Some(resume_at),
            None => None,
        })
        &&& after.actions@.len() == 0
        &&& said(after.error) == Some(
            text::first(
                reconnect::summary_text(failure) + seq![' '] + detail,
                MAX_ERROR_CHARS as nat,
            ),
        )
        &&& after == (State {
            view: unplugged(before.view),
            actions: after.actions,
            action_bytes: 0,
            io_wake: false,
            phase: match retry {
                Some(_) => Phase::Reconnecting,
                None => if failure == Failure::Detached {
                    Phase::Disconnected
                } else {
                    Phase::Failed
                },
            },
            retry: match retry {
                Some((attempt, resume_at)) => Some(Retry { attempt, resume_at, failure }),
                None => None,
            },
            failure: Some(failure),
            error: after.error,
            ..before
        })
    }
}

/// What looking for a request comes to.
pub open spec fn request_taken(before: State, r: Taken, after: State) -> bool {
    if before.stopping {
        r is Stop && after == before
    } else {
        match before.pending {
            None => r is Wait && after == before,
            Some(request) => r == (Taken::Run { epoch: before.epoch, request })
                && after == (State { pending: None, ..before }),
        }
    }
}

/// What the answer of a host comes to.
pub open spec fn takes_answer(
    before: State,
    epoch: u64,
    outcome: Result<Discovery, Fault>,
    r: bool,
    after: State,
) -> bool {
    &&& r == current(before, epoch)
    &&& !r ==> after == before
    &&& r ==> after == (State { discovery: after.discovery, ..before })
    &&& r ==> match outcome {
        Ok(discovery) => after.discovery == Some(discovery),
        Err(error) => match after.discovery {
            Some(Discovery::Failed(shown)) => shown@ == text::first(
                fault::rendered(error.layers@),
                MAX_DISCOVERY_CHARS as nat,
            ),
            _ => false,
        },
    }
}

/// What waiting for another attempt comes to.
pub open spec fn waits_for_retry(
    before: State,
    epoch: u64,
    until: Instant,
    now: Instant,
    r: Wait,
) -> bool {
    match r {
        Wait::Superseded => !current(before, epoch),
        Wait::Due => current(before, epoch) && clock::between(until, now) == 0,
        Wait::Sleep(span) => current(before, epoch) && clock::between(until, now) > 0
            && clock::nanos(span) == clock::between(until, now),
    }
}

impl State {
    /// Takes the request that waits, if there is one.
    pub fn take_request(&mut self) -> (r: Taken)
        ensures
            request_taken(*old(self), r, *final(self)),
    {
        if self.stopping {
            return Taken::Stop;
        }
        match self.pending.take() {
            None => Taken::Wait,
            Some(request) => Taken::Run { epoch: self.epoch, request },
        }
    }

    /// Shows that the host is being asked, unless the connection was superseded.
    pub fn begin_listing(&mut self, epoch: u64) -> (r: bool)
        ensures
            r == current(*old(self), epoch),
            *final(self) == (if r {
                State { discovery: Some(Discovery::Running), ..*old(self) }
            } else {
                *old(self)
            }),
    {
        if !self.accepts(epoch) {
            return false;
        }
        self.discovery = Some(Discovery::Running);
        true
    }

    /// Publishes what the host answered, unless the connection was superseded.
    /// A failure is shown cut to its own bound.
    pub fn answered(&mut self, epoch: u64, outcome: Result<Discovery, Fault>) -> (r: bool)
        ensures
            takes_answer(*old(self), epoch, outcome, r, *final(self)),
    {
        if !self.accepts(epoch) {
            return false;
        }
        match outcome {
            Ok(discovery) => {
                self.discovery = Some(discovery);
            },
            Err(error) => {
                let said = error.to_text();
                self.discovery = Some(
                    Discovery::Failed(text::first_chars(said.as_str(), MAX_DISCOVERY_CHARS)),
                );
            },
        }
        true
    }

    /// Publishes why the attachment ended, and the next attempt if one is
    /// scheduled, unless the connection was superseded. The last view stays
    /// readable; nothing typed against it is kept.
    pub fn report_failure(
        &mut self,
        epoch: u64,
        failure: Failure,
        detail: &str,
        retry: Option<(u32, Instant)>,
    ) -> (r: Option<Instant>)
        requires
            old(self).wf(),
        ensures
            final(self).wf(),
            reports(*old(self), epoch, failure, detail@, retry, r, *final(self)),
    {
        if !self.accepts(epoch) {
            return None;
        }
        self.unplug();
        self.discard_actions();
        self.io_wake = false;
        let scheduled: Option<Instant> = match retry {
            Some((attempt, resume_at)) => {
                self.phase = Phase::Reconnecting;
                self.retry = Some(Retry { attempt, resume_at, failure });
                Some(resume_at)
            },
            None => {
                self.retry = None;
                self.phase = if failure == Failure::Detached {
                    Phase::Disconnected
                } else {
                    Phase::Failed
                };
                None
            },
        };
        self.failure = Some(failure);
        let mut shown = failure.summary().to_owned();
        shown.push(' ');
        text::push_text(&mut shown, detail);
        assert(shown@ =~= reconnect::summary_text(failure) + seq![' '] + detail@);
        self.error = Some(text::first_chars(shown.as_str(), MAX_ERROR_CHARS));
        scheduled
    }

    /// What to do while a retry waits for its time.
    pub fn retry_wait(&self, epoch: u64, until: Instant, now: Instant) -> (r: Wait)
        ensures
            waits_for_retry(*self, epoch, until, now, r),
    {
        if !self.accepts(epoch) {
            return Wait::Superseded;
        }
        let left = clock::since(until, now);
        if left.as_nanos() == 0 {
            Wait::Due
        } else {
            Wait::Sleep(left)
        }
    }
}

/// Decorrelates one tab's retry schedule from another's, from what the wall
/// clock reads below the second and the connection's epoch.
pub fn jitter_seed(subsec_nanos: u32, epoch: u64) -> (r: u64)
    ensures
        r == ((subsec_nanos as nat * 0x9E37_79B9_7F4A_7C15) % 0x1_0000_0000_0000_0000) as u64 ^ (if epoch
            < u64::MAX {
            (epoch + 1) as u64
        } else {
            0
        }),
{
    let product: u128 = subsec_nanos as u128 * 0x9E37_79B9_7F4A_7C15u128;
    let low: u64 = (product % 0x1_0000_0000_0000_0000u128) as u64;
    let next: u64 = if epoch < u64::MAX {
        epoch + 1
    } else {
        0
    };
    low ^ next
}

/// An attachment that ended is taken for transport loss only where tmux's reason
/// or the type of an error says so; the text of an error never does.
pub proof fn only_transport_loss_is_retried(outcome: Result<Failure, Seq<fault::Layer>>)
    ensures
        ended(outcome).0 == Failure::Transport ==> match outcome {
            Ok(failure) => failure == Failure::Transport,
            Err(layers) => reconnect::typed(layers) == Some(Failure::Transport),
        },
{
}

/// Input that waits when the layout moves is dropped and not sent later.
pub proof fn a_moved_layout_drops_what_waits(before: State, dropped: bool, after: State)
    requires
        reconstructing(before, dropped, after),
    ensures
        after.queue().len() == 0,
        forall|pane: PaneId| token(after, pane) is None,
{
}

/// A pane layout that changed is not relied on any more: a fresh snapshot is taken.
pub proof fn a_layout_change_asks_for_a_snapshot(
    update: Update,
    panes: Seq<snapshot::PaneState>,
    event: Notification,
)
    requires
        update.status != Status::Disconnected,
        event is LayoutChange,
    ensures
        noted(update, panes, event).status == Status::NeedsResync,
        noted(update, panes, event).exit == update.exit,
        noted(update, panes, event).seq == update.seq,
{
}

/// A window that was added or closed asks for a fresh snapshot.
pub proof fn a_window_that_comes_or_goes_asks_for_a_snapshot(
    update: Update,
    panes: Seq<snapshot::PaneState>,
    event: Notification,
)
    requires
        update.status != Status::Disconnected,
        event is WindowAdd || event is WindowClose,
    ensures
        noted(update, panes, event).status == Status::NeedsResync,
        noted(update, panes, event).exit == update.exit,
        noted(update, panes, event).seq == update.seq,
{
}

/// A client that was moved to another session asks for a fresh snapshot.
pub proof fn another_session_asks_for_a_snapshot(
    update: Update,
    panes: Seq<snapshot::PaneState>,
    event: Notification,
)
    requires
        update.status != Status::Disconnected,
        event is SessionChanged,
    ensures
        noted(update, panes, event).status == Status::NeedsResync,
        noted(update, panes, event).exit == update.exit,
        noted(update, panes, event).seq == update.seq,
{
}

/// A pane whose output tmux paused has missed some of it: a fresh snapshot is taken.
pub proof fn a_paused_pane_asks_for_a_snapshot(
    update: Update,
    panes: Seq<snapshot::PaneState>,
    event: Notification,
)
    requires
        update.status != Status::Disconnected,
        event is Pause,
    ensures
        noted(update, panes, event).status == Status::NeedsResync,
        noted(update, panes, event).exit == update.exit,
        noted(update, panes, event).seq == update.seq,
{
}

/// When tmux exits the view ends, with the reason that tmux gave.
pub proof fn an_exit_ends_the_view(
    update: Update,
    panes: Seq<snapshot::PaneState>,
    reason: Option<String>,
)
    ensures
        noted(update, panes, Notification::Exit(reason)).status == Status::Disconnected,
        noted(update, panes, Notification::Exit(reason)).exit == Some(reason),
        noted(update, panes, Notification::Exit(reason)).seq == update.seq,
{
}

/// Output for a pane of the view is fed to that pane, byte for byte, and moves the
/// display on; output for any other pane does neither, and none of it ends the view.
pub proof fn output_reaches_its_own_pane(
    update: Update,
    panes: Seq<snapshot::PaneState>,
    pane: PaneId,
    event: Notification,
    bytes: Vec<u8>,
)
    requires
        match event {
            Notification::Output { pane: to, bytes: sent } => to == pane && sent == bytes,
            Notification::ExtendedOutput { pane: to, bytes: sent, .. } => to == pane && sent
                == bytes,
            _ => false,
        },
    ensures
        snapshot::has_pane(panes, pane) ==> carried(panes, event) == Some((pane, bytes@)),
        snapshot::has_pane(panes, pane) ==> noted(update, panes, event).seq != update.seq,
        snapshot::has_pane(panes, pane) && update.seq < u64::MAX ==> noted(
            update,
            panes,
            event,
        ).seq == update.seq + 1,
        !snapshot::has_pane(panes, pane) ==> carried(panes, event) is None && noted(
            update,
            panes,
            event,
        ) == update,
        noted(update, panes, event).status == update.status,
        noted(update, panes, event).exit == update.exit,
{
}

/// Only output is fed to a pane.
pub proof fn only_output_is_fed(panes: Seq<snapshot::PaneState>, event: Notification)
    ensures
        carried(panes, event) is Some ==> event is Output || event is ExtendedOutput,
{
}

/// A view asks for a fresh snapshot only after the layout changed, a window came or
/// went, the session changed or a pane was paused.
pub proof fn nothing_else_asks_for_a_snapshot(
    update: Update,
    panes: Seq<snapshot::PaneState>,
    event: Notification,
)
    requires
        update.status == Status::Watching,
        noted(update, panes, event).status == Status::NeedsResync,
    ensures
        event is LayoutChange || event is WindowAdd || event is WindowClose
            || event is SessionChanged || event is Pause,
{
}

/// An update gives the view its status, its exit and its sequence and leaves the
/// panes alone; a view that is invalidated asks for a fresh snapshot unless it ended.
pub proof fn an_update_leaves_the_panes_alone(view: snapshot::SessionView, update: Update)
    ensures
        updated(view, update).status == update.status,
        updated(view, update).exit == update.exit,
        updated(view, update).seq == update.seq,
        updated(view, update).panes == view.panes,
        updated(view, update).session == view.session,
        view.status != Status::Disconnected ==> invalidated(view).status == Status::NeedsResync,
        view.status == Status::Disconnected ==> invalidated(view).status == Status::Disconnected,
        invalidated(view).panes == view.panes && invalidated(view).exit == view.exit
            && invalidated(view).seq == view.seq && invalidated(view).session == view.session,
{
}

/// An action is accepted exactly where the attachment is watched and interactive, its
/// view is current, the token is this connection's and this view's, a resize is
/// consented to, the action itself is sound, and fewer than sixty-four actions wait,
/// which hold with it no more than 131072 bytes.
pub proof fn when_an_action_is_accepted(s: State, entry: Entry)
    ensures
        refusal(s, entry) is None <==> {
            &&& s.phase == Phase::Watching
            &&& s.access == Access::Interactive
            &&& s.view is Some
            &&& s.view->0.status == Status::Watching
            &&& snapshot::has_pane(s.view->0.panes@, entry.target.pane)
            &&& entry.target.epoch == s.epoch
            &&& entry.target.generation == s.generation
            &&& (entry.input is Resize || entry.input is ClientSize) ==> s.allow_resize
            &&& input_error(entry.input) is None
            &&& s.actions@.len() < 64
            &&& s.action_bytes + input_size(entry.input) <= 131_072
        },
{
}

/// Why an action is refused: first that it is stale, then that resizing is not
/// consented to, then that it is unsound, and last that there is no room.
pub proof fn why_an_action_is_refused(s: State, entry: Entry)
    ensures
        refusal(s, entry) == Some(Refused::Stale) <==> token(s, entry.target.pane) != Some(
            entry.target,
        ),
        refusal(s, entry) == Some(Refused::ResizeDisabled) <==> token(s, entry.target.pane) == Some(
            entry.target,
        ) && (entry.input is Resize || entry.input is ClientSize) && !s.allow_resize,
        refusal(s, entry) == Some(Refused::QueueFull) ==> s.actions@.len() >= 64 || s.action_bytes
            + input_size(entry.input) > 131_072,
{
}

proof fn lemma_first_inadmissible(s: State, batch: Seq<Entry>)
    ensures
        first_inadmissible(s, batch) is None <==> forall|i: int|
            0 <= i < batch.len() ==> inadmissible(s, #[trigger] batch[i]) is None,
    decreases batch.len(),
{
    if batch.len() > 0 {
        let d = batch.drop_last();
        lemma_first_inadmissible(s, d);
        assert(forall|i: int| 0 <= i < d.len() ==> d[i] == batch[i]);
        assert(batch.last() == batch[batch.len() - 1]);
        if first_inadmissible(s, batch) is None {
            assert forall|i: int| 0 <= i < batch.len() implies inadmissible(
                s,
                #[trigger] batch[i],
            ) is None by {
                if i < d.len() {
                    assert(inadmissible(s, d[i]) is None);
                }
            }
        } else if first_inadmissible(s, d) is Some {
            let i = choose|i: int|
                0 <= i < d.len() && !(inadmissible(s, #[trigger] d[i]) is None);
            assert(!(inadmissible(s, batch[i]) is None));
        }
    }
}

/// A batch is accepted exactly where each of its actions could be and there is room
/// for all of them; one that is not is refused as a whole.
pub proof fn a_batch_is_accepted_whole(s: State, batch: Seq<Entry>)
    ensures
        batch_refusal(s, batch) is None <==> s.actions@.len() + batch.len() <= 64 && s.action_bytes
            + total(batch) <= 131_072 && forall|i: int|
            0 <= i < batch.len() ==> inadmissible(s, #[trigger] batch[i]) is None,
        s.actions@.len() + batch.len() > 64 || s.action_bytes + total(batch) > 131_072
            ==> batch_refusal(s, batch) == Some(Refused::QueueFull),
{
    lemma_first_inadmissible(s, batch);
}

/// What a queue counts for is what its parts count for.
pub proof fn sizes_add_up(a: Seq<Entry>, entry: Entry)
    ensures
        total(Seq::<Entry>::empty()) == 0,
        total(a.push(entry)) == total(a) + input_size(entry.input),
{
    assert(a.push(entry).drop_last() =~= a);
}

/// Text joins the text that waits last for the same pane of the same view, as long as
/// both together are at most 1024 bytes; nothing else is ever joined.
pub proof fn only_neighbouring_text_joins(q: Seq<Entry>, entry: Entry)
    ensures
        queued(q, entry).len() == q.len() <==> q.len() > 0 && q.last().target == entry.target
            && q.last().input is Bytes && entry.input is Bytes && q.last().input->Bytes_0.len()
            + entry.input->Bytes_0.len() <= 1024,
        queued(q, entry).len() == q.len() || queued(q, entry) == q.push(entry),
{
}

proof fn lemma_run_is_longest(q: Seq<Entry>, n: nat)
    requires
        q.len() > 0,
        1 <= n <= q.len(),
        n <= 32,
    ensures
        run_from(q, n) < 32 && run_from(q, n) < q.len() ==> q[run_from(q, n) as int].target
            != q[0].target || !input::is_typing(q[run_from(q, n) as int].input),
        n <= run_from(q, n) <= q.len(),
        run_from(q, n) <= 32,
    decreases q.len() - n,
{
    if n < 32 && n < q.len() && q[n as int].target == q[0].target && input::is_typing(
        q[n as int].input,
    ) {
        lemma_run_is_longest(q, n + 1);
    }
}

/// Typing goes out together as far as it reaches: the next transaction ends only
/// before an action for another pane or that is no typing, at thirty-two actions, or
/// at the end of the queue. Everything else goes out alone.
pub proof fn typing_goes_out_together(q: Seq<Entry>)
    requires
        q.len() > 0,
    ensures
        !input::is_typing(q[0].input) ==> run_length(q) == 1,
        input::is_typing(q[0].input) && run_length(q) < 32 && run_length(q) < q.len()
            ==> q[run_length(q) as int].target != q[0].target || !input::is_typing(
            q[run_length(q) as int].input,
        ),
        run_length(q) <= 32,
{
    if input::is_typing(q[0].input) {
        lemma_run_is_longest(q, 1);
    }
}

/// What waits is sent only to the view it was made for, and resizes nothing without
/// consent.
pub proof fn what_waits_is_sent_only_where_it_belongs(s: State, entry: Entry)
    ensures
        (entry.input is Resize || entry.input is ClientSize) && !s.allow_resize ==> unsendable(
            s,
            entry,
        ),
        !(entry.input is ClientSize) && token(s, entry.target.pane) != Some(entry.target)
            ==> unsendable(s, entry),
        !(entry.input is ClientSize) && token(s, entry.target.pane) == Some(entry.target) && (
        !(entry.input is Resize) || s.allow_resize) ==> !unsendable(s, entry),
        entry.input is ClientSize && s.allow_resize ==> !unsendable(s, entry),
{
}

/// A host is asked about its sessions only while no connection is open or being made.
pub proof fn a_host_is_asked_only_while_not_connected(phase: Phase)
    ensures
        engaged(phase) <==> (match phase {
            Phase::Connecting
            | Phase::Watching
            | Phase::Resynchronizing
            | Phase::Reconnecting => true,
            Phase::Idle | Phase::Disconnected | Phase::Failed | Phase::Demo => false,
        }),
{
}

/// Each phase is named to the user as what it is.
pub proof fn a_phase_is_named_as_what_it_is()
    ensures
        phase_label(Phase::Idle) == "Not connected"@,
        phase_label(Phase::Connecting) == "Connecting"@,
        phase_label(Phase::Watching) == "Connected"@,
        phase_label(Phase::Resynchronizing) == "Resynchronizing"@,
        phase_label(Phase::Reconnecting) == "Reconnecting"@,
        phase_label(Phase::Disconnected) == "Disconnected"@,
        phase_label(Phase::Failed) == "Connection failed"@,
        phase_label(Phase::Demo) == "Demo data"@,
{
}

/// The same session of the same server is nothing to report; another session is
/// reported with both numbers, and another server as a restart.
pub proof fn another_session_is_reported(previous: Option<Identity>, identity: Identity)
    ensures
        previous is None ==> continuity_text(previous, identity) is None,
        previous == Some(identity) ==> continuity_text(previous, identity) is None,
        previous is Some && previous->0 != identity ==> continuity_text(previous, identity) is Some,
        previous is Some && previous->0.server == identity.server && previous->0.session
            != identity.session ==> continuity_text(previous, identity) == Some(
            "Reattached to a different tmux session ("@ + (seq!['$'] + text::digits(
                identity.session.0 as nat,
            )) + " replaced "@ + (seq!['$'] + text::digits(previous->0.session.0 as nat))
                + "). The earlier session and its scrollback are gone."@,
        ),
        previous is Some && previous->0.server != identity.server ==> continuity_text(
            previous,
            identity,
        ) == Some(
            "The remote tmux server restarted. This is a new session that only shares the old name; the earlier session and its scrollback are gone."@,
        ),
{
}

/// Giving up a connection ends its epoch, its consent and its queue, and leaves the
/// last view readable but no longer live.
pub proof fn giving_up_leaves_a_readable_view(before: State, after: State)
    requires
        before.epoch < u64::MAX,
        cancelled(before, after),
    ensures
        after.epoch == before.epoch + 1,
        after.access == Access::ReadOnly && !after.allow_resize,
        after.pending is None && after.retry is None && after.error is None && after.failure
            is None && after.continuity is None,
        after.actions@.len() == 0 && after.action_bytes == 0 && !after.io_wake,
        after.view is Some == before.view is Some,
        before.view is Some ==> after.view->0.status == Status::Disconnected && after.view->0.panes
            == before.view->0.panes && after.view->0.session == before.view->0.session,
        after.generation == before.generation && after.revision == before.revision,
{
}

/// What dropped input the user is told of while the layout is reconstructed.
pub proof fn dropped_input_is_reported(before: State, dropped: bool, after: State)
    requires
        reconstructing(before, dropped, after),
    ensures
        after.phase == Phase::Resynchronizing,
        dropped ==> after.error is Some && after.error->0@
            == "Layout changed; queued input was discarded, not replayed."@,
        !dropped ==> after.error == before.error,
        after.action_bytes == 0 && after.view == before.view && after.epoch == before.epoch
            && after.generation == before.generation,
{
}

/// What ended an attachment is told as it was classified: by its summary where tmux
/// ended it, and by the error itself, cut to 2048 characters, where one occurred.
pub proof fn an_end_is_told_as_it_was(failure: Failure, layers: Seq<fault::Layer>)
    ensures
        ended(Ok(failure)).0 == failure,
        ended(Ok(failure)).1 == reconnect::summary_text(failure),
        ended(Err(layers)).0 == reconnect::classified(layers),
        ended(Err(layers)).1.len() <= 2048,
        fault::rendered(layers).len() <= 2048 ==> ended(Err(layers)).1 == fault::rendered(layers),
{
}

/// What is sent is what waited first, in its order, to the exact pane that the user saw;
/// it is gone from the queue, and what waits behind it stays in its order.
pub proof fn what_is_sent_waited_first(before: State, epoch: u64, r: Work, after: State)
    requires
        work_taken(before, epoch, r, after),
        r is Interact,
    ensures
        ({
            let q = before.queue();
            let sent = inputs(r->Interact_actions@);
            &&& current(before, epoch)
            &&& 0 < sent.len() <= q.len()
            &&& forall|i: int| 0 <= i < sent.len() ==> #[trigger] sent[i] == q[i].input
            &&& r->Interact_target.session == before.view->0.session
            &&& r->Interact_target.pane == q[0].target.pane
            &&& exists|i: int|
                0 <= i < before.view->0.panes@.len() && (#[trigger] before.view->0.panes@[i]).id
                    == q[0].target.pane && r->Interact_target.window
                    == before.view->0.panes@[i].window && r->Interact_target.size
                    == before.view->0.panes@[i].size && r->Interact_target.left
                    == before.view->0.panes@[i].left && r->Interact_target.top
                    == before.view->0.panes@[i].top
            &&& !input::alters_layout(q[0].input) ==> after.queue() == q.skip(sent.len() as int)
                && after.phase == before.phase && after.view == before.view
        }),
{
    let q = before.queue();
    a_transaction_is_bounded_typing_for_one_pane(q);
    let n = run_length(q) as int;
    let sent = inputs(r->Interact_actions@);
    assert(sent == inputs_of(q.take(n)));
    assert forall|i: int| 0 <= i < sent.len() implies #[trigger] sent[i] == q[i].input by {
        assert(inputs_of(q.take(n))[i] == q.take(n)[i].input);
    }
    let i = choose|i: int|
        snapshot::pane_at(before.view->0.panes@, q[0].target.pane, i) && r->Interact_target
            == snapshot::aimed(before.view->0.session, #[trigger] before.view->0.panes@[i]);
    assert(before.view->0.panes@[i].id == q[0].target.pane);
}

/// After an action that changes the layout nothing else is sent before a fresh snapshot:
/// the queue is dropped and the view is no longer relied on.
pub proof fn a_layout_action_is_the_last_before_a_snapshot(
    before: State,
    epoch: u64,
    r: Work,
    after: State,
)
    requires
        work_taken(before, epoch, r, after),
        before.view is Some,
        before.view->0.status != Status::Disconnected,
        (r is Interact && input::alters_layout(before.queue()[0].input)) || r is ClientSize,
    ensures
        after.queue().len() == 0 && after.action_bytes == 0,
        after.phase == Phase::Resynchronizing,
        after.view is Some && after.view->0.status == Status::NeedsResync,
        r is ClientSize ==> before.queue()[0].input == Input::ClientSize(r->ClientSize_0)
            && before.allow_resize,
{
}

/// What waits for a view that is gone is dropped, alone; a connection that was given up
/// sends nothing, and an empty queue has nothing to send.
pub proof fn what_is_not_sent(before: State, epoch: u64, r: Work, after: State)
    requires
        work_taken(before, epoch, r, after),
    ensures
        before.stopping || before.epoch != epoch ==> r is Cancelled && after == before,
        current(before, epoch) && before.queue().len() == 0 ==> r is Idle && after == before,
        r is Dropped ==> before.queue().len() > 0 && unsendable(before, before.queue()[0])
            && after.queue() == before.queue().skip(1),
        r is Cancelled ==> !current(before, epoch),
        r is Idle ==> before.queue().len() == 0,
{
    if r is Dropped {
        assert(before.queue().skip(1) =~= before.queue().drop_first());
    }
}

/// An attachment that is watched goes on; one whose layout changed is reconstructed, with
/// nothing that waited sent after that; one that tmux ended is over, for tmux's reason;
/// one that was given up says nothing.
pub proof fn what_becomes_of_an_attachment(before: State, epoch: u64, r: Step, after: State)
    requires
        stepped(before, epoch, r, after),
    ensures
        !current(before, epoch) ==> r == Step::Cancelled && after == before,
        current(before, epoch) && before.view->0.status == Status::Watching ==> r == Step::Watch
            && after == before,
        current(before, epoch) && before.view->0.status == Status::NeedsResync ==> r
            == Step::Resynchronize && after.phase == Phase::Resynchronizing
            && after.queue().len() == 0,
        current(before, epoch) && before.view->0.status == Status::Disconnected ==> r
            == Step::Ended(reconnect::exit_failure(snapshot::exit_reason(before.view->0))),
{
}

/// A restored attachment shows its view under a generation of its own, is watched, and
/// forgets what failed before; only an interactive one brings the consent to resize.
pub proof fn what_attaching_shows(
    before: State,
    epoch: u64,
    view: snapshot::SessionView,
    access: Access,
    rtt: Option<Duration>,
    continuity: Option<String>,
    r: bool,
    after: State,
)
    requires
        before.generation < u64::MAX,
        attaches(before, epoch, view, access, rtt, continuity, r, after),
    ensures
        r == (!before.stopping && before.epoch == epoch),
        !r ==> after == before,
        r ==> {
            &&& after.view == Some(view)
            &&& after.phase == Phase::Watching
            &&& after.access == access
            &&& after.generation == before.generation + 1
            &&& after.error is None && after.failure is None && after.retry is None
            &&& after.continuity == continuity
            &&& after.last_rtt == rtt && after.io_wake
            &&& after.epoch == before.epoch
            &&& after.queue() == before.queue()
            &&& access == Access::Interactive ==> after.allow_resize
            &&& access == Access::ReadOnly ==> after.allow_resize == before.allow_resize
        },
{
}

/// A fresh snapshot shows its view under a generation of its own, so that no token made
/// for the view before it is accepted.
pub proof fn a_fresh_snapshot_outdates_every_token(
    before: State,
    epoch: u64,
    view: snapshot::SessionView,
    rtt: Option<Duration>,
    r: bool,
    after: State,
    entry: Entry,
)
    requires
        before.generation < u64::MAX,
        refreshes(before, epoch, view, rtt, r, after),
        entry.target.generation <= before.generation,
    ensures
        r == (!before.stopping && before.epoch == epoch),
        !r ==> after == before,
        r ==> {
            &&& after.view == Some(view)
            &&& after.phase == Phase::Watching
            &&& after.generation == before.generation + 1
            &&& after.access == before.access && after.epoch == before.epoch
            &&& after.continuity is None
            &&& refusal(after, entry) == Some(Refused::Stale)
        },
{
}

/// Actions that tmux applied leave the view as tmux says it is; a blocked action is
/// reported, leaves a view that is no longer relied on, and is not queued again.
pub proof fn a_blocked_action_is_reported_and_not_retried(
    before: State,
    epoch: u64,
    applied: bool,
    update: Update,
    rtt: Option<Duration>,
    r: bool,
    after: State,
)
    requires
        before.view is Some,
        takes_outcome(before, epoch, applied, update, rtt, r, after),
    ensures
        r == (!before.stopping && before.epoch == epoch),
        !r ==> after == before,
        r ==> after.queue() == before.queue() && after.last_rtt == rtt && after.view is Some
            && after.view->0.panes == before.view->0.panes,
        r && applied ==> after.view->0.status == update.status && after.view->0.seq == update.seq
            && after.error == before.error,
        r && !applied && update.status != Status::Disconnected ==> after.view->0.status
            == Status::NeedsResync,
        r && !applied ==> after.error is Some && after.error->0@
            == "tmux blocked this action: the pane changed, is in a mode, or synchronize-panes/zoom is enabled. Nothing was retried."@,
{
}

/// What was heard becomes part of the view, and is a change exactly if the display moved
/// on.
pub proof fn what_was_heard_is_shown(
    before: State,
    epoch: u64,
    update: Update,
    r: Heard,
    after: State,
)
    requires
        before.view is Some,
        hears(before, epoch, update, r, after),
    ensures
        r == Heard::Cancelled <==> before.stopping || before.epoch != epoch,
        r == Heard::Cancelled ==> after == before,
        r != Heard::Cancelled ==> after.view is Some && after.view->0.status == update.status
            && after.view->0.exit == update.exit && after.view->0.seq == update.seq
            && after.view->0.panes == before.view->0.panes && after.queue() == before.queue(),
        r == Heard::Changed ==> update.seq != before.view->0.seq,
        r == Heard::Unchanged ==> update.seq == before.view->0.seq,
{
}

/// An attachment that ended keeps its last view readable and nothing that was typed; it
/// is reconnecting if another attempt is planned, disconnected if it was detached, and
/// failed otherwise, and the user is told how.
pub proof fn an_attachment_that_ended_is_reported(
    before: State,
    epoch: u64,
    failure: Failure,
    detail: Seq<char>,
    retry: Option<(u32, Instant)>,
    r: Option<Instant>,
    after: State,
)
    requires
        reports(before, epoch, failure, detail, retry, r, after),
    ensures
        !current(before, epoch) ==> r is None && after == before,
        current(before, epoch) ==> {
            &&& after.queue().len() == 0 && after.action_bytes == 0 && !after.io_wake
            &&& after.failure == Some(failure)
            &&& retry is Some ==> after.phase == Phase::Reconnecting && after.retry is Some
                && after.retry->0.failure == failure
            &&& retry is None && failure == Failure::Detached ==> after.phase == Phase::Disconnected
                && after.retry is None && r is None
            &&& retry is None && failure != Failure::Detached ==> after.phase == Phase::Failed
                && after.retry is None && r is None
            &&& match retry {
                Some((attempt, resume_at)) => after.retry->0.attempt == attempt
                    && after.retry->0.resume_at == resume_at && r == Some(resume_at),
                None => true,
            }
            &&& after.view is Some == before.view is Some
            &&& before.view is Some ==> after.view->0.status == Status::Disconnected
                && after.view->0.panes == before.view->0.panes
            &&& after.error is Some
            &&& (reconnect::summary_text(failure) + seq![' '] + detail).len() <= 2048
                ==> after.error->0@ == reconnect::summary_text(failure) + seq![' '] + detail
            &&& after.error->0@.len() <= 2048
            &&& after.epoch == before.epoch
        },
{
}

/// An action that is accepted waits last, or within the text that waits last, and wakes a
/// worker that waits; one that is refused changes nothing.
pub proof fn an_accepted_action_waits_last(
    before: State,
    target: Target,
    input: Input,
    r: Result<bool, Refused>,
    after: State,
)
    requires
        before.wf(),
        enqueues(before, target, input, r, after),
    ensures
        r is Err ==> after == before,
        r is Ok <==> refusal(before, Entry { target, input }) is None,
        r is Err ==> refusal(before, Entry { target, input }) == Some(r->Err_0),
        r is Ok ==> {
            &&& r->Ok_0 == before.io_wake
            &&& stream(after.queue()) == stream(before.queue()) + atoms(Entry { target, input })
            &&& after.action_bytes == before.action_bytes + input_size(input)
            &&& after.view == before.view && after.phase == before.phase
        },
{
    queueing_keeps_the_order(before.queue(), Entry { target, input });
}

/// A batch is queued whole and in its order, or not at all.
pub proof fn a_batch_is_queued_whole_or_not_at_all(
    before: State,
    entered: Seq<Entry>,
    r: Result<bool, Refused>,
    after: State,
)
    requires
        before.wf(),
        submits(before, entered, r, after),
    ensures
        r is Err ==> after == before,
        r is Ok <==> batch_refusal(before, entered) is None,
        r is Ok ==> {
            &&& r->Ok_0 == (before.io_wake && entered.len() > 0)
            &&& stream(after.queue()) == stream(before.queue()) + stream(entered)
            &&& after.action_bytes == before.action_bytes + total(entered)
        },
{
    a_batch_keeps_the_order(before.queue(), entered);
}

/// A connection that is asked for replaces whatever went on: the one before it can
/// publish nothing, and what it had queued is dropped. One that asks for more than a
/// thousand lines of history is refused.
pub proof fn connecting_replaces_what_went_on(
    before: State,
    connection: Connection,
    r: Result<bool, Refused>,
    after: State,
)
    requires
        before.epoch < u64::MAX,
        connects(before, connection, r, after),
    ensures
        r is Ok <==> connection.history <= 1000,
        r is Err ==> r->Err_0 == Refused::HistoryTooLong && after == before,
        r is Ok ==> {
            &&& after.phase == Phase::Connecting
            &&& after.pending == Some(Request::Attach(connection))
            &&& after.epoch == before.epoch + 1
            &&& after.queue().len() == 0
            &&& after.access == Access::ReadOnly && !after.allow_resize
            &&& r->Ok_0 == before.io_wake
        },
{
}

/// A host is asked only while no connection is open and nothing else was asked, and then
/// the question waits.
pub proof fn when_a_host_is_asked(
    before: State,
    request: Request,
    r: Result<(), Refused>,
    after: State,
)
    requires
        queries(before, request, r, after),
    ensures
        r is Ok <==> !engaged(before.phase) && before.pending is None,
        r is Ok ==> after.pending == Some(request) && after.discovery == Some(Discovery::Running)
            && after.phase == before.phase && after.epoch == before.epoch && after.view
            == before.view,
        r is Err ==> after == before,
        r is Err && engaged(before.phase) ==> r->Err_0 == Refused::Connected,
        r is Err && !engaged(before.phase) ==> r->Err_0 == Refused::Busy,
{
}

/// Ending a connection leaves it disconnected, in an epoch of its own, with nothing
/// waiting.
pub proof fn ending_a_connection_leaves_nothing_waiting(before: State, wake: bool, after: State)
    requires
        before.epoch < u64::MAX,
        disconnects(before, wake, after),
    ensures
        after.phase == Phase::Disconnected,
        after.epoch == before.epoch + 1,
        after.queue().len() == 0 && after.pending is None && after.retry is None,
        wake == before.io_wake,
{
}

/// Another attempt has an epoch of its own, keeps the consent to resize, drops what
/// waited, and shows that it is connecting; one that was given up is not made.
pub proof fn another_attempt_has_its_own_epoch(
    before: State,
    epoch: u64,
    r: Option<u64>,
    after: State,
    renewed: State,
    kept: Option<u64>,
)
    requires
        before.epoch < u64::MAX,
        retries(before, epoch, r, after),
        renews(before, epoch, kept, renewed),
    ensures
        r is Some <==> !before.stopping && before.epoch == epoch,
        r is None ==> after == before,
        r is Some ==> {
            &&& r == Some((before.epoch + 1) as u64)
            &&& after.epoch == before.epoch + 1
            &&& after.phase == Phase::Connecting
            &&& after.allow_resize == before.allow_resize
            &&& after.retry is None && after.queue().len() == 0
            &&& after.view == before.view
        },
        kept == r,
        kept is Some ==> renewed.epoch == before.epoch + 1 && renewed.phase == before.phase
            && renewed.allow_resize == before.allow_resize && renewed.queue().len() == 0,
        kept is None ==> renewed == before,
{
}

/// A request is taken once, with the epoch in which it was made; a client that is going
/// away takes none.
pub proof fn a_request_is_taken_once(before: State, r: Taken, after: State)
    requires
        request_taken(before, r, after),
    ensures
        before.stopping ==> r is Stop && after == before,
        !before.stopping && before.pending is None ==> r is Wait && after == before,
        !before.stopping && before.pending is Some ==> r == (Taken::Run {
            epoch: before.epoch,
            request: before.pending->0,
        }) && after.pending is None && after.epoch == before.epoch && after.phase
            == before.phase,
{
}

/// A rename that failed is told and leaves the view alone; one that succeeded takes over
/// what tmux said meanwhile.
pub proof fn what_a_rename_comes_to(
    before: State,
    epoch: u64,
    outcome: Result<Update, Fault>,
    r: bool,
    after: State,
)
    requires
        before.view is Some,
        finishes_rename(before, epoch, outcome, r, after),
    ensures
        r == (!before.stopping && before.epoch == epoch),
        !r ==> after == before,
        r && outcome is Ok ==> after.view is Some && after.view->0.status == outcome->Ok_0.status
            && after.view->0.seq == outcome->Ok_0.seq && after.error == before.error,
        r && outcome is Err ==> after.view == before.view && after.error is Some
            && after.error->0@ == text::first(
            fault::rendered(outcome->Err_0.layers@),
            2048,
        ),
        r ==> after.queue() == before.queue() && after.phase == before.phase,
{
}

/// What a host answered is shown, and a failure as its text, cut to 1024 characters.
pub proof fn what_a_host_answered_is_shown(
    before: State,
    epoch: u64,
    outcome: Result<Discovery, Fault>,
    r: bool,
    after: State,
)
    requires
        takes_answer(before, epoch, outcome, r, after),
    ensures
        r == (!before.stopping && before.epoch == epoch),
        !r ==> after == before,
        r && outcome is Ok ==> after.discovery == Some(outcome->Ok_0),
        r && outcome is Err ==> after.discovery is Some && after.discovery->0 is Failed
            && after.discovery->0->Failed_0@ == text::first(
            fault::rendered(outcome->Err_0.layers@),
            1024,
        ),
        r ==> after.phase == before.phase && after.view == before.view,
{
}

/// Only transport loss is tried again, only where the connection asks for it, and after
/// the delay that is next; nothing else moves the schedule on.
pub proof fn which_failures_are_tried_again(
    failure: Failure,
    reconnect: bool,
    backoff: reconnect::Schedule,
    r: Option<(u32, Duration)>,
    after: reconnect::Schedule,
)
    requires
        plans_retry(failure, reconnect, backoff, r, after),
    ensures
        r is Some <==> failure == Failure::Transport && reconnect,
        r is None ==> after == backoff,
        match r {
            Some((attempt, delay)) => {
                &&& attempt == after.attempt
                &&& backoff.attempt < u32::MAX ==> attempt == backoff.attempt + 1
                &&& clock::nanos(delay) == reconnect::delay_of(backoff) * 1_000_000
                &&& 1_000_000 <= clock::nanos(delay)
                &&& clock::nanos(delay) <= 30_000_000_000
            },
            None => true,
        },
{
    reconnect::delays_stay_bounded(backoff);
}

/// A planned attempt waits for its time and no longer, and not at all once it was given
/// up.
pub proof fn a_planned_attempt_waits_for_its_time(
    before: State,
    epoch: u64,
    until: Instant,
    now: Instant,
    r: Wait,
)
    requires
        waits_for_retry(before, epoch, until, now, r),
    ensures
        r is Superseded <==> before.stopping || before.epoch != epoch,
        r is Due ==> clock::between(until, now) == 0,
        r is Sleep ==> clock::nanos(r->Sleep_0) == clock::between(until, now) && clock::nanos(
            r->Sleep_0,
        ) > 0,
{
}

/// A session that changed while it was identified is refused; the one that was attached
/// is reported as far as it is another than the one that was lost.
pub proof fn only_the_attached_session_is_recognized(
    session: SessionId,
    identity: Identity,
    previous: Option<Identity>,
    r: Result<Option<String>, Fault>,
)
    requires
        recognizes(session, identity, previous, r),
    ensures
        r is Ok <==> identity.session == session,
        r is Ok ==> (r->Ok_0 is None <==> previous is None || previous == Some(identity)),
        r is Err ==> r->Err_0.layers@.len() == 1 && r->Err_0.layers@[0].cause
            == fault::Cause::Message && r->Err_0.layers@[0].text@
            == "the attached session changed while identifying it"@,
{
}

/// Only a session that is watched can be given another name, and the request belongs to
/// the connection in which it was made.
pub proof fn a_rename_belongs_to_its_connection(
    before: State,
    name: SessionName,
    r: Option<Renaming>,
)
    requires
        asks_rename(before, name, r),
    ensures
        r is Some <==> before.phase == Phase::Watching,
        r is Some ==> r->0.epoch == before.epoch && r->0.name == name,
{
}

/// A client that is to be looked at again has another revision, and is otherwise as it
/// was.
pub proof fn a_new_revision_differs(before: State, after: State)
    requires
        bumped(before, after),
    ensures
        after.revision != before.revision,
        before.revision < u64::MAX ==> after.revision == before.revision + 1,
        after.phase == before.phase && after.view == before.view && after.queue()
            == before.queue() && after.epoch == before.epoch,
{
}

/// A host is asked what sessions it has only where the session is missing and nothing
/// else is going to happen.
pub proof fn only_a_missing_session_lists_the_others(failure: Failure, scheduled: bool, r: bool)
    requires
        lists_after(failure, scheduled, r),
    ensures
        r <==> failure == Failure::MissingSession && !scheduled,
{
}

/// A session is renamed only in the connection in which that was asked for, as long as it
/// may publish.
pub proof fn a_rename_stays_in_its_connection(
    before: State,
    epoch: u64,
    renaming: Renaming,
    r: bool,
)
    requires
        renames_now(before, epoch, renaming, r),
    ensures
        r <==> !before.stopping && before.epoch == epoch && renaming.epoch == epoch,
{
}

} // verus!
