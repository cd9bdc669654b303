//! Connection tabs: which exist, which is shown, and what an action does to them.
//!
//! Each tab has a client of its own, which is elsewhere; what is needed of it
//! comes in as values. Times are nanoseconds since the program began.
use vstd::prelude::*;
use crate::desktop::Phase;
use crate::model::{nameable, SessionName};
use crate::sftp::rounded;
use crate::store;
use crate::store::{Limits, Settings};
use crate::text;

verus! {

/// The most connection tabs.
pub const MAX_TABS: usize = 16;

/// Nanoseconds of a second.
pub const SECOND: u64 = 1_000_000_000;

/// How long remote frames come faster after input was sent.
pub const ECHO_NANOS: u64 = 400_000_000;

/// The interval between remote frames after input was sent.
pub const ECHO_INTERVAL: u64 = 50_000_000;

/// A connection tab.
pub struct Tab {
    pub id: u64,
    pub label: String,
    pub last_seq: u64,
    pub last_output: u64,
    pub last_phase: Phase,
    pub last_revision: u64,
}

/// What a client looks like at the moment.
#[derive(Clone, Copy, Debug, PartialEq, Eq, Structural)]
pub struct Glance {
    pub revision: u64,
    pub phase: Phase,
    pub seq: u64,
}

/// A session that is being renamed in its tab.
pub struct Rename {
    pub id: u64,
    pub draft: String,
}

/// What the user asked of a tab's client.
pub enum TabAction {
    Idle,
    Connect,
    ListSessions,
    CreateSession,
    RenameSession(String),
    Disconnect,
    /// Input of one frame.
    Frame,
    ReloadConfig,
}

/// What the user asked for.
pub enum Action {
    Idle,
    New,
    Select(u64),
    Close(u64),
    /// Move a tab so that it stands before the tab now at `insert_at`.
    Reorder { id: u64, insert_at: usize },
    Tab(u64, TabAction),
}

/// The tabs of the window.
pub struct Workspace {
    pub tabs: Vec<Tab>,
    pub active: usize,
    /// The form behind "+". It is no tab until a connection is made from it.
    pub composer: Tab,
    pub composer_open: bool,
    pub next: u64,
    pub notice: Option<String>,
    /// Whether the workspace is saved at all.
    pub saving: bool,
    pub fps: u32,
    pub idle: u32,
    pub restore_tabs: bool,
    /// Seconds this installation has been open across launches.
    pub open_secs: u64,
    pub session_started: u64,
    /// Remote frames come faster until then.
    pub echo_until: Option<u64>,
    /// A local action was applied after the frame that produced it.
    pub local_dirty: bool,
    pub shut_down: bool,
    pub renaming: Option<Rename>,
    pub limits: Limits,
}

/// The numbers of tabs.
pub open spec fn ids(tabs: Seq<Tab>) -> Seq<u64> {
    Seq::new(tabs.len(), |i: int| tabs[i].id)
}

/// Where the tab of a number stands.
pub open spec fn stands_at(tabs: Seq<Tab>, id: u64, i: int) -> bool {
    0 <= i < tabs.len() && tabs[i].id == id
}

/// There is a tab of this number.
pub open spec fn has_tab(tabs: Seq<Tab>, id: u64) -> bool {
    exists|i: int| stands_at(tabs, id, i)
}

/// No two tabs have the same number.
pub open spec fn distinct(tabs: Seq<Tab>) -> bool {
    forall|i: int, j: int| 0 <= i < j < tabs.len() ==> tabs[i].id != tabs[j].id
}

impl Workspace {
    /// The tabs are within their bound, each has a number of its own that is not
    /// the composer's nor the next, and the active one exists.
    pub open spec fn wf(&self) -> bool {
        &&& self.tabs@.len() <= MAX_TABS
        &&& distinct(self.tabs@)
        &&& forall|i: int|
            0 <= i < self.tabs@.len() ==> (#[trigger] self.tabs@[i]).id < self.next
                && self.tabs@[i].id != self.composer.id
        &&& self.composer.id < self.next
        &&& self.tabs@.len() > 0 ==> self.active < self.tabs@.len()
        &&& self.limits.fps >= 1
    }
}

/// A tab with which nothing has happened yet.
pub open spec fn idle_tab(tab: Tab, id: u64, now: u64) -> bool {
    &&& tab.id == id
    &&& tab.label@ == store::new_connection()
    &&& tab.last_seq == 0
    &&& tab.last_output == now
    &&& tab.last_phase == Phase::Idle
    &&& tab.last_revision == 0
}

fn spawn_tab(id: u64, now: u64) -> (r: Tab)
    ensures
        idle_tab(r, id, now),
{
    Tab {
        id,
        label: "New connection".to_owned(),
        last_seq: 0,
        last_output: now,
        last_phase: Phase::Idle,
        last_revision: 0,
    }
}

/// A phase in which a connection is being made.
pub open spec fn busy(phase: Phase) -> bool {
    phase == Phase::Connecting || phase == Phase::Reconnecting
}

/// A phase in which a terminal is shown.
pub open spec fn live(phase: Phase) -> bool {
    phase == Phase::Watching || phase == Phase::Demo || phase == Phase::Resynchronizing
}

/// Whether a connection is being made.
pub fn busy_phase(phase: Phase) -> (r: bool)
    ensures
        r == busy(phase),
{
    phase == Phase::Connecting || phase == Phase::Reconnecting
}

/// Whether a terminal is shown.
pub fn live_phase(phase: Phase) -> (r: bool)
    ensures
        r == live(phase),
{
    phase == Phase::Watching || phase == Phase::Demo || phase == Phase::Resynchronizing
}

/// The colour of a tab.
pub open spec fn color_of(phase: Phase, idle: (u8, u8, u8), quiet: bool) -> (u8, u8, u8) {
    if live(phase) && quiet {
        (36u8, 88u8, 148u8)
    } else if live(phase) {
        (38u8, 98u8, 58u8)
    } else if busy(phase) || phase == Phase::Failed {
        (140u8, 108u8, 28u8)
    } else {
        idle
    }
}

/// The colour of a tab: green while it is live, blue once it is quiet, yellow
/// while it is connecting and after it failed.
pub fn tab_color(phase: Phase, idle: (u8, u8, u8), quiet: bool) -> (r: (u8, u8, u8))
    ensures
        r == color_of(phase, idle, quiet),
{
    if live_phase(phase) {
        if quiet {
            (36, 88, 148)
        } else {
            (38, 98, 58)
        }
    } else if busy_phase(phase) || phase == Phase::Failed {
        (140, 108, 28)
    } else {
        idle
    }
}

/// One channel made lighter.
pub open spec fn lifted(channel: u8, by: u8) -> u8 {
    if channel + by > 255 {
        255
    } else {
        (channel + by) as u8
    }
}

fn lift_channel(channel: u8, by: u8) -> (r: u8)
    ensures
        r == lifted(channel, by),
{
    if channel > 255 - by {
        255
    } else {
        channel + by
    }
}

/// A lighter colour.
pub fn lift(color: (u8, u8, u8), by: u8) -> (r: (u8, u8, u8))
    ensures
        r == (lifted(color.0, by), lifted(color.1, by), lifted(color.2, by)),
{
    (lift_channel(color.0, by), lift_channel(color.1, by), lift_channel(color.2, by))
}

/// How long ago something was; not at all if it lies ahead.
pub open spec fn since(now: u64, then: u64) -> nat {
    if now > then {
        (now - then) as nat
    } else {
        0
    }
}

/// A tab that shows a terminal has had no output for as long as the user chose;
/// zero seconds switch this off.
pub open spec fn is_quiet(idle: u32, phase: Phase, last_output: u64, now: u64) -> bool {
    idle > 0 && live(phase) && since(now, last_output) >= idle as nat * SECOND
}

/// Whether a tab is quiet.
pub fn quiet(idle: u32, phase: Phase, last_output: u64, now: u64) -> (r: bool)
    ensures
        r == is_quiet(idle, phase, last_output, now),
{
    let span: u64 = if now > last_output {
        now - last_output
    } else {
        0
    };
    idle > 0 && live_phase(phase) && span >= idle as u64 * SECOND
}

/// After how long a tab is looked at again.
pub open spec fn looks_again(
    idle: u32,
    phase: Phase,
    last_output: u64,
    now: u64,
    r: Option<u64>,
) -> bool {
    match r {
        Some(span) => idle > 0 && live(phase) && !is_quiet(idle, phase, last_output, now)
            && span == idle as nat * SECOND - since(now, last_output),
        None => idle == 0 || !live(phase) || is_quiet(idle, phase, last_output, now),
    }
}

/// After how long a tab that is not quiet yet is to be looked at again; `None`
/// where it is quiet already or never will be.
pub fn quiet_after(idle: u32, phase: Phase, last_output: u64, now: u64) -> (r: Option<u64>)
    ensures
        looks_again(idle, phase, last_output, now, r),
{
    if idle == 0 || !live_phase(phase) || quiet(idle, phase, last_output, now) {
        return None;
    }
    let span: u64 = if now > last_output {
        now - last_output
    } else {
        0
    };
    Some(idle as u64 * SECOND - span)
}

/// Whether anything that is shown changed with one client: it is the one that is
/// shown, or its phase changed, or output came to a tab that was quiet.
pub open spec fn shows_change(
    tab: Tab,
    glance: Glance,
    visible: bool,
    idle: u32,
    now: u64,
) -> bool {
    glance.revision != tab.last_revision && (visible || glance.phase != tab.last_phase || (
    glance.seq != tab.last_seq && is_quiet(idle, tab.last_phase, tab.last_output, now)))
}

/// A tab once its client was looked at. What is shown stays to be painted; what
/// is hidden is taken note of.
pub open spec fn looked_at(tab: Tab, glance: Glance, visible: bool, now: u64) -> Tab {
    if glance.revision == tab.last_revision || visible {
        tab
    } else if glance.phase != tab.last_phase || glance.seq != tab.last_seq {
        Tab {
            last_revision: glance.revision,
            last_phase: glance.phase,
            last_seq: glance.seq,
            last_output: now,
            ..tab
        }
    } else {
        Tab { last_revision: glance.revision, ..tab }
    }
}

/// A tab whose client was looked at for painting.
pub open spec fn observed(tab: Tab, glance: Glance, now: u64) -> Tab {
    if glance.seq != tab.last_seq || glance.phase != tab.last_phase {
        Tab { last_seq: glance.seq, last_phase: glance.phase, last_output: now, ..tab }
    } else {
        tab
    }
}

/// What adding a tab comes to.
pub open spec fn adds(before: Workspace, now: u64, r: bool, after: Workspace) -> bool {
    &&& r == (before.tabs@.len() < MAX_TABS)
    &&& !r ==> after == before
    &&& r ==> ({
        let n = before.tabs@.len();
        &&& after.tabs@.len() == n + 1
        &&& after.tabs@.drop_last() == before.tabs@
        &&& idle_tab(after.tabs@[n as int], before.next, now)
        &&& after == (Workspace {
            tabs: after.tabs,
            next: (before.next + 1) as u64,
            composer_open: false,
            active: n as usize,
            ..before
        })
    })
}

/// What making the form a tab comes to.
pub open spec fn promotes(before: Workspace, now: u64, r: bool, after: Workspace) -> bool {
    &&& r == (before.tabs@.len() < MAX_TABS)
    &&& !r ==> after == before
    &&& r ==> ({
        let n = before.tabs@.len();
        &&& after.tabs@ == before.tabs@.push(before.composer)
        &&& idle_tab(after.composer, before.next, now)
        &&& after == (Workspace {
            tabs: after.tabs,
            composer: after.composer,
            next: (before.next + 1) as u64,
            composer_open: false,
            active: n as usize,
            ..before
        })
    })
}

impl Workspace {
    /// A workspace with nothing in it but the form.
    pub fn new(saving: bool, limits: Limits, now: u64) -> (r: Self)
        requires
            limits.fps >= 1,
        ensures
            r.wf(),
            r.tabs@.len() == 0 && r.active == 0 && r.composer_open,
            idle_tab(r.composer, 1, now),
            r.next == 2,
            r.notice is None && r.renaming is None && r.echo_until is None,
            r.saving == saving,
            r.fps == store::DEFAULT_FPS && r.idle == store::DEFAULT_IDLE && r.restore_tabs,
            r.open_secs == 0 && r.session_started == now,
            !r.local_dirty && !r.shut_down,
            r.limits == limits,
    {
        Workspace {
            tabs: Vec::new(),
            active: 0,
            composer: spawn_tab(1, now),
            composer_open: true,
            next: 2,
            notice: None,
            saving,
            fps: store::DEFAULT_FPS,
            idle: store::DEFAULT_IDLE,
            restore_tabs: true,
            open_secs: 0,
            session_started: now,
            echo_until: None,
            local_dirty: false,
            shut_down: false,
            renaming: None,
            limits,
        }
    }

    /// Where the tab of a number stands.
    pub fn find(&self, id: u64) -> (r: Option<usize>)
        ensures
            match r {
                Some(i) => stands_at(self.tabs@, id, i as int) && forall|j: int|
                    0 <= j < i ==> (#[trigger] self.tabs@[j]).id != id,
                None => !has_tab(self.tabs@, id),
            },
    {
        for i in 0..self.tabs.len()
            invariant
                forall|j: int| 0 <= j < i ==> (#[trigger] self.tabs@[j]).id != id,
        {
            if self.tabs[i].id == id {
                return Some(i);
            }
        }
        None
    }

    /// Adds a tab at the end and shows it. Returns whether there was room.
    pub fn push_idle_tab(&mut self, now: u64) -> (r: bool)
        requires
            old(self).wf(),
            old(self).next < u64::MAX,
        ensures
            final(self).wf(),
            adds(*old(self), now, r, *final(self)),
    {
        if self.tabs.len() >= MAX_TABS {
            return false;
        }
        let tab = spawn_tab(self.next, now);
        self.next = self.next + 1;
        self.tabs.push(tab);
        assert(self.tabs@.drop_last() =~= old(self).tabs@);
        self.composer_open = false;
        self.active = self.tabs.len() - 1;
        true
    }

    /// Makes the composer a tab, which keeps its number, and puts a fresh form in
    /// its place. Returns whether there was room.
    pub fn promote_composer(&mut self, now: u64) -> (r: bool)
        requires
            old(self).wf(),
            old(self).next < u64::MAX,
        ensures
            final(self).wf(),
            promotes(*old(self), now, r, *final(self)),
    {
        if self.tabs.len() >= MAX_TABS {
            return false;
        }
        let replacement = spawn_tab(self.next, now);
        self.next = self.next + 1;
        let mut tab = replacement;
        std::mem::swap(&mut self.composer, &mut tab);
        self.tabs.push(tab);
        self.composer_open = false;
        self.active = self.tabs.len() - 1;
        true
    }
}

/// Where a tab goes that is put before the tab now at `insert_at`.
pub open spec fn landing(from: int, insert_at: int) -> int {
    if insert_at > from {
        insert_at - 1
    } else {
        insert_at
    }
}

/// The tabs after one was moved.
pub open spec fn reordered(tabs: Seq<Tab>, from: int, insert_at: int) -> Seq<Tab> {
    let goal = if insert_at > tabs.len() {
        tabs.len() as int
    } else {
        insert_at
    };
    if from == goal || from + 1 == goal {
        tabs
    } else {
        tabs.remove(from).insert(landing(from, goal), tabs[from])
    }
}

/// One tab was taken out and stands, in `after`, right before the tab that was at
/// `insert_at`, or last where there was none; the others follow each other as before.
#[verifier::opaque]
pub open spec fn put_before(tabs: Seq<Tab>, after: Seq<Tab>, from: int, insert_at: int) -> bool {
    exists|at: int|
        0 <= at < after.len() && #[trigger] after[at] == tabs[from] && after.len() == tabs.len()
            && after.remove(at) == tabs.remove(from) && (if insert_at < tabs.len() {
            at + 1 < after.len() && after[at + 1] == tabs[insert_at]
        } else {
            at + 1 == after.len()
        })
}

/// Which tab is shown after one was taken away.
pub open spec fn active_without(active: int, gone: int, left: nat) -> int {
    let moved = if gone < active {
        active - 1
    } else {
        active
    };
    if left == 0 {
        0
    } else if moved < left {
        moved
    } else {
        left - 1
    }
}

/// The workspace after a tab was taken away.
pub open spec fn closed(before: Workspace, after: Workspace, i: int) -> bool {
    &&& after.tabs@ == before.tabs@.remove(i)
    &&& after == (Workspace {
        tabs: after.tabs,
        active: active_without(before.active as int, i, after.tabs@.len()) as usize,
        composer_open: before.composer_open || after.tabs@.len() == 0,
        renaming: None,
        ..before
    })
}

proof fn lemma_removed(tabs: Seq<Tab>, i: int)
    requires
        distinct(tabs),
        0 <= i < tabs.len(),
    ensures
        distinct(tabs.remove(i)),
        forall|j: int| 0 <= j < tabs.remove(i).len() ==> (#[trigger] tabs.remove(i)[j]) == (if j < i {
            tabs[j]
        } else {
            tabs[j + 1]
        }),
{
}

#[verifier::spinoff_prover]
proof fn lemma_reordered(tabs: Seq<Tab>, from: int, insert_at: int)
    requires
        distinct(tabs),
        0 <= from < tabs.len(),
        0 <= insert_at,
    ensures
        reordered(tabs, from, insert_at).len() == tabs.len(),
        distinct(reordered(tabs, from, insert_at)),
        reordered(tabs, from, insert_at).to_multiset() == tabs.to_multiset(),
        forall|i: int|
            0 <= i < tabs.len() ==> has_tab(
                reordered(tabs, from, insert_at),
                (#[trigger] tabs[i]).id,
            ),
        forall|i: int|
            0 <= i < tabs.len() ==> exists|j: int|
                0 <= j < tabs.len() && (#[trigger] reordered(tabs, from, insert_at)[i]) == tabs[j],
{
    let goal = if insert_at > tabs.len() {
        tabs.len() as int
    } else {
        insert_at
    };
    let after = reordered(tabs, from, insert_at);
    if from == goal || from + 1 == goal {
        assert forall|i: int| 0 <= i < tabs.len() implies has_tab(after, (#[trigger] tabs[i]).id) by {
            assert(stands_at(after, tabs[i].id, i));
        }
    } else {
        let at = landing(from, goal);
        let rest = tabs.remove(from);
        lemma_removed(tabs, from);
        assert(after == rest.insert(at, tabs[from]));
        assert(after.remove(at) =~= rest);
        assert(after[at] == tabs[from]);
        assert(after.to_multiset() =~= tabs.to_multiset()) by {
            broadcast use vstd::seq_lib::group_to_multiset_ensures;

            assert(after.contains(tabs[from]));
            assert(tabs.contains(tabs[from]));
        }
        assert forall|i: int| 0 <= i < tabs.len() implies has_tab(after, (#[trigger] tabs[i]).id) by {
            let in_rest = if i < from {
                i
            } else {
                i - 1
            };
            if i == from {
                assert(stands_at(after, tabs[i].id, at));
            } else if in_rest < at {
                assert(after[in_rest] == rest[in_rest]);
                assert(stands_at(after, tabs[i].id, in_rest));
            } else {
                assert(after[in_rest + 1] == rest[in_rest]);
                assert(stands_at(after, tabs[i].id, in_rest + 1));
            }
        }
        assert forall|i: int| 0 <= i < tabs.len() implies exists|j: int|
            0 <= j < tabs.len() && (#[trigger] after[i]) == tabs[j] by {
            if i == at {
                assert(after[i] == tabs[from]);
            } else {
                let k = if i < at {
                    i
                } else {
                    i - 1
                };
                assert(after[i] == rest[k]);
                let j = if k < from {
                    k
                } else {
                    k + 1
                };
                assert(rest[k] == tabs[j]);
            }
        }
        assert forall|i: int, j: int| 0 <= i < j < after.len() implies after[i].id != after[j].id by {
            let a = if i < at {
                i
            } else {
                i - 1
            };
            let b = if j < at {
                j
            } else {
                j - 1
            };
            if i == at {
                assert(after[j] == rest[b]);
                assert(rest[b] == tabs[if b < from {
                    b
                } else {
                    b + 1
                }]);
            } else if j == at {
                assert(after[i] == rest[a]);
                assert(rest[a] == tabs[if a < from {
                    a
                } else {
                    a + 1
                }]);
            } else {
                assert(after[i] == rest[a]);
                assert(after[j] == rest[b]);
            }
        }
    }
}

/// What to do about an action.
#[derive(Clone, Copy, Debug, PartialEq, Eq, Structural)]
pub enum Plan {
    /// Nothing at all: not even another frame.
    Nothing,
    /// It is done.
    Done,
    /// It is done; the workspace is to be saved.
    Save,
    /// Ask the composer's client.
    Composer,
    /// Ask the client of the tab that is shown.
    Active,
    /// Read the SSH configuration again.
    Reload,
}

/// Whether an action asks for nothing.
pub open spec fn idle_action(action: Action) -> bool {
    match action {
        Action::Idle => true,
        Action::Tab(_, TabAction::Idle) => true,
        _ => false,
    }
}

/// The client that an action for a tab is meant for, if it still is one that is
/// shown: `Some(true)` is the composer's.
pub open spec fn meant_for(w: Workspace, id: u64) -> Option<bool> {
    if w.composer_open && id == w.composer.id {
        Some(true)
    } else if w.active < w.tabs@.len() && w.tabs@[w.active as int].id == id {
        Some(false)
    } else {
        None
    }
}

/// What the user is told where there is no room for another tab.
pub open spec fn full_text() -> Seq<char> {
    "at most 16 connection tabs may be open"@
}

impl Workspace {
    /// Moves a tab. The tab that is shown stays shown.
    #[verifier::spinoff_prover]
    pub fn reorder(&mut self, id: u64, insert_at: usize)
        requires
            old(self).wf(),
        ensures
            final(self).wf(),
            *final(self) == (Workspace {
                tabs: final(self).tabs,
                active: final(self).active,
                ..*old(self)
            }),
            !has_tab(old(self).tabs@, id) ==> *final(self) == *old(self),
            forall|from: int|
                #[trigger] stands_at(old(self).tabs@, id, from) ==> final(self).tabs@ == reordered(
                    old(self).tabs@,
                    from,
                    insert_at as int,
                ),
            forall|from: int|
                #[trigger] stands_at(old(self).tabs@, id, from) && insert_at
                    <= old(self).tabs@.len() && insert_at != from && insert_at != from + 1
                    ==> put_before(
                    old(self).tabs@,
                    final(self).tabs@,
                    from,
                    insert_at as int,
                ),
            old(self).tabs@.len() > 0 ==> final(self).active < final(self).tabs@.len()
                && final(self).tabs@[final(self).active as int].id == old(self).tabs@[old(self).active as int].id,
    {
        let from: usize = match self.find(id) {
            Some(from) => from,
            None => return ,
        };
        assert forall|i: int| #[trigger] stands_at(self.tabs@, id, i) implies i == from by {}
        let goal: usize = if insert_at > self.tabs.len() {
            self.tabs.len()
        } else {
            insert_at
        };
        proof {
            lemma_reordered(self.tabs@, from as int, insert_at as int);
        }
        if from == goal || from + 1 == goal {
            return ;
        }
        let shown: u64 = self.tabs[self.active].id;
        let ghost before = self.tabs@;
        let tab = self.tabs.remove(from);
        let at: usize = if goal > from {
            goal - 1
        } else {
            goal
        };
        self.tabs.insert(at, tab);
        proof {
            assert(self.tabs@ == reordered(before, from as int, insert_at as int));
            assert(insert_at <= before.len() ==> put_before(
                before,
                self.tabs@,
                from as int,
                insert_at as int,
            )) by {
                if insert_at <= before.len() {
                    a_moved_tab_stands_before_the_one_it_was_put_before(
                        before,
                        from as int,
                        insert_at as int,
                    );
                }
            }
            assert(has_tab(self.tabs@, before[old(self).active as int].id));
            assert forall|i: int| 0 <= i < self.tabs@.len() implies (#[trigger] self.tabs@[i]).id
                < self.next && self.tabs@[i].id != self.composer.id by {
                let j = choose|j: int| 0 <= j < before.len() && self.tabs@[i] == before[j];
                assert(before[j].id < self.next);
            }
        }
        match self.find(shown) {
            Some(i) => {
                self.active = i;
            },
            None => {},
        }
    }

    fn remove_tab(&mut self, i: usize)
        requires
            old(self).wf(),
            i < old(self).tabs@.len(),
        ensures
            final(self).wf(),
            closed(*old(self), *final(self), i as int),
    {
        proof {
            lemma_removed(self.tabs@, i as int);
        }
        let ghost before = self.tabs@;
        let _ = self.tabs.remove(i);
        self.renaming = None;
        if i < self.active {
            self.active = self.active - 1;
        }
        if self.tabs.len() == 0 {
            self.active = 0;
            self.composer_open = true;
        } else if self.active >= self.tabs.len() {
            self.active = self.tabs.len() - 1;
        }
    }

    /// What the shortcut for closing asks for: it closes the tab that is shown,
    /// and leaves the form without closing what is behind it.
    pub fn close_shortcut_action(&self) -> (r: Action)
        ensures
            r == close_asks(*self),
    {
        if self.active >= self.tabs.len() {
            return Action::Idle;
        }
        let id: u64 = self.tabs[self.active].id;
        if self.composer_open {
            Action::Select(id)
        } else {
            Action::Close(id)
        }
    }

    /// Shows the form.
    pub fn open_composer(&mut self)
        ensures
            *final(self) == (Workspace { composer_open: true, renaming: None, ..*old(self) }),
    {
        self.renaming = None;
        self.composer_open = true;
    }

    fn plan_tab(&mut self, id: u64, action: TabAction, current_session: &str, now: u64) -> (r: Plan)
        requires
            old(self).wf(),
            old(self).next < u64::MAX,
            !(action is Idle),
        ensures
            final(self).wf(),
            planned_tab(*old(self), id, action, current_session@, now, *final(self), r),
    {
        if self.composer_open && id == self.composer.id {
            if let TabAction::Connect = &action {
                if !self.promote_composer(now) {
                    self.notice = Some("at most 16 connection tabs may be open".to_owned());
                    return Plan::Done;
                }
                return Plan::Active;
            }
        }
        let composer: bool = self.composer_open && id == self.composer.id;
        if !composer && (self.active >= self.tabs.len() || self.tabs[self.active].id != id) {
            return Plan::Done;
        }
        match &action {
            TabAction::ReloadConfig => return Plan::Reload,
            TabAction::RenameSession(name) => {
                if text::same(name.as_str(), current_session) {
                    return Plan::Done;
                }
                match SessionName::new(name.as_str()) {
                    Ok(_) => {},
                    Err(_) => {
                        self.notice = Some("invalid session name".to_owned());
                        return Plan::Done;
                    },
                }
            },
            _ => {},
        }
        if composer {
            Plan::Composer
        } else {
            Plan::Active
        }
    }

    /// Applies an action as far as the tabs go, and says what is left to do. An
    /// action for a tab that is no longer shown does nothing.
    pub fn plan(&mut self, action: Action, current_session: &str, now: u64) -> (r: Plan)
        requires
            old(self).wf(),
            old(self).next < u64::MAX,
        ensures
            final(self).wf(),
            planned(*old(self), action, current_session@, now, *final(self), r),
    {
        match action {
            Action::Idle => Plan::Nothing,
            Action::New => {
                self.open_composer();
                self.local_dirty = true;
                Plan::Done
            },
            Action::Select(id) => {
                self.local_dirty = true;
                match self.find(id) {
                    Some(i) => {
                        self.renaming = None;
                        self.composer_open = false;
                        self.active = i;
                        Plan::Save
                    },
                    None => Plan::Done,
                }
            },
            Action::Reorder { id, insert_at } => {
                self.local_dirty = true;
                self.reorder(id, insert_at);
                Plan::Save
            },
            Action::Close(id) => {
                self.local_dirty = true;
                match self.find(id) {
                    Some(i) => {
                        self.remove_tab(i);
                        Plan::Save
                    },
                    None => Plan::Done,
                }
            },
            Action::Tab(id, action) => match action {
                TabAction::Idle => Plan::Nothing,
                action => {
                    self.local_dirty = true;
                    self.plan_tab(id, action, current_session, now)
                },
            },
        }
    }
}

/// What an action for a tab comes to. Connecting from the form makes it a tab
/// first, which there may be no room for.
pub open spec fn planned_tab(
    before: Workspace,
    id: u64,
    action: TabAction,
    current_session: Seq<char>,
    now: u64,
    after: Workspace,
    plan: Plan,
) -> bool {
    if before.composer_open && id == before.composer.id && action is Connect {
        if before.tabs@.len() >= MAX_TABS {
            &&& plan == Plan::Done
            &&& after.notice is Some && after.notice->0@ == full_text()
            &&& after == (Workspace { notice: after.notice, ..before })
        } else {
            &&& plan == Plan::Active
            &&& after.tabs@ == before.tabs@.push(before.composer)
            &&& idle_tab(after.composer, before.next, now)
            &&& after == (Workspace {
                tabs: after.tabs,
                composer: after.composer,
                next: (before.next + 1) as u64,
                composer_open: false,
                active: before.tabs@.len() as usize,
                ..before
            })
        }
    } else {
        match meant_for(before, id) {
            None => plan == Plan::Done && after == before,
            Some(composer) => match action {
                TabAction::ReloadConfig => plan == Plan::Reload && after == before,
                TabAction::RenameSession(name) => if name@ == current_session {
                    plan == Plan::Done && after == before
                } else if !nameable(name@) {
                    &&& plan == Plan::Done
                    &&& after.notice is Some && after.notice->0@ == "invalid session name"@
                    &&& after == (Workspace { notice: after.notice, ..before })
                } else {
                    after == before && plan == (if composer {
                        Plan::Composer
                    } else {
                        Plan::Active
                    })
                },
                _ => after == before && plan == (if composer {
                    Plan::Composer
                } else {
                    Plan::Active
                }),
            },
        }
    }
}

/// What an action comes to. Whatever it asks for is followed by a frame, unless
/// it asks for nothing.
pub open spec fn planned(
    before: Workspace,
    action: Action,
    current_session: Seq<char>,
    now: u64,
    after: Workspace,
    plan: Plan,
) -> bool {
    let dirty = Workspace { local_dirty: true, ..before };
    if idle_action(action) {
        plan == Plan::Nothing && after == before
    } else {
        match action {
            Action::New => plan == Plan::Done && after == (Workspace {
                composer_open: true,
                renaming: None,
                ..dirty
            }),
            Action::Select(id) => if has_tab(before.tabs@, id) {
                &&& plan == Plan::Save
                &&& stands_at(before.tabs@, id, after.active as int)
                &&& after == (Workspace {
                    renaming: None,
                    composer_open: false,
                    active: after.active,
                    ..dirty
                })
            } else {
                plan == Plan::Done && after == dirty
            },
            Action::Reorder { id, insert_at } => {
                &&& plan == Plan::Save
                &&& after == (Workspace { tabs: after.tabs, active: after.active, ..dirty })
                &&& !has_tab(before.tabs@, id) ==> after == dirty
                &&& forall|from: int|
                    #[trigger] stands_at(before.tabs@, id, from) ==> after.tabs@ == reordered(
                        before.tabs@,
                        from,
                        insert_at as int,
                    )
                &&& before.tabs@.len() > 0 ==> after.active < after.tabs@.len()
                    && after.tabs@[after.active as int].id == before.tabs@[before.active as int].id
            },
            Action::Close(id) => if has_tab(before.tabs@, id) {
                plan == Plan::Save && exists|i: int|
                    #[trigger] stands_at(before.tabs@, id, i) && closed(dirty, after, i)
            } else {
                plan == Plan::Done && after == dirty
            },
            Action::Tab(id, tab_action) => planned_tab(
                dirty,
                id,
                tab_action,
                current_session,
                now,
                after,
                plan,
            ),
            Action::Idle => false,
        }
    }
}

/// What asking a client came to.
pub enum Performed {
    /// A connection was started; where the tab points now.
    Connected(store::Tab),
    /// The session got another name; where the tab points now.
    Renamed(store::Tab),
    /// The connection was ended; where the tab's form points.
    Disconnected(store::Tab),
    /// Input was handed over: whether a pane was selected with it, and whether it
    /// was accepted.
    Sent { selected_pane: bool, accepted: bool },
    /// Anything else, whatever came of it.
    Other,
}

/// What is left to do after that.
#[derive(Clone, Copy, Debug, PartialEq, Eq, Structural)]
pub enum Settled {
    Done,
    /// Save the workspace.
    Save,
    /// The tab that was shown is gone; drop its client and save the workspace.
    Closed,
}

/// A tab under another name.
pub open spec fn relabeled(tab: Tab, after: Tab, label: Seq<char>) -> bool {
    after.label@ == label && after == (Tab { label: after.label, ..tab })
}

/// The workspace with one tab under another name: the composer's or the active.
pub open spec fn renamed(
    before: Workspace,
    composer: bool,
    label: Seq<char>,
    after: Workspace,
) -> bool {
    if composer {
        relabeled(before.composer, after.composer, label) && after == (Workspace {
            composer: after.composer,
            ..before
        })
    } else {
        let i = before.active as int;
        &&& after.tabs@.len() == before.tabs@.len()
        &&& relabeled(before.tabs@[i], after.tabs@[i], label)
        &&& forall|j: int| 0 <= j < before.tabs@.len() && j != i ==> after.tabs@[j] == before.tabs@[j]
        &&& after == (Workspace { tabs: after.tabs, ..before })
    }
}

/// What the answer of a client comes to.
pub open spec fn settles(
    before: Workspace,
    composer: bool,
    performed: Performed,
    now: u64,
    r: Settled,
    after: Workspace,
) -> bool {
    match performed {
        Performed::Connected(saved) | Performed::Renamed(saved) => r == Settled::Save && renamed(
            before,
            composer,
            store::label_text(saved),
            after,
        ),
        Performed::Disconnected(saved) => if store::label_text(saved)
            == store::new_connection() && !composer {
            r == Settled::Closed && closed(
                before,
                after,
                before.active as int,
            )
        } else {
            r == Settled::Done && renamed(
                before,
                composer,
                store::label_text(saved),
                after,
            )
        },
        Performed::Sent { selected_pane, accepted } => r == (if selected_pane {
            Settled::Save
        } else {
            Settled::Done
        }) && after == (Workspace {
            echo_until: if accepted {
                Some((now + ECHO_NANOS) as u64)
            } else {
                before.echo_until
            },
            ..before
        }),
        Performed::Other => r == Settled::Done && after == before,
    }
}

/// What looking at every client comes to.
pub open spec fn looks(
    before: Workspace,
    glances: Seq<Glance>,
    composer_revision: u64,
    now: u64,
    r: bool,
    after: Workspace,
) -> bool {
    &&& r == (before.local_dirty || (exists|i: int|
        0 <= i < glances.len() && shows_change(
            before.tabs@[i],
            #[trigger] glances[i],
            !before.composer_open && i == before.active,
            before.idle,
            now,
        )) || (before.composer_open && composer_revision
        != before.composer.last_revision))
    &&& after.tabs@ == Seq::new(
        before.tabs@.len(),
        |i: int|
            looked_at(
                before.tabs@[i],
                glances[i],
                !before.composer_open && i == before.active,
                now,
            ),
    )
    &&& after == (Workspace {
        tabs: after.tabs,
        composer: if before.composer_open {
            before.composer
        } else {
            Tab { last_revision: composer_revision, ..before.composer }
        },
        ..before
    })
}

/// What painting a client comes to.
pub open spec fn acknowledges(before: Workspace, revision: u64, after: Workspace) -> bool {
    if before.composer_open || before.tabs@.len() == 0 {
        after == (Workspace {
            composer: Tab { last_revision: revision, ..before.composer },
            ..before
        })
    } else {
        let i = before.active as int;
        &&& after.tabs@ == before.tabs@.update(
            i,
            Tab { last_revision: revision, ..before.tabs@[i] },
        )
        &&& after == (Workspace { tabs: after.tabs, ..before })
    }
}

impl Workspace {
    fn relabel(&mut self, composer: bool, label: String)
        requires
            old(self).wf(),
            !composer ==> old(self).active < old(self).tabs@.len(),
        ensures
            final(self).wf(),
            renamed(*old(self), composer, label@, *final(self)),
    {
        if composer {
            self.composer.label = label;
        } else {
            let i: usize = self.active;
            self.tabs[i].label = label;
        }
    }

    /// Takes what asking a client came to: `composer` says whose client it was. A
    /// tab that was disconnected and whose form points nowhere is closed.
    pub fn settle(&mut self, composer: bool, performed: Performed, now: u64) -> (r: Settled)
        requires
            old(self).wf(),
            !composer ==> old(self).active < old(self).tabs@.len(),
            now <= u64::MAX - ECHO_NANOS,
        ensures
            final(self).wf(),
            settles(*old(self), composer, performed, now, r, *final(self)),
    {
        match performed {
            Performed::Connected(saved) | Performed::Renamed(saved) => {
                self.relabel(composer, store::label(&saved));
                Settled::Save
            },
            Performed::Disconnected(saved) => {
                let label = store::label(&saved);
                if !composer && text::same(label.as_str(), "New connection") {
                    let i: usize = self.active;
                    self.remove_tab(i);
                    return Settled::Closed;
                }
                self.relabel(composer, label);
                Settled::Done
            },
            Performed::Sent { selected_pane, accepted } => {
                if accepted {
                    self.echo_until = Some(now + ECHO_NANOS);
                }
                if selected_pane {
                    Settled::Save
                } else {
                    Settled::Done
                }
            },
            Performed::Other => Settled::Done,
        }
    }

    /// Looks at every client. Returns whether anything that is shown changed;
    /// what is shown stays to be painted, so that a later look finds it again.
    pub fn remote_changed(&mut self, glances: &Vec<Glance>, composer_revision: u64, now: u64) -> (r:
        bool)
        requires
            old(self).wf(),
            glances@.len() == old(self).tabs@.len(),
        ensures
            final(self).wf(),
            looks(*old(self), glances@, composer_revision, now, r, *final(self)),
    {
        let mut repaint: bool = self.local_dirty;
        let ghost before = *self;
        let count: usize = self.tabs.len();
        for i in 0..count
            invariant
                before == *old(self),
                before.wf(),
                count == before.tabs@.len(),
                glances@.len() == count,
                self.tabs@.len() == count,
                *self == (Workspace { tabs: self.tabs, ..before }),
                forall|j: int|
                    0 <= j < i ==> #[trigger] self.tabs@[j] == looked_at(
                        before.tabs@[j],
                        glances@[j],
                        !before.composer_open && j == before.active,
                        now,
                    ),
                forall|j: int| i <= j < count ==> #[trigger] self.tabs@[j] == before.tabs@[j],
                repaint == (before.local_dirty || exists|j: int|
                    0 <= j < i && shows_change(
                        before.tabs@[j],
                        #[trigger] glances@[j],
                        !before.composer_open && j == before.active,
                        before.idle,
                        now,
                    )),
        {
            let glance: Glance = glances[i];
            let visible: bool = !self.composer_open && i == self.active;
            let ghost tab = self.tabs@[i as int];
            assert(tab == before.tabs@[i as int]);
            if glance.revision != self.tabs[i].last_revision {
                let phase_changed: bool = glance.phase != self.tabs[i].last_phase;
                let display_changed: bool = glance.seq != self.tabs[i].last_seq;
                let was_quiet: bool = quiet(
                    self.idle,
                    self.tabs[i].last_phase,
                    self.tabs[i].last_output,
                    now,
                );
                if visible || phase_changed || (display_changed && was_quiet) {
                    repaint = true;
                    assert(shows_change(
                        before.tabs@[i as int],
                        glances@[i as int],
                        visible,
                        before.idle,
                        now,
                    ));
                }
                if !visible {
                    self.tabs[i].last_revision = glance.revision;
                    if phase_changed || display_changed {
                        self.tabs[i].last_phase = glance.phase;
                        self.tabs[i].last_seq = glance.seq;
                        self.tabs[i].last_output = now;
                    }
                }
            }
            assert(self.tabs@[i as int] == looked_at(tab, glance, visible, now));
        }
        if composer_revision != self.composer.last_revision {
            if self.composer_open {
                repaint = true;
            } else {
                self.composer.last_revision = composer_revision;
            }
        }
        assert(self.tabs@ =~= Seq::new(
            before.tabs@.len(),
            |i: int|
                looked_at(
                    before.tabs@[i],
                    glances@[i],
                    !before.composer_open && i == before.active,
                    now,
                ),
        ));
        repaint
    }

    /// Looks at every client for painting its tab.
    pub fn observe(&mut self, glances: &Vec<Glance>, now: u64)
        requires
            old(self).wf(),
            glances@.len() == old(self).tabs@.len(),
        ensures
            final(self).wf(),
            final(self).tabs@ == Seq::new(
                old(self).tabs@.len(),
                |i: int| observed(old(self).tabs@[i], glances@[i], now),
            ),
            *final(self) == (Workspace { tabs: final(self).tabs, ..*old(self) }),
    {
        let ghost before = *self;
        let count: usize = self.tabs.len();
        for i in 0..count
            invariant
                before == *old(self),
                before.wf(),
                count == before.tabs@.len(),
                glances@.len() == count,
                self.tabs@.len() == count,
                *self == (Workspace { tabs: self.tabs, ..before }),
                forall|j: int|
                    0 <= j < i ==> #[trigger] self.tabs@[j] == observed(
                        before.tabs@[j],
                        glances@[j],
                        now,
                    ),
                forall|j: int| i <= j < count ==> #[trigger] self.tabs@[j] == before.tabs@[j],
        {
            let glance: Glance = glances[i];
            if glance.seq != self.tabs[i].last_seq || glance.phase != self.tabs[i].last_phase {
                self.tabs[i].last_seq = glance.seq;
                self.tabs[i].last_phase = glance.phase;
                self.tabs[i].last_output = now;
            }
            assert(self.tabs@[i as int] == observed(before.tabs@[i as int], glance, now));
        }
        assert(self.tabs@ =~= Seq::new(
            before.tabs@.len(),
            |i: int| observed(before.tabs@[i], glances@[i], now),
        ));
    }

    /// What is shown was painted at this revision of its client: the form's, or
    /// the active tab's.
    pub fn ack_painted(&mut self, revision: u64)
        requires
            old(self).wf(),
        ensures
            final(self).wf(),
            acknowledges(*old(self), revision, *final(self)),
    {
        if self.composer_open || self.tabs.len() == 0 {
            self.composer.last_revision = revision;
        } else {
            let i: usize = self.active;
            self.tabs[i].last_revision = revision;
            assert(self.tabs@ =~= old(self).tabs@.update(
                i as int,
                Tab { last_revision: revision, ..old(self).tabs@[i as int] },
            ));
        }
    }

    /// Begins a frame: nothing local is left to be painted after it.
    pub fn begin_frame(&mut self)
        ensures
            *final(self) == (Workspace { local_dirty: false, ..*old(self) }),
    {
        self.local_dirty = false;
    }

    /// The interval between remote frames while nothing is typed.
    pub fn repaint_interval(&self) -> (r: u64)
        requires
            self.wf(),
        ensures
            r == rounded(SECOND as nat, store::clamped_fps(self.fps, self.limits) as nat),
            r <= SECOND,
    {
        let fps: u64 = store::clamp_fps(self.fps, self.limits) as u64;
        let whole: u64 = SECOND / fps;
        let rest: u64 = SECOND % fps;
        assert(whole <= SECOND && rest < fps) by (nonlinear_arith)
            requires
                whole == SECOND / fps,
                rest == SECOND % fps,
                fps >= 1,
                SECOND == 1_000_000_000,
        ;
        assert(fps == 1 ==> rest == 0);
        assert(fps >= 2 ==> whole <= 500_000_000) by (nonlinear_arith)
            requires
                whole == SECOND / fps,
                SECOND == 1_000_000_000,
        ;
        if 2 * rest > fps || (2 * rest == fps && whole % 2 == 1) {
            whole + 1
        } else {
            whole
        }
    }

    /// The interval between remote frames: shorter for a while after input was
    /// sent, so that its echo is not late.
    pub fn paint_interval(&self, now: u64) -> (r: u64)
        requires
            self.wf(),
        ensures
            r == interval_at(*self, now),
    {
        let idle: u64 = self.repaint_interval();
        match self.echo_until {
            Some(until) => if now < until && idle > ECHO_INTERVAL {
                ECHO_INTERVAL
            } else {
                idle
            },
            None => idle,
        }
    }
}

/// The interval between remote frames.
pub open spec fn interval_at(w: Workspace, now: u64) -> nat {
    let idle = rounded(SECOND as nat, store::clamped_fps(w.fps, w.limits) as nat);
    if w.echo_until is Some && now < w.echo_until->0 && idle > ECHO_INTERVAL {
        ECHO_INTERVAL as nat
    } else {
        idle
    }
}

/// Seconds that the program has been open by now, within their bound.
pub open spec fn open_now(w: Workspace, now: u64) -> nat {
    store::at_most(
        w.open_secs as nat + since(now, w.session_started) / SECOND as nat,
        w.limits.open_secs as nat,
    )
}

/// What is saved of a workspace.
pub open spec fn settings_of(w: Workspace, now: u64) -> Settings {
    Settings {
        active: w.active,
        restore_tabs: w.restore_tabs,
        fps: store::clamped_fps(w.fps, w.limits),
        idle: store::at_most(w.idle as nat, w.limits.idle as nat) as u32,
        open_secs: open_now(w, now) as u64,
    }
}

/// A workspace after so many tabs of a saved one were reopened: as many as there
/// is room for, at the end, each under the name of where it points and with
/// nothing having happened in it. The settings are taken over within their
/// bounds.
pub open spec fn reopened(
    before: Workspace,
    saved: store::Workspace,
    now: u64,
    after: Workspace,
    count: nat,
) -> bool {
    let n = before.tabs@.len();
    let s = saved.settings;
    &&& count == (if s.restore_tabs {
        store::at_most(saved.tabs@.len(), (MAX_TABS - n) as nat)
    } else {
        0
    })
    &&& after.tabs@.len() == n + count
    &&& forall|i: int| 0 <= i < n ==> after.tabs@[i] == before.tabs@[i]
    &&& forall|i: int|
        0 <= i < count ==> {
            let tab = #[trigger] after.tabs@[n + i];
            &&& tab.id == before.next + i
            &&& tab.label@ == store::label_text(saved.tabs@[i])
            &&& tab.last_phase == Phase::Idle
            &&& tab.last_output == now
            &&& tab.last_seq == 0
            &&& tab.last_revision == 0
        }
    &&& after == (Workspace {
        tabs: after.tabs,
        active: if n + count == 0 {
            0
        } else {
            store::at_most(s.active as nat, (n + count - 1) as nat) as usize
        },
        composer_open: n + count == 0,
        next: (before.next + count) as u64,
        restore_tabs: s.restore_tabs,
        fps: store::clamped_fps(s.fps, before.limits),
        idle: store::at_most(s.idle as nat, before.limits.idle as nat) as u32,
        open_secs: store::at_most(s.open_secs as nat, before.limits.open_secs as nat) as u64,
        ..before
    })
}

/// Tabs that were saved come back: a fresh workspace that reopens what was saved
/// of another has as many tabs under the names of where they point, shows the
/// same one, and saves the same settings again.
pub proof fn saved_tabs_come_back(
    before: Workspace,
    then: u64,
    fresh: Workspace,
    saved: store::Workspace,
    now: u64,
    after: Workspace,
    count: nat,
)
    requires
        before.wf(),
        before.restore_tabs,
        fresh.tabs@.len() == 0,
        fresh.limits == before.limits,
        fresh.session_started == now,
        saved.settings == settings_of(before, then),
        saved.tabs@.len() == before.tabs@.len(),
        reopened(fresh, saved, now, after, count),
    ensures
        after.tabs@.len() == before.tabs@.len(),
        forall|i: int|
            0 <= i < after.tabs@.len() ==> (#[trigger] after.tabs@[i]).label@ == store::label_text(
                saved.tabs@[i],
            ),
        before.tabs@.len() > 0 ==> after.active == before.active && !after.composer_open,
        before.tabs@.len() > 0 ==> settings_of(after, now) == saved.settings,
        before.tabs@.len() == 0 ==> after.composer_open,
{
    assert forall|i: int| 0 <= i < after.tabs@.len() implies (#[trigger] after.tabs@[i]).label@
        == store::label_text(saved.tabs@[i]) by {
        assert(after.tabs@[fresh.tabs@.len() + i] == after.tabs@[i]);
    }
    assert(since(now, now) / SECOND as nat == 0);
}

/// What saving comes to.
pub open spec fn persists(
    before: Workspace,
    now: u64,
    r: Option<(Settings, usize)>,
    after: Workspace,
) -> bool {
    match r {
        Some((settings, tabs)) => {
            &&& before.saving
            &&& settings == settings_of(before, now)
            &&& tabs == store::at_most(
                before.tabs@.len(),
                before.limits.tabs as nat,
            )
            &&& after == (Workspace {
                open_secs: open_now(before, now) as u64,
                session_started: now,
                ..before
            })
        },
        None => !before.saving && after == before,
    }
}

/// What changing settings comes to.
pub open spec fn prefers(
    before: Workspace,
    fps: u32,
    idle: u32,
    restore_tabs: bool,
    r: bool,
    after: Workspace,
) -> bool {
    let fps = store::clamped_fps(fps, before.limits);
    let idle = store::at_most(idle as nat, before.limits.idle as nat) as u32;
    &&& r == (fps != before.fps || idle != before.idle || restore_tabs != before.restore_tabs)
    &&& after == (Workspace { fps, idle, restore_tabs, ..before })
}

/// What ending the workspace comes to.
pub open spec fn shuts_down(
    before: Workspace,
    now: u64,
    r: Option<(Settings, usize)>,
    after: Workspace,
) -> bool {
    &&& after.shut_down
    &&& if before.shut_down {
        r is None && after == before
    } else {
        &&& after.tabs@.len() == 0
        &&& after == (Workspace {
            tabs: after.tabs,
            renaming: None,
            shut_down: true,
            open_secs: if before.saving {
                open_now(before, now) as u64
            } else {
                before.open_secs
            },
            session_started: if before.saving {
                now
            } else {
                before.session_started
            },
            ..before
        })
        &&& r == (if before.saving {
            Some(
                (
                    settings_of(before, now),
                    store::at_most(before.tabs@.len(), before.limits.tabs as nat) as usize,
                ),
            )
        } else {
            None
        })
    }
}

/// What a workspace that could not be saved comes to.
pub open spec fn gives_up_saving(before: Workspace, error: Seq<char>, after: Workspace) -> bool {
    &&& after.notice is Some && after.notice->0@ == "Could not save tabs: "@
        + error
    &&& after == (Workspace {
        notice: after.notice,
        saving: false,
        ..before
    })
}

/// What a saved workspace that could not be read comes to.
pub open spec fn leaves_alone(before: Workspace, clear: bool, r: bool, after: Workspace) -> bool {
    &&& r == clear
    &&& after == (Workspace { saving: before.saving && clear, ..before })
}

impl Workspace {
    /// Seconds that the program has been open by now.
    pub fn open_secs_now(&self, now: u64) -> (r: u64)
        ensures
            r == open_now(*self, now),
    {
        let span: u64 = if now > self.session_started {
            now - self.session_started
        } else {
            0
        };
        let elapsed: u64 = span / SECOND;
        if elapsed > u64::MAX - self.open_secs || self.open_secs + elapsed > self.limits.open_secs {
            self.limits.open_secs
        } else {
            self.open_secs + elapsed
        }
    }

    /// What is to be saved now, and of how many tabs; nothing where saving is
    /// off. The time that the program was open is added up.
    pub fn persist(&mut self, now: u64) -> (r: Option<(Settings, usize)>)
        requires
            old(self).wf(),
        ensures
            final(self).wf(),
            persists(*old(self), now, r, *final(self)),
    {
        if !self.saving {
            return None;
        }
        let open_secs: u64 = self.open_secs_now(now);
        self.open_secs = open_secs;
        self.session_started = now;
        let idle: u32 = if self.idle < self.limits.idle {
            self.idle
        } else {
            self.limits.idle
        };
        let tabs: usize = if self.tabs.len() < self.limits.tabs {
            self.tabs.len()
        } else {
            self.limits.tabs
        };
        Some(
            (
                Settings {
                    active: self.active,
                    restore_tabs: self.restore_tabs,
                    fps: store::clamp_fps(self.fps, self.limits),
                    idle,
                    open_secs,
                },
                tabs,
            ),
        )
    }

    /// The workspace could not be saved: the user is told once, and saving is
    /// off from then on.
    pub fn save_failed(&mut self, error: &str)
        ensures
            gives_up_saving(*old(self), error@, *final(self)),
    {
        let mut notice = "Could not save tabs: ".to_owned();
        text::push_text(&mut notice, error);
        self.notice = Some(notice);
        self.saving = false;
    }

    /// The saved workspace could not be read. Leaving it alone also means never
    /// saving over it. Returns whether to go on.
    pub fn unreadable(&mut self, clear: bool) -> (r: bool)
        ensures
            leaves_alone(*old(self), clear, r, *final(self)),
    {
        if !clear {
            self.saving = false;
        }
        clear
    }

    /// Reopens saved tabs, as many as there is room for, and takes over the saved
    /// settings within their bounds. Returns how many tabs were reopened.
    pub fn restore(&mut self, saved: &store::Workspace, now: u64) -> (r: usize)
        requires
            old(self).wf(),
            old(self).next < u64::MAX - MAX_TABS,
        ensures
            final(self).wf(),
            reopened(*old(self), *saved, now, *final(self), r as nat),
    {
        let ghost n = old(self).tabs@.len();
        let settings: Settings = saved.settings;
        self.restore_tabs = settings.restore_tabs;
        let mut count: usize = 0;
        if settings.restore_tabs {
            while count < saved.tabs.len()
                invariant_except_break
                    count <= saved.tabs@.len(),
                invariant
                    old(self).wf(),
                    old(self).next < u64::MAX - MAX_TABS,
                    n == old(self).tabs@.len(),
                    count <= saved.tabs@.len(),
                    self.wf(),
                    n + count <= MAX_TABS,
                    self.tabs@.len() == n + count,
                    self.next == old(self).next + count,
                    forall|i: int| 0 <= i < n ==> self.tabs@[i] == old(self).tabs@[i],
                    forall|i: int|
                        0 <= i < count ==> {
                            let tab = #[trigger] self.tabs@[n + i];
                            &&& tab.id == old(self).next + i
                            &&& tab.label@ == store::label_text(saved.tabs@[i])
                            &&& tab.last_phase == Phase::Idle
                            &&& tab.last_output == now
                            &&& tab.last_seq == 0
                            &&& tab.last_revision == 0
                        },
                    *self == (Workspace {
                        tabs: self.tabs,
                        active: self.active,
                        composer_open: self.composer_open,
                        next: self.next,
                        restore_tabs: settings.restore_tabs,
                        ..*old(self)
                    }),
                ensures
                    count == store::at_most(saved.tabs@.len(), (MAX_TABS - n) as nat),
                decreases saved.tabs@.len() - count,
            {
                let ghost before = self.tabs@;
                if !self.push_idle_tab(now) {
                    break ;
                }
                let last: usize = self.tabs.len() - 1;
                let ghost grown = self.tabs@;
                self.tabs[last].label = store::label(&saved.tabs[count]);
                proof {
                    assert forall|i: int| 0 <= i < before.len() implies self.tabs@[i]
                        == before[i] by {
                        assert(grown.drop_last()[i] == before[i]);
                    }
                    assert forall|i: int| 0 <= i < count + 1 implies {
                        let tab = #[trigger] self.tabs@[n + i];
                        &&& tab.id == old(self).next + i
                        &&& tab.label@ == store::label_text(saved.tabs@[i])
                        &&& tab.last_phase == Phase::Idle
                        &&& tab.last_output == now
                        &&& tab.last_seq == 0
                        &&& tab.last_revision == 0
                    } by {
                        if i < count {
                            assert(self.tabs@[n + i] == before[n + i]);
                        }
                    }
                }
                count = count + 1;
            }
        }
        let open: usize = self.tabs.len();
        self.active = if open == 0 {
            0
        } else if settings.active < open - 1 {
            settings.active
        } else {
            open - 1
        };
        self.composer_open = open == 0;
        self.fps = store::clamp_fps(settings.fps, self.limits);
        self.idle = if settings.idle < self.limits.idle {
            settings.idle
        } else {
            self.limits.idle
        };
        self.open_secs = if settings.open_secs < self.limits.open_secs {
            settings.open_secs
        } else {
            self.limits.open_secs
        };
        count
    }

    /// Takes over settings that the user may have changed. Returns whether they
    /// did, and the workspace is to be saved.
    pub fn set_preferences(&mut self, fps: u32, idle: u32, restore_tabs: bool) -> (r: bool)
        requires
            old(self).wf(),
        ensures
            final(self).wf(),
            prefers(*old(self), fps, idle, restore_tabs, r, *final(self)),
    {
        let fps: u32 = store::clamp_fps(fps, self.limits);
        let idle: u32 = if idle < self.limits.idle {
            idle
        } else {
            self.limits.idle
        };
        let changed: bool = fps != self.fps || idle != self.idle || restore_tabs
            != self.restore_tabs;
        self.fps = fps;
        self.idle = idle;
        self.restore_tabs = restore_tabs;
        changed
    }

    /// Ends the workspace. Only the first call does anything: it says what is to
    /// be saved, and then lets every tab go.
    pub fn shutdown(&mut self, now: u64) -> (r: Option<(Settings, usize)>)
        requires
            old(self).wf(),
        ensures
            final(self).wf(),
            shuts_down(*old(self), now, r, *final(self)),
    {
        if self.shut_down {
            return None;
        }
        self.shut_down = true;
        self.renaming = None;
        let saved = self.persist(now);
        self.tabs.clear();
        saved
    }
}

/// What the shortcut for closing asks for.
pub open spec fn close_asks(w: Workspace) -> Action {
    if w.active >= w.tabs@.len() {
        Action::Idle
    } else if w.composer_open {
        Action::Select(w.tabs@[w.active as int].id)
    } else {
        Action::Close(w.tabs@[w.active as int].id)
    }
}

/// What a frame asks for by its tabs.
pub open spec fn strip_asks(w: Workspace, strip: Strip) -> Action {
    match strip.dropped {
        Some((id, insert_at)) => Action::Reorder { id, insert_at },
        None => if strip.added {
            Action::New
        } else {
            match strip.clicked {
                Some(id) => Action::Select(id),
                None => if strip.close_shortcut {
                    close_asks(w)
                } else if strip.new_shortcut {
                    Action::New
                } else {
                    Action::Idle
                },
            }
        },
    }
}

/// What the user did with the tabs in one frame.
#[derive(Clone, Copy, Debug)]
pub struct Strip {
    pub new_shortcut: bool,
    pub close_shortcut: bool,
    /// The last tab that was clicked.
    pub clicked: Option<u64>,
    /// The "+" was clicked.
    pub added: bool,
    /// A tab was dropped: its number and where.
    pub dropped: Option<(u64, usize)>,
}

/// What asking to rename a session comes to.
pub open spec fn begins_rename(
    before: Workspace,
    id: u64,
    phase: Phase,
    current: Seq<char>,
    r: bool,
    after: Workspace,
) -> bool {
    &&& r == (phase == Phase::Watching)
    &&& r ==> after.renaming is Some && after.renaming->0.id == id && after.renaming->0.draft@ == current && after == (Workspace {
        renaming: after.renaming,
        ..before
    })
    &&& !r ==> after.notice is Some && after.notice->0@ == (if phase
        == Phase::Demo {
        "The demo has no remote session to rename."@
    } else {
        "Connect before renaming the session."@
    }) && after == (Workspace { notice: after.notice, ..before })
}

/// What a key comes to while a session is renamed.
pub open spec fn renames_on(
    before: Workspace,
    escape: bool,
    enter: bool,
    lost_focus: bool,
    r: Option<(u64, String)>,
    after: Workspace,
) -> bool {
    &&& match r {
        Some((id, name)) => !escape && enter && before.renaming is Some && id == before.renaming->0.id && name@ == text::trimmed(before.renaming->0.draft@),
        None => escape || !enter || before.renaming is None,
    }
    &&& after == (Workspace {
        renaming: if escape || enter || lost_focus {
            None
        } else {
            before.renaming
        },
        ..before
    })
}

/// The terminal that is shown has the keyboard.
pub open spec fn focuses(before: Workspace, pane_focused: bool, r: bool) -> bool {
    r == (!before.composer_open && before.active < before.tabs@.len() && pane_focused)
}

impl Workspace {
    /// What a frame asks for by its tabs: what comes later on the strip wins, and
    /// dropping a tab wins over everything.
    pub fn navigation(&self, strip: Strip) -> (r: Action)
        ensures
            r == strip_asks(*self, strip),
    {
        match strip.dropped {
            Some((id, insert_at)) => return Action::Reorder { id, insert_at },
            None => {},
        }
        if strip.added {
            return Action::New;
        }
        match strip.clicked {
            Some(id) => return Action::Select(id),
            None => {},
        }
        if strip.close_shortcut {
            return self.close_shortcut_action();
        }
        if strip.new_shortcut {
            return Action::New;
        }
        Action::Idle
    }

    /// Whether a double click on a tab starts renaming its session, which only a
    /// connected one does; otherwise the user is told why not.
    pub fn begin_rename(&mut self, id: u64, phase: Phase, current: &str) -> (r: bool)
        ensures
            begins_rename(*old(self), id, phase, current@, r, *final(self)),
    {
        match phase {
            Phase::Watching => {
                self.renaming = Some(Rename { id, draft: current.to_owned() });
                true
            },
            Phase::Demo => {
                self.notice = Some("The demo has no remote session to rename.".to_owned());
                false
            },
            _ => {
                self.notice = Some("Connect before renaming the session.".to_owned());
                false
            },
        }
    }

    /// Goes on with renaming: escape gives it up, enter asks for the trimmed
    /// name, and so does losing the keyboard give it up.
    pub fn rename_step(&mut self, escape: bool, enter: bool, lost_focus: bool) -> (r: Option<
        (u64, String),
    >)
        ensures
            renames_on(*old(self), escape, enter, lost_focus, r, *final(self)),
    {
        if escape {
            self.renaming = None;
            return None;
        }
        if enter {
            match self.renaming.take() {
                Some(rename) => {
                    let v = text::chars_of(rename.draft.as_str());
                    let trimmed = text::trim(v.as_slice());
                    return Some((rename.id, text::string_of(trimmed.as_slice())));
                },
                None => return None,
            }
        }
        if lost_focus {
            self.renaming = None;
        }
        None
    }

    /// Whether the terminal that is shown has the keyboard, from whether its pane
    /// has.
    pub fn terminal_focused(&self, pane_focused: bool) -> (r: bool)
        ensures
            focuses(*self, pane_focused, r),
    {
        !self.composer_open && self.active < self.tabs.len() && pane_focused
    }
}

/// What becomes of a frame once its tabs are known.
pub enum Frame {
    /// It is used up by this action: no terminal is painted, so that nothing typed
    /// for one tab can reach another.
    Used(Action),
    /// The client of this tab is painted; what the tabs ask for comes after that.
    Paint { id: u64, navigation: Action },
}

/// The client that is painted: the form's where it is open or there is no tab.
pub open spec fn shown_id(w: Workspace) -> u64 {
    if w.composer_open || w.tabs@.len() == 0 {
        w.composer.id
    } else {
        w.tabs@[w.active as int].id
    }
}

/// Switching between tabs, opening and closing one use up their frame.
pub open spec fn switches(action: Action) -> bool {
    action is New || action is Select || action is Close
}

/// What a frame comes to.
pub open spec fn frames(
    before: Workspace,
    renamed: Option<(u64, String)>,
    navigation: Action,
    r: Frame,
    after: Workspace,
) -> bool {
    match renamed {
        Some((id, name)) => after == before && r == Frame::Used(
            Action::Tab(id, TabAction::RenameSession(name)),
        ),
        None => if switches(navigation) {
            after == before && r == Frame::Used(navigation)
        } else {
            &&& after == (Workspace {
                composer_open: before.composer_open || before.tabs@.len() == 0,
                ..before
            })
            &&& r == (Frame::Paint { id: shown_id(before), navigation })
        },
    }
}

impl Workspace {
    /// Decides about a frame. A finished rename wins over whatever the tabs ask for;
    /// switching tabs uses the frame up; moving one does not, so that the pane that
    /// has the keyboard stays painted.
    pub fn frame(&mut self, renamed: Option<(u64, String)>, navigation: Action) -> (r: Frame)
        requires
            old(self).wf(),
        ensures
            final(self).wf(),
            frames(*old(self), renamed, navigation, r, *final(self)),
    {
        if let Some((id, name)) = renamed {
            return Frame::Used(Action::Tab(id, TabAction::RenameSession(name)));
        }
        match navigation {
            Action::New | Action::Select(_) | Action::Close(_) => Frame::Used(navigation),
            navigation => {
                if self.composer_open || self.tabs.len() == 0 {
                    self.composer_open = true;
                    Frame::Paint { id: self.composer.id, navigation }
                } else {
                    Frame::Paint { id: self.tabs[self.active].id, navigation }
                }
            },
        }
    }
}

/// What is asked for once a frame was painted.
pub open spec fn asks_after(id: u64, navigation: Action, asked: TabAction, r: Action) -> bool {
    r == (if navigation is Idle {
        Action::Tab(id, asked)
    } else {
        navigation
    })
}

/// What a frame asks for after it was painted: what its tabs ask for, or else what
/// the client that was painted does.
pub fn after_paint(id: u64, navigation: Action, asked: TabAction) -> (r: Action)
    ensures
        asks_after(id, navigation, asked, r),
{
    match navigation {
        Action::Idle => Action::Tab(id, asked),
        navigation => navigation,
    }
}

/// Where a dragged tab would land when it is held over another one.
pub open spec fn drop_place(dragged: u64, over: u64, index: usize, left_half: bool) -> Option<usize> {
    if dragged == over {
        None
    } else if left_half {
        Some(index)
    } else {
        Some((index + 1) as usize)
    }
}

/// Where a dragged tab would land when it is held over another one: before it
/// over its left half, behind it over its right half, nowhere over itself.
pub fn drop_insert_at(dragged: u64, over: u64, index: usize, left_half: bool) -> (r: Option<usize>)
    requires
        index < usize::MAX,
    ensures
        r == drop_place(dragged, over, index, left_half),
{
    if dragged == over {
        None
    } else if left_half {
        Some(index)
    } else {
        Some(index + 1)
    }
}

/// Reordering loses no tab and makes none, keeps their numbers apart, and keeps
/// the tab that is shown.
pub proof fn reordering_moves_and_nothing_else(tabs: Seq<Tab>, from: int, insert_at: int)
    requires
        distinct(tabs),
        0 <= from < tabs.len(),
        0 <= insert_at,
    ensures
        reordered(tabs, from, insert_at).to_multiset() == tabs.to_multiset(),
        distinct(reordered(tabs, from, insert_at)),
        forall|i: int|
            0 <= i < tabs.len() ==> has_tab(
                reordered(tabs, from, insert_at),
                (#[trigger] tabs[i]).id,
            ),
{
    lemma_reordered(tabs, from, insert_at);
}

/// A tab that is dropped where it already stands, before itself or behind
/// itself, stays there.
pub proof fn dropping_a_tab_in_place_changes_nothing(tabs: Seq<Tab>, from: int)
    requires
        0 <= from < tabs.len(),
    ensures
        reordered(tabs, from, from) == tabs,
        reordered(tabs, from, from + 1) == tabs,
{
}

/// Closing one tab leaves every other one as it is.
pub proof fn closing_a_tab_leaves_the_others(before: Workspace, after: Workspace, i: int)
    requires
        before.wf(),
        0 <= i < before.tabs@.len(),
        closed(before, after, i),
    ensures
        after.tabs@.len() == before.tabs@.len() - 1,
        forall|j: int|
            0 <= j < after.tabs@.len() ==> (#[trigger] after.tabs@[j]) == before.tabs@[if j < i {
                j
            } else {
                j + 1
            }],
        i != before.active ==> after.tabs@[after.active as int].id
            == before.tabs@[before.active as int].id,
{
}

/// An action for a tab that is not shown changes nothing but that a frame
/// follows.
pub proof fn a_stale_tab_action_does_nothing(
    before: Workspace,
    id: u64,
    action: TabAction,
    current_session: Seq<char>,
    now: u64,
    after: Workspace,
    plan: Plan,
)
    requires
        !(action is Idle),
        meant_for(before, id) is None,
        planned(before, Action::Tab(id, action), current_session, now, after, plan),
    ensures
        plan == Plan::Done,
        after == (Workspace { local_dirty: true, ..before }),
{
}

/// What a hidden terminal puts out never repaints the one that is shown, unless
/// its tab was quiet and now is not.
pub proof fn hidden_output_does_not_repaint(tab: Tab, glance: Glance, idle: u32, now: u64)
    requires
        glance.phase == tab.last_phase,
        !is_quiet(idle, tab.last_phase, tab.last_output, now),
    ensures
        !shows_change(tab, glance, false, idle, now),
{
}

/// What is shown stays to be painted until it is, while what is hidden is taken
/// note of once.
pub proof fn a_visible_change_stays_pending(tab: Tab, glance: Glance, idle: u32, now: u64)
    requires
        glance.revision != tab.last_revision,
    ensures
        shows_change(looked_at(tab, glance, true, now), glance, true, idle, now),
        !shows_change(looked_at(tab, glance, false, now), glance, false, idle, now),
        !shows_change(Tab { last_revision: glance.revision, ..tab }, glance, true, idle, now),
{
}

/// A tab that is moved stands right before the tab that it was put before, or last,
/// and the others keep their order among themselves.
pub proof fn a_moved_tab_stands_before_the_one_it_was_put_before(
    tabs: Seq<Tab>,
    from: int,
    insert_at: int,
)
    requires
        0 <= from < tabs.len(),
        0 <= insert_at <= tabs.len(),
        insert_at != from,
        insert_at != from + 1,
    ensures
        put_before(tabs, reordered(tabs, from, insert_at), from, insert_at),
{
    reveal(put_before);
    let after = reordered(tabs, from, insert_at);
    let at = landing(from, insert_at);
    assert(after[at] == tabs[from]);
    assert(after.remove(at) =~= tabs.remove(from));
}

/// A tab that is put beyond the last one stands last.
pub proof fn a_tab_put_beyond_the_last_is_last(tabs: Seq<Tab>, from: int, insert_at: int)
    requires
        0 <= from < tabs.len(),
        insert_at >= tabs.len(),
    ensures
        reordered(tabs, from, insert_at).len() == tabs.len(),
        reordered(tabs, from, insert_at).last() == tabs[from],
{
}

/// A tab dropped on the left half of another stands right before it, and one dropped
/// on the right half stands right behind it.
pub proof fn a_dropped_tab_stands_beside_the_one_it_was_dropped_on(
    tabs: Seq<Tab>,
    from: int,
    over: int,
    left_half: bool,
)
    requires
        distinct(tabs),
        tabs.len() <= 16,
        0 <= from < tabs.len(),
        0 <= over < tabs.len(),
    ensures
        from == over ==> drop_place(tabs[from].id, tabs[over].id, over as usize, left_half) is None,
        from != over ==> ({
            let place = drop_place(tabs[from].id, tabs[over].id, over as usize, left_half);
            let after = reordered(tabs, from, place->0 as int);
            &&& place is Some
            &&& left_half ==> exists|at: int|
                0 <= at && at + 1 < after.len() && #[trigger] after[at] == tabs[from] && after[at
                    + 1] == tabs[over]
            &&& !left_half ==> exists|at: int|
                0 < at < after.len() && #[trigger] after[at] == tabs[from] && after[at - 1]
                    == tabs[over]
        }),
{
    if from != over {
        let insert_at = if left_half {
            over
        } else {
            over + 1
        };
        assert(tabs[from].id != tabs[over].id) by {
            if from < over {
                assert(tabs[from].id != tabs[over].id);
            } else {
                assert(tabs[over].id != tabs[from].id);
            }
        }
        let after = reordered(tabs, from, insert_at);
        let at = if from == insert_at || from + 1 == insert_at {
            from
        } else {
            landing(from, insert_at)
        };
        assert(after[at] == tabs[from]);
        let place = drop_place(tabs[from].id, tabs[over].id, over as usize, left_half);
        assert(place == Some(insert_at as usize));
        assert(reordered(tabs, from, place->0 as int) == after);
        if left_half {
            assert(at + 1 < after.len());
            assert(after[at + 1] == tabs[over]);
        } else {
            assert(0 < at);
            assert(after[at - 1] == tabs[over]);
        }
    }
}

/// The tab that stays shown: closing the one that is shown shows the one behind it,
/// or the last where there is none behind it; closing the last shows the form.
pub proof fn closing_the_shown_tab_shows_the_next(before: Workspace, after: Workspace, i: int)
    requires
        before.wf(),
        0 <= i < before.tabs@.len(),
        closed(before, after, i),
    ensures
        i == before.active && i + 1 < before.tabs@.len() ==> after.tabs@[after.active as int]
            == before.tabs@[i + 1],
        i == before.active && i + 1 == before.tabs@.len() && i > 0
            ==> after.tabs@[after.active as int] == before.tabs@[i - 1],
        before.tabs@.len() == 1 ==> after.composer_open && after.tabs@.len() == 0,
        before.tabs@.len() > 1 ==> after.composer_open == before.composer_open,
        after.renaming is None,
        after.composer == before.composer && after.next == before.next && after.notice
            == before.notice && after.saving == before.saving,
{
}

/// Asking for a new connection opens the form and closes nothing.
pub proof fn a_new_connection_opens_the_form(
    before: Workspace,
    session: Seq<char>,
    now: u64,
    after: Workspace,
    plan: Plan,
)
    requires
        planned(before, Action::New, session, now, after, plan),
    ensures
        after.composer_open && after.renaming is None && after.local_dirty,
        after.tabs == before.tabs && after.active == before.active && after.composer
            == before.composer,
        plan == Plan::Done,
{
}

/// Selecting a tab shows it in place of the form or of another one, and the choice is
/// saved; a number that no tab has shows nothing else.
pub proof fn selecting_a_tab_shows_it(
    before: Workspace,
    id: u64,
    session: Seq<char>,
    now: u64,
    after: Workspace,
    plan: Plan,
)
    requires
        planned(before, Action::Select(id), session, now, after, plan),
    ensures
        has_tab(before.tabs@, id) ==> after.active < after.tabs@.len()
            && after.tabs@[after.active as int].id == id && !after.composer_open
            && after.renaming is None && plan == Plan::Save,
        !has_tab(before.tabs@, id) ==> after.active == before.active && after.composer_open
            == before.composer_open && plan == Plan::Done,
        after.tabs == before.tabs && after.local_dirty,
{
}

/// Closing a tab takes away that tab and no other, and what is left is saved.
pub proof fn closing_takes_that_tab_away(
    before: Workspace,
    id: u64,
    session: Seq<char>,
    now: u64,
    after: Workspace,
    plan: Plan,
)
    requires
        before.wf(),
        planned(before, Action::Close(id), session, now, after, plan),
    ensures
        !has_tab(after.tabs@, id),
        forall|other: u64|
            other != id ==> (#[trigger] has_tab(after.tabs@, other) <==> has_tab(
                before.tabs@,
                other,
            )),
        has_tab(before.tabs@, id) ==> plan == Plan::Save,
        !has_tab(before.tabs@, id) ==> plan == Plan::Done && after.tabs == before.tabs,
{
    if has_tab(before.tabs@, id) {
        let dirty = Workspace { local_dirty: true, ..before };
        let i = choose|i: int|
            #[trigger] stands_at(before.tabs@, id, i) && closed(dirty, after, i);
        lemma_removed(before.tabs@, i);
        assert forall|j: int| !stands_at(after.tabs@, id, j) by {
            if 0 <= j < after.tabs@.len() {
                let k = if j < i {
                    j
                } else {
                    j + 1
                };
                assert(after.tabs@[j] == before.tabs@[k]);
            }
        }
        assert forall|other: u64| other != id implies (#[trigger] has_tab(after.tabs@, other)
            <==> has_tab(before.tabs@, other)) by {
            if has_tab(after.tabs@, other) {
                let j = choose|j: int| stands_at(after.tabs@, other, j);
                let k = if j < i {
                    j
                } else {
                    j + 1
                };
                assert(stands_at(before.tabs@, other, k));
            }
            if has_tab(before.tabs@, other) {
                let k = choose|k: int| stands_at(before.tabs@, other, k);
                let j = if k < i {
                    k
                } else {
                    k - 1
                };
                assert(stands_at(after.tabs@, other, j));
            }
        }
    }
}

/// Moving a tab keeps the one that is shown, and the new order is saved.
pub proof fn moving_a_tab_keeps_the_shown_one(
    before: Workspace,
    id: u64,
    insert_at: usize,
    session: Seq<char>,
    now: u64,
    after: Workspace,
    plan: Plan,
    from: int,
)
    requires
        before.wf(),
        stands_at(before.tabs@, id, from),
        planned(before, Action::Reorder { id, insert_at }, session, now, after, plan),
    ensures
        plan == Plan::Save,
        after.tabs@[after.active as int].id == before.tabs@[before.active as int].id,
        insert_at <= before.tabs@.len() && insert_at != from && insert_at != from + 1
            ==> put_before(before.tabs@, after.tabs@, from, insert_at as int),
        insert_at == from || insert_at == from + 1 ==> after.tabs@ == before.tabs@,
        after.composer_open == before.composer_open && after.composer == before.composer,
{
    if insert_at <= before.tabs@.len() && insert_at != from && insert_at != from + 1 {
        a_moved_tab_stands_before_the_one_it_was_put_before(before.tabs@, from, insert_at as int);
    }
}

/// Connecting from the form makes it the last tab and shows it, with a fresh form in
/// its place, as long as there are fewer than sixteen tabs; at sixteen the user is told
/// and nothing else changes.
pub proof fn connecting_from_the_form_makes_a_tab(
    before: Workspace,
    session: Seq<char>,
    now: u64,
    after: Workspace,
    plan: Plan,
)
    requires
        before.wf(),
        before.next < u64::MAX,
        before.composer_open,
        planned(
            before,
            Action::Tab(before.composer.id, TabAction::Connect),
            session,
            now,
            after,
            plan,
        ),
    ensures
        before.tabs@.len() < 16 ==> after.tabs@ == before.tabs@.push(before.composer)
            && after.tabs@[after.active as int] == before.composer && !after.composer_open
            && after.composer.id == before.next && after.next == before.next + 1
            && after.composer.last_phase == Phase::Idle && plan == Plan::Active,
        before.tabs@.len() >= 16 ==> after.tabs == before.tabs && after.composer == before.composer
            && after.composer_open && plan == Plan::Done && after.notice is Some
            && after.notice->0@ == "at most 16 connection tabs may be open"@,
{
}

/// What is asked of the client that is shown reaches that client: the form's while
/// the form is open, and the active tab's otherwise.
pub proof fn an_action_reaches_the_client_that_is_shown(
    before: Workspace,
    action: TabAction,
    session: Seq<char>,
    now: u64,
    after: Workspace,
    plan: Plan,
)
    requires
        before.wf(),
        action is Connect || action is ListSessions || action is CreateSession
            || action is Disconnect || action is Frame,
        before.tabs@.len() > 0,
    ensures
        !before.composer_open && planned(
            before,
            Action::Tab(before.tabs@[before.active as int].id, action),
            session,
            now,
            after,
            plan,
        ) ==> plan == Plan::Active && after.tabs == before.tabs && after.active == before.active,
        before.composer_open && !(action is Connect) && planned(
            before,
            Action::Tab(before.composer.id, action),
            session,
            now,
            after,
            plan,
        ) ==> plan == Plan::Composer && after.tabs == before.tabs && after.composer
            == before.composer,
{
}

/// A session is renamed if its name changes and can be one; a name that cannot is
/// answered with a notice, and the same name with nothing.
pub proof fn only_a_new_valid_name_is_asked_for(
    before: Workspace,
    name: String,
    session: Seq<char>,
    now: u64,
    after: Workspace,
    plan: Plan,
)
    requires
        before.wf(),
        !before.composer_open && before.tabs@.len() > 0,
        planned(
            before,
            Action::Tab(
                before.tabs@[before.active as int].id,
                TabAction::RenameSession(name),
            ),
            session,
            now,
            after,
            plan,
        ),
    ensures
        plan == Plan::Active <==> name@ != session && nameable(name@),
        plan == Plan::Active || plan == Plan::Done,
        name@ != session && !nameable(name@) ==> after.notice is Some && after.notice->0@
            == "invalid session name"@,
        name@ == session || nameable(name@) ==> after.notice == before.notice,
        after.tabs == before.tabs,
{
}

/// An action that asks for nothing does nothing, not even another frame; every other
/// one is followed by a frame.
pub proof fn only_idle_actions_bring_no_frame(
    before: Workspace,
    action: Action,
    session: Seq<char>,
    now: u64,
    after: Workspace,
    plan: Plan,
)
    requires
        planned(before, action, session, now, after, plan),
    ensures
        plan == Plan::Nothing <==> action is Idle || (action is Tab && action->Tab_1 is Idle),
        plan == Plan::Nothing ==> after == before,
        plan != Plan::Nothing ==> after.local_dirty,
{
}

/// A connection is being made while connecting and while reconnecting; a terminal is
/// shown while watching, while resynchronizing and in the demo.
pub proof fn each_phase_is_busy_live_or_neither(phase: Phase)
    ensures
        busy(phase) <==> (match phase {
            Phase::Connecting | Phase::Reconnecting => true,
            Phase::Idle
            | Phase::Watching
            | Phase::Resynchronizing
            | Phase::Disconnected
            | Phase::Failed
            | Phase::Demo => false,
        }),
        live(phase) <==> (match phase {
            Phase::Watching | Phase::Resynchronizing | Phase::Demo => true,
            Phase::Idle
            | Phase::Connecting
            | Phase::Reconnecting
            | Phase::Disconnected
            | Phase::Failed => false,
        }),
{
}

/// A tab is green while it is live, blue once it is live and quiet, yellow while a
/// connection is being made and after one failed, and plain otherwise.
pub proof fn a_tab_shows_its_phase_by_its_color(phase: Phase, idle: (u8, u8, u8), quiet: bool)
    ensures
        (phase == Phase::Watching || phase == Phase::Resynchronizing || phase == Phase::Demo)
            && !quiet ==> color_of(phase, idle, quiet) == (38u8, 98u8, 58u8),
        (phase == Phase::Watching || phase == Phase::Resynchronizing || phase == Phase::Demo)
            && quiet ==> color_of(phase, idle, quiet) == (36u8, 88u8, 148u8),
        phase == Phase::Connecting || phase == Phase::Reconnecting || phase == Phase::Failed
            ==> color_of(phase, idle, quiet) == (140u8, 108u8, 28u8),
        phase == Phase::Idle || phase == Phase::Disconnected ==> color_of(phase, idle, quiet)
            == idle,
{
}

/// A lighter channel is as much lighter as was asked, up to the lightest.
pub proof fn lifting_never_darkens(channel: u8, by: u8)
    ensures
        lifted(channel, by) >= channel,
        channel + by <= 255 ==> lifted(channel, by) - channel == by,
        channel + by > 255 ==> lifted(channel, by) == 255,
{
}

/// A live tab is quiet once no output came for as many seconds as the user chose, and
/// stays so until output comes; where the user chose none it never is.
pub proof fn a_tab_is_quiet_after_its_seconds(
    idle: u32,
    phase: Phase,
    last_output: u64,
    now: u64,
    later: u64,
)
    ensures
        idle == 0 ==> !is_quiet(idle, phase, last_output, now),
        !live(phase) ==> !is_quiet(idle, phase, last_output, now),
        idle > 0 && live(phase) && now >= last_output ==> (is_quiet(idle, phase, last_output, now)
            <==> now - last_output >= idle * 1_000_000_000),
        idle > 0 && now < last_output ==> !is_quiet(idle, phase, last_output, now),
        is_quiet(idle, phase, last_output, now) && later >= now ==> is_quiet(
            idle,
            phase,
            last_output,
            later,
        ),
{
}

/// Nothing changes on the screen without a new revision; with one it does if the tab
/// is the one that is shown or its phase is another, and output wakes a quiet tab.
pub proof fn what_changes_the_screen(tab: Tab, glance: Glance, visible: bool, idle: u32, now: u64)
    ensures
        glance.revision == tab.last_revision ==> !shows_change(tab, glance, visible, idle, now),
        glance.revision != tab.last_revision && visible ==> shows_change(
            tab,
            glance,
            visible,
            idle,
            now,
        ),
        glance.revision != tab.last_revision && glance.phase != tab.last_phase ==> shows_change(
            tab,
            glance,
            visible,
            idle,
            now,
        ),
        glance.revision != tab.last_revision && glance.seq != tab.last_seq && is_quiet(
            idle,
            tab.last_phase,
            tab.last_output,
            now,
        ) ==> shows_change(tab, glance, visible, idle, now),
{
}

/// Looking at a hidden client takes note of what it is now, and of when its output or
/// its phase last changed; a client that is shown is taken note of once it is painted.
pub proof fn a_look_takes_note(tab: Tab, glance: Glance, now: u64)
    ensures
        looked_at(tab, glance, true, now) == tab,
        glance.revision != tab.last_revision ==> ({
            let seen = looked_at(tab, glance, false, now);
            &&& seen.last_revision == glance.revision
            &&& seen.last_phase == glance.phase
            &&& seen.last_seq == glance.seq
            &&& glance.seq != tab.last_seq || glance.phase != tab.last_phase ==> seen.last_output
                == now
            &&& glance.seq == tab.last_seq && glance.phase == tab.last_phase ==> seen.last_output
                == tab.last_output
            &&& seen.id == tab.id && seen.label == tab.label
        }),
        ({
            let seen = observed(tab, glance, now);
            &&& seen.last_seq == glance.seq && seen.last_phase == glance.phase
            &&& glance.seq != tab.last_seq || glance.phase != tab.last_phase ==> seen.last_output
                == now
            &&& glance.seq == tab.last_seq && glance.phase == tab.last_phase ==> seen == tab
            &&& seen.id == tab.id && seen.label == tab.label && seen.last_revision
                == tab.last_revision
        }),
{
}

/// The shortcut for closing closes the tab that is shown; while the form is open it
/// goes back to that tab, and without a tab it does nothing.
pub proof fn the_close_shortcut_never_closes_what_is_hidden(w: Workspace)
    requires
        w.wf(),
    ensures
        w.tabs@.len() == 0 && w.active == 0 ==> close_asks(w) is Idle,
        w.tabs@.len() > 0 && w.composer_open ==> close_asks(w) == Action::Select(
            w.tabs@[w.active as int].id,
        ),
        w.tabs@.len() > 0 && !w.composer_open ==> close_asks(w) == Action::Close(
            w.tabs@[w.active as int].id,
        ),
{
}

/// A tab that was dropped is moved whatever else happened; then comes the button for a
/// new connection, then a tab that was clicked, then the shortcuts.
pub proof fn the_strip_asks_for_one_thing(w: Workspace, strip: Strip)
    ensures
        match strip.dropped {
            Some((id, insert_at)) => strip_asks(w, strip) == (Action::Reorder { id, insert_at }),
            None => true,
        },
        strip.dropped is None && strip.added ==> strip_asks(w, strip) is New,
        strip.dropped is None && !strip.added && strip.clicked is Some ==> strip_asks(w, strip)
            == Action::Select(strip.clicked->0),
        strip.dropped is None && !strip.added && strip.clicked is None && strip.close_shortcut
            ==> strip_asks(w, strip) == close_asks(w),
        strip.dropped is None && !strip.added && strip.clicked is None && !strip.close_shortcut
            ==> (if strip.new_shortcut {
            strip_asks(w, strip) is New
        } else {
            strip_asks(w, strip) is Idle
        }),
{
}

/// Opening, selecting and closing a tab use up their frame; moving one, doing nothing
/// and what is asked of a client do not.
pub proof fn only_switching_uses_up_a_frame(
    id: u64,
    insert_at: usize,
    asked: TabAction,
    w: Workspace,
)
    ensures
        switches(Action::New) && switches(Action::Select(id)) && switches(Action::Close(id)),
        !switches(Action::Idle) && !switches(Action::Reorder { id, insert_at }) && !switches(
            Action::Tab(id, asked),
        ),
        w.composer_open ==> shown_id(w) == w.composer.id,
        w.tabs@.len() == 0 ==> shown_id(w) == w.composer.id,
        !w.composer_open && w.tabs@.len() > 0 ==> shown_id(w) == w.tabs@[w.active as int].id,
{
}

/// Remote frames come as often as the user chose; for a while after input was sent
/// they come at least twenty times a second, and never less often than chosen.
pub proof fn frames_come_faster_after_input(w: Workspace, now: u64)
    requires
        w.wf(),
    ensures
        w.echo_until is None ==> interval_at(w, now) == rounded(
            1_000_000_000,
            store::clamped_fps(w.fps, w.limits) as nat,
        ),
        w.echo_until is Some && now >= w.echo_until->0 ==> interval_at(w, now) == rounded(
            1_000_000_000,
            store::clamped_fps(w.fps, w.limits) as nat,
        ),
        w.echo_until is Some && now < w.echo_until->0 ==> interval_at(w, now) <= 50_000_000
            && interval_at(w, now) <= rounded(
            1_000_000_000,
            store::clamped_fps(w.fps, w.limits) as nat,
        ),
        w.echo_until is Some && now < w.echo_until->0 && rounded(
            1_000_000_000,
            store::clamped_fps(w.fps, w.limits) as nat,
        ) >= 50_000_000 ==> interval_at(w, now) == 50_000_000,
{
}

/// The time that the program was open adds up: what was saved, and the whole seconds
/// since the program began, within the bound.
pub proof fn open_time_adds_up(w: Workspace, now: u64)
    ensures
        open_now(w, now) <= w.limits.open_secs,
        now >= w.session_started && w.open_secs + (now - w.session_started) / 1_000_000_000
            <= w.limits.open_secs ==> open_now(w, now) == w.open_secs + (now - w.session_started)
            / 1_000_000_000,
        now < w.session_started && w.open_secs <= w.limits.open_secs ==> open_now(w, now)
            == w.open_secs,
{
}

/// What is saved is the tab that is shown and what the user chose, within the bounds.
pub proof fn the_settings_are_saved_within_bounds(w: Workspace, now: u64)
    requires
        w.wf(),
    ensures
        settings_of(w, now).active == w.active,
        settings_of(w, now).restore_tabs == w.restore_tabs,
        settings_of(w, now).open_secs == open_now(w, now),
        1 <= w.fps <= w.limits.fps ==> settings_of(w, now).fps == w.fps,
        w.idle <= w.limits.idle ==> settings_of(w, now).idle == w.idle,
        1 <= settings_of(w, now).fps <= w.limits.fps,
        settings_of(w, now).idle <= w.limits.idle,
{
}

/// Renaming one tab touches the name of that tab and nothing else.
pub proof fn a_new_name_is_all_that_changes(
    before: Workspace,
    composer: bool,
    label: Seq<char>,
    after: Workspace,
)
    requires
        before.wf(),
        !composer ==> before.active < before.tabs@.len(),
        renamed(before, composer, label, after),
    ensures
        composer ==> after.composer.label@ == label && after.composer.id == before.composer.id
            && after.tabs == before.tabs,
        !composer ==> after.tabs@[before.active as int].label@ == label
            && after.tabs@[before.active as int].id == before.tabs@[before.active as int].id
            && after.composer == before.composer,
        forall|j: int|
            0 <= j < before.tabs@.len() && j != before.active ==> #[trigger] after.tabs@[j]
                == before.tabs@[j],
        after.active == before.active && after.composer_open == before.composer_open,
{
}

/// A connection or a rename gives its tab the name of where it points, and is saved; a
/// tab that is disconnected and points nowhere is closed, and any other keeps its place
/// under its name.
pub proof fn what_a_clients_answer_comes_to(
    before: Workspace,
    composer: bool,
    saved: store::Tab,
    now: u64,
    r: Settled,
    after: Workspace,
)
    requires
        before.wf(),
        !composer ==> before.active < before.tabs@.len(),
    ensures
        settles(before, composer, Performed::Connected(saved), now, r, after) || settles(
            before,
            composer,
            Performed::Renamed(saved),
            now,
            r,
            after,
        ) ==> r == Settled::Save && (!composer ==> after.tabs@[before.active as int].label@
            == store::label_text(saved) && after.tabs@.len() == before.tabs@.len()) && (composer
            ==> after.composer.label@ == store::label_text(saved) && after.tabs == before.tabs),
        settles(before, composer, Performed::Disconnected(saved), now, r, after) && !composer
            && store::label_text(saved) == "New connection"@ ==> r == Settled::Closed
            && after.tabs@ == before.tabs@.remove(before.active as int),
        settles(before, composer, Performed::Disconnected(saved), now, r, after) && !composer
            && store::label_text(saved) != "New connection"@ ==> r == Settled::Done
            && after.tabs@.len() == before.tabs@.len() && after.tabs@[before.active as int].label@
            == store::label_text(saved),
        settles(before, composer, Performed::Other, now, r, after) ==> r == Settled::Done && after
            == before,
{
}

/// Input that was accepted makes frames come faster for four tenths of a second; a pane
/// that was selected is saved.
pub proof fn what_sending_input_comes_to(
    before: Workspace,
    composer: bool,
    selected_pane: bool,
    accepted: bool,
    now: u64,
    r: Settled,
    after: Workspace,
)
    requires
        now <= u64::MAX - 400_000_000,
        settles(before, composer, Performed::Sent { selected_pane, accepted }, now, r, after),
    ensures
        r == Settled::Save <==> selected_pane,
        r == Settled::Done <==> !selected_pane,
        accepted ==> after.echo_until == Some((now + 400_000_000) as u64),
        !accepted ==> after.echo_until == before.echo_until,
        after.tabs == before.tabs && after.active == before.active && after.composer_open
            == before.composer_open,
{
}

/// A look finds a change where something local is to be painted, where a tab shows one,
/// or where the form that is open has a new revision, and nowhere else; it keeps every
/// tab in its place.
pub proof fn what_a_look_finds(
    before: Workspace,
    glances: Seq<Glance>,
    composer_revision: u64,
    now: u64,
    r: bool,
    after: Workspace,
    i: int,
)
    requires
        before.wf(),
        glances.len() == before.tabs@.len(),
        looks(before, glances, composer_revision, now, r, after),
        0 <= i < glances.len(),
    ensures
        before.local_dirty ==> r,
        before.composer_open && composer_revision != before.composer.last_revision ==> r,
        shows_change(
            before.tabs@[i],
            glances[i],
            !before.composer_open && i == before.active,
            before.idle,
            now,
        ) ==> r,
        after.tabs@.len() == before.tabs@.len(),
        after.tabs@[i].id == before.tabs@[i].id && after.tabs@[i].label == before.tabs@[i].label,
        before.composer_open || i != before.active ==> after.tabs@[i] == looked_at(
            before.tabs@[i],
            glances[i],
            false,
            now,
        ),
        !before.composer_open && i == before.active ==> after.tabs@[i] == before.tabs@[i],
        after.active == before.active && after.local_dirty == before.local_dirty,
{
}

/// A look that finds nothing found nothing anywhere.
pub proof fn a_look_that_finds_nothing(
    before: Workspace,
    glances: Seq<Glance>,
    composer_revision: u64,
    now: u64,
    after: Workspace,
)
    requires
        looks(before, glances, composer_revision, now, false, after),
    ensures
        !before.local_dirty,
        !before.composer_open || composer_revision == before.composer.last_revision,
        forall|i: int|
            0 <= i < glances.len() ==> !shows_change(
                before.tabs@[i],
                #[trigger] glances[i],
                !before.composer_open && i == before.active,
                before.idle,
                now,
            ),
{
}

/// What was painted is taken note of for the client that is shown and for no other.
pub proof fn painting_is_noted_for_what_is_shown(
    before: Workspace,
    revision: u64,
    after: Workspace,
    i: int,
)
    requires
        before.wf(),
        acknowledges(before, revision, after),
        0 <= i < before.tabs@.len(),
    ensures
        after.tabs@.len() == before.tabs@.len(),
        before.composer_open ==> after.composer.last_revision == revision && after.tabs
            == before.tabs,
        !before.composer_open && i == before.active ==> after.tabs@[i].last_revision == revision,
        !before.composer_open ==> after.composer == before.composer,
        before.composer_open || i != before.active ==> after.tabs@[i] == before.tabs@[i],
{
}

/// Saving writes the settings and no more tabs than are kept, and adds up the time that
/// the program was open; where saving is off nothing is written.
pub proof fn what_is_saved(
    before: Workspace,
    now: u64,
    r: Option<(Settings, usize)>,
    after: Workspace,
)
    requires
        persists(before, now, r, after),
    ensures
        r is Some <==> before.saving,
        r is None ==> after == before,
        match r {
            Some((settings, tabs)) => {
                &&& settings == settings_of(before, now)
                &&& tabs <= before.tabs@.len() && tabs <= before.limits.tabs
                &&& tabs == before.tabs@.len() || tabs == before.limits.tabs
                &&& after.open_secs == open_now(before, now)
                &&& after.session_started == now
                &&& after.tabs == before.tabs
            },
            None => true,
        },
{
}

/// Settings that the user changed are taken over within their bounds, and are saved if
/// any of them is another one.
pub proof fn settings_are_taken_over(
    before: Workspace,
    fps: u32,
    idle: u32,
    restore_tabs: bool,
    r: bool,
    after: Workspace,
)
    requires
        before.wf(),
        prefers(before, fps, idle, restore_tabs, r, after),
    ensures
        1 <= fps <= before.limits.fps ==> after.fps == fps,
        idle <= before.limits.idle ==> after.idle == idle,
        idle > before.limits.idle ==> after.idle == before.limits.idle,
        after.restore_tabs == restore_tabs,
        r <==> after.fps != before.fps || after.idle != before.idle || after.restore_tabs
            != before.restore_tabs,
        after.tabs == before.tabs && after.active == before.active,
{
}

/// The workspace ends once: the first time it says what is to be saved and lets every tab
/// go, and after that nothing happens.
pub proof fn the_workspace_ends_once(
    before: Workspace,
    now: u64,
    r: Option<(Settings, usize)>,
    after: Workspace,
)
    requires
        shuts_down(before, now, r, after),
    ensures
        after.shut_down,
        before.shut_down ==> r is None && after == before,
        !before.shut_down ==> after.tabs@.len() == 0 && after.renaming is None && (r is Some
            <==> before.saving),
        match r {
            Some((settings, tabs)) => settings == settings_of(before, now) && tabs
                <= before.tabs@.len() && tabs <= before.limits.tabs,
            None => true,
        },
{
}

/// Only a connected session is renamed, from the name that it has; otherwise the user is
/// told why not.
pub proof fn only_a_connected_session_is_renamed(
    before: Workspace,
    id: u64,
    phase: Phase,
    current: Seq<char>,
    r: bool,
    after: Workspace,
)
    requires
        begins_rename(before, id, phase, current, r, after),
    ensures
        r <==> phase == Phase::Watching,
        r ==> after.renaming is Some && after.renaming->0.id == id && after.renaming->0.draft@
            == current && after.notice == before.notice,
        !r && phase == Phase::Demo ==> after.notice is Some && after.notice->0@
            == "The demo has no remote session to rename."@,
        !r && phase != Phase::Demo ==> after.notice is Some && after.notice->0@
            == "Connect before renaming the session."@,
        !r ==> after.renaming == before.renaming,
        after.tabs == before.tabs,
{
}

/// Enter asks for the trimmed name of the tab that is being renamed, escape and losing
/// the keyboard give it up, and escape wins over enter.
pub proof fn how_a_rename_ends(
    before: Workspace,
    escape: bool,
    enter: bool,
    lost_focus: bool,
    r: Option<(u64, String)>,
    after: Workspace,
)
    requires
        renames_on(before, escape, enter, lost_focus, r, after),
    ensures
        r is Some <==> enter && !escape && before.renaming is Some,
        match r {
            Some((id, name)) => id == before.renaming->0.id && name@ == text::trimmed(
                before.renaming->0.draft@,
            ),
            None => true,
        },
        escape || enter || lost_focus ==> after.renaming is None,
        !escape && !enter && !lost_focus ==> after.renaming == before.renaming,
        after.tabs == before.tabs && after.notice == before.notice,
{
}

/// A rename that was finished wins over what the tabs ask for; a frame that switches tabs
/// paints nothing, and any other paints the client that is shown.
pub proof fn what_a_frame_paints(
    before: Workspace,
    renamed: Option<(u64, String)>,
    navigation: Action,
    r: Frame,
    after: Workspace,
)
    requires
        before.wf(),
        frames(before, renamed, navigation, r, after),
    ensures
        match renamed {
            Some((id, name)) => r == Frame::Used(Action::Tab(id, TabAction::RenameSession(name))),
            None => true,
        },
        renamed is None && (navigation is New || navigation is Select || navigation is Close) ==> r
            == Frame::Used(navigation),
        renamed is None && (navigation is Idle || navigation is Reorder || navigation is Tab) ==> {
            &&& r is Paint
            &&& r->navigation == navigation
            &&& before.composer_open || before.tabs@.len() == 0 ==> r->id == before.composer.id
                && after.composer_open
            &&& !before.composer_open && before.tabs@.len() > 0 ==> r->id
                == before.tabs@[before.active as int].id && !after.composer_open
        },
        after.tabs == before.tabs && after.active == before.active,
{
}

/// After a frame was painted the tabs come first, and what the client asks for only where
/// they ask for nothing.
pub proof fn the_tabs_come_before_the_client(
    id: u64,
    navigation: Action,
    asked: TabAction,
    r: Action,
)
    requires
        asks_after(id, navigation, asked, r),
    ensures
        navigation is Idle ==> r == Action::Tab(id, asked),
        !(navigation is Idle) ==> r == navigation,
{
}

/// A live tab that is not quiet yet is looked at again exactly when it becomes quiet.
pub proof fn a_tab_is_looked_at_when_it_becomes_quiet(
    idle: u32,
    phase: Phase,
    last_output: u64,
    now: u64,
    r: Option<u64>,
)
    requires
        looks_again(idle, phase, last_output, now, r),
    ensures
        r is Some <==> idle > 0 && live(phase) && !is_quiet(idle, phase, last_output, now),
        r is Some && now >= last_output && now + r->0 <= u64::MAX ==> is_quiet(
            idle,
            phase,
            last_output,
            (now + r->0) as u64,
        ),
        r is Some && now >= last_output && r->0 > 0 ==> !is_quiet(
            idle,
            phase,
            last_output,
            (now + r->0 - 1) as u64,
        ) || now + r->0 - 1 > u64::MAX,
{
}

/// A terminal has the keyboard only while it is shown and its pane has it.
pub proof fn only_a_shown_terminal_has_the_keyboard(before: Workspace, pane_focused: bool, r: bool)
    requires
        focuses(before, pane_focused, r),
    ensures
        r ==> pane_focused && !before.composer_open && before.active < before.tabs@.len(),
        pane_focused && !before.composer_open && before.active < before.tabs@.len() ==> r,
{
}

/// A tab that is added stands last and is shown, with nothing having happened in it; the
/// form is closed, and there are never more than sixteen tabs.
pub proof fn an_added_tab_stands_last(before: Workspace, now: u64, r: bool, after: Workspace)
    requires
        before.wf(),
        before.next < u64::MAX,
        adds(before, now, r, after),
    ensures
        r <==> before.tabs@.len() < 16,
        !r ==> after == before,
        r ==> {
            &&& after.tabs@.len() == before.tabs@.len() + 1
            &&& forall|i: int| 0 <= i < before.tabs@.len() ==> after.tabs@[i] == before.tabs@[i]
            &&& after.tabs@.last().id == before.next
            &&& after.tabs@.last().label@ == "New connection"@
            &&& after.tabs@.last().last_phase == Phase::Idle
            &&& after.tabs@.last().last_output == now
            &&& after.active == after.tabs@.len() - 1
            &&& !after.composer_open
            &&& after.next == before.next + 1
            &&& after.composer == before.composer
        },
{
    if r {
        assert forall|i: int| 0 <= i < before.tabs@.len() implies after.tabs@[i]
            == before.tabs@[i] by {
            assert(after.tabs@.drop_last()[i] == before.tabs@[i]);
        }
    }
}

/// The form becomes the last tab, keeps its number and is shown, and a fresh form takes
/// its place.
pub proof fn the_form_becomes_a_tab(before: Workspace, now: u64, r: bool, after: Workspace)
    requires
        before.wf(),
        before.next < u64::MAX,
        promotes(before, now, r, after),
    ensures
        r <==> before.tabs@.len() < 16,
        !r ==> after == before,
        r ==> {
            &&& after.tabs@ == before.tabs@.push(before.composer)
            &&& after.active == before.tabs@.len()
            &&& after.composer.id == before.next && after.composer.label@ == "New connection"@
            &&& after.composer.last_phase == Phase::Idle && after.composer.last_output == now
            &&& !after.composer_open && after.next == before.next + 1
        },
{
}

/// A workspace that could not be saved is not saved again, and the user is told why; one
/// that could not be read is never saved over unless the user clears it.
pub proof fn what_could_not_be_kept_is_left_alone(
    before: Workspace,
    error: Seq<char>,
    failed: Workspace,
    clear: bool,
    r: bool,
    after: Workspace,
)
    requires
        gives_up_saving(before, error, failed),
        leaves_alone(before, clear, r, after),
    ensures
        !failed.saving && failed.notice is Some && failed.notice->0@ == "Could not save tabs: "@
            + error && failed.tabs == before.tabs,
        r == clear,
        !clear ==> !after.saving,
        clear ==> after.saving == before.saving,
        after.tabs == before.tabs && after.notice == before.notice,
{
}

/// Reopening keeps the tabs that are there and puts the saved ones behind them, in their
/// order, as many as there is room for up to sixteen; where the user does not want them
/// none is reopened.
pub proof fn saved_tabs_stand_behind_the_others(
    before: Workspace,
    saved: store::Workspace,
    now: u64,
    after: Workspace,
    count: nat,
    i: int,
)
    requires
        before.wf(),
        before.next < u64::MAX - 16,
        reopened(before, saved, now, after, count),
    ensures
        after.tabs@.len() == before.tabs@.len() + count,
        !saved.settings.restore_tabs ==> count == 0,
        saved.settings.restore_tabs && before.tabs@.len() + saved.tabs@.len() <= 16 ==> count
            == saved.tabs@.len(),
        saved.settings.restore_tabs && before.tabs@.len() + saved.tabs@.len() > 16
            ==> after.tabs@.len() == 16,
        0 <= i < before.tabs@.len() ==> after.tabs@[i] == before.tabs@[i],
        0 <= i < count ==> after.tabs@[before.tabs@.len() + i].label@ == store::label_text(
            saved.tabs@[i],
        ) && after.tabs@[before.tabs@.len() + i].last_phase == Phase::Idle && after.tabs@[
        before.tabs@.len() + i].id == before.next + i,
        after.next == before.next + count,
        after.tabs@.len() > 0 ==> !after.composer_open && after.active < after.tabs@.len(),
        after.tabs@.len() > saved.settings.active ==> after.active == saved.settings.active,
        after.tabs@.len() == 0 ==> after.composer_open,
        after.restore_tabs == saved.settings.restore_tabs,
{
}

} // verus!
