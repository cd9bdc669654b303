//! What is known of the attached session: its panes, and whether that is current.
use vstd::prelude::*;
use crate::ids::{PaneId, SessionId, WindowId};
use crate::input;
use crate::model::Size;

verus! {

/// The most history lines that a snapshot asks for.
pub const MAX_HISTORY_LINES: usize = 1000;

/// Whether a view is current.
#[derive(Clone, Copy, Debug, PartialEq, Eq, Structural)]
pub enum Status {
    Watching,
    /// The layout changed or output was lost; only a fresh snapshot helps.
    NeedsResync,
    Disconnected,
}

/// What a client may do to the session.
#[derive(Clone, Copy, Debug, PartialEq, Eq, Structural)]
pub enum Access {
    ReadOnly,
    Interactive,
}

/// Where a pane stands.
#[derive(Clone, Copy, Debug, PartialEq, Eq, Structural)]
pub struct PaneState {
    pub id: PaneId,
    pub window: WindowId,
    pub size: Size,
    pub left: usize,
    pub top: usize,
}

/// The attached session as it was last reconstructed.
pub struct SessionView {
    pub session: SessionId,
    pub panes: Vec<PaneState>,
    pub status: Status,
    /// What tmux said when it ended the control session, if it did: the outer
    /// option is whether it ended it, the inner one whether it gave a reason.
    pub exit: Option<Option<String>>,
    /// Moves on whenever what is displayed changes.
    pub seq: u64,
}

/// A pane is part of the view.
pub open spec fn has_pane(panes: Seq<PaneState>, pane: PaneId) -> bool {
    exists|i: int| 0 <= i < panes.len() && (#[trigger] panes[i]).id == pane
}

/// The first place at which a pane stands in the view.
pub open spec fn pane_at(panes: Seq<PaneState>, pane: PaneId, i: int) -> bool {
    0 <= i < panes.len() && panes[i].id == pane && forall|j: int|
        0 <= j < i ==> (#[trigger] panes[j]).id != pane
}

/// What an action aimed at this pane is aimed at exactly.
pub open spec fn aimed(session: SessionId, state: PaneState) -> input::Target {
    input::Target {
        session,
        pane: state.id,
        window: state.window,
        size: state.size,
        left: state.left,
        top: state.top,
    }
}

/// The reason in what tmux said when it ended the control session, if it gave one.
pub open spec fn reason_of(exit: Option<Option<String>>) -> Option<Seq<char>> {
    match exit {
        Some(Some(reason)) => Some(reason@),
        _ => None,
    }
}

/// The reason that tmux gave for ending the control session, if it gave one.
pub open spec fn exit_reason(view: SessionView) -> Option<Seq<char>> {
    reason_of(view.exit)
}

/// The layout is no longer relied on.
pub open spec fn invalidates(before: SessionView, after: SessionView) -> bool {
    after == (SessionView {
        status: if before.status == Status::Disconnected {
            Status::Disconnected
        } else {
            Status::NeedsResync
        },
        ..before
    })
}

impl SessionView {
    /// A fresh view, current and not ended.
    pub fn new(session: SessionId, panes: Vec<PaneState>) -> (r: Self)
        ensures
            r == (SessionView { session, panes, status: Status::Watching, exit: None, seq: 0 }),
    {
        SessionView { session, panes, status: Status::Watching, exit: None, seq: 0 }
    }

    pub fn status(&self) -> (r: Status)
        ensures
            r == self.status,
    {
        self.status
    }

    pub fn display_seq(&self) -> (r: u64)
        ensures
            r == self.seq,
    {
        self.seq
    }

    /// The panes stay readable; only their liveness is revoked.
    pub fn disconnect(&mut self)
        ensures
            *final(self) == (SessionView { status: Status::Disconnected, ..*old(self) }),
    {
        self.status = Status::Disconnected;
    }

    /// The layout can no longer be relied on. A view that ended stays ended.
    pub fn invalidate(&mut self)
        ensures
            invalidates(*old(self), *final(self)),
    {
        if self.status != Status::Disconnected {
            self.status = Status::NeedsResync;
        }
    }

    /// Where a pane stands in the view, if it does.
    pub fn find(&self, pane: PaneId) -> (r: Option<usize>)
        ensures
            match r {
                Some(i) => pane_at(self.panes@, pane, i as int),
                None => !has_pane(self.panes@, pane),
            },
    {
        for i in 0..self.panes.len()
            invariant
                forall|j: int| 0 <= j < i ==> (#[trigger] self.panes@[j]).id != pane,
        {
            if self.panes[i].id == pane {
                return Some(i);
            }
        }
        None
    }

    /// What an action aimed at this pane is aimed at exactly.
    pub fn action_target(&self, pane: PaneId) -> (r: Option<input::Target>)
        ensures
            match r {
                Some(target) => exists|i: int|
                    pane_at(self.panes@, pane, i) && target == aimed(self.session, #[trigger] self.panes@[i]),
                None => !has_pane(self.panes@, pane),
            },
    {
        match self.find(pane) {
            Some(i) => {
                let state = self.panes[i];
                assert(pane_at(self.panes@, pane, i as int) && state == self.panes@[i as int]);
                Some(
                    input::Target {
                        session: self.session,
                        pane: state.id,
                        window: state.window,
                        size: state.size,
                        left: state.left,
                        top: state.top,
                    },
                )
            },
            None => None,
        }
    }
}

/// An action aimed at a pane is aimed at exactly what the user saw of it.
pub proof fn an_action_is_aimed_at_what_was_seen(session: SessionId, state: PaneState)
    ensures
        aimed(session, state).session == session,
        aimed(session, state).pane == state.id,
        aimed(session, state).window == state.window,
        aimed(session, state).size == state.size,
        aimed(session, state).left == state.left,
        aimed(session, state).top == state.top,
{
}

/// A pane is part of a view if and only if it stands somewhere in it, and it is found
/// at the first such place.
pub proof fn a_pane_is_found_where_it_stands(panes: Seq<PaneState>, state: PaneState, pane: PaneId)
    ensures
        !has_pane(Seq::empty(), pane),
        has_pane(panes.push(state), pane) <==> has_pane(panes, pane) || state.id == pane,
        !has_pane(panes, state.id) ==> pane_at(panes.push(state), state.id, panes.len() as int),
{
    let more = panes.push(state);
    if has_pane(panes, pane) {
        let i = choose|i: int| 0 <= i < panes.len() && (#[trigger] panes[i]).id == pane;
        assert(more[i].id == pane);
    }
    if state.id == pane {
        assert(more[panes.len() as int].id == pane);
    }
    if has_pane(more, pane) {
        let i = choose|i: int| 0 <= i < more.len() && (#[trigger] more[i]).id == pane;
        if i < panes.len() {
            assert(panes[i].id == pane);
        }
    }
    if !has_pane(panes, state.id) {
        assert forall|j: int| 0 <= j < panes.len() implies (#[trigger] more[j]).id != state.id by {
            assert(panes[j].id == more[j].id);
        }
    }
}

/// A reason is told only where tmux ended the session and gave one.
pub proof fn a_reason_is_what_tmux_said(reason: String, view: SessionView)
    ensures
        reason_of(Some(Some(reason))) == Some(reason@),
        reason_of(Some(None)) is None,
        reason_of(None) is None,
        exit_reason(view) == reason_of(view.exit),
{
}

/// A view that is not relied on any more asks for a fresh snapshot, unless it ended; its
/// panes stay.
pub proof fn an_invalid_view_asks_for_a_snapshot(before: SessionView, after: SessionView)
    requires
        invalidates(before, after),
    ensures
        before.status != Status::Disconnected ==> after.status == Status::NeedsResync,
        before.status == Status::Disconnected ==> after.status == Status::Disconnected,
        after.panes == before.panes && after.session == before.session && after.exit
            == before.exit && after.seq == before.seq,
{
}

} // verus!
