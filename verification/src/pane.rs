//! What a pane does with the pointer, and what its buttons ask for.
use vstd::prelude::*;
use crate::desktop::inputs;
use crate::ids::PaneId;
use crate::input;
use crate::input::{Action, Axis, Input, Key, Modifiers};
use crate::snapshot::PaneState;
use crate::text;

verus! {

/// The most ticks of the wheel that one frame passes on.
pub const MAX_TICKS: u32 = 8;

/// The most bytes that are copied to the clipboard.
pub const MAX_CLIPBOARD_BYTES: usize = 1_048_576;

/// Which pane has the keyboard, after a pane found out whether it has it.
pub open spec fn focus(active: bool, focused: Option<PaneId>, pane: PaneId) -> Option<PaneId> {
    if active {
        Some(pane)
    } else if focused == Some(pane) {
        None
    } else {
        focused
    }
}

/// Which pane has the keyboard, after a pane found out whether it has it.
pub fn focus_after(active: bool, focused: Option<PaneId>, pane: PaneId) -> (r: Option<PaneId>)
    ensures
        r == focus(active, focused, pane),
{
    if active {
        return Some(pane);
    }
    match focused {
        Some(other) => if other == pane {
            None
        } else {
            focused
        },
        None => None,
    }
}

/// What one tick of the wheel sends. On the alternate screen it is a mouse report
/// for an application that asked for the mouse, and a cursor key for one that did
/// not; on the primary screen it is the wheel itself.
pub open spec fn tick_input(
    up: bool,
    mouse: bool,
    alternate: bool,
    column: usize,
    row: usize,
    sgr: bool,
) -> Input {
    if mouse && alternate {
        Input::Bytes(
            if sgr {
                input::sgr_report(
                    if up {
                        64
                    } else {
                        65
                    },
                    input::one_based(column),
                    input::one_based(row),
                    'M',
                )
            } else {
                input::x10_report(
                    if up {
                        64
                    } else {
                        65
                    },
                    input::one_based(column),
                    input::one_based(row),
                )
            },
        )
    } else if alternate {
        Input::Bytes(
            if up {
                seq![0x1bu8, 0x5bu8, 0x41u8]
            } else {
                seq![0x1bu8, 0x5bu8, 0x42u8]
            },
        )
    } else {
        Input::Key(
            if up {
                Key::WheelUp
            } else {
                Key::WheelDown
            },
            Modifiers { control: false, alt: false, shift: false },
        )
    }
}

/// How many ticks a number of them is.
pub open spec fn tick_count(ticks: i32) -> nat {
    if ticks < 0 {
        (-(ticks as int)) as nat
    } else {
        ticks as nat
    }
}

/// How many inputs the wheel sends: none where the wheel examines the local
/// history, because the application neither asked for the mouse nor shows the
/// alternate screen.
pub open spec fn wheel_count(ticks: i32, mouse: bool, alternate: bool) -> nat {
    if mouse || alternate {
        tick_count(ticks)
    } else {
        0
    }
}

/// What the wheel sends to the application.
pub open spec fn wheel_inputs(
    ticks: i32,
    mouse: bool,
    alternate: bool,
    column: usize,
    row: usize,
    sgr: bool,
) -> Seq<Input> {
    Seq::new(
        wheel_count(ticks, mouse, alternate),
        |i: int| tick_input(ticks > 0, mouse, alternate, column, row, sgr),
    )
}

/// What the wheel sends to the application: one input for each tick, upward for
/// a positive number of them.
pub fn wheel_actions(
    ticks: i32,
    mouse: bool,
    alternate: bool,
    column: usize,
    row: usize,
    sgr: bool,
) -> (r: Vec<Action>)
    ensures
        inputs(r@) == wheel_inputs(ticks, mouse, alternate, column, row, sgr),
{
    let up: bool = ticks > 0;
    let mut left: i32 = if mouse || alternate {
        ticks
    } else {
        0
    };
    let ghost start = left;
    let mut actions: Vec<Action> = Vec::new();
    let ghost one = tick_input(up, mouse, alternate, column, row, sgr);
    assert(inputs(actions@) =~= Seq::new(0, |i: int| one));
    while left != 0
        invariant
            one == tick_input(up, mouse, alternate, column, row, sgr),
            (start >= 0 && 0 <= left <= start) || (start < 0 && start <= left <= 0),
            inputs(actions@) == Seq::new(
                (tick_count(start) - tick_count(left)) as nat,
                |i: int| one,
            ),
        decreases tick_count(left),
    {
        let ghost before = inputs(actions@);
        let action: Action = if mouse && alternate {
            Action::Bytes(input::mouse_wheel_bytes(up, column, row, sgr))
        } else if alternate {
            Action::Bytes(input::alternate_scroll_bytes(up))
        } else if up {
            Action::Key(Key::WheelUp, Modifiers { control: false, alt: false, shift: false })
        } else {
            Action::Key(Key::WheelDown, Modifiers { control: false, alt: false, shift: false })
        };
        assert(action@ == one);
        actions.push(action);
        assert(inputs(actions@) =~= before.push(one));
        left = if left > 0 {
            left - 1
        } else {
            left + 1
        };
        assert(inputs(actions@) =~= Seq::new(
            (tick_count(start) - tick_count(left)) as nat,
            |i: int| one,
        ));
    }
    assert(inputs(actions@) =~= Seq::new(
        wheel_count(ticks, mouse, alternate),
        |i: int| tick_input(ticks > 0, mouse, alternate, column, row, sgr),
    ));
    actions
}

/// What the pointer did on a pane this frame.
#[derive(Clone, Copy, Debug, PartialEq, Eq, Structural)]
pub struct Pressed {
    pub clicked: bool,
    pub double_clicked: bool,
    pub triple_clicked: bool,
    pub drag_started: bool,
    /// No modifier is held.
    pub unmodified: bool,
    /// The application asked for mouse reports.
    pub mouse: bool,
    /// The pane is not live.
    pub frozen: bool,
}

/// What a pane does about it.
#[derive(Clone, Copy, Debug, PartialEq, Eq, Structural)]
pub enum Response {
    /// Pass a press and a release on to the application and select nothing.
    Forward,
    /// Select the line, and copy it.
    Line,
    /// Select the word, and copy it.
    Word,
    /// Select nothing.
    Clear,
    /// Start a selection where the press was.
    Anchor,
    Nothing,
}

/// What a pane does about the pointer.
pub open spec fn response(pressed: Pressed) -> Response {
    if !pressed.frozen && pressed.mouse && pressed.unmodified && pressed.clicked
        && !pressed.double_clicked && !pressed.triple_clicked {
        Response::Forward
    } else if pressed.triple_clicked {
        Response::Line
    } else if pressed.double_clicked {
        Response::Word
    } else if pressed.clicked {
        Response::Clear
    } else if pressed.drag_started {
        Response::Anchor
    } else {
        Response::Nothing
    }
}

/// What a pane does about the pointer: a plain single click belongs to an
/// application that asked for it, and everything else is local selection.
pub fn respond(pressed: Pressed) -> (r: Response)
    ensures
        r == response(pressed),
{
    if !pressed.frozen && pressed.mouse && pressed.unmodified && pressed.clicked
        && !pressed.double_clicked && !pressed.triple_clicked {
        Response::Forward
    } else if pressed.triple_clicked {
        Response::Line
    } else if pressed.double_clicked {
        Response::Word
    } else if pressed.clicked {
        Response::Clear
    } else if pressed.drag_started {
        Response::Anchor
    } else {
        Response::Nothing
    }
}

/// The press and the release at one cell.
pub open spec fn forwards(column: usize, row: usize, sgr: bool, r: Seq<Action>) -> bool {
    &&& r.len() == 2
    &&& r[0] is Bytes && r[1] is Bytes
    &&& sgr ==> r[0]->Bytes_0@ == input::sgr_report(
        0,
        input::one_based(column),
        input::one_based(row),
        'M',
    )
    &&& sgr ==> r[1]->Bytes_0@ == input::sgr_report(
        0,
        input::one_based(column),
        input::one_based(row),
        'm',
    )
    &&& !sgr ==> r[0]->Bytes_0@ == input::x10_report(
        0,
        input::one_based(column),
        input::one_based(row),
    )
    &&& !sgr ==> r[1]->Bytes_0@ == input::x10_report(
        3,
        input::one_based(column),
        input::one_based(row),
    )
}

/// A click that is passed on: the press and the release at one cell.
pub fn forwarded_click(column: usize, row: usize, sgr: bool) -> (r: Vec<Action>)
    ensures
        forwards(column, row, sgr, r@),
{
    let mut actions: Vec<Action> = Vec::new();
    actions.push(Action::Bytes(input::mouse_click_bytes(true, column, row, sgr)));
    actions.push(Action::Bytes(input::mouse_click_bytes(false, column, row, sgr)));
    actions
}

/// What the user is told about a copy, and whether it is made.
pub struct Copied {
    pub made: bool,
    pub notice: String,
}

/// What copying a text comes to.
pub open spec fn copies(content: Seq<char>, message: Seq<char>, r: Copied) -> bool {
    &&& r.made == (text::byte_len(content) <= MAX_CLIPBOARD_BYTES)
    &&& r.notice@ == (if r.made {
        message
    } else {
        "Selection exceeds the 1 MiB clipboard limit."@
    })
}

/// Whether a text is copied to the clipboard, and what the user is told: a text
/// that is too long is not copied in part.
pub fn copy(content: &str, message: &str) -> (r: Copied)
    ensures
        copies(content@, message@, r),
{
    if text::byte_length(content) > MAX_CLIPBOARD_BYTES {
        Copied {
            made: false,
            notice: "Selection exceeds the 1 MiB clipboard limit.".to_owned(),
        }
    } else {
        Copied { made: true, notice: message.to_owned() }
    }
}

/// The panes that share an edge with a pane.
#[derive(Clone, Copy, Debug, PartialEq, Eq, Structural)]
pub struct Neighbors {
    pub left: Option<PaneId>,
    pub right: Option<PaneId>,
    pub up: Option<PaneId>,
    pub down: Option<PaneId>,
}

/// The edges of a pane.
#[derive(Clone, Copy, Debug, PartialEq, Eq, Structural)]
pub enum Edge {
    Left,
    Right,
    Up,
    Down,
}

/// Two stretches, each from a first cell and so many cells long, have a cell in
/// common.
pub open spec fn overlap(a: int, long: int, b: int, wide: int) -> bool {
    a < b + wide && b < a + long
}

/// Another pane of the window shares this edge: it begins right behind the divider
/// and stands beside some of the pane's cells.
pub open spec fn shares(pane: PaneState, other: PaneState, edge: Edge) -> bool {
    let rows = overlap(
        pane.top as int,
        pane.size.height() as int,
        other.top as int,
        other.size.height() as int,
    );
    let columns = overlap(
        pane.left as int,
        pane.size.width() as int,
        other.left as int,
        other.size.width() as int,
    );
    other.window == pane.window && match edge {
        Edge::Left => rows && pane.left == other.left + other.size.width() + 1,
        Edge::Right => rows && other.left == pane.left + pane.size.width() + 1,
        Edge::Up => columns && pane.top == other.top + other.size.height() + 1,
        Edge::Down => columns && other.top == pane.top + pane.size.height() + 1,
    }
}

/// The first pane that shares an edge with a pane.
pub open spec fn neighbor(panes: Seq<PaneState>, pane: PaneState, edge: Edge) -> Option<PaneId>
    decreases panes.len(),
{
    if panes.len() == 0 {
        None
    } else if neighbor(panes.drop_last(), pane, edge) is Some {
        neighbor(panes.drop_last(), pane, edge)
    } else if shares(pane, panes.last(), edge) {
        Some(panes.last().id)
    } else {
        None
    }
}

fn shares_edge(pane: PaneState, other: PaneState, edge: Edge) -> (r: bool)
    ensures
        r == shares(pane, other, edge),
{
    let left: u128 = pane.left as u128;
    let top: u128 = pane.top as u128;
    let right: u128 = left + pane.size.columns() as u128;
    let bottom: u128 = top + pane.size.rows() as u128;
    let other_left: u128 = other.left as u128;
    let other_top: u128 = other.top as u128;
    let other_right: u128 = other_left + other.size.columns() as u128;
    let other_bottom: u128 = other_top + other.size.rows() as u128;
    let rows: bool = top < other_bottom && other_top < bottom;
    let columns: bool = left < other_right && other_left < right;
    other.window == pane.window && match edge {
        Edge::Left => rows && left == other_right + 1,
        Edge::Right => rows && other_left == right + 1,
        Edge::Up => columns && top == other_bottom + 1,
        Edge::Down => columns && other_top == bottom + 1,
    }
}

fn find_neighbor(panes: &Vec<PaneState>, pane: PaneState, edge: Edge) -> (r: Option<PaneId>)
    ensures
        r == neighbor(panes@, pane, edge),
{
    let mut found: Option<PaneId> = None;
    assert(panes@.take(0) =~= Seq::<PaneState>::empty());
    for i in 0..panes.len()
        invariant
            found == neighbor(panes@.take(i as int), pane, edge),
    {
        assert(panes@.take(i + 1).drop_last() =~= panes@.take(i as int));
        if found.is_none() && shares_edge(pane, panes[i], edge) {
            found = Some(panes[i].id);
        }
    }
    assert(panes@.take(panes@.len() as int) =~= panes@);
    found
}

/// The panes that share an edge with a pane: the first at each edge.
pub open spec fn neighbors_of(panes: Seq<PaneState>, pane: PaneState) -> Neighbors {
    Neighbors {
        left: neighbor(panes, pane, Edge::Left),
        right: neighbor(panes, pane, Edge::Right),
        up: neighbor(panes, pane, Edge::Up),
        down: neighbor(panes, pane, Edge::Down),
    }
}

/// The panes that share an edge with a pane: the first at each edge.
pub fn neighbors(panes: &Vec<PaneState>, pane: PaneState) -> (r: Neighbors)
    ensures
        r == neighbors_of(panes@, pane),
{
    Neighbors {
        left: find_neighbor(panes, pane, Edge::Left),
        right: find_neighbor(panes, pane, Edge::Right),
        up: find_neighbor(panes, pane, Edge::Up),
        down: find_neighbor(panes, pane, Edge::Down),
    }
}

/// Two panes share an edge both ways: one is to the right of the other exactly if
/// that is to the left of it, and likewise above and below.
pub proof fn an_edge_is_shared_both_ways(a: PaneState, b: PaneState)
    ensures
        shares(a, b, Edge::Right) == shares(b, a, Edge::Left),
        shares(a, b, Edge::Down) == shares(b, a, Edge::Up),
{
}

/// What a button of a pane shows.
#[derive(Clone, Copy, Debug, PartialEq, Eq, Structural)]
pub enum ChromeIcon {
    SplitRight,
    SplitBelow,
    MoveLeft,
    MoveRight,
    MoveUp,
    MoveDown,
    Zoom,
    Restore,
    Close,
}

/// What a button says when the pointer rests on it.
pub open spec fn tip_text(icon: ChromeIcon) -> Seq<char> {
    match icon {
        ChromeIcon::SplitRight => "Split right"@,
        ChromeIcon::SplitBelow => "Split below"@,
        ChromeIcon::MoveLeft => "Move left"@,
        ChromeIcon::MoveRight => "Move right"@,
        ChromeIcon::MoveUp => "Move up"@,
        ChromeIcon::MoveDown => "Move down"@,
        ChromeIcon::Zoom => "Maximize this pane"@,
        ChromeIcon::Restore => "Restore pane layout"@,
        ChromeIcon::Close => "Close this pane"@,
    }
}

impl ChromeIcon {
    /// What the button says when the pointer rests on it.
    pub fn tip(self) -> (r: &'static str)
        ensures
            r@ == tip_text(self),
    {
        match self {
            ChromeIcon::SplitRight => "Split right",
            ChromeIcon::SplitBelow => "Split below",
            ChromeIcon::MoveLeft => "Move left",
            ChromeIcon::MoveRight => "Move right",
            ChromeIcon::MoveUp => "Move up",
            ChromeIcon::MoveDown => "Move down",
            ChromeIcon::Zoom => "Maximize this pane",
            ChromeIcon::Restore => "Restore pane layout",
            ChromeIcon::Close => "Close this pane",
        }
    }
}

/// A button of a pane: what it shows, and the other pane that it concerns.
#[derive(Clone, Copy, Debug, PartialEq, Eq, Structural)]
pub struct Button {
    pub icon: ChromeIcon,
    pub other: Option<PaneId>,
}

/// What a button asks for.
pub open spec fn button_input(button: Button) -> Input {
    match button.icon {
        ChromeIcon::SplitRight => Input::Split(Axis::Columns),
        ChromeIcon::SplitBelow => Input::Split(Axis::Rows),
        ChromeIcon::Zoom | ChromeIcon::Restore => Input::ZoomPane,
        ChromeIcon::Close => Input::KillPane,
        _ => match button.other {
            Some(other) => Input::SwapPane(other),
            None => Input::SelectPane,
        },
    }
}

impl Button {
    /// What the button asks for.
    pub fn action(self) -> (r: Action)
        ensures
            r@ == button_input(self),
            self.icon == ChromeIcon::SplitRight ==> r == Action::Split(Axis::Columns),
            self.icon == ChromeIcon::SplitBelow ==> r == Action::Split(Axis::Rows),
            self.icon == ChromeIcon::Zoom || self.icon == ChromeIcon::Restore ==> r
                == Action::ZoomPane,
            self.icon == ChromeIcon::Close ==> r == Action::KillPane,
    {
        match self.icon {
            ChromeIcon::SplitRight => Action::Split(Axis::Columns),
            ChromeIcon::SplitBelow => Action::Split(Axis::Rows),
            ChromeIcon::Zoom | ChromeIcon::Restore => Action::ZoomPane,
            ChromeIcon::Close => Action::KillPane,
            _ => match self.other {
                Some(other) => Action::SwapPane(other),
                None => Action::SelectPane,
            },
        }
    }
}

/// The button that swaps with a neighbour, where there is one.
pub open spec fn move_button(icon: ChromeIcon, other: Option<PaneId>) -> Seq<Button> {
    match other {
        Some(_) => seq![Button { icon, other }],
        None => Seq::empty(),
    }
}

/// The buttons of a pane, from right to left. The last pane of a window cannot be
/// closed, and a pane moves only toward a neighbour.
pub open spec fn buttons(can_kill: bool, zoomed: bool, neighbors: Neighbors) -> Seq<Button> {
    (if can_kill {
        seq![Button { icon: ChromeIcon::Close, other: None }]
    } else {
        Seq::empty()
    }) + seq![
        Button {
            icon: if zoomed {
                ChromeIcon::Restore
            } else {
                ChromeIcon::Zoom
            },
            other: None,
        },
    ] + move_button(ChromeIcon::MoveDown, neighbors.down) + move_button(
        ChromeIcon::MoveUp,
        neighbors.up,
    ) + move_button(ChromeIcon::MoveRight, neighbors.right) + move_button(
        ChromeIcon::MoveLeft,
        neighbors.left,
    ) + seq![
        Button { icon: ChromeIcon::SplitBelow, other: None },
        Button { icon: ChromeIcon::SplitRight, other: None },
    ]
}

fn push_move(v: &mut Vec<Button>, icon: ChromeIcon, other: Option<PaneId>)
    ensures
        final(v)@ == old(v)@ + move_button(icon, other),
{
    if other.is_some() {
        v.push(Button { icon, other });
        assert(v@ =~= old(v)@ + move_button(icon, other));
    } else {
        assert(v@ =~= old(v)@ + move_button(icon, other));
    }
}

/// The buttons of a pane, from right to left.
pub fn chrome(can_kill: bool, zoomed: bool, neighbors: Neighbors) -> (r: Vec<Button>)
    ensures
        r@ == buttons(can_kill, zoomed, neighbors),
{
    let mut v: Vec<Button> = Vec::new();
    if can_kill {
        v.push(Button { icon: ChromeIcon::Close, other: None });
    }
    let zoom: ChromeIcon = if zoomed {
        ChromeIcon::Restore
    } else {
        ChromeIcon::Zoom
    };
    v.push(Button { icon: zoom, other: None });
    push_move(&mut v, ChromeIcon::MoveDown, neighbors.down);
    push_move(&mut v, ChromeIcon::MoveUp, neighbors.up);
    push_move(&mut v, ChromeIcon::MoveRight, neighbors.right);
    push_move(&mut v, ChromeIcon::MoveLeft, neighbors.left);
    v.push(Button { icon: ChromeIcon::SplitBelow, other: None });
    v.push(Button { icon: ChromeIcon::SplitRight, other: None });
    assert(v@ =~= buttons(can_kill, zoomed, neighbors));
    v
}

/// A pane's buttons close it only where it may be closed, and swap it only with a
/// neighbour that it has.
pub proof fn buttons_ask_for_what_is_possible(can_kill: bool, zoomed: bool, neighbors: Neighbors)
    ensures
        forall|i: int|
            0 <= i < buttons(can_kill, zoomed, neighbors).len() ==> {
                let asked = button_input(#[trigger] buttons(can_kill, zoomed, neighbors)[i]);
                &&& asked is KillPane ==> can_kill
                &&& !(asked is SelectPane)
                &&& asked is SwapPane ==> (neighbors.left == Some(asked->SwapPane_0)
                    || neighbors.right == Some(asked->SwapPane_0) || neighbors.up == Some(
                    asked->SwapPane_0,
                ) || neighbors.down == Some(asked->SwapPane_0))
            },
{
    let all = buttons(can_kill, zoomed, neighbors);
    let close = if can_kill {
        seq![Button { icon: ChromeIcon::Close, other: None }]
    } else {
        Seq::empty()
    };
    let zoom = seq![
        Button {
            icon: if zoomed {
                ChromeIcon::Restore
            } else {
                ChromeIcon::Zoom
            },
            other: None,
        },
    ];
    let a = close + zoom;
    let b = a + move_button(ChromeIcon::MoveDown, neighbors.down);
    let c = b + move_button(ChromeIcon::MoveUp, neighbors.up);
    let d = c + move_button(ChromeIcon::MoveRight, neighbors.right);
    let e = d + move_button(ChromeIcon::MoveLeft, neighbors.left);
    assert forall|i: int| 0 <= i < all.len() implies {
        let asked = button_input(#[trigger] all[i]);
        &&& asked is KillPane ==> can_kill
        &&& !(asked is SelectPane)
        &&& asked is SwapPane ==> (neighbors.left == Some(asked->SwapPane_0) || neighbors.right
            == Some(asked->SwapPane_0) || neighbors.up == Some(asked->SwapPane_0)
            || neighbors.down == Some(asked->SwapPane_0))
    } by {
        if i < close.len() {
        } else if i < a.len() {
        } else if i < b.len() {
            assert(neighbors.down is Some);
        } else if i < c.len() {
            assert(neighbors.up is Some);
        } else if i < d.len() {
            assert(neighbors.right is Some);
        } else if i < e.len() {
            assert(neighbors.left is Some);
        }
    }
}

/// Splitting to the right divides the columns and splitting below divides the rows,
/// whatever else the button holds.
pub proof fn a_split_button_splits_its_own_way(other: Option<PaneId>)
    ensures
        button_input(Button { icon: ChromeIcon::SplitRight, other }) == Input::Split(Axis::Columns),
        button_input(Button { icon: ChromeIcon::SplitBelow, other }) == Input::Split(Axis::Rows),
{
}

/// The button that closes a pane closes it, and the two that zoom toggle the zoom.
pub proof fn a_close_button_closes_and_a_zoom_button_zooms(other: Option<PaneId>)
    ensures
        button_input(Button { icon: ChromeIcon::Close, other }) == Input::KillPane,
        button_input(Button { icon: ChromeIcon::Zoom, other }) == Input::ZoomPane,
        button_input(Button { icon: ChromeIcon::Restore, other }) == Input::ZoomPane,
{
}

/// The buttons that move a pane swap it with the neighbour on their own side.
pub proof fn a_move_button_swaps_toward_its_side(neighbors: Neighbors, can_kill: bool, zoomed: bool)
    ensures
        forall|i: int|
            0 <= i < buttons(can_kill, zoomed, neighbors).len() ==> {
                let button = #[trigger] buttons(can_kill, zoomed, neighbors)[i];
                &&& button.icon == ChromeIcon::MoveLeft ==> neighbors.left is Some && button_input(
                    button,
                ) == Input::SwapPane(neighbors.left->0)
                &&& button.icon == ChromeIcon::MoveRight ==> neighbors.right is Some
                    && button_input(button) == Input::SwapPane(neighbors.right->0)
                &&& button.icon == ChromeIcon::MoveUp ==> neighbors.up is Some && button_input(
                    button,
                ) == Input::SwapPane(neighbors.up->0)
                &&& button.icon == ChromeIcon::MoveDown ==> neighbors.down is Some
                    && button_input(button) == Input::SwapPane(neighbors.down->0)
            },
{
    let all = buttons(can_kill, zoomed, neighbors);
    let close = if can_kill {
        seq![Button { icon: ChromeIcon::Close, other: None }]
    } else {
        Seq::empty()
    };
    let zoom = seq![
        Button {
            icon: if zoomed {
                ChromeIcon::Restore
            } else {
                ChromeIcon::Zoom
            },
            other: None,
        },
    ];
    let a = close + zoom;
    let b = a + move_button(ChromeIcon::MoveDown, neighbors.down);
    let c = b + move_button(ChromeIcon::MoveUp, neighbors.up);
    let d = c + move_button(ChromeIcon::MoveRight, neighbors.right);
    let e = d + move_button(ChromeIcon::MoveLeft, neighbors.left);
    assert forall|i: int| 0 <= i < all.len() implies {
        let button = #[trigger] all[i];
        &&& button.icon == ChromeIcon::MoveLeft ==> neighbors.left is Some && button_input(button)
            == Input::SwapPane(neighbors.left->0)
        &&& button.icon == ChromeIcon::MoveRight ==> neighbors.right is Some && button_input(button)
            == Input::SwapPane(neighbors.right->0)
        &&& button.icon == ChromeIcon::MoveUp ==> neighbors.up is Some && button_input(button)
            == Input::SwapPane(neighbors.up->0)
        &&& button.icon == ChromeIcon::MoveDown ==> neighbors.down is Some && button_input(button)
            == Input::SwapPane(neighbors.down->0)
    } by {
        if i < close.len() {
            assert(all[i] == close[i]);
        } else if i < a.len() {
            assert(all[i] == zoom[i - close.len()]);
        } else if i < b.len() {
            assert(all[i] == (Button { icon: ChromeIcon::MoveDown, other: neighbors.down }));
        } else if i < c.len() {
            assert(all[i] == (Button { icon: ChromeIcon::MoveUp, other: neighbors.up }));
        } else if i < d.len() {
            assert(all[i] == (Button { icon: ChromeIcon::MoveRight, other: neighbors.right }));
        } else if i < e.len() {
            assert(all[i] == (Button { icon: ChromeIcon::MoveLeft, other: neighbors.left }));
        } else {
            assert(i == e.len() || i == e.len() + 1);
        }
    }
}

/// Closing is offered exactly where a pane may be closed, and of the two zooms the one
/// that changes something.
pub proof fn a_button_is_there_only_where_it_works(
    can_kill: bool,
    zoomed: bool,
    neighbors: Neighbors,
    i: int,
)
    requires
        0 <= i < buttons(can_kill, zoomed, neighbors).len(),
    ensures
        ({
            let icon = buttons(can_kill, zoomed, neighbors)[i].icon;
            &&& icon == ChromeIcon::Close ==> can_kill
            &&& icon == ChromeIcon::Zoom ==> !zoomed
            &&& icon == ChromeIcon::Restore ==> zoomed
        }),
{
    let all = buttons(can_kill, zoomed, neighbors);
    let close = if can_kill {
        seq![Button { icon: ChromeIcon::Close, other: None }]
    } else {
        Seq::empty()
    };
    let zoom = seq![
        Button {
            icon: if zoomed {
                ChromeIcon::Restore
            } else {
                ChromeIcon::Zoom
            },
            other: None,
        },
    ];
    let a = close + zoom;
    let b = a + move_button(ChromeIcon::MoveDown, neighbors.down);
    let c = b + move_button(ChromeIcon::MoveUp, neighbors.up);
    let d = c + move_button(ChromeIcon::MoveRight, neighbors.right);
    let e = d + move_button(ChromeIcon::MoveLeft, neighbors.left);
    if i < close.len() {
        assert(all[i] == close[i]);
    } else if i < a.len() {
        assert(all[i] == zoom[i - close.len()]);
    } else if i < b.len() {
        assert(all[i].icon == ChromeIcon::MoveDown);
    } else if i < c.len() {
        assert(all[i].icon == ChromeIcon::MoveUp);
    } else if i < d.len() {
        assert(all[i].icon == ChromeIcon::MoveRight);
    } else if i < e.len() {
        assert(all[i].icon == ChromeIcon::MoveLeft);
    } else {
        assert(i == e.len() || i == e.len() + 1);
    }
}

proof fn lemma_either_contains(a: Seq<Button>, b: Seq<Button>, button: Button)
    ensures
        a.contains(button) || b.contains(button) ==> (a + b).contains(button),
{
    if a.contains(button) {
        let i = choose|i: int| 0 <= i < a.len() && a[i] == button;
        assert((a + b)[i] == button);
    } else if b.contains(button) {
        let i = choose|i: int| 0 <= i < b.len() && b[i] == button;
        assert((a + b)[a.len() + i] == button);
    }
}

/// Splitting and one of the two zooms are always offered, closing wherever a pane may
/// be closed, and moving toward every neighbour that there is.
pub proof fn every_button_that_works_is_there(
    can_kill: bool,
    zoomed: bool,
    neighbors: Neighbors,
    button: Button,
)
    requires
        match button.icon {
            ChromeIcon::SplitRight | ChromeIcon::SplitBelow => button.other is None,
            ChromeIcon::Zoom => !zoomed && button.other is None,
            ChromeIcon::Restore => zoomed && button.other is None,
            ChromeIcon::Close => can_kill && button.other is None,
            ChromeIcon::MoveLeft => neighbors.left is Some && button.other == neighbors.left,
            ChromeIcon::MoveRight => neighbors.right is Some && button.other == neighbors.right,
            ChromeIcon::MoveUp => neighbors.up is Some && button.other == neighbors.up,
            ChromeIcon::MoveDown => neighbors.down is Some && button.other == neighbors.down,
        },
    ensures
        buttons(can_kill, zoomed, neighbors).contains(button),
{
    let close = if can_kill {
        seq![Button { icon: ChromeIcon::Close, other: None }]
    } else {
        Seq::empty()
    };
    let zoom = seq![
        Button {
            icon: if zoomed {
                ChromeIcon::Restore
            } else {
                ChromeIcon::Zoom
            },
            other: None,
        },
    ];
    let down = move_button(ChromeIcon::MoveDown, neighbors.down);
    let up = move_button(ChromeIcon::MoveUp, neighbors.up);
    let right = move_button(ChromeIcon::MoveRight, neighbors.right);
    let left = move_button(ChromeIcon::MoveLeft, neighbors.left);
    let splits = seq![
        Button { icon: ChromeIcon::SplitBelow, other: None },
        Button { icon: ChromeIcon::SplitRight, other: None },
    ];
    lemma_either_contains(close, zoom, button);
    lemma_either_contains(close + zoom, down, button);
    lemma_either_contains(close + zoom + down, up, button);
    lemma_either_contains(close + zoom + down + up, right, button);
    lemma_either_contains(close + zoom + down + up + right, left, button);
    lemma_either_contains(close + zoom + down + up + right + left, splits, button);
    match button.icon {
        ChromeIcon::SplitRight => assert(splits[1] == button),
        ChromeIcon::SplitBelow => assert(splits[0] == button),
        ChromeIcon::Zoom | ChromeIcon::Restore => assert(zoom[0] == button),
        ChromeIcon::Close => assert(close[0] == button),
        ChromeIcon::MoveLeft => assert(left[0] == button),
        ChromeIcon::MoveRight => assert(right[0] == button),
        ChromeIcon::MoveUp => assert(up[0] == button),
        ChromeIcon::MoveDown => assert(down[0] == button),
    }
}

/// A button says what it does.
pub proof fn a_button_says_what_it_does()
    ensures
        tip_text(ChromeIcon::SplitRight) == "Split right"@,
        tip_text(ChromeIcon::SplitBelow) == "Split below"@,
        tip_text(ChromeIcon::MoveLeft) == "Move left"@,
        tip_text(ChromeIcon::MoveRight) == "Move right"@,
        tip_text(ChromeIcon::MoveUp) == "Move up"@,
        tip_text(ChromeIcon::MoveDown) == "Move down"@,
        tip_text(ChromeIcon::Zoom) == "Maximize this pane"@,
        tip_text(ChromeIcon::Restore) == "Restore pane layout"@,
        tip_text(ChromeIcon::Close) == "Close this pane"@,
{
}

/// A row and a column belong to a pane.
pub open spec fn covers(pane: PaneState, column: int, row: int) -> bool {
    pane.left <= column < pane.left + pane.size.width() && pane.top <= row < pane.top
        + pane.size.height()
}

/// A pane on another's right has a cell that lies one divider to the right of one of
/// its cells, and likewise on the other sides; only panes of one window do.
pub proof fn a_neighbor_lies_beyond_the_divider(pane: PaneState, other: PaneState, edge: Edge)
    requires
        shares(pane, other, edge),
        pane.size.width() > 0 && pane.size.height() > 0,
        other.size.width() > 0 && other.size.height() > 0,
    ensures
        pane.window == other.window,
        exists|column: int, row: int|
            #[trigger] covers(pane, column, row) && (match edge {
                Edge::Left => covers(other, column - 2, row),
                Edge::Right => covers(other, column + 2, row),
                Edge::Up => covers(other, column, row - 2),
                Edge::Down => covers(other, column, row + 2),
            }),
{
    let row = if pane.top < other.top {
        other.top as int
    } else {
        pane.top as int
    };
    let column = if pane.left < other.left {
        other.left as int
    } else {
        pane.left as int
    };
    match edge {
        Edge::Left => {
            assert(covers(pane, pane.left as int, row));
            assert(covers(other, pane.left - 2, row));
        },
        Edge::Right => {
            assert(covers(pane, pane.left + pane.size.width() - 1, row));
            assert(covers(other, pane.left + pane.size.width() + 1, row));
        },
        Edge::Up => {
            assert(covers(pane, column, pane.top as int));
            assert(covers(other, column, pane.top - 2));
        },
        Edge::Down => {
            assert(covers(pane, column, pane.top + pane.size.height() - 1));
            assert(covers(other, column, pane.top + pane.size.height() + 1));
        },
    }
}

/// A pane that begins right behind the divider, beside a row or a column of the other,
/// shares its edge.
pub proof fn a_pane_beyond_the_divider_is_a_neighbor(
    pane: PaneState,
    other: PaneState,
    column: int,
    row: int,
)
    requires
        pane.window == other.window,
        covers(pane, column, row),
    ensures
        other.left == pane.left + pane.size.width() + 1 && covers(
            other,
            other.left as int,
            row,
        ) ==> shares(pane, other, Edge::Right) && shares(other, pane, Edge::Left),
        other.top == pane.top + pane.size.height() + 1 && covers(
            other,
            column,
            other.top as int,
        ) ==> shares(pane, other, Edge::Down) && shares(other, pane, Edge::Up),
{
}

proof fn lemma_neighbor(panes: Seq<PaneState>, pane: PaneState, edge: Edge)
    ensures
        match neighbor(panes, pane, edge) {
            Some(id) => exists|i: int|
                0 <= i < panes.len() && #[trigger] shares(pane, panes[i], edge) && panes[i].id == id
                    && forall|j: int| 0 <= j < i ==> !shares(pane, #[trigger] panes[j], edge),
            None => forall|i: int| 0 <= i < panes.len() ==> !#[trigger] shares(pane, panes[i], edge),
        },
    decreases panes.len(),
{
    if panes.len() > 0 {
        let d = panes.drop_last();
        lemma_neighbor(d, pane, edge);
        match neighbor(d, pane, edge) {
            Some(id) => {
                let i = choose|i: int|
                    0 <= i < d.len() && #[trigger] shares(pane, d[i], edge) && d[i].id == id
                        && forall|j: int| 0 <= j < i ==> !shares(pane, #[trigger] d[j], edge);
                assert(shares(pane, panes[i], edge));
                assert forall|j: int| 0 <= j < i implies !shares(
                    pane,
                    #[trigger] panes[j],
                    edge,
                ) by {
                    assert(!shares(pane, d[j], edge));
                }
            },
            None => {
                assert forall|j: int| 0 <= j < panes.len() - 1 implies !shares(
                    pane,
                    #[trigger] panes[j],
                    edge,
                ) by {
                    assert(!shares(pane, d[j], edge));
                }
                if shares(pane, panes.last(), edge) {
                    assert(shares(pane, panes[panes.len() - 1], edge));
                }
            },
        }
    }
}

/// A pane's neighbour on each side is the first pane that shares that edge, and where
/// there is none no pane does.
pub proof fn a_neighbor_is_the_first_at_its_edge(panes: Seq<PaneState>, pane: PaneState, i: int)
    requires
        0 <= i < panes.len(),
        forall|j: int| 0 <= j < panes.len() && j != i ==> (#[trigger] panes[j]).id != panes[i].id,
    ensures
        neighbors_of(panes, pane).left == Some(panes[i].id) <==> shares(pane, panes[i], Edge::Left)
            && forall|j: int| 0 <= j < i ==> !shares(pane, #[trigger] panes[j], Edge::Left),
        neighbors_of(panes, pane).right == Some(panes[i].id) <==> shares(
            pane,
            panes[i],
            Edge::Right,
        ) && forall|j: int| 0 <= j < i ==> !shares(pane, #[trigger] panes[j], Edge::Right),
        neighbors_of(panes, pane).up == Some(panes[i].id) <==> shares(pane, panes[i], Edge::Up)
            && forall|j: int| 0 <= j < i ==> !shares(pane, #[trigger] panes[j], Edge::Up),
        neighbors_of(panes, pane).down == Some(panes[i].id) <==> shares(pane, panes[i], Edge::Down)
            && forall|j: int| 0 <= j < i ==> !shares(pane, #[trigger] panes[j], Edge::Down),
{
    lemma_neighbor(panes, pane, Edge::Left);
    lemma_neighbor(panes, pane, Edge::Right);
    lemma_neighbor(panes, pane, Edge::Up);
    lemma_neighbor(panes, pane, Edge::Down);
}

/// A plain single click goes to an application that asked for the mouse and is live.
/// Otherwise one click clears the selection, two select a word, three a line, and a
/// drag starts a selection.
pub proof fn clicks_select_unless_the_application_wants_them(pressed: Pressed)
    ensures
        response(pressed) == Response::Forward <==> pressed.clicked && !pressed.double_clicked
            && !pressed.triple_clicked && pressed.mouse && pressed.unmodified && !pressed.frozen,
        pressed.triple_clicked ==> response(pressed) == Response::Line,
        pressed.double_clicked && !pressed.triple_clicked ==> response(pressed) == Response::Word,
        pressed.clicked && !pressed.double_clicked && !pressed.triple_clicked && (!pressed.mouse
            || !pressed.unmodified || pressed.frozen) ==> response(pressed) == Response::Clear,
        !pressed.clicked && !pressed.double_clicked && !pressed.triple_clicked ==> response(pressed)
            == (if pressed.drag_started {
            Response::Anchor
        } else {
            Response::Nothing
        }),
{
}

/// The pane that has the keyboard is the last that said so; one that lost it gives it
/// up, and no other pane takes it away.
pub proof fn the_keyboard_follows_the_active_pane(
    focused: Option<PaneId>,
    pane: PaneId,
    other: PaneId,
)
    requires
        pane != other,
    ensures
        focus(true, focused, pane) == Some(pane),
        focus(false, Some(pane), pane) is None,
        focus(false, Some(other), pane) == Some(other),
        focus(false, None, pane) is None,
{
}

/// The wheel sends one input for each tick, in either direction, to an application
/// that asked for the mouse or shows the alternate screen, and nothing to another.
pub proof fn the_wheel_sends_one_input_a_tick(
    ticks: i32,
    mouse: bool,
    alternate: bool,
    column: usize,
    row: usize,
    sgr: bool,
)
    ensures
        ({
            let sent = wheel_inputs(ticks, mouse, alternate, column, row, sgr);
            &&& !mouse && !alternate ==> sent.len() == 0
            &&& mouse || alternate ==> sent.len() == (if ticks >= 0 {
                ticks as int
            } else {
                -ticks
            })
            &&& forall|i: int|
                0 <= i < sent.len() ==> {
                    &&& alternate && mouse && sgr && ticks > 0 ==> #[trigger] sent[i]
                        == Input::Bytes(
                        input::sgr_report(64, input::one_based(column), input::one_based(row), 'M'),
                    )
                    &&& alternate && mouse && sgr && ticks < 0 ==> sent[i] == Input::Bytes(
                        input::sgr_report(65, input::one_based(column), input::one_based(row), 'M'),
                    )
                    &&& alternate && mouse && !sgr && ticks > 0 ==> sent[i] == Input::Bytes(
                        input::x10_report(64, input::one_based(column), input::one_based(row)),
                    )
                    &&& alternate && mouse && !sgr && ticks < 0 ==> sent[i] == Input::Bytes(
                        input::x10_report(65, input::one_based(column), input::one_based(row)),
                    )
                    &&& alternate && !mouse && ticks > 0 ==> sent[i] == Input::Bytes(
                        seq![27u8, 91u8, 65u8],
                    )
                    &&& alternate && !mouse && ticks < 0 ==> sent[i] == Input::Bytes(
                        seq![27u8, 91u8, 66u8],
                    )
                    &&& !alternate && ticks > 0 ==> sent[i] == Input::Key(
                        Key::WheelUp,
                        Modifiers { control: false, alt: false, shift: false },
                    )
                    &&& !alternate && ticks < 0 ==> sent[i] == Input::Key(
                        Key::WheelDown,
                        Modifiers { control: false, alt: false, shift: false },
                    )
                }
        }),
{
}

/// A click that is passed on is a press and then a release at the same cell.
pub proof fn a_forwarded_click_is_a_press_and_a_release(
    column: usize,
    row: usize,
    sgr: bool,
    r: Seq<Action>,
)
    requires
        column < 223 && row < 223,
        forwards(column, row, sgr, r),
    ensures
        r.len() == 2 && r[0] is Bytes && r[1] is Bytes,
        !sgr ==> r[0]->Bytes_0@ == seq![
            27u8,
            91u8,
            77u8,
            32u8,
            (column + 33) as u8,
            (row + 33) as u8,
        ] && r[1]->Bytes_0@ == seq![27u8, 91u8, 77u8, 35u8, (column + 33) as u8, (row + 33) as u8],
        sgr ==> r[0]->Bytes_0@ == input::sgr_report(0, (column + 1) as nat, (row + 1) as nat, 'M')
            && r[1]->Bytes_0@ == input::sgr_report(0, (column + 1) as nat, (row + 1) as nat, 'm'),
{
}

/// A text of up to a mebibyte is copied whole, and a longer one not at all.
pub proof fn a_text_is_copied_whole_or_not_at_all(
    content: Seq<char>,
    message: Seq<char>,
    r: Copied,
)
    requires
        copies(content, message, r),
    ensures
        r.made <==> text::byte_len(content) <= 1_048_576,
        r.made ==> r.notice@ == message,
        !r.made ==> r.notice@ == "Selection exceeds the 1 MiB clipboard limit."@,
{
}

} // verus!
