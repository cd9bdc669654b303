//! A pane model with no local terminal device and no renderer.
//!
//! Device replies and side effects are suppressed: tmux owns the answers that
//! an application gets from its terminal.
use vstd::prelude::*;
use crate::links;
use crate::model::Size;
use crate::screen;
use crate::screen::{dimensions, done, history, offset, Extent, Look, Mode, Op, Point, Screen, Shape, Side, Span, Style};
use crate::sessions::push_bytes;
use crate::text;
use crate::width;
use crate::width::{has_wide, sifted};

verus! {

broadcast use crate::screen::lemma_one_more;

/// The most cells of the primary grid with its history.
pub const MAX_BUFFER_CELLS: usize = 131_072;

/// The most lines of history.
pub const MAX_HISTORY_LINES: usize = 10_000;

/// The most bytes that are held back during a drag.
pub const MAX_HELD_OUTPUT: usize = 1_048_576;

/// Longest underlined run that still counts as a "click here" kind of link.
/// Longer runs are underlined content.
pub const MAX_AFFORDANCE_CELLS: usize = 40;

/// How many lines of history a grid gets: what was asked for, within the bound
/// on lines and the bound on cells.
pub open spec fn history_room(size: Size, lines: nat) -> nat {
    let by_cells = (MAX_BUFFER_CELLS as nat / size.width()) as int - size.height();
    let room = if by_cells < 0 {
        0
    } else {
        by_cells as nat
    };
    let wanted = if lines < MAX_HISTORY_LINES {
        lines
    } else {
        MAX_HISTORY_LINES as nat
    };
    if wanted < room {
        wanted
    } else {
        room
    }
}

/// The cells of the primary grid with its history and of the alternate grid.
pub open spec fn cells_of(size: Size, history: nat) -> nat {
    (history + 2 * size.height()) * size.width()
}

/// A text without blanks and line ends at its end.
pub open spec fn without_blanks(s: Seq<char>) -> Seq<char>
    decreases s.len(),
{
    if s.len() > 0 && (s.last() == ' ' || s.last() == '\r' || s.last() == '\n') {
        without_blanks(s.drop_last())
    } else {
        s
    }
}

/// The bytes of pieces of output together.
pub open spec fn held_size(pieces: Seq<Seq<u8>>) -> nat
    decreases pieces.len(),
{
    if pieces.len() == 0 {
        0
    } else {
        held_size(pieces.drop_last()) + pieces.last().len()
    }
}

/// What is held back once another piece of output comes: as much of it as there is
/// room for.
pub open spec fn held_with(held: Seq<Seq<u8>>, bytes: Seq<u8>) -> Seq<Seq<u8>> {
    let room = MAX_HELD_OUTPUT - held_size(held);
    let kept = bytes.take(
        if bytes.len() < room {
            bytes.len() as int
        } else {
            room
        },
    );
    if kept.len() == 0 {
        held
    } else {
        held.push(kept)
    }
}

/// What is held back once several pieces of output have come.
pub open spec fn held_with_all(held: Seq<Seq<u8>>, pieces: Seq<Seq<u8>>) -> Seq<Seq<u8>>
    decreases pieces.len(),
{
    if pieces.len() == 0 {
        held
    } else {
        held_with(held_with_all(held, pieces.drop_last()), pieces.last())
    }
}

/// What an emulator reads of a piece of output: all of it, but in a single column
/// no byte that would complete a wide character.
pub open spec fn taken(ops: Seq<Op>, bytes: Seq<u8>) -> Seq<u8> {
    if dimensions(ops).0 >= 2 {
        bytes
    } else {
        sifted(screen::stream(ops), bytes)
    }
}

/// What was done to an emulator once it has read a piece of output. An empty piece
/// is none.
pub open spec fn fed(ops: Seq<Op>, bytes: Seq<u8>) -> Seq<Op> {
    let read = taken(ops, bytes);
    if read.len() == 0 {
        ops
    } else {
        ops.push(Op::Feed(read))
    }
}

/// A terminal can be given this size: a grid that may hold a wide character does
/// not become a single column.
pub open spec fn resizable(ops: Seq<Op>, from: Size, to: Size) -> bool {
    to.width() >= 2 || to == from || !has_wide(screen::stream(ops))
}

/// What was done to an emulator once it has read pieces of output one by one.
pub open spec fn fed_all(ops: Seq<Op>, pieces: Seq<Seq<u8>>) -> Seq<Op>
    decreases pieces.len(),
{
    if pieces.len() == 0 {
        ops
    } else {
        fed(fed_all(ops, pieces.drop_last()), pieces.last())
    }
}

/// The pieces that a list holds.
pub open spec fn pieces_of(v: Seq<Vec<u8>>) -> Seq<Seq<u8>> {
    Seq::new(v.len(), |i: int| v[i]@)
}

/// A terminal: the emulator, its size, and what is held back from it.
pub struct Terminal {
    screen: Screen,
    size: Size,
    history_limit: usize,
    held_output: Option<Vec<Vec<u8>>>,
    held_bytes: usize,
    /// The last bytes that the emulator has read, and whether a wide character was
    /// ever among them.
    recent: Vec<u8>,
    wide: bool,
}

/// What a cell adds to a text: nothing where it belongs to a wide character beside
/// it.
pub open spec fn cell_text(ops: Seq<Op>, line: int, column: nat) -> Seq<char> {
    let style = screen::style(ops, line, column);
    if style.spacer || style.leading {
        Seq::empty()
    } else {
        let glyph = screen::glyph(ops, line, column);
        seq![glyph.c] + glyph.zerowidth
    }
}

/// The text of the cells of a line, one by one, from a column up to another.
pub open spec fn cells_text(ops: Seq<Op>, line: int, from: int, to: int) -> Seq<char>
    decreases to - from,
{
    if to <= from {
        Seq::empty()
    } else {
        cells_text(ops, line, from, to - 1) + cell_text(ops, line, (to - 1) as nat)
    }
}

/// The text of a line of a terminal: as the emulator reads it, or cell by cell
/// where half of a wide character lies outside of the grid.
pub open spec fn row_of(ops: Seq<Op>, line: int) -> Seq<char> {
    let columns = dimensions(ops).0 as int;
    without_blanks(
        if screen::readable(ops, line, 0, columns - 1, true) {
            screen::line_string(ops, line, (columns - 1) as nat)
        } else {
            cells_text(ops, line, 0, columns)
        },
    )
}

/// Every corner of a selection is a cell of the grid.
pub open spec fn span_on_grid(ops: Seq<Op>, span: Span) -> bool {
    &&& screen::on_grid(ops, span.start.line as int)
    &&& screen::on_grid(ops, span.end.line as int)
    &&& span.start.line <= span.end.line
    &&& span.start.column < dimensions(ops).0
    &&& span.end.column < dimensions(ops).0
}

/// One line of a selection, cell by cell.
pub open spec fn span_cells(ops: Seq<Op>, span: Span, line: int) -> Seq<char> {
    without_blanks(
        cells_text(
            ops,
            line,
            screen::span_from(span, line),
            screen::span_to(span, line, dimensions(ops).0) + 1,
        ),
    )
}

/// The lines of a selection down to this one, cell by cell.
pub open spec fn span_text(ops: Seq<Op>, span: Span, line: int) -> Seq<char>
    decreases line - span.start.line,
{
    if line <= span.start.line {
        span_cells(ops, span, line)
    } else {
        span_text(ops, span, line - 1) + seq!['\n'] + span_cells(ops, span, line)
    }
}

/// The selected text: as the emulator reads it, or cell by cell where half of a
/// wide character lies outside of the grid. A block that ends before it begins
/// selects nothing.
pub open spec fn selection_text(ops: Seq<Op>) -> Option<Seq<char>> {
    match screen::selected_span(ops) {
        Some(span) => if screen::span_readable(ops, span) {
            screen::selected(ops)
        } else if span_on_grid(ops, span) {
            Some(span_text(ops, span, span.end.line as int))
        } else {
            None
        },
        None => screen::selected(ops),
    }
}

/// Where the cursor is shown: on the first half of a wide character where it
/// stands on the second.
pub open spec fn cursor_cell(ops: Seq<Op>) -> Point {
    let at = screen::cursor_point(ops);
    if screen::on_grid(ops, at.line as int) && 0 < at.column < dimensions(ops).0 && screen::style(
        ops,
        at.line as int,
        at.column as nat,
    ).spacer {
        Point { line: at.line, column: (at.column - 1) as usize }
    } else {
        at
    }
}

/// How the cursor is shown.
pub open spec fn cursor_shape(ops: Seq<Op>) -> Shape {
    if screen::mode_set(ops, Mode::ShowCursor) {
        screen::cursor_form(ops)
    } else {
        Shape::Hidden
    }
}

/// The cell of the grid that is nearest to a point.
pub open spec fn nearest(ops: Seq<Op>, point: Point) -> Point {
    Point {
        line: if point.line < -(history(ops) as int) {
            -(history(ops) as int) as i32
        } else if point.line >= dimensions(ops).1 {
            (dimensions(ops).1 - 1) as i32
        } else {
            point.line
        },
        column: if point.column >= dimensions(ops).0 {
            (dimensions(ops).0 - 1) as usize
        } else {
            point.column
        },
    }
}

/// A cell is underlined.
pub open spec fn underlined(ops: Seq<Op>, line: int, column: int) -> bool {
    screen::style(ops, line, column as nat).underlined
}

/// The first cell of the underlined run that reaches up to a cell.
pub open spec fn run_start(ops: Seq<Op>, line: int, column: int) -> int
    decreases column,
{
    if column > 0 && underlined(ops, line, column - 1) {
        run_start(ops, line, column - 1)
    } else {
        column
    }
}

/// The last cell of the underlined run that goes on from a cell.
pub open spec fn run_end(ops: Seq<Op>, line: int, column: int, width: int) -> int
    decreases width - column,
{
    if column + 1 < width && underlined(ops, line, column + 1) {
        run_end(ops, line, column + 1, width)
    } else {
        column
    }
}

/// The length of the underlined run around a cell; zero where the cell is not
/// underlined.
pub open spec fn run_around(ops: Seq<Op>, point: Point) -> int {
    let line = point.line as int;
    let column = point.column as int;
    if underlined(ops, line, column) {
        run_end(ops, line, column, dimensions(ops).0 as int) - run_start(ops, line, column) + 1
    } else {
        0
    }
}

/// The text of a line, where the grid has that line.
pub open spec fn row_at(ops: Seq<Op>, line: int) -> Option<Seq<char>> {
    if screen::on_grid(ops, line) {
        Some(row_of(ops, line))
    } else {
        None
    }
}

/// The first link of a line, where the grid has that line.
pub open spec fn first_link_at(ops: Seq<Op>, line: int) -> Option<Seq<char>> {
    match row_at(ops, line) {
        Some(row) => links::first_link(row),
        None => None,
    }
}

/// Where a click on a cell leads: to the cell's own link; to the web link that
/// covers it; or, where the cell belongs to a short underlined run, to the first
/// web link of its line, of the line above, or of the line below.
pub open spec fn destination(ops: Seq<Op>, point: Point) -> Option<Seq<char>> {
    let cell = nearest(ops, point);
    let line = cell.line as int;
    let own = screen::hyperlink(ops, line, cell.column as nat);
    if own is Some && own->0.len() > 0 {
        own
    } else {
        match links::link_over(row_of(ops, line), cell.column as int, 0) {
            Some(link) => Some(link),
            None => {
                let run = run_around(ops, cell);
                if run == 0 || run > MAX_AFFORDANCE_CELLS {
                    None
                } else if first_link_at(ops, line) is Some {
                    first_link_at(ops, line)
                } else if first_link_at(ops, line - 1) is Some {
                    first_link_at(ops, line - 1)
                } else {
                    first_link_at(ops, line + 1)
                }
            },
        }
    }
}

fn room_for(size: Size, lines: usize) -> (r: usize)
    ensures
        r == history_room(size, lines as nat),
        r <= MAX_HISTORY_LINES,
        r * size.width() <= MAX_BUFFER_CELLS,
{
    let columns: usize = size.columns();
    let rows: usize = size.rows();
    let whole: usize = MAX_BUFFER_CELLS / columns;
    let room: usize = if whole < rows {
        0
    } else {
        whole - rows
    };
    let wanted: usize = if lines < MAX_HISTORY_LINES {
        lines
    } else {
        MAX_HISTORY_LINES
    };
    let r: usize = if wanted < room {
        wanted
    } else {
        room
    };
    assert(r * columns <= MAX_BUFFER_CELLS) by (nonlinear_arith)
        requires
            r <= whole,
            whole == MAX_BUFFER_CELLS / columns,
            columns >= 1,
    ;
    r
}

fn count_cells(size: Size, history: usize) -> (r: usize)
    requires
        history * size.width() <= MAX_BUFFER_CELLS,
        history <= MAX_HISTORY_LINES,
    ensures
        r == cells_of(size, history as nat),
{
    let columns: usize = size.columns();
    let rows: usize = size.rows();
    assert((history + 2 * rows) * columns <= 131_072 + 8192 * 4096) by (nonlinear_arith)
        requires
            history * columns <= 131_072,
            rows <= 4096,
            columns <= 4096,
            history >= 0,
            rows >= 0,
            columns >= 0,
    ;
    (history + 2 * rows) * columns
}

fn trim_blanks(s: &str) -> (r: String)
    ensures
        r@ == without_blanks(s@),
{
    let v = text::chars_of(s);
    let mut end: usize = v.len();
    assert(v@.take(end as int) =~= s@);
    while end > 0 && (v[end - 1] == ' ' || v[end - 1] == '\r' || v[end - 1] == '\n')
        invariant
            v@ == s@,
            end <= v@.len(),
            without_blanks(s@) == without_blanks(v@.take(end as int)),
        decreases end,
    {
        assert(v@.take(end as int).drop_last() =~= v@.take(end - 1));
        end = end - 1;
    }
    let part = text::part_of(v.as_slice(), 0, end);
    assert(part@ =~= v@.take(end as int));
    text::string_of(part.as_slice())
}

/// What scrolling the view comes to.
pub open spec fn scrolls(ops: Seq<Op>, lines: usize, after: Seq<Op>) -> bool {
    &&& history(after) == history(ops)
    &&& ({
        let end = history(ops);
        let goal = if lines < end {
            lines as nat
        } else {
            end
        };
        &&& offset(after) == goal
        &&& after == (if goal == offset(ops) {
            ops
        } else {
            ops.push(Op::Scroll(goal - offset(ops)))
        })
    })
}

/// What a piece of output comes to.
pub open spec fn feeds(
    ops: Seq<Op>,
    held: Option<Seq<Seq<u8>>>,
    bytes: Seq<u8>,
    after: Seq<Op>,
    left: Option<Seq<Seq<u8>>>,
) -> bool {
    match held {
        Some(held) => after == ops && left == Some(
            held_with(held, bytes),
        ),
        None => left is None && after == fed(
            ops,
            bytes,
        ),
    }
}

/// What holding output back, or letting it through, comes to.
pub open spec fn holds(
    ops: Seq<Op>,
    held: Option<Seq<Seq<u8>>>,
    hold: bool,
    after: Seq<Op>,
    left: Option<Seq<Seq<u8>>>,
) -> bool {
    if hold {
        &&& after == ops
        &&& left == (match held {
            Some(held) => Some(held),
            None => Some(Seq::empty()),
        })
    } else {
        &&& left is None
        &&& after == (match held {
            Some(held) => fed_all(ops, held),
            None => ops,
        })
    }
}

/// What restoring the cursor comes to.
pub open spec fn places_cursor(
    ops: Seq<Op>,
    size: Size,
    column: usize,
    row: usize,
    after: Seq<Op>,
) -> bool {
    after == ops.push(
        Op::Cursor {
            column: if column < size.width() {
                column as nat
            } else {
                (size.width() - 1) as nat
            },
            row: row as nat,
            wrap: column == size.width(),
        },
    )
}

/// What another size comes to.
pub open spec fn resizes(ops: Seq<Op>, from: Size, size: Size, after: Seq<Op>) -> bool {
    after == (if size == from {
        ops
    } else {
        ops.push(Op::Resize { columns: size.width(), rows: size.height() })
    })
}

impl Terminal {
    /// How the emulator was made and what was done to it since.
    pub closed spec fn ops(&self) -> Seq<Op> {
        done(self.screen)
    }

    /// The terminal's size.
    pub closed spec fn dims(&self) -> Size {
        self.size
    }

    /// The lines of history that it has room for.
    pub closed spec fn room(&self) -> nat {
        self.history_limit as nat
    }

    /// The pieces of output that are held back, while they are.
    pub closed spec fn held(&self) -> Option<Seq<Seq<u8>>> {
        match self.held_output {
            Some(held) => Some(pieces_of(held@)),
            None => None,
        }
    }

    /// What is held back is counted.
    pub closed spec fn counted(&self) -> bool {
        match self.held_output {
            Some(held) => self.held_bytes == held_size(pieces_of(held@)),
            None => self.held_bytes == 0,
        }
    }

    /// What the emulator has read is followed.
    pub closed spec fn followed(&self) -> bool {
        &&& self.recent@ == width::recent(screen::stream(self.ops()))
        &&& self.wide == has_wide(screen::stream(self.ops()))
    }

    /// The emulator has the terminal's size and history, no more is held back than
    /// may be, and a single column has read no wide character.
    pub open spec fn wf(&self) -> bool {
        &&& self.ops().len() > 0
        &&& dimensions(self.ops()) == (self.dims().width(), self.dims().height())
        &&& screen::capacity(self.ops()) == self.room()
        &&& self.room() <= MAX_HISTORY_LINES
        &&& 1 <= self.dims().width() <= crate::model::MAX_CELLS
        &&& 1 <= self.dims().height() <= crate::model::MAX_CELLS
        &&& self.held() is Some ==> held_size(self.held()->0) <= MAX_HELD_OUTPUT
        &&& self.counted()
        &&& self.followed()
        &&& self.dims().width() < 2 ==> !has_wide(screen::stream(self.ops()))
    }

    /// An empty terminal.
    pub fn new(size: Size, history_lines: usize) -> (r: Self)
        ensures
            r.wf(),
            r.dims() == size,
            r.room() == history_room(size, history_lines as nat),
            r.held() is None,
            r.ops() == seq![
                Op::New { columns: size.width(), rows: size.height(), history: r.room() },
            ],
    {
        let history_limit: usize = room_for(size, history_lines);
        let ghost made = Op::New {
            columns: size.width(),
            rows: size.height(),
            history: history_limit as nat,
        };
        proof {
            width::lemma_empty_has_no_wide();
            assert(seq![made].drop_last() =~= Seq::<Op>::empty());
            assert(screen::stream(Seq::<Op>::empty()) =~= Seq::<u8>::empty());
            assert(screen::stream(seq![made]) == screen::stream(Seq::<Op>::empty()));
        }
        Terminal {
            screen: Screen::new(size.columns(), size.rows(), history_limit),
            size,
            history_limit,
            held_output: None,
            held_bytes: 0,
            recent: Vec::new(),
            wide: false,
        }
    }

    fn read(&mut self, bytes: &[u8])
        requires
            old(self).wf(),
        ensures
            final(self).wf(),
            final(self).dims() == old(self).dims(),
            final(self).room() == old(self).room(),
            final(self).held() == old(self).held(),
            final(self).ops() == fed(old(self).ops(), bytes@),
    {
        let ghost before = screen::stream(self.ops());
        if self.size.columns() >= 2 {
            if bytes.len() > 0 {
                self.screen.advance(bytes);
                if width::follow(&mut self.recent, bytes, Ghost(before)) {
                    self.wide = true;
                }
            }
        } else {
            let kept = width::sift(&self.recent, bytes, Ghost(before));
            if kept.len() > 0 {
                self.screen.advance(kept.as_slice());
                let _ = width::follow(&mut self.recent, kept.as_slice(), Ghost(before));
            }
        }
    }

    /// Takes a piece of output. While output is held back it is kept, as much of it
    /// as there is room for; otherwise the emulator reads it. In a single column,
    /// where there is no room for a wide character, it reads no byte that would
    /// complete one.
    pub fn feed(&mut self, bytes: &[u8])
        requires
            old(self).wf(),
        ensures
            final(self).wf(),
            final(self).dims() == old(self).dims(),
            final(self).room() == old(self).room(),
            feeds(old(self).ops(), old(self).held(), bytes@, final(self).ops(), final(self).held()),
    {
        match self.held_output.take() {
            Some(held) => {
                let mut held = held;
                let ghost before = pieces_of(held@);
                let room: usize = MAX_HELD_OUTPUT - self.held_bytes;
                let count: usize = if bytes.len() < room {
                    bytes.len()
                } else {
                    room
                };
                let part = vstd::slice::slice_subrange(bytes, 0, count);
                assert(part@ =~= bytes@.take(count as int));
                if count > 0 {
                    let mut kept: Vec<u8> = Vec::new();
                    push_bytes(&mut kept, part);
                    assert(kept@ =~= part@);
                    held.push(kept);
                    self.held_bytes = self.held_bytes + count;
                    assert(pieces_of(held@) =~= before.push(part@));
                    assert(before.push(part@).drop_last() =~= before);
                }
                self.held_output = Some(held);
            },
            None => {
                self.read(bytes);
            },
        }
    }

    /// Holds output back for a drag, or lets everything that was held back through,
    /// piece by piece as it came.
    pub fn hold_output(&mut self, hold: bool)
        requires
            old(self).wf(),
        ensures
            final(self).wf(),
            final(self).dims() == old(self).dims(),
            final(self).room() == old(self).room(),
            holds(old(self).ops(), old(self).held(), hold, final(self).ops(), final(self).held()),
    {
        if hold {
            if self.held_output.is_none() {
                let none: Vec<Vec<u8>> = Vec::new();
                assert(pieces_of(none@) =~= Seq::<Seq<u8>>::empty());
                self.held_output = Some(none);
            }
            return ;
        }
        let taken = self.held_output.take();
        self.held_bytes = 0;
        match taken {
            Some(held) => {
                let ghost pieces = pieces_of(held@);
                assert(pieces.take(0) =~= Seq::<Seq<u8>>::empty());
                for i in 0..held.len()
                    invariant
                        self.wf(),
                        self.held() is None,
                        self.dims() == old(self).dims(),
                        self.room() == old(self).room(),
                        pieces == pieces_of(held@),
                        old(self).held() == Some(pieces),
                        self.ops() == fed_all(old(self).ops(), pieces.take(i as int)),
                {
                    assert(pieces.take(i + 1).drop_last() =~= pieces.take(i as int));
                    assert(pieces.take(i + 1).last() == pieces[i as int]);
                    self.read(held[i].as_slice());
                }
                assert(pieces.take(pieces.len() as int) =~= pieces);
            },
            None => {},
        }
    }

    /// The most cells that a terminal of that size and history would take.
    pub fn estimated_cells(size: Size, history_lines: usize) -> (r: usize)
        ensures
            r == cells_of(size, history_room(size, history_lines as nat)),
    {
        count_cells(size, room_for(size, history_lines))
    }

    /// The lines of history that there is room for.
    pub fn history_capacity(&self) -> (r: usize)
        ensures
            r == self.room(),
    {
        self.history_limit
    }

    /// The most cells that this terminal takes at its size.
    pub fn cell_budget(&self) -> (r: usize)
        requires
            self.wf(),
        ensures
            r == cells_of(self.dims(), self.room()),
    {
        let columns: usize = self.size.columns();
        let rows: usize = self.size.rows();
        let history: usize = self.history_limit;
        assert((history + 2 * rows) * columns <= (10_000 + 8192) * 4096) by (nonlinear_arith)
            requires
                history <= 10_000,
                rows <= 4096,
                columns <= 4096,
                history >= 0,
                rows >= 0,
                columns >= 0,
        ;
        (history + 2 * rows) * columns
    }

    /// Restores tmux's cursor, including the place behind the last column, where
    /// a wrap is pending.
    pub fn restore_cursor(&mut self, column: usize, row: usize)
        requires
            old(self).wf(),
            column <= old(self).dims().width(),
            row < old(self).dims().height(),
        ensures
            final(self).wf(),
            final(self).dims() == old(self).dims(),
            final(self).room() == old(self).room(),
            final(self).held() == old(self).held(),
            places_cursor(old(self).ops(), old(self).dims(), column, row, final(self).ops()),
    {
        let columns: usize = self.size.columns();
        let at: usize = if column < columns {
            column
        } else {
            columns - 1
        };
        self.screen.set_cursor(at, row, column == columns);
    }

    pub fn size(&self) -> (r: Size)
        ensures
            r == self.dims(),
    {
        self.size
    }

    /// Whether the local grid can be given this size.
    pub fn can_resize(&self, size: Size) -> (r: bool)
        requires
            self.wf(),
        ensures
            r == resizable(self.ops(), self.dims(), size),
    {
        size.columns() >= 2 || size == self.size || !self.wide
    }

    /// Gives the local grid another size. tmux is not told: its layout is a
    /// matter of its own.
    pub fn resize(&mut self, size: Size)
        requires
            old(self).wf(),
            resizable(old(self).ops(), old(self).dims(), size),
        ensures
            final(self).wf(),
            final(self).dims() == size,
            final(self).room() == old(self).room(),
            final(self).held() == old(self).held(),
            resizes(old(self).ops(), old(self).dims(), size, final(self).ops()),
    {
        if size == self.size {
            return ;
        }
        self.screen.resize(size.columns(), size.rows());
        self.size = size;
    }

    fn top_line(&self) -> (r: i32)
        requires
            self.wf(),
        ensures
            r == -(history(self.ops()) as int),
            -10_000 <= r <= 0,
    {
        let lines: usize = self.screen.history_size();
        -(lines as i32)
    }

    fn row_text(&self, line: i32) -> (r: String)
        requires
            self.wf(),
            screen::on_grid(self.ops(), line as int),
        ensures
            r@ == row_of(self.ops(), line as int),
    {
        let columns: usize = self.size.columns();
        let torn: bool = self.screen.style(line, 0).spacer || (line == self.top_line()
            && self.screen.style(line, columns - 1).leading);
        if torn {
            trim_blanks(self.cells(line, 0, columns).as_str())
        } else {
            trim_blanks(self.screen.line_text(line, columns - 1).as_str())
        }
    }

    fn cells(&self, line: i32, from: usize, to: usize) -> (r: String)
        requires
            self.wf(),
            screen::on_grid(self.ops(), line as int),
            to <= self.dims().width(),
        ensures
            r@ == cells_text(self.ops(), line as int, from as int, to as int),
    {
        let mut r = String::new();
        let mut column: usize = from;
        while column < to
            invariant
                self.wf(),
                screen::on_grid(self.ops(), line as int),
                to <= self.dims().width(),
                from <= column,
                from < to ==> column <= to,
                from >= to ==> column == from,
                r@ == cells_text(self.ops(), line as int, from as int, column as int),
            decreases to - column,
        {
            let style = self.screen.style(line, column);
            if !style.spacer && !style.leading {
                let look = self.screen.look(line, column);
                r.push(look.c);
                text::push_chars(&mut r, look.zerowidth.as_slice());
            }
            assert(r@ =~= cells_text(self.ops(), line as int, from as int, column as int)
                + cell_text(self.ops(), line as int, column as nat));
            column = column + 1;
        }
        r
    }

    fn row_readable(&self, line: i32, from: usize, to: usize, last: bool) -> (r: bool)
        requires
            self.wf(),
            to < usize::MAX,
        ensures
            r == screen::readable(self.ops(), line as int, from as int, to as int, last),
    {
        let columns: usize = self.size.columns();
        let top: i32 = self.top_line();
        if line < top || line >= self.size.rows() as i32 || from >= columns {
            return false;
        }
        if from == 0 && self.screen.style(line, 0).spacer {
            return false;
        }
        !(last && to + 1 >= columns && line == top && self.screen.style(line, columns - 1).leading)
    }

    fn selection_readable(&self, span: Span) -> (r: bool)
        requires
            self.wf(),
        ensures
            r == screen::span_readable(self.ops(), span),
    {
        if span.start.line > span.end.line {
            return false;
        }
        let columns: usize = self.size.columns();
        let top: i32 = self.top_line();
        if span.start.line < top || span.end.line >= self.size.rows() as i32 {
            assert(!screen::span_row(self.ops(), span, span.start.line as int)
                || !screen::span_row(self.ops(), span, span.end.line as int));
            return false;
        }
        let mut line: i32 = span.start.line;
        while line <= span.end.line
            invariant
                self.wf(),
                columns == self.dims().width(),
                span.start.line <= line <= span.end.line + 1,
                span.end.line < 4096,
                forall|l: int|
                    span.start.line <= l < line ==> #[trigger] screen::span_row(
                        self.ops(),
                        span,
                        l,
                    ),
            decreases span.end.line - line + 1,
        {
            let from: usize = if span.is_block || line == span.start.line {
                span.start.column
            } else {
                0
            };
            let end: usize = if span.is_block || line == span.end.line {
                span.end.column
            } else {
                columns - 1
            };
            // Beyond the last column every end is alike.
            let to: usize = if end >= columns {
                columns - 1
            } else {
                end
            };
            let last: bool = line == span.end.line || (span.is_block && span.start.column != 0);
            if !self.row_readable(line, from, to, last) {
                assert(!screen::span_row(self.ops(), span, line as int));
                return false;
            }
            assert(screen::span_row(self.ops(), span, line as int));
            line = line + 1;
        }
        true
    }

    fn selection_cells(&self, span: Span) -> (r: String)
        requires
            self.wf(),
            span_on_grid(self.ops(), span),
        ensures
            r@ == span_text(self.ops(), span, span.end.line as int),
    {
        let columns: usize = self.size.columns();
        let top: i32 = self.top_line();
        let mut r = String::new();
        let mut line: i32 = span.start.line;
        while line <= span.end.line
            invariant
                self.wf(),
                span_on_grid(self.ops(), span),
                columns == self.dims().width(),
                span.start.line <= line <= span.end.line + 1,
                span.end.line < 4096,
                line == span.start.line ==> r@.len() == 0,
                line > span.start.line ==> r@ == span_text(self.ops(), span, line - 1),
            decreases span.end.line - line + 1,
        {
            let from: usize = if span.is_block || line == span.start.line {
                span.start.column
            } else {
                0
            };
            let to: usize = if span.is_block || line == span.end.line {
                span.end.column
            } else {
                columns - 1
            };
            let row = trim_blanks(self.cells(line, from, to + 1).as_str());
            let ghost before = r@;
            if line > span.start.line {
                r.push('\n');
            }
            text::push_text(&mut r, row.as_str());
            assert(line == span.start.line ==> r@ =~= row@);
            assert(line > span.start.line ==> r@ =~= before + seq!['\n'] + row@);
            line = line + 1;
        }
        r
    }

    /// The rows of the current screen, without the blanks at their ends.
    pub fn screen_lines(&self) -> (r: Vec<String>)
        requires
            self.wf(),
        ensures
            text::strings(r@) == Seq::new(self.dims().height(), |i: int| row_of(self.ops(), i)),
    {
        let rows: usize = self.size.rows();
        let _ = self.top_line();
        let ghost all = Seq::new(self.dims().height(), |i: int| row_of(self.ops(), i));
        let mut r: Vec<String> = Vec::new();
        assert(text::strings(r@) =~= all.take(0));
        for i in 0..rows
            invariant
                self.wf(),
                rows == self.dims().height(),
                rows <= crate::model::MAX_CELLS,
                all == Seq::new(self.dims().height(), |i: int| row_of(self.ops(), i)),
                text::strings(r@) == all.take(i as int),
        {
            let ghost before = text::strings(r@);
            let row = self.row_text(i as i32);
            r.push(row);
            assert(text::strings(r@) =~= before.push(row@));
            assert(all.take(i + 1) =~= before.push(all[i as int]));
        }
        assert(all.take(rows as int) =~= all);
        r
    }

    /// The text of a line, where the grid has that line.
    pub fn line_text(&self, line: i32) -> (r: Option<String>)
        requires
            self.wf(),
        ensures
            match r {
                Some(row) => row_at(self.ops(), line as int) == Some(row@),
                None => row_at(self.ops(), line as int) is None,
            },
    {
        let top: i32 = self.top_line();
        let bottom: i32 = self.size.rows() as i32 - 1;
        if line < top || line > bottom {
            return None;
        }
        Some(self.row_text(line))
    }

    fn clamp_point(&self, point: Point) -> (r: Point)
        requires
            self.wf(),
        ensures
            r == nearest(self.ops(), point),
            screen::on_grid(self.ops(), r.line as int),
            r.column < self.dims().width(),
            -10_000 <= r.line < 4096,
    {
        let top: i32 = self.top_line();
        let rows: usize = self.size.rows();
        let columns: usize = self.size.columns();
        let bottom: i32 = rows as i32 - 1;
        let line: i32 = if point.line < top {
            top
        } else if point.line > bottom {
            bottom
        } else {
            point.line
        };
        let column: usize = if point.column >= columns {
            columns - 1
        } else {
            point.column
        };
        Point { line, column }
    }

    /// Starts a selection at the cell nearest to a point. The selection moves
    /// with the text that scrolls under it.
    pub fn begin_selection(&mut self, point: Point, side: Side, extent: Extent)
        requires
            old(self).wf(),
        ensures
            final(self).wf(),
            final(self).dims() == old(self).dims(),
            final(self).room() == old(self).room(),
            final(self).held() == old(self).held(),
            final(self).ops() == old(self).ops().push(
                Op::Select { extent, point: nearest(old(self).ops(), point), side },
            ),
    {
        let cell: Point = self.clamp_point(point);
        self.screen.select(extent, cell, side);
    }

    /// Moves the end of the selection to the cell nearest to a point.
    pub fn update_selection(&mut self, point: Point, side: Side)
        requires
            old(self).wf(),
        ensures
            final(self).wf(),
            final(self).dims() == old(self).dims(),
            final(self).room() == old(self).room(),
            final(self).held() == old(self).held(),
            final(self).ops() == old(self).ops().push(
                Op::Extend { point: nearest(old(self).ops(), point), side },
            ),
    {
        let cell: Point = self.clamp_point(point);
        self.screen.extend(cell, side);
    }

    /// The selected text.
    pub fn selected_text(&self) -> (r: Option<String>)
        requires
            self.wf(),
        ensures
            match r {
                Some(chosen) => selection_text(self.ops()) == Some(chosen@),
                None => selection_text(self.ops()) is None,
            },
    {
        if let Some(span) = self.screen.selected_cells() {
            if !self.selection_readable(span) {
                let top: i32 = self.top_line();
                let rows: i32 = self.size.rows() as i32;
                let columns: usize = self.size.columns();
                if span.start.line < top || span.end.line >= rows || span.start.line
                    > span.end.line || span.start.column >= columns || span.end.column
                    >= columns {
                    return None;
                }
                return Some(self.selection_cells(span));
            }
        }
        self.screen.selected_text()
    }

    /// The selected cells.
    pub fn selection_range(&self) -> (r: Option<Span>)
        ensures
            r == screen::selected_span(self.ops()),
    {
        self.screen.selected_cells()
    }

    /// Selects nothing.
    pub fn clear_selection(&mut self)
        requires
            old(self).wf(),
        ensures
            final(self).wf(),
            final(self).dims() == old(self).dims(),
            final(self).room() == old(self).room(),
            final(self).held() == old(self).held(),
            final(self).ops() == old(self).ops().push(Op::Deselect),
    {
        self.screen.deselect();
    }

    /// Where the link of the cell nearest to a point leads, if it has one.
    pub fn hyperlink_at(&self, point: Point) -> (r: Option<String>)
        requires
            self.wf(),
        ensures
            ({
                let cell = nearest(self.ops(), point);
                let own = screen::hyperlink(self.ops(), cell.line as int, cell.column as nat);
                match r {
                    Some(uri) => own == Some(uri@),
                    None => own is None,
                }
            }),
    {
        let cell: Point = self.clamp_point(point);
        self.screen.hyperlink(cell.line, cell.column)
    }

    fn underline_run(&self, point: Point) -> (r: usize)
        requires
            self.wf(),
            screen::on_grid(self.ops(), point.line as int),
            point.column < self.dims().width(),
        ensures
            r == run_around(self.ops(), point),
    {
        let ghost ops = self.ops();
        let ghost line = point.line as int;
        if !self.screen.style(point.line, point.column).underlined {
            return 0;
        }
        let columns: usize = self.size.columns();
        let mut left: usize = point.column;
        while left > 0 && self.screen.style(point.line, left - 1).underlined
            invariant
                self.wf(),
                ops == self.ops(),
                line == point.line,
                screen::on_grid(ops, line),
                left <= point.column < self.dims().width(),
                run_start(ops, line, point.column as int) == run_start(ops, line, left as int),
            decreases left,
        {
            left = left - 1;
        }
        let mut right: usize = point.column;
        while right + 1 < columns && self.screen.style(point.line, right + 1).underlined
            invariant
                self.wf(),
                ops == self.ops(),
                line == point.line,
                screen::on_grid(ops, line),
                columns == self.dims().width(),
                columns <= 4096,
                point.column <= right < columns,
                run_end(ops, line, point.column as int, columns as int) == run_end(
                    ops,
                    line,
                    right as int,
                    columns as int,
                ),
            decreases columns - right,
        {
            right = right + 1;
        }
        right - left + 1
    }

    fn first_link_of(&self, line: i32) -> (r: Option<String>)
        requires
            self.wf(),
        ensures
            match r {
                Some(link) => first_link_at(self.ops(), line as int) == Some(link@),
                None => first_link_at(self.ops(), line as int) is None,
            },
    {
        match self.line_text(line) {
            Some(row) => {
                let v = text::chars_of(row.as_str());
                match links::first_http_url(v.as_slice()) {
                    Some(link) => Some(text::string_of(link.as_slice())),
                    None => None,
                }
            },
            None => None,
        }
    }

    /// Where a click on the cell nearest to a point leads. A short underlined
    /// run stands in for a link that was stripped of its address; a long one is
    /// content.
    pub fn link_destination(&self, point: Point) -> (r: Option<String>)
        requires
            self.wf(),
        ensures
            match r {
                Some(link) => destination(self.ops(), point) == Some(link@),
                None => destination(self.ops(), point) is None,
            },
    {
        let cell: Point = self.clamp_point(point);
        match self.screen.hyperlink(cell.line, cell.column) {
            Some(uri) => {
                let v = text::chars_of(uri.as_str());
                if v.len() > 0 {
                    return Some(uri);
                }
            },
            None => {},
        }
        let row = self.row_text(cell.line);
        let v = text::chars_of(row.as_str());
        match links::http_url_at(v.as_slice(), cell.column) {
            Some(link) => return Some(text::string_of(link.as_slice())),
            None => {},
        }
        let run: usize = self.underline_run(cell);
        if run == 0 || run > MAX_AFFORDANCE_CELLS {
            return None;
        }
        match self.first_link_of(cell.line) {
            Some(link) => return Some(link),
            None => {},
        }
        match self.first_link_of(cell.line - 1) {
            Some(link) => return Some(link),
            None => {},
        }
        self.first_link_of(cell.line + 1)
    }

    /// Whether the alternate screen is shown.
    pub fn is_alternate_screen(&self) -> (r: bool)
        ensures
            r == screen::mode_set(self.ops(), Mode::Alternate),
    {
        self.screen.has_mode(Mode::Alternate)
    }

    /// Whether the application asked for mouse reports.
    pub fn reports_mouse(&self) -> (r: bool)
        ensures
            r == screen::mode_set(self.ops(), Mode::Mouse),
    {
        self.screen.has_mode(Mode::Mouse)
    }

    /// Whether mouse reports are in SGR form.
    pub fn sgr_mouse(&self) -> (r: bool)
        ensures
            r == screen::mode_set(self.ops(), Mode::SgrMouse),
    {
        self.screen.has_mode(Mode::SgrMouse)
    }

    /// Whether the wheel belongs to the application: it asked for mouse reports,
    /// or it shows the alternate screen, where the wheel becomes arrows.
    pub fn wants_wheel(&self) -> (r: bool)
        ensures
            r == (screen::mode_set(self.ops(), Mode::Mouse) || screen::mode_set(
                self.ops(),
                Mode::Alternate,
            )),
    {
        self.reports_mouse() || self.is_alternate_screen()
    }

    /// The lines of history above the screen.
    pub fn history_size(&self) -> (r: usize)
        requires
            self.wf(),
        ensures
            r == history(self.ops()),
            r <= self.room(),
    {
        self.screen.history_size()
    }

    /// The lines between the live tip and the view. Zero follows new output.
    pub fn history_offset(&self) -> (r: usize)
        requires
            self.wf(),
        ensures
            r == offset(self.ops()),
            r <= self.room(),
    {
        self.screen.display_offset()
    }

    /// Puts the view so many lines above the live tip, or at the oldest line
    /// where the history is shorter.
    pub fn scroll_history(&mut self, lines: usize)
        requires
            old(self).wf(),
        ensures
            final(self).wf(),
            final(self).dims() == old(self).dims(),
            final(self).room() == old(self).room(),
            final(self).held() == old(self).held(),
            scrolls(old(self).ops(), lines, final(self).ops()),
    {
        let current: usize = self.screen.display_offset();
        let end: usize = self.screen.history_size();
        let goal: usize = if lines < end {
            lines
        } else {
            end
        };
        let delta: i32 = goal as i32 - current as i32;
        if delta != 0 {
            self.screen.scroll(delta);
        }
    }

    /// What the cell nearest to a point shows, and how.
    pub fn look(&self, point: Point) -> (r: (Look, Style))
        requires
            self.wf(),
        ensures
            ({
                let cell = nearest(self.ops(), point);
                &&& r.0@ == screen::glyph(self.ops(), cell.line as int, cell.column as nat)
                &&& r.1 == screen::style(self.ops(), cell.line as int, cell.column as nat)
            }),
    {
        let cell: Point = self.clamp_point(point);
        (
            self.screen.look(cell.line, cell.column),
            self.screen.style(cell.line, cell.column),
        )
    }

    /// The colour that the application set for a place of the palette, if it did.
    pub fn palette(&self, index: usize) -> (r: Option<(u8, u8, u8)>)
        requires
            index < 269,
        ensures
            r == screen::palette(self.ops(), index as nat),
    {
        self.screen.color(index)
    }

    /// Where and how the cursor is shown.
    pub fn cursor(&self) -> (r: (Shape, Point))
        requires
            self.wf(),
        ensures
            r == (cursor_shape(self.ops()), cursor_cell(self.ops())),
    {
        let at: Point = self.screen.cursor_place();
        let top: i32 = self.top_line();
        let column: usize = if at.line >= top && at.line < self.size.rows() as i32 && at.column > 0
            && at.column < self.size.columns() && self.screen.style(at.line, at.column).spacer {
            at.column - 1
        } else {
            at.column
        };
        let shape: Shape = if self.screen.has_mode(Mode::ShowCursor) {
            self.screen.cursor_style()
        } else {
            Shape::Hidden
        };
        (shape, Point { line: at.line, column })
    }
}

/// A grid with its history never takes more cells than the bound, unless the
/// screen alone does; then it has no history.
pub proof fn the_history_fits_the_budget(size: Size, lines: nat)
    requires
        size.width() >= 1,
    ensures
        history_room(size, lines) <= lines,
        history_room(size, lines) <= MAX_HISTORY_LINES,
        history_room(size, lines) > 0 ==> (history_room(size, lines) + size.height())
            * size.width() <= MAX_BUFFER_CELLS,
{
    let room = history_room(size, lines);
    let whole = MAX_BUFFER_CELLS as nat / size.width();
    if room > 0 {
        assert(room + size.height() <= whole);
        assert((room + size.height()) * size.width() <= MAX_BUFFER_CELLS) by (nonlinear_arith)
            requires
                room + size.height() <= whole,
                whole == MAX_BUFFER_CELLS as nat / size.width(),
                size.width() >= 1,
        ;
    }
}

/// Output that is held back is delayed and not lost: holding it, taking pieces of
/// output that fit, and letting them through does to the emulator exactly what
/// taking the same pieces without holding them does.
pub proof fn held_output_is_delayed_not_lost(ops: Seq<Op>, pieces: Seq<Seq<u8>>)
    requires
        held_size(pieces) <= MAX_HELD_OUTPUT,
    ensures
        fed_all(ops, held_with_all(Seq::empty(), pieces)) == fed_all(ops, pieces),
        held_size(held_with_all(Seq::empty(), pieces)) == held_size(pieces),
    decreases pieces.len(),
{
    if pieces.len() > 0 {
        held_output_is_delayed_not_lost(ops, pieces.drop_last());
        let before = held_with_all(Seq::<Seq<u8>>::empty(), pieces.drop_last());
        let last = pieces.last();
        assert(last.take(last.len() as int) =~= last);
        if last.len() > 0 {
            assert(before.push(last).drop_last() =~= before);
        }
    }
}

/// No more is ever held back than there is room for, and what is held back already
/// stays.
pub proof fn held_output_is_bounded(held: Seq<Seq<u8>>, bytes: Seq<u8>)
    requires
        held_size(held) <= MAX_HELD_OUTPUT,
    ensures
        held_size(held_with(held, bytes)) <= MAX_HELD_OUTPUT,
        held_with(held, bytes).take(held.len() as int) == held,
{
    let after = held_with(held, bytes);
    assert(after.take(held.len() as int) =~= held);
    if after.len() > held.len() {
        assert(after.drop_last() =~= held);
    }
}

/// Pieces of output that fit are all kept, behind what was held back before them.
pub proof fn held_output_is_kept_in_order(held: Seq<Seq<u8>>, pieces: Seq<Seq<u8>>)
    requires
        held_size(held) + held_size(pieces) <= MAX_HELD_OUTPUT,
    ensures
        held_size(held_with_all(held, pieces)) == held_size(held) + held_size(pieces),
        held_with_all(held, pieces).take(held.len() as int) == held,
        held_with_all(held, pieces).len() >= held.len(),
    decreases pieces.len(),
{
    if pieces.len() == 0 {
        assert(held.take(held.len() as int) =~= held);
    } else {
        held_output_is_kept_in_order(held, pieces.drop_last());
        let before = held_with_all(held, pieces.drop_last());
        let last = pieces.last();
        assert(last.take(last.len() as int) =~= last);
        if last.len() > 0 {
            assert(before.push(last).drop_last() =~= before);
            assert(before.push(last).take(held.len() as int) =~= before.take(held.len() as int));
        }
    }
}

/// A cell's own link always wins over what is written around it.
pub proof fn a_cells_own_link_wins(ops: Seq<Op>, point: Point)
    ensures
        ({
            let cell = nearest(ops, point);
            let own = screen::hyperlink(ops, cell.line as int, cell.column as nat);
            own is Some && own->0.len() > 0 ==> destination(ops, point) == own
        }),
{
}

/// Long underlined content leads nowhere unless a link covers the cell itself.
pub proof fn a_long_underlined_run_is_content(ops: Seq<Op>, point: Point)
    ensures
        ({
            let cell = nearest(ops, point);
            let own = screen::hyperlink(ops, cell.line as int, cell.column as nat);
            &&& (own is None || own->0.len() == 0)
            &&& run_around(ops, cell) > MAX_AFFORDANCE_CELLS
        }) ==> destination(ops, point) == links::link_over(
            row_of(ops, nearest(ops, point).line as int),
            nearest(ops, point).column as int,
            0,
        ),
{
}

/// A grid gets as much history as was asked for, up to ten thousand lines, as long as
/// the primary grid with it has no more than 131072 cells: one more line would break one
/// of these bounds.
pub proof fn the_history_is_as_long_as_it_may_be(size: Size, lines: nat)
    requires
        size.width() >= 1,
    ensures
        ({
            let n = history_room(size, lines);
            &&& n <= lines && n <= 10_000
            &&& n < lines && n < 10_000 ==> (n + 1 + size.height()) * size.width() > 131_072
            &&& n > 0 ==> (n + size.height()) * size.width() <= 131_072
        }),
{
    the_history_fits_the_budget(size, lines);
    let n = history_room(size, lines);
    let w = size.width() as int;
    let h = size.height() as int;
    let q = 131_072int / w;
    if n < lines && n < 10_000 {
        assert(n + h >= q);
        assert(131_072 < (q + 1) * w) by (nonlinear_arith)
            requires
                q == 131_072int / w,
                w >= 1,
        ;
        assert((n + 1 + h) * w >= (q + 1) * w) by (nonlinear_arith)
            requires
                n + h >= q,
                w >= 1,
        ;
    }
}

/// A terminal takes the cells of its history and of two screens.
pub proof fn a_terminal_takes_its_history_and_two_screens(size: Size, history: nat)
    ensures
        cells_of(size, history) == history * size.width() + size.height() * size.width()
            + size.height() * size.width(),
{
    let w = size.width();
    let h = size.height();
    assert((history + 2 * h) * w == history * w + h * w + h * w) by (nonlinear_arith);
}

/// Only blanks and line ends at the end of a row are left out, and all of them are.
pub proof fn only_blanks_at_the_end_are_left_out(s: Seq<char>)
    ensures
        without_blanks(s).len() <= s.len(),
        without_blanks(s) == s.take(without_blanks(s).len() as int),
        without_blanks(s).len() > 0 ==> without_blanks(s).last() != ' ' && without_blanks(s).last()
            != '\r' && without_blanks(s).last() != '\n',
        forall|i: int|
            without_blanks(s).len() <= i < s.len() ==> #[trigger] s[i] == ' ' || s[i] == '\r'
                || s[i] == '\n',
    decreases s.len(),
{
    if s.len() > 0 && (s.last() == ' ' || s.last() == '\r' || s.last() == '\n') {
        let d = s.drop_last();
        only_blanks_at_the_end_are_left_out(d);
        let n = without_blanks(s).len() as int;
        assert(d.take(n) =~= s.take(n));
        assert forall|i: int| n <= i < s.len() implies #[trigger] s[i] == ' ' || s[i] == '\r'
            || s[i] == '\n' by {
            if i < d.len() {
                assert(d[i] == s[i]);
            }
        }
    } else {
        assert(s.take(s.len() as int) =~= s);
    }
}

/// A piece of output that fits is held back whole, behind the others; of one that does
/// not fit as much is kept as makes a megabyte.
pub proof fn a_piece_that_fits_is_held_back_whole(held: Seq<Seq<u8>>, bytes: Seq<u8>)
    requires
        held_size(held) <= 1_048_576,
    ensures
        bytes.len() > 0 && held_size(held) + bytes.len() <= 1_048_576 ==> held_with(held, bytes)
            == held.push(bytes),
        bytes.len() == 0 ==> held_with(held, bytes) == held,
        held_size(held) + bytes.len() > 1_048_576 ==> held_size(held_with(held, bytes))
            == 1_048_576,
{
    let room = 1_048_576 - held_size(held);
    if held_size(held) + bytes.len() <= 1_048_576 {
        assert(bytes.take(bytes.len() as int) =~= bytes);
    } else {
        let kept = bytes.take(room);
        if kept.len() > 0 {
            assert(held.push(kept).drop_last() =~= held);
        }
    }
}

/// What is held back counts for all of its bytes.
pub proof fn held_bytes_add_up(held: Seq<Seq<u8>>, bytes: Seq<u8>)
    ensures
        held_size(Seq::empty()) == 0,
        held_size(held.push(bytes)) == held_size(held) + bytes.len(),
{
    assert(held.push(bytes).drop_last() =~= held);
}

/// Where there is room for a wide character the emulator reads every byte of every
/// piece of output, in order.
pub proof fn output_is_read_whole(ops: Seq<Op>, pieces: Seq<Seq<u8>>, bytes: Seq<u8>)
    ensures
        dimensions(ops).0 >= 2 && bytes.len() > 0 ==> fed(ops, bytes) == ops.push(Op::Feed(bytes)),
        fed(ops, Seq::empty()) == ops,
        fed_all(ops, Seq::empty()) == ops,
        fed_all(ops, pieces.push(bytes)) == fed(fed_all(ops, pieces), bytes),
{
    assert(pieces.push(bytes).drop_last() =~= pieces);
    lemma_nothing_is_taken_of_nothing(ops);
}

proof fn lemma_nothing_is_taken_of_nothing(ops: Seq<Op>)
    ensures
        taken(ops, Seq::empty()).len() == 0,
{
    assert(sifted(screen::stream(ops), Seq::<u8>::empty()).len() == 0);
}

/// A cell of its own adds its character and what combines with it; one that belongs to
/// a wide character beside it adds nothing.
pub proof fn what_a_cell_adds_to_a_text(ops: Seq<Op>, line: int, column: nat)
    ensures
        screen::style(ops, line, column).spacer || screen::style(ops, line, column).leading
            ==> cell_text(ops, line, column).len() == 0,
        !screen::style(ops, line, column).spacer && !screen::style(ops, line, column).leading ==> ({
            let text = cell_text(ops, line, column);
            &&& text.len() == 1 + screen::glyph(ops, line, column).zerowidth.len()
            &&& text[0] == screen::glyph(ops, line, column).c
            &&& text.skip(1) == screen::glyph(ops, line, column).zerowidth
        }),
{
    let glyph = screen::glyph(ops, line, column);
    assert((seq![glyph.c] + glyph.zerowidth).skip(1) =~= glyph.zerowidth);
}

/// The text of cells is that of its parts, from left to right.
pub proof fn the_text_of_cells_goes_from_left_to_right(
    ops: Seq<Op>,
    line: int,
    from: int,
    middle: int,
    to: int,
)
    requires
        0 <= from <= middle <= to,
    ensures
        cells_text(ops, line, from, to) == cells_text(ops, line, from, middle) + cells_text(
            ops,
            line,
            middle,
            to,
        ),
        from < to ==> cells_text(ops, line, from, from + 1) == cell_text(ops, line, from as nat),
    decreases to - middle,
{
    if middle < to {
        the_text_of_cells_goes_from_left_to_right(ops, line, from, middle, to - 1);
        assert(cells_text(ops, line, from, to) =~= cells_text(ops, line, from, middle)
            + cells_text(ops, line, middle, to));
    } else {
        assert(cells_text(ops, line, from, to) =~= cells_text(ops, line, from, middle)
            + cells_text(ops, line, middle, to));
    }
    assert(cells_text(ops, line, from, from).len() == 0);
    assert(cells_text(ops, line, from, from + 1) =~= cells_text(ops, line, from, from) + cell_text(
        ops,
        line,
        from as nat,
    ));
    assert(cells_text(ops, line, from, from) + cell_text(ops, line, from as nat) =~= cell_text(
        ops,
        line,
        from as nat,
    ));
}

/// A selection reads line by line, with a line feed between two of them.
pub proof fn a_selection_reads_line_by_line(ops: Seq<Op>, span: Span, line: int)
    ensures
        span_text(ops, span, span.start.line as int) == span_cells(
            ops,
            span,
            span.start.line as int,
        ),
        line > span.start.line ==> span_text(ops, span, line) == span_text(ops, span, line - 1)
            + seq!['\n'] + span_cells(ops, span, line),
{
}

/// A point on the grid is its own cell; one beside it belongs to the cell at the edge
/// that it lies beyond.
pub proof fn the_nearest_cell(ops: Seq<Op>, point: Point)
    requires
        dimensions(ops).0 >= 1 && dimensions(ops).1 >= 1,
        dimensions(ops).0 <= 4096 && dimensions(ops).1 <= 4096 && history(ops) <= 10_000,
    ensures
        ({
            let cell = nearest(ops, point);
            let top = -(history(ops) as int);
            let bottom = dimensions(ops).1 - 1;
            &&& top <= cell.line <= bottom
            &&& cell.column < dimensions(ops).0
            &&& top <= point.line <= bottom ==> cell.line == point.line
            &&& point.line < top ==> cell.line == top
            &&& point.line > bottom ==> cell.line == bottom
            &&& point.column < dimensions(ops).0 ==> cell.column == point.column
            &&& point.column >= dimensions(ops).0 ==> cell.column == dimensions(ops).0 - 1
        }),
{
}

proof fn lemma_run_start(ops: Seq<Op>, line: int, column: int)
    requires
        0 <= column,
    ensures
        0 <= run_start(ops, line, column) <= column,
        forall|i: int|
            run_start(ops, line, column) <= i < column ==> #[trigger] underlined(ops, line, i),
        run_start(ops, line, column) > 0 ==> !underlined(
            ops,
            line,
            run_start(ops, line, column) - 1,
        ),
    decreases column,
{
    if column > 0 && underlined(ops, line, column - 1) {
        lemma_run_start(ops, line, column - 1);
    }
}

proof fn lemma_run_end(ops: Seq<Op>, line: int, column: int, width: int)
    requires
        0 <= column < width,
    ensures
        column <= run_end(ops, line, column, width) < width,
        forall|i: int|
            column < i <= run_end(ops, line, column, width) ==> #[trigger] underlined(ops, line, i),
        run_end(ops, line, column, width) + 1 < width ==> !underlined(
            ops,
            line,
            run_end(ops, line, column, width) + 1,
        ),
    decreases width - column,
{
    if column + 1 < width && underlined(ops, line, column + 1) {
        lemma_run_end(ops, line, column + 1, width);
    }
}

/// The underlined run around a cell is made of all the underlined cells around it: it
/// is that long, and the cells beside it are not underlined.
pub proof fn an_underlined_run_reaches_as_far_as_it_can(ops: Seq<Op>, point: Point)
    requires
        point.column < dimensions(ops).0,
    ensures
        !underlined(ops, point.line as int, point.column as int) ==> run_around(ops, point) == 0,
        underlined(ops, point.line as int, point.column as int) ==> exists|from: int, to: int|
            0 <= from <= point.column <= to < dimensions(ops).0 && run_around(ops, point) == to
                - from + 1 && (forall|i: int|
                from <= i <= to ==> #[trigger] underlined(ops, point.line as int, i)) && (from > 0
                ==> !#[trigger] underlined(ops, point.line as int, from - 1)) && (to + 1
                < dimensions(ops).0 ==> !#[trigger] underlined(ops, point.line as int, to + 1)),
{
    let line = point.line as int;
    let column = point.column as int;
    let width = dimensions(ops).0 as int;
    lemma_run_start(ops, line, column);
    lemma_run_end(ops, line, column, width);
    if underlined(ops, line, column) {
        let from = run_start(ops, line, column);
        let to = run_end(ops, line, column, width);
        assert forall|i: int| from <= i <= to implies #[trigger] underlined(ops, line, i) by {}
        let _ = underlined(ops, line, from - 1);
        let _ = underlined(ops, line, to + 1);
        assert(0 <= from <= point.column <= to < dimensions(ops).0 && run_around(ops, point) == to
            - from + 1);
    }
}

/// A cell without a link of its own leads to the address that covers it. Where none
/// does, a cell of an underlined run of at most forty cells leads to the first address
/// of its line, or else of the line above, or else of the line below, and any other cell
/// leads nowhere.
pub proof fn where_a_click_leads(ops: Seq<Op>, point: Point)
    ensures
        ({
            let cell = nearest(ops, point);
            let line = cell.line as int;
            let own = screen::hyperlink(ops, line, cell.column as nat);
            let over = links::link_over(row_of(ops, line), cell.column as int, 0);
            let run = run_around(ops, cell);
            own is None || own->0.len() == 0 ==> {
                &&& over is Some ==> destination(ops, point) == over
                &&& over is None && (run == 0 || run > 40) ==> destination(ops, point) is None
                &&& over is None && run != 0 && run <= 40 ==> destination(ops, point) == (
                if first_link_at(ops, line) is Some {
                    first_link_at(ops, line)
                } else if first_link_at(ops, line - 1) is Some {
                    first_link_at(ops, line - 1)
                } else {
                    first_link_at(ops, line + 1)
                })
            }
        }),
{
}

/// A cursor that the application hid is hidden, and otherwise has the form that the
/// application chose; on the second half of a wide character it stands on the first.
pub proof fn how_and_where_the_cursor_is_shown(ops: Seq<Op>)
    ensures
        !screen::mode_set(ops, Mode::ShowCursor) ==> cursor_shape(ops) == Shape::Hidden,
        screen::mode_set(ops, Mode::ShowCursor) ==> cursor_shape(ops) == screen::cursor_form(ops),
        ({
            let at = screen::cursor_point(ops);
            let inside = screen::on_grid(ops, at.line as int) && at.column < dimensions(ops).0;
            &&& cursor_cell(ops).line == at.line
            &&& inside && at.column > 0 && screen::style(
                ops,
                at.line as int,
                at.column as nat,
            ).spacer ==> cursor_cell(ops).column == at.column - 1
            &&& inside && !screen::style(ops, at.line as int, at.column as nat).spacer
                ==> cursor_cell(ops) == at
        }),
{
}

/// The text of a row ends in no blank, and a row beyond the grid has none.
pub proof fn a_row_ends_in_no_blank(ops: Seq<Op>, line: int)
    ensures
        row_of(ops, line).len() > 0 ==> row_of(ops, line).last() != ' ',
        screen::on_grid(ops, line) ==> row_at(ops, line) == Some(row_of(ops, line)),
        !screen::on_grid(ops, line) ==> row_at(ops, line) is None && first_link_at(ops, line)
            is None,
        screen::on_grid(ops, line) ==> first_link_at(ops, line) == links::first_link(
            row_of(ops, line),
        ),
{
    let columns = dimensions(ops).0 as int;
    only_blanks_at_the_end_are_left_out(
        if screen::readable(ops, line, 0, columns - 1, true) {
            screen::line_string(ops, line, (columns - 1) as nat)
        } else {
            cells_text(ops, line, 0, columns)
        },
    );
}

/// The view is put as many lines above the live tip as was asked for, or at the oldest
/// line, and the history stays as it is.
pub proof fn the_view_goes_where_it_was_put(ops: Seq<Op>, lines: usize, after: Seq<Op>)
    requires
        scrolls(ops, lines, after),
    ensures
        lines <= history(ops) ==> offset(after) == lines,
        lines > history(ops) ==> offset(after) == history(ops),
        history(after) == history(ops),
        offset(ops) == offset(after) ==> after == ops,
{
}

/// Output is read at once, unless it is held back; then the emulator sees nothing of it
/// and it waits behind what is held back already.
pub proof fn output_is_read_or_held_back(
    ops: Seq<Op>,
    held: Option<Seq<Seq<u8>>>,
    bytes: Seq<u8>,
    after: Seq<Op>,
    left: Option<Seq<Seq<u8>>>,
)
    requires
        feeds(ops, held, bytes, after, left),
    ensures
        held is None && dimensions(ops).0 >= 2 && bytes.len() > 0 ==> after == ops.push(
            Op::Feed(bytes),
        ),
        held is None ==> left is None,
        held is Some ==> after == ops && left is Some,
        held is Some && bytes.len() > 0 && held_size(held->0) + bytes.len() <= 1_048_576
            ==> left == Some(held->0.push(bytes)),
{
    if held is Some && held_size(held->0) + bytes.len() <= 1_048_576 {
        a_piece_that_fits_is_held_back_whole(held->0, bytes);
    }
}

/// Holding output back touches nothing; letting it through has the emulator read
/// everything that was held back, in its order, and holds nothing back any more.
pub proof fn letting_output_through_reads_it(
    ops: Seq<Op>,
    held: Option<Seq<Seq<u8>>>,
    hold: bool,
    after: Seq<Op>,
    left: Option<Seq<Seq<u8>>>,
)
    requires
        holds(ops, held, hold, after, left),
    ensures
        hold ==> after == ops && left is Some,
        hold && held is None ==> left->0.len() == 0,
        hold && held is Some ==> left == held,
        !hold ==> left is None,
        !hold && held is None ==> after == ops,
        !hold && held is Some ==> after == fed_all(ops, held->0),
{
}

/// A cursor is put at its own cell; behind the last column it is put on the last one, with
/// a wrap pending.
pub proof fn a_cursor_is_put_at_its_cell(
    ops: Seq<Op>,
    size: Size,
    column: usize,
    row: usize,
    after: Seq<Op>,
)
    requires
        places_cursor(ops, size, column, row, after),
        column <= size.width(),
        size.width() > 0,
    ensures
        column < size.width() ==> after == ops.push(
            Op::Cursor { column: column as nat, row: row as nat, wrap: false },
        ),
        column == size.width() ==> after == ops.push(
            Op::Cursor { column: (column - 1) as nat, row: row as nat, wrap: true },
        ),
{
}

/// Another size is given to the grid, and the same size changes nothing.
pub proof fn another_size_is_given_to_the_grid(
    ops: Seq<Op>,
    from: Size,
    size: Size,
    after: Seq<Op>,
)
    requires
        resizes(ops, from, size, after),
    ensures
        size == from ==> after == ops,
        size != from ==> after == ops.push(
            Op::Resize { columns: size.width(), rows: size.height() },
        ),
        size.width() >= 2 ==> resizable(ops, from, size),
{
}

/// The selected text is the emulator's, or where it cannot read it that of the selected
/// cells; nothing is selected where nothing is.
pub proof fn what_is_selected(ops: Seq<Op>)
    ensures
        match screen::selected_span(ops) {
            Some(span) => {
                &&& screen::span_readable(ops, span) ==> selection_text(ops) == screen::selected(
                    ops,
                )
                &&& !screen::span_readable(ops, span) && span_on_grid(ops, span)
                    ==> selection_text(ops) == Some(span_text(ops, span, span.end.line as int))
            },
            None => selection_text(ops) == screen::selected(ops),
        },
{
}

/// The cells of a line of a selection that are read are those from its first to its last,
/// without the blanks at their end.
pub proof fn a_line_of_a_selection_is_its_cells(ops: Seq<Op>, span: Span, line: int)
    ensures
        !span.is_block && span.start.line < line < span.end.line ==> span_cells(ops, span, line)
            == without_blanks(cells_text(ops, line, 0, dimensions(ops).0 as int)),
        span.is_block || (line == span.start.line && line == span.end.line) ==> span_cells(
            ops,
            span,
            line,
        ) == without_blanks(
            cells_text(ops, line, span.start.column as int, span.end.column + 1),
        ),
{
}

/// A selection lies on the grid if its first and its last cell do, in this order.
pub proof fn which_selections_lie_on_the_grid(ops: Seq<Op>, span: Span)
    ensures
        span_on_grid(ops, span) <==> {
            &&& -(history(ops) as int) <= span.start.line
            &&& span.start.line <= span.end.line
            &&& span.end.line < dimensions(ops).1
            &&& span.start.column < dimensions(ops).0
            &&& span.end.column < dimensions(ops).0
        },
{
}

} // verus!
