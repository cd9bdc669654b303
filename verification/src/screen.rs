//! The terminal emulator: Alacritty's terminal model and its parser.
//!
//! The emulator is deterministic: what it shows follows from how it was made and
//! from what was done to it since, in order. That list stands for its contents,
//! and everything that is read off it is a function of that list.
use alacritty_terminal::event::VoidListener;
use alacritty_terminal::grid::{Dimensions, Scroll};
use alacritty_terminal::index::{Column, Line, Point as Place, Side as Half};
use alacritty_terminal::selection::{Selection, SelectionType};
use alacritty_terminal::term::cell::Flags;
use alacritty_terminal::term::test::TermSize;
use alacritty_terminal::term::{Config, Osc52, Term, TermMode};
use alacritty_terminal::vte::ansi::{Color, CursorShape, Processor};
use vstd::prelude::*;
use crate::width::has_wide;

verus! {

/// A cell of the grid. Lines above the screen are negative.
#[derive(Clone, Copy, Debug, PartialEq, Eq, Structural)]
pub struct Point {
    pub line: i32,
    pub column: usize,
}

/// The half of a cell.
#[derive(Clone, Copy, Debug, PartialEq, Eq, Structural)]
pub enum Side {
    Left,
    Right,
}

/// What a selection extends to.
#[derive(Clone, Copy, Debug, PartialEq, Eq, Structural)]
pub enum Extent {
    Simple,
    Block,
    Semantic,
    Lines,
}

/// The selected cells, from the first to the last.
#[derive(Clone, Copy, Debug, PartialEq, Eq, Structural)]
pub struct Span {
    pub start: Point,
    pub end: Point,
    pub is_block: bool,
}

/// The modes that decide where input goes.
#[derive(Clone, Copy, Debug, PartialEq, Eq, Structural)]
pub enum Mode {
    /// The alternate screen is shown.
    Alternate,
    /// The application asked for mouse reports of any kind.
    Mouse,
    /// Mouse reports are in SGR form.
    SgrMouse,
    /// The cursor is to be seen.
    ShowCursor,
}

/// A colour as a cell names it.
#[derive(Clone, Copy, Debug, PartialEq, Eq, Structural)]
pub enum Ink {
    /// By its place in the palette, where the named colours follow the numbered.
    Named(usize),
    Indexed(u8),
    Rgb(u8, u8, u8),
}

/// What a cell shows.
pub struct Look {
    pub c: char,
    /// Characters that combine with it.
    pub zerowidth: Vec<char>,
    pub foreground: Ink,
    pub background: Ink,
}

/// What a cell shows, apart from how its characters are held.
pub struct Glyph {
    pub c: char,
    pub zerowidth: Seq<char>,
    pub foreground: Ink,
    pub background: Ink,
}

impl View for Look {
    type V = Glyph;

    open spec fn view(&self) -> Glyph {
        Glyph {
            c: self.c,
            zerowidth: self.zerowidth@,
            foreground: self.foreground,
            background: self.background,
        }
    }
}

/// How a cell shows it.
#[derive(Clone, Copy, Debug, PartialEq, Eq, Structural)]
pub struct Style {
    /// Everything below and more, as one number.
    pub bits: u16,
    pub inverse: bool,
    pub bold: bool,
    pub italic: bool,
    pub dim: bool,
    pub hidden: bool,
    pub strikeout: bool,
    /// Any kind of underline.
    pub underlined: bool,
    /// The first half of a wide character.
    pub wide: bool,
    /// The second half of a wide character.
    pub spacer: bool,
    /// The end of a row that a wide character did not fit.
    pub leading: bool,
}

/// How the cursor is shown.
#[derive(Clone, Copy, Debug, PartialEq, Eq, Structural)]
pub enum Shape {
    Block,
    Underline,
    Beam,
    HollowBlock,
    Hidden,
}

/// Something that is done to an emulator.
pub enum Op {
    New { columns: nat, rows: nat, history: nat },
    Feed(Seq<u8>),
    Resize { columns: nat, rows: nat },
    Scroll(int),
    Cursor { column: nat, row: nat, wrap: bool },
    Select { extent: Extent, point: Point, side: Side },
    Extend { point: Point, side: Side },
    Deselect,
}

/// How many columns and rows an emulator has after all that.
pub open spec fn dimensions(ops: Seq<Op>) -> (nat, nat)
    decreases ops.len(),
{
    if ops.len() == 0 {
        (0, 0)
    } else {
        match ops.last() {
            Op::New { columns, rows, .. } => (columns, rows),
            Op::Resize { columns, rows } => (columns, rows),
            _ => dimensions(ops.drop_last()),
        }
    }
}

/// How many lines of history an emulator was made for.
pub open spec fn capacity(ops: Seq<Op>) -> nat {
    if ops.len() > 0 {
        match ops[0] {
            Op::New { history, .. } => history,
            _ => 0,
        }
    } else {
        0
    }
}

/// One more thing done to an emulator changes its size only if it is a resize,
/// never the history that it was made for, and what it has read only if it reads.
pub broadcast proof fn lemma_one_more(ops: Seq<Op>, op: Op)
    requires
        ops.len() > 0,
    ensures
        #![trigger ops.push(op)]
        capacity(ops.push(op)) == capacity(ops),
        stream(ops.push(op)) == (match op {
            Op::Feed(bytes) => stream(ops) + bytes,
            _ => stream(ops),
        }),
        dimensions(ops.push(op)) == (match op {
            Op::New { columns, rows, .. } => (columns, rows),
            Op::Resize { columns, rows } => (columns, rows),
            _ => dimensions(ops),
        }),
{
    assert(ops.push(op).drop_last() =~= ops);
}

/// Alacritty's terminal model together with the parser that feeds it.
#[verifier::external_body]
pub struct Screen {
    model: Term<VoidListener>,
    parser: Processor,
}

/// How an emulator was made and what was done to it since, in order.
pub uninterp spec fn done(screen: Screen) -> Seq<Op>;

/// The lines of history above the screen: what `Grid::history_size` returns.
pub uninterp spec fn history(ops: Seq<Op>) -> nat;

/// How far the view is scrolled into the history: what `Grid::display_offset`
/// returns.
pub uninterp spec fn offset(ops: Seq<Op>) -> nat;

/// The text of a line up to a column: what `Term::bounds_to_string` returns.
pub uninterp spec fn line_string(ops: Seq<Op>, line: int, last: nat) -> Seq<char>;

/// What a cell shows: the character and colours of its `Cell`.
pub uninterp spec fn glyph(ops: Seq<Op>, line: int, column: nat) -> Glyph;

/// How a cell shows it: the `Flags` of its `Cell`.
pub uninterp spec fn style(ops: Seq<Op>, line: int, column: nat) -> Style;

/// Where a cell's hyperlink leads: what `Cell::hyperlink` and `Hyperlink::uri`
/// return.
pub uninterp spec fn hyperlink(ops: Seq<Op>, line: int, column: nat) -> Option<Seq<char>>;

/// Whether a mode is set: what `Term::mode` returns.
pub uninterp spec fn mode_set(ops: Seq<Op>, mode: Mode) -> bool;

/// The selected text: what `Term::selection_to_string` returns.
pub uninterp spec fn selected(ops: Seq<Op>) -> Option<Seq<char>>;

/// The selected cells: what `Selection::to_range` returns.
pub uninterp spec fn selected_span(ops: Seq<Op>) -> Option<Span>;

/// A colour that the application set: what `Term::colors` holds.
pub uninterp spec fn palette(ops: Seq<Op>, index: nat) -> Option<(u8, u8, u8)>;

/// The cell at which the next character goes: the point of `Grid::cursor`.
pub uninterp spec fn cursor_point(ops: Seq<Op>) -> Point;

/// The form of the cursor where it is seen: what `Term::cursor_style` returns.
pub uninterp spec fn cursor_form(ops: Seq<Op>) -> Shape;

/// A line of the grid, in the history or on the screen.
pub open spec fn on_grid(ops: Seq<Op>, line: int) -> bool {
    -(history(ops) as int) <= line < dimensions(ops).1
}

/// Cells of a line, from one column to another, whose text the emulator can read.
/// It looks for the first half of a character to the left of its second half, and
/// at the end of what it reads for a character that did not fit the row in the
/// line above: neither may lie outside of the grid.
pub open spec fn readable(ops: Seq<Op>, line: int, from: int, to: int, last: bool) -> bool {
    let columns = dimensions(ops).0 as int;
    &&& on_grid(ops, line)
    &&& 0 <= from < columns
    &&& from == 0 ==> !style(ops, line, 0).spacer
    &&& last && to + 1 >= columns && line == -(history(ops) as int) ==> !style(
        ops,
        line,
        (columns - 1) as nat,
    ).leading
}

/// The column from which a line of a selection is read.
pub open spec fn span_from(span: Span, line: int) -> int {
    if span.is_block || line == span.start.line {
        span.start.column as int
    } else {
        0
    }
}

/// The column up to which a line of a selection is read.
pub open spec fn span_to(span: Span, line: int, columns: nat) -> int {
    if span.is_block || line == span.end.line {
        span.end.column as int
    } else {
        columns - 1
    }
}

/// A line of a selection is read to its end.
pub open spec fn span_last(span: Span, line: int) -> bool {
    line == span.end.line || (span.is_block && span.start.column != 0)
}

/// A line of a selection that the emulator can read.
pub open spec fn span_row(ops: Seq<Op>, span: Span, line: int) -> bool {
    readable(
        ops,
        line,
        span_from(span, line),
        span_to(span, line, dimensions(ops).0),
        span_last(span, line),
    )
}

/// A selection that the emulator can read.
pub open spec fn span_readable(ops: Seq<Op>, span: Span) -> bool {
    &&& span.start.line <= span.end.line
    &&& forall|line: int|
        span.start.line <= line <= span.end.line ==> #[trigger] span_row(ops, span, line)
}

/// Everything that an emulator has read, in order.
pub open spec fn stream(ops: Seq<Op>) -> Seq<u8>
    decreases ops.len(),
{
    if ops.len() == 0 {
        Seq::empty()
    } else {
        match ops.last() {
            Op::Feed(bytes) => stream(ops.drop_last()) + bytes,
            _ => stream(ops.drop_last()),
        }
    }
}

/// The most columns, rows or lines of history that the emulator's arithmetic has
/// room for.
pub const MAX_EXTENT: usize = 0x3fff_ffff;

impl Screen {
    /// `Term::new` and `Processor::new`: an empty emulator of that size, with
    /// OSC 52 clipboard access switched off and no replies to the application.
    #[verifier::external_body]
    pub(crate) fn new(columns: usize, rows: usize, history: usize) -> (r: Self)
        requires
            1 <= columns <= MAX_EXTENT,
            1 <= rows <= MAX_EXTENT,
            history <= MAX_EXTENT,
        ensures
            done(r) == seq![
                Op::New { columns: columns as nat, rows: rows as nat, history: history as nat },
            ],
    {
        let config = Config {
            scrolling_history: history,
            osc52: Osc52::Disabled,
            ..Config::default()
        };
        Screen {
            model: Term::new(config, &TermSize::new(columns, rows), VoidListener),
            parser: Processor::new(),
        }
    }

    /// `Processor::advance` reads bytes into the model. What it makes of them
    /// depends on nothing but the emulator and the bytes: a synchronized update
    /// notes the time at which it is due, which nothing here asks for. In a single
    /// column there is no room for a wide character, which is printed only where all
    /// of its bytes were read one after the other.
    #[verifier::external_body]
    pub(crate) fn advance(&mut self, bytes: &[u8])
        requires
            dimensions(done(*old(self))).0 >= 2 || !has_wide(stream(done(*old(self))) + bytes@),
        ensures
            done(*final(self)) == done(*old(self)).push(Op::Feed(bytes@)),
    {
        self.parser.advance(&mut self.model, bytes);
    }

    /// `Term::resize` gives the grid other dimensions. In a single column it
    /// would look for room for a wide character for ever, and it counts the history
    /// and the rows together.
    #[verifier::external_body]
    pub(crate) fn resize(&mut self, columns: usize, rows: usize)
        requires
            columns >= 2 || (columns == 1 && !has_wide(stream(done(*old(self))))),
            columns <= MAX_EXTENT,
            1 <= rows <= MAX_EXTENT,
            dimensions(done(*old(self))).1 <= MAX_EXTENT,
            capacity(done(*old(self))) <= MAX_EXTENT,
        ensures
            done(*final(self)) == done(*old(self)).push(
                Op::Resize { columns: columns as nat, rows: rows as nat },
            ),
    {
        self.model.resize(TermSize::new(columns, rows));
    }

    /// `Grid::scroll_display` moves the view by so many lines, but not beyond
    /// either end of the history, and leaves the history as it is.
    #[verifier::external_body]
    pub(crate) fn scroll(&mut self, delta: i32)
        requires
            -0x4000_0000 <= delta <= 0x4000_0000,
            capacity(done(*old(self))) <= MAX_EXTENT,
        ensures
            done(*final(self)) == done(*old(self)).push(Op::Scroll(delta as int)),
            history(done(*final(self))) == history(done(*old(self))),
            offset(done(*final(self))) == ({
                let moved = offset(done(*old(self))) + delta;
                let end = history(done(*old(self)));
                if moved < 0 {
                    0
                } else if moved > end {
                    end as int
                } else {
                    moved
                }
            }),
    {
        self.model.grid_mut().scroll_display(Scroll::Delta(delta));
    }

    /// `Grid::cursor` is where the next character goes; `input_needs_wrap` says
    /// that a wrap comes before it.
    #[verifier::external_body]
    pub(crate) fn set_cursor(&mut self, column: usize, row: usize, wrap: bool)
        requires
            column < dimensions(done(*old(self))).0,
            row < dimensions(done(*old(self))).1,
            row <= i32::MAX,
        ensures
            done(*final(self)) == done(*old(self)).push(
                Op::Cursor { column: column as nat, row: row as nat, wrap },
            ),
    {
        let cursor = &mut self.model.grid_mut().cursor;
        cursor.point = Place::new(Line(row as i32), Column(column));
        cursor.input_needs_wrap = wrap;
    }

    /// `Selection::new` starts a selection at a cell.
    #[verifier::external_body]
    pub(crate) fn select(&mut self, extent: Extent, point: Point, side: Side)
        requires
            on_grid(done(*old(self)), point.line as int),
            point.column < dimensions(done(*old(self))).0,
        ensures
            done(*final(self)) == done(*old(self)).push(Op::Select { extent, point, side }),
    {
        let kind = match extent {
            Extent::Simple => SelectionType::Simple,
            Extent::Block => SelectionType::Block,
            Extent::Semantic => SelectionType::Semantic,
            Extent::Lines => SelectionType::Lines,
        };
        let half = match side {
            Side::Left => Half::Left,
            Side::Right => Half::Right,
        };
        let place = Place::new(Line(point.line), Column(point.column));
        self.model.selection = Some(Selection::new(kind, place, half));
    }

    /// `Selection::update` moves the end of the selection to a cell.
    #[verifier::external_body]
    pub(crate) fn extend(&mut self, point: Point, side: Side)
        requires
            on_grid(done(*old(self)), point.line as int),
            point.column < dimensions(done(*old(self))).0,
        ensures
            done(*final(self)) == done(*old(self)).push(Op::Extend { point, side }),
    {
        let half = match side {
            Side::Left => Half::Left,
            Side::Right => Half::Right,
        };
        if let Some(ref mut selection) = self.model.selection {
            selection.update(Place::new(Line(point.line), Column(point.column)), half);
        }
    }

    /// `Term::selection` is what is selected.
    #[verifier::external_body]
    pub(crate) fn deselect(&mut self)
        ensures
            done(*final(self)) == done(*old(self)).push(Op::Deselect),
    {
        self.model.selection = None;
    }

    /// `Grid::history_size` counts the lines above the screen. It never exceeds
    /// the history that the emulator was made for.
    #[verifier::external_body]
    pub(crate) fn history_size(&self) -> (r: usize)
        ensures
            r == history(done(*self)),
            r <= capacity(done(*self)),
    {
        self.model.grid().history_size()
    }

    /// `Grid::display_offset` counts the lines by which the view is scrolled. It
    /// never exceeds the history that the emulator was made for.
    #[verifier::external_body]
    pub(crate) fn display_offset(&self) -> (r: usize)
        ensures
            r == offset(done(*self)),
            r <= capacity(done(*self)),
    {
        self.model.grid().display_offset()
    }

    /// `Term::bounds_to_string` is the text of a line up to a column.
    #[verifier::external_body]
    pub(crate) fn line_text(&self, line: i32, last: usize) -> (r: String)
        requires
            readable(done(*self), line as int, 0, last as int, true),
            last < dimensions(done(*self)).0,
        ensures
            r@ == line_string(done(*self), line as int, last as nat),
    {
        let from = Place::new(Line(line), Column(0));
        let to = Place::new(Line(line), Column(last));
        self.model.bounds_to_string(from, to)
    }

    /// The character, combining characters and colours of a `Cell`.
    #[verifier::external_body]
    pub(crate) fn look(&self, line: i32, column: usize) -> (r: Look)
        requires
            on_grid(done(*self), line as int),
            column < dimensions(done(*self)).0,
        ensures
            r@ == glyph(done(*self), line as int, column as nat),
    {
        let cell = &self.model.grid()[Line(line)][Column(column)];
        let ink = |color: Color| match color {
            Color::Named(named) => Ink::Named(named as usize),
            Color::Indexed(index) => Ink::Indexed(index),
            Color::Spec(rgb) => Ink::Rgb(rgb.r, rgb.g, rgb.b),
        };
        let zerowidth = cell.zerowidth().map(<[char]>::to_vec).unwrap_or_default();
        Look { c: cell.c, zerowidth, foreground: ink(cell.fg), background: ink(cell.bg) }
    }

    /// The `Flags` of a `Cell`.
    #[verifier::external_body]
    pub(crate) fn style(&self, line: i32, column: usize) -> (r: Style)
        requires
            on_grid(done(*self), line as int),
            column < dimensions(done(*self)).0,
        ensures
            r == style(done(*self), line as int, column as nat),
    {
        let flags = self.model.grid()[Line(line)][Column(column)].flags;
        Style {
            bits: flags.bits(),
            inverse: flags.contains(Flags::INVERSE),
            bold: flags.contains(Flags::BOLD),
            italic: flags.contains(Flags::ITALIC),
            dim: flags.contains(Flags::DIM),
            hidden: flags.contains(Flags::HIDDEN),
            strikeout: flags.contains(Flags::STRIKEOUT),
            underlined: flags.intersects(Flags::ALL_UNDERLINES),
            wide: flags.contains(Flags::WIDE_CHAR),
            spacer: flags.contains(Flags::WIDE_CHAR_SPACER),
            leading: flags.contains(Flags::LEADING_WIDE_CHAR_SPACER),
        }
    }

    /// `Cell::hyperlink` and `Hyperlink::uri` are where a cell's link leads.
    #[verifier::external_body]
    pub(crate) fn hyperlink(&self, line: i32, column: usize) -> (r: Option<String>)
        requires
            on_grid(done(*self), line as int),
            column < dimensions(done(*self)).0,
        ensures
            match r {
                Some(uri) => hyperlink(done(*self), line as int, column as nat) == Some(uri@),
                None => hyperlink(done(*self), line as int, column as nat) is None,
            },
    {
        let cell = &self.model.grid()[Line(line)][Column(column)];
        cell.hyperlink().map(|link| link.uri().to_owned())
    }

    /// `Term::mode` holds the modes that are set.
    #[verifier::external_body]
    pub(crate) fn has_mode(&self, mode: Mode) -> (r: bool)
        ensures
            r == mode_set(done(*self), mode),
    {
        let flag = match mode {
            Mode::Alternate => TermMode::ALT_SCREEN,
            Mode::Mouse => TermMode::MOUSE_MODE,
            Mode::SgrMouse => TermMode::SGR_MOUSE,
            Mode::ShowCursor => TermMode::SHOW_CURSOR,
        };
        self.model.mode().intersects(flag)
    }

    /// `Term::selection_to_string` is the selected text. It reads the lines of the
    /// selected cells one by one.
    #[verifier::external_body]
    pub(crate) fn selected_text(&self) -> (r: Option<String>)
        requires
            selected_span(done(*self)) is Some ==> span_readable(
                done(*self),
                selected_span(done(*self))->0,
            ),
        ensures
            match r {
                Some(text) => selected(done(*self)) == Some(text@),
                None => selected(done(*self)) is None,
            },
    {
        self.model.selection_to_string()
    }

    /// `Selection::to_range` is the selected cells.
    #[verifier::external_body]
    pub(crate) fn selected_cells(&self) -> (r: Option<Span>)
        ensures
            r == selected_span(done(*self)),
    {
        let range = self.model.selection.as_ref().and_then(|s| s.to_range(&self.model));
        range.map(|range| Span {
            start: Point { line: range.start.line.0, column: range.start.column.0 },
            end: Point { line: range.end.line.0, column: range.end.column.0 },
            is_block: range.is_block,
        })
    }

    /// `Term::colors` holds the colours that the application set.
    #[verifier::external_body]
    pub(crate) fn color(&self, index: usize) -> (r: Option<(u8, u8, u8)>)
        requires
            index < 269,
        ensures
            r == palette(done(*self), index as nat),
    {
        self.model.colors()[index].map(|rgb| (rgb.r, rgb.g, rgb.b))
    }

    /// The point of `Grid::cursor`, at which the next character goes.
    #[verifier::external_body]
    pub(crate) fn cursor_place(&self) -> (r: Point)
        ensures
            r == cursor_point(done(*self)),
    {
        let point = self.model.grid().cursor.point;
        Point { line: point.line.0, column: point.column.0 }
    }

    /// `Term::cursor_style` is the form of the cursor where it is seen.
    #[verifier::external_body]
    pub(crate) fn cursor_style(&self) -> (r: Shape)
        ensures
            r == cursor_form(done(*self)),
    {
        match self.model.cursor_style().shape {
            CursorShape::Block => Shape::Block,
            CursorShape::Underline => Shape::Underline,
            CursorShape::Beam => Shape::Beam,
            CursorShape::HollowBlock => Shape::HollowBlock,
            CursorShape::Hidden => Shape::Hidden,
        }
    }
}

/// A line of a selection is read from its beginning to its end, but for the first from
/// where the selection starts and for the last up to where it ends; a block is read
/// between the same two columns in every line.
pub proof fn which_cells_of_a_line_are_read(span: Span, line: int, columns: nat)
    ensures
        !span.is_block && line == span.start.line ==> span_from(span, line) == span.start.column,
        !span.is_block && line > span.start.line ==> span_from(span, line) == 0,
        !span.is_block && line == span.end.line ==> span_to(span, line, columns)
            == span.end.column,
        !span.is_block && line < span.end.line ==> span_to(span, line, columns) == columns - 1,
        span.is_block ==> span_from(span, line) == span.start.column && span_to(
            span,
            line,
            columns,
        ) == span.end.column,
{
}

} // verus!
