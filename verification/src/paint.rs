//! What a terminal's cells look like: colours, runs of text, and the selection.
use vstd::prelude::*;
use crate::screen::{Ink, Look, Point, Shape, Span, Style};
use crate::text;

verus! {

/// A colour by its red, green and blue.
pub type Rgb = (u8, u8, u8);

/// What stands behind text that names no colour.
pub const BACKGROUND: (u8, u8, u8) = (18, 21, 26);

/// Text that names no colour.
pub const FOREGROUND: (u8, u8, u8) = (214, 220, 229);

/// The places of the palette.
pub const PALETTE: usize = 269;

/// A colour, and how many times it is to be dimmed before it is painted.
#[derive(Clone, Copy, Debug, PartialEq, Eq)]
pub struct Shade {
    pub rgb: (u8, u8, u8),
    pub dims: u8,
}

/// The sixteen named colours.
pub open spec fn named(index: nat) -> Rgb {
    if index == 0 {
        (30, 34, 42)
    } else if index == 1 {
        (224, 108, 117)
    } else if index == 2 {
        (152, 195, 121)
    } else if index == 3 {
        (229, 192, 123)
    } else if index == 4 {
        (97, 175, 239)
    } else if index == 5 {
        (198, 120, 221)
    } else if index == 6 {
        (86, 182, 194)
    } else if index == 7 {
        (214, 220, 229)
    } else if index == 8 {
        (110, 121, 138)
    } else if index == 9 {
        (239, 134, 143)
    } else if index == 10 {
        (174, 217, 143)
    } else if index == 11 {
        (245, 215, 151)
    } else if index == 12 {
        (129, 194, 249)
    } else if index == 13 {
        (215, 151, 235)
    } else if index == 14 {
        (121, 205, 213)
    } else {
        (244, 246, 250)
    }
}

/// One of the six steps of the colour cube.
pub open spec fn step(n: nat) -> u8 {
    if n == 0 {
        0
    } else {
        (55 + n * 40) as u8
    }
}

/// The colour at a place of the palette, given what the application set: the
/// named colours, the cube, the grays, and the places behind them.
pub open spec fn shade_at(index: nat, set: Seq<Option<Rgb>>) -> Shade {
    match set[index as int] {
        Some(rgb) => Shade { rgb, dims: 0 },
        None => if index < 16 {
            Shade { rgb: named(index), dims: 0 }
        } else if index < 232 {
            let n = (index - 16) as nat;
            Shade { rgb: (step(n / 36), step(n / 6 % 6), step(n % 6)), dims: 0 }
        } else if index < 256 {
            let gray = (8 + (index - 232) * 10) as u8;
            Shade { rgb: (gray, gray, gray), dims: 0 }
        } else if index == 257 {
            Shade { rgb: BACKGROUND, dims: 0 }
        } else if index == 268 {
            Shade { rgb: FOREGROUND, dims: 1 }
        } else if 259 <= index <= 266 {
            match set[index - 259] {
                Some(rgb) => Shade { rgb, dims: 1 },
                None => Shade { rgb: named((index - 259) as nat), dims: 1 },
            }
        } else {
            Shade { rgb: FOREGROUND, dims: 0 }
        },
    }
}

/// A place of the palette that an ink names.
pub open spec fn in_palette(ink: Ink) -> bool {
    ink is Named ==> ink->Named_0 < PALETTE
}

/// The colour of an ink.
pub open spec fn shade_of(ink: Ink, set: Seq<Option<Rgb>>) -> Shade {
    match ink {
        Ink::Rgb(r, g, b) => Shade { rgb: (r, g, b), dims: 0 },
        Ink::Indexed(index) => shade_at(index as nat, set),
        Ink::Named(index) => shade_at(index as nat, set),
    }
}

/// The foreground of a cell before it is inverted: bold text in one of the first
/// eight colours takes its bright form, and dim text is dimmed once more.
pub open spec fn ink_shade(ink: Ink, style: Style, set: Seq<Option<Rgb>>) -> Shade {
    let plain = match ink {
        Ink::Named(index) => if style.bold && index < 8 {
            shade_at((index + 8) as nat, set)
        } else {
            shade_of(ink, set)
        },
        Ink::Indexed(index) => if style.bold && index < 8 {
            shade_at((index + 8) as nat, set)
        } else {
            shade_of(ink, set)
        },
        _ => shade_of(ink, set),
    };
    if style.dim {
        Shade { dims: (plain.dims + 1) as u8, ..plain }
    } else {
        plain
    }
}

/// The foreground and background of a cell.
pub open spec fn shades(
    foreground: Ink,
    background: Ink,
    style: Style,
    set: Seq<Option<Rgb>>,
) -> (Shade, Shade) {
    let front = ink_shade(foreground, style, set);
    let back = shade_of(background, set);
    if style.inverse {
        (back, front)
    } else {
        (front, back)
    }
}

fn named_color(index: usize) -> (r: (u8, u8, u8))
    ensures
        r == named(index as nat),
{
    match index {
        0 => (30, 34, 42),
        1 => (224, 108, 117),
        2 => (152, 195, 121),
        3 => (229, 192, 123),
        4 => (97, 175, 239),
        5 => (198, 120, 221),
        6 => (86, 182, 194),
        7 => (214, 220, 229),
        8 => (110, 121, 138),
        9 => (239, 134, 143),
        10 => (174, 217, 143),
        11 => (245, 215, 151),
        12 => (129, 194, 249),
        13 => (215, 151, 235),
        14 => (121, 205, 213),
        _ => (244, 246, 250),
    }
}

fn cube_step(n: usize) -> (r: u8)
    requires
        n <= 5,
    ensures
        r == step(n as nat),
{
    if n == 0 {
        0
    } else {
        55 + n as u8 * 40
    }
}

/// The colour at a place of the palette, given what the application set.
pub fn indexed(index: usize, set: &Vec<Option<(u8, u8, u8)>>) -> (r: Shade)
    requires
        index < PALETTE,
        set@.len() == PALETTE,
    ensures
        r == shade_at(index as nat, set@),
{
    match set[index] {
        Some(rgb) => return Shade { rgb, dims: 0 },
        None => {},
    }
    if index < 16 {
        Shade { rgb: named_color(index), dims: 0 }
    } else if index < 232 {
        let n: usize = index - 16;
        Shade { rgb: (cube_step(n / 36), cube_step(n / 6 % 6), cube_step(n % 6)), dims: 0 }
    } else if index < 256 {
        let gray: u8 = 8 + (index - 232) as u8 * 10;
        Shade { rgb: (gray, gray, gray), dims: 0 }
    } else if index == 257 {
        Shade { rgb: BACKGROUND, dims: 0 }
    } else if index == 268 {
        Shade { rgb: FOREGROUND, dims: 1 }
    } else if 259 <= index && index <= 266 {
        match set[index - 259] {
            Some(rgb) => Shade { rgb, dims: 1 },
            None => Shade { rgb: named_color(index - 259), dims: 1 },
        }
    } else {
        Shade { rgb: FOREGROUND, dims: 0 }
    }
}

/// The colour of an ink.
pub fn color(ink: Ink, set: &Vec<Option<(u8, u8, u8)>>) -> (r: Shade)
    requires
        in_palette(ink),
        set@.len() == PALETTE,
    ensures
        r == shade_of(ink, set@),
{
    match ink {
        Ink::Rgb(r, g, b) => Shade { rgb: (r, g, b), dims: 0 },
        Ink::Indexed(index) => indexed(index as usize, set),
        Ink::Named(index) => indexed(index, set),
    }
}

/// The foreground and background of a cell.
pub fn cell_colors(
    foreground: Ink,
    background: Ink,
    style: Style,
    set: &Vec<Option<(u8, u8, u8)>>,
) -> (r: (Shade, Shade))
    requires
        in_palette(foreground),
        in_palette(background),
        set@.len() == PALETTE,
    ensures
        r == shades(foreground, background, style, set@),
{
    let mut front: Shade = color(foreground, set);
    let back: Shade = color(background, set);
    if style.bold {
        match foreground {
            Ink::Named(index) => if index < 8 {
                front = indexed(index + 8, set);
            },
            Ink::Indexed(index) => if index < 8 {
                front = indexed(index as usize + 8, set);
            },
            _ => {},
        }
    }
    if style.dim {
        front = Shade { rgb: front.rgb, dims: front.dims + 1 };
    }
    if style.inverse {
        (back, front)
    } else {
        (front, back)
    }
}

/// No cell is dimmed more than twice: once by its colour and once by its style.
pub proof fn a_cell_is_dimmed_at_most_twice(
    foreground: Ink,
    background: Ink,
    style: Style,
    set: Seq<Option<Rgb>>,
)
    ensures
        shades(foreground, background, style, set).0.dims <= 2,
        shades(foreground, background, style, set).1.dims <= 2,
{
}

/// Inverting a cell swaps its colours and changes neither.
pub proof fn inverting_swaps_the_colors(
    foreground: Ink,
    background: Ink,
    style: Style,
    set: Seq<Option<Rgb>>,
)
    ensures
        ({
            let upright = Style { inverse: false, ..style };
            let inverted = Style { inverse: true, ..style };
            let a = shades(foreground, background, upright, set);
            let b = shades(foreground, background, inverted, set);
            a.0 == b.1 && a.1 == b.0
        }),
{
}

/// One channel of a frozen colour: a sixth of the way to the background.
pub open spec fn toward(channel: u8, goal: u8) -> u8 {
    ((channel as nat * 5 + goal as nat) / 6) as u8
}

/// A colour dimmed toward the background, for a pane that is not live.
pub fn freeze(rgb: (u8, u8, u8)) -> (r: (u8, u8, u8))
    ensures
        r == (toward(rgb.0, BACKGROUND.0), toward(rgb.1, BACKGROUND.1), toward(rgb.2, BACKGROUND.2)),
{
    (mix(rgb.0, BACKGROUND.0), mix(rgb.1, BACKGROUND.1), mix(rgb.2, BACKGROUND.2))
}

fn mix(channel: u8, goal: u8) -> (r: u8)
    ensures
        r == toward(channel, goal),
{
    ((channel as u16 * 5 + goal as u16) / 6) as u8
}

/// A frozen channel lies between what it was and the background.
pub proof fn freezing_goes_toward_the_background(channel: u8, goal: u8)
    ensures
        channel >= goal ==> goal <= toward(channel, goal) <= channel,
        channel <= goal ==> channel <= toward(channel, goal) <= goal,
{
}

/// A cell is part of a selection: between its first and last cell in reading
/// order, or inside their rectangle.
pub open spec fn covers(span: Span, line: int, column: int) -> bool {
    &&& span.start.line <= line <= span.end.line
    &&& span.start.column <= column || (span.start.line != line && !span.is_block)
    &&& span.end.column >= column || (span.end.line != line && !span.is_block)
}

/// A cell is highlighted.
pub open spec fn is_highlighted(span: Option<Span>, point: Point, wide: bool) -> bool {
    match span {
        Some(span) => covers(span, point.line as int, point.column as int) || (wide && covers(
            span,
            point.line as int,
            point.column + 1,
        )),
        None => false,
    }
}

/// Whether a cell is highlighted: it is selected, or it is the first half of a
/// wide character whose second half is.
pub fn highlighted(span: Option<Span>, point: Point, wide: bool) -> (r: bool)
    ensures
        r == is_highlighted(span, point, wide),
{
    match span {
        Some(span) => covers_cell(span, point.line, point.column) || (wide && point.column
            < usize::MAX && covers_cell(span, point.line, point.column + 1)) || (wide
            && point.column == usize::MAX && !span.is_block && span.start.line <= point.line
            && point.line < span.end.line),
        None => false,
    }
}

fn covers_cell(span: Span, line: i32, column: usize) -> (r: bool)
    ensures
        r == covers(span, line as int, column as int),
{
    span.start.line <= line && line <= span.end.line && (span.start.column <= column || (
    span.start.line != line && !span.is_block)) && (span.end.column >= column || (span.end.line
        != line && !span.is_block))
}

/// A cell of a row.
pub struct Cell {
    pub look: Look,
    pub style: Style,
}

/// A run of text that is painted in one go: the cells it covers, and what it
/// shows. Its first cell says how.
pub struct Run {
    pub start: usize,
    pub end: usize,
    pub text: String,
}

/// What a run is, apart from how its text is held.
pub struct Stretch {
    pub start: int,
    pub end: int,
    pub text: Seq<char>,
}

impl View for Run {
    type V = Stretch;

    open spec fn view(&self) -> Stretch {
        Stretch { start: self.start as int, end: self.end as int, text: self.text@ }
    }
}

/// What runs are.
pub open spec fn stretches(runs: Seq<Run>) -> Seq<Stretch> {
    Seq::new(runs.len(), |i: int| runs[i]@)
}

/// A cell of which nothing is painted itself.
pub open spec fn skipped(cell: Cell) -> bool {
    cell.style.spacer || cell.style.leading || cell.style.hidden
}

/// An ordinary character, which takes exactly its own cell.
pub open spec fn ordinary(cell: Cell) -> bool {
    (cell.look.c as u32) < 0x80 && cell.look.zerowidth@.len() == 0
}

/// Two cells that are painted alike.
pub open spec fn alike(a: Cell, b: Cell) -> bool {
    a.style.bits == b.style.bits && a.look.foreground == b.look.foreground && a.look.background
        == b.look.background
}

/// What a cell shows of an ordinary character.
pub open spec fn shown(c: char) -> char {
    if text::control(c) {
        ' '
    } else {
        c
    }
}

/// Where a run of ordinary cells alike to the one at `start` ends.
pub open spec fn run_to(cells: Seq<Cell>, start: int, at: int) -> int
    decreases cells.len() - at,
{
    if start <= at < cells.len() && ordinary(cells[at]) && alike(cells[at], cells[start]) {
        run_to(cells, start, at + 1)
    } else {
        at
    }
}

/// The run that begins at a cell: ordinary cells as far as they are alike, or a
/// single cell with what combines with it.
pub open spec fn run_at(cells: Seq<Cell>, start: int) -> Stretch {
    let cell = cells[start];
    if ordinary(cell) {
        let end = run_to(cells, start, start);
        Stretch {
            start,
            end,
            text: Seq::new((end - start) as nat, |i: int| shown(cells[start + i].look.c)),
        }
    } else {
        Stretch { start, end: start + 1, text: seq![cell.look.c] + cell.look.zerowidth@ }
    }
}

/// A run of which something is to be seen.
pub open spec fn visible(cells: Seq<Cell>, run: Stretch) -> bool {
    text::trimmed(run.text).len() > 0 || cells[run.start].style.underlined
        || cells[run.start].style.strikeout
}

/// The runs of a row from a cell on.
pub open spec fn runs_from(cells: Seq<Cell>, from: int) -> Seq<Stretch>
    decreases cells.len() - from,
    via runs_move_on
{
    if from < 0 || from >= cells.len() {
        Seq::empty()
    } else if skipped(cells[from]) {
        runs_from(cells, from + 1)
    } else {
        let run = run_at(cells, from);
        let rest = runs_from(cells, run.end);
        if visible(cells, run) {
            seq![run] + rest
        } else {
            rest
        }
    }
}

#[via_fn]
proof fn runs_move_on(cells: Seq<Cell>, from: int) {
    if 0 <= from < cells.len() {
        lemma_run_at(cells, from);
    }
}

proof fn lemma_run_to(cells: Seq<Cell>, start: int, at: int)
    requires
        0 <= start <= at <= cells.len(),
    ensures
        at <= run_to(cells, start, at) <= cells.len(),
    decreases cells.len() - at,
{
    if at < cells.len() && ordinary(cells[at]) && alike(cells[at], cells[start]) {
        lemma_run_to(cells, start, at + 1);
    }
}

proof fn lemma_run_at(cells: Seq<Cell>, start: int)
    requires
        0 <= start < cells.len(),
    ensures
        start < run_at(cells, start).end <= cells.len(),
        run_at(cells, start).start == start,
{
    if ordinary(cells[start]) {
        lemma_run_to(cells, start, start + 1);
    }
}

fn same_ink(a: Ink, b: Ink) -> (r: bool)
    ensures
        r == (a == b),
{
    a == b
}

fn build_run(cells: &Vec<Cell>, start: usize) -> (r: Run)
    requires
        start < cells@.len(),
    ensures
        r@ == run_at(cells@, start as int),
        start < r.end <= cells@.len(),
{
    proof {
        lemma_run_at(cells@, start as int);
    }
    let first: &Cell = &cells[start];
    let mut shown_text = String::new();
    if (first.look.c as u32) < 0x80 && first.look.zerowidth.len() == 0 {
        let mut at: usize = start;
        let ghost end = run_to(cells@, start as int, start as int);
        while at < cells.len() && (cells[at].look.c as u32) < 0x80 && cells[at].look.zerowidth.len()
            == 0 && cells[at].style.bits == first.style.bits && same_ink(
            cells[at].look.foreground,
            first.look.foreground,
        ) && same_ink(cells[at].look.background, first.look.background)
            invariant
                start <= at <= cells@.len(),
                start < cells@.len(),
                first == cells@[start as int],
                end == run_to(cells@, start as int, at as int),
                shown_text@ == Seq::new(
                    (at - start) as nat,
                    |i: int| shown(cells@[start + i].look.c),
                ),
            decreases cells@.len() - at,
        {
            let c: char = cells[at].look.c;
            let ghost before = shown_text@;
            if text::is_control(c) {
                shown_text.push(' ');
            } else {
                shown_text.push(c);
            }
            assert(shown_text@ =~= Seq::new(
                (at + 1 - start) as nat,
                |i: int| shown(cells@[start + i].look.c),
            ));
            at = at + 1;
        }
        assert(at == end);
        Run { start, end: at, text: shown_text }
    } else {
        shown_text.push(first.look.c);
        text::push_chars(&mut shown_text, first.look.zerowidth.as_slice());
        assert(shown_text@ =~= seq![first.look.c] + first.look.zerowidth@);
        assert(start < cells.len());
        Run { start, end: start + 1, text: shown_text }
    }
}

/// The runs of a row, from left to right. Backgrounds are painted before them: a
/// wide character spans the cell behind its own.
pub fn row_runs(cells: &Vec<Cell>) -> (r: Vec<Run>)
    ensures
        stretches(r@) == runs_from(cells@, 0),
{
    let ghost all = runs_from(cells@, 0);
    let mut runs: Vec<Run> = Vec::new();
    let mut at: usize = 0;
    assert(stretches(runs@) + runs_from(cells@, 0) =~= all);
    while at < cells.len()
        invariant
            at <= cells@.len(),
            stretches(runs@) + runs_from(cells@, at as int) == all,
        decreases cells@.len() - at,
    {
        if cells[at].style.spacer || cells[at].style.leading || cells[at].style.hidden {
            at = at + 1;
        } else {
            let run = build_run(cells, at);
            let next: usize = run.end;
            let v = text::chars_of(run.text.as_str());
            let trimmed = text::trim(v.as_slice());
            let ghost before = stretches(runs@);
            let ghost rest = runs_from(cells@, next as int);
            if trimmed.len() > 0 || cells[at].style.underlined || cells[at].style.strikeout {
                let ghost stretch = run@;
                runs.push(run);
                assert(stretches(runs@) =~= before.push(stretch));
                assert(stretches(runs@) + rest =~= before + (seq![stretch] + rest));
            }
            at = next;
        }
    }
    assert(stretches(runs@) =~= all);
    runs
}

/// The cells that a run takes.
pub open spec fn takes_cells(start: usize, end: usize, style: Style, r: usize) -> bool {
    r == (if style.wide {
        2
    } else {
        end - start
    })
}

/// The cells that a run takes when it is painted: a wide character takes two.
pub fn run_width(run: &Run, style: Style) -> (r: usize)
    requires
        run.start <= run.end,
    ensures
        takes_cells(run.start, run.end, style, r),
{
    if style.wide {
        2
    } else {
        run.end - run.start
    }
}

/// How the cursor is drawn.
#[derive(Clone, Copy, Debug, PartialEq, Eq, Structural)]
pub enum Mark {
    /// A line along the left edge of the cell.
    Bar,
    /// A line along the bottom of the cell.
    Line,
    /// The cell filled, with its glyph in the colour of the background.
    Block,
    /// The outline of the cell.
    Outline,
}

/// The mark of a cursor of this shape, in a pane that has the keyboard or not.
pub open spec fn mark_of(shape: Shape, active: bool) -> Mark {
    match shape {
        Shape::Beam => Mark::Bar,
        Shape::Underline => Mark::Line,
        _ => if active {
            Mark::Block
        } else {
            Mark::Outline
        },
    }
}

/// How the cursor is drawn, and in which of the painted rows.
pub open spec fn mark_at(
    shape: Shape,
    line: i32,
    history: usize,
    first: usize,
    count: usize,
    active: bool,
    frozen: bool,
) -> Option<(usize, Mark)> {
    let row = history + line;
    if !frozen && shape != Shape::Hidden && first <= row < first + count {
        Some(((row - first) as usize, mark_of(shape, active)))
    } else {
        None
    }
}

/// How the cursor is drawn, and in which of the painted rows, counted from the
/// first one. It is not drawn where it is hidden, where the pane is not live, or
/// where its row is not among the painted ones: the rows of the history come
/// first, then those of the screen.
pub fn cursor_mark(
    shape: Shape,
    line: i32,
    history: usize,
    first: usize,
    count: usize,
    active: bool,
    frozen: bool,
) -> (r: Option<(usize, Mark)>)
    ensures
        r == mark_at(shape, line, history, first, count, active, frozen),
{
    let row: i128 = history as i128 + line as i128;
    let start: i128 = first as i128;
    if frozen || shape == Shape::Hidden || row < start || row >= start + count as i128 {
        return None;
    }
    let mark: Mark = match shape {
        Shape::Beam => Mark::Bar,
        Shape::Underline => Mark::Line,
        _ => if active {
            Mark::Block
        } else {
            Mark::Outline
        },
    };
    Some(((row - start) as usize, mark))
}

/// Runs stand in order from left to right, never overlap, and stay within their
/// row.
pub proof fn runs_never_overlap(cells: Seq<Cell>, from: int)
    requires
        0 <= from,
    ensures
        forall|i: int|
            0 <= i < runs_from(cells, from).len() ==> from <= (#[trigger] runs_from(
                cells,
                from,
            )[i]).start < runs_from(cells, from)[i].end <= cells.len(),
        forall|i: int, j: int|
            0 <= i < j < runs_from(cells, from).len() ==> (#[trigger] runs_from(
                cells,
                from,
            )[i]).end <= (#[trigger] runs_from(cells, from)[j]).start,
    decreases cells.len() - from,
{
    let all = runs_from(cells, from);
    if from < cells.len() {
        if skipped(cells[from]) {
            runs_never_overlap(cells, from + 1);
            assert(all == runs_from(cells, from + 1));
        } else {
            let run = run_at(cells, from);
            lemma_run_at(cells, from);
            runs_never_overlap(cells, run.end);
            let rest = runs_from(cells, run.end);
            if visible(cells, run) {
                assert(all == seq![run] + rest);
                assert forall|i: int| 0 <= i < all.len() implies from <= (#[trigger] all[i]).start
                    < all[i].end <= cells.len() by {
                    if i > 0 {
                        assert(all[i] == rest[i - 1]);
                    }
                }
                assert forall|i: int, j: int| 0 <= i < j < all.len() implies (#[trigger] all[i]).end
                    <= (#[trigger] all[j]).start by {
                    assert(all[j] == rest[j - 1]);
                    if i > 0 {
                        assert(all[i] == rest[i - 1]);
                    }
                }
            } else {
                assert(all == rest);
            }
        }
    } else {
        assert(all.len() == 0);
    }
}

/// What the application set wins over every colour that a place of the palette has of
/// its own.
pub proof fn a_color_that_was_set_wins(index: nat, set: Seq<Option<Rgb>>, rgb: Rgb)
    requires
        index < 269,
        set.len() == 269,
        set[index as int] == Some(rgb),
    ensures
        shade_at(index, set) == (Shade { rgb, dims: 0 }),
{
}

/// The sixteen named colours, dark and bright.
pub proof fn the_named_colors()
    ensures
        named(0) == (30u8, 34u8, 42u8),
        named(1) == (224u8, 108u8, 117u8),
        named(2) == (152u8, 195u8, 121u8),
        named(3) == (229u8, 192u8, 123u8),
        named(4) == (97u8, 175u8, 239u8),
        named(5) == (198u8, 120u8, 221u8),
        named(6) == (86u8, 182u8, 194u8),
        named(7) == (214u8, 220u8, 229u8),
        named(8) == (110u8, 121u8, 138u8),
        named(9) == (239u8, 134u8, 143u8),
        named(10) == (174u8, 217u8, 143u8),
        named(11) == (245u8, 215u8, 151u8),
        named(12) == (129u8, 194u8, 249u8),
        named(13) == (215u8, 151u8, 235u8),
        named(14) == (121u8, 205u8, 213u8),
        named(15) == (244u8, 246u8, 250u8),
{
}

/// A place of the colour cube is made of its red, green and blue steps, in this order,
/// each dark at zero and otherwise forty brighter a step.
pub proof fn a_place_in_the_cube_is_its_steps(red: nat, green: nat, blue: nat, set: Seq<Option<Rgb>>)
    requires
        red < 6 && green < 6 && blue < 6,
        set.len() == 269,
        set[(16 + 36 * red + 6 * green + blue) as int] is None,
    ensures
        ({
            let shade = shade_at(16 + 36 * red + 6 * green + blue, set);
            &&& shade.dims == 0
            &&& shade.rgb == (step(red), step(green), step(blue))
        }),
        step(0) == 0,
        red > 0 ==> step(red) == 55 + 40 * red,
{
    let n = 36 * red + 6 * green + blue;
    assert(n / 36 == red);
    assert(n / 6 == 6 * red + green);
    assert((n / 6) % 6 == green);
    assert(n % 6 == blue);
}

/// The grays are ten apart, from eight on.
pub proof fn the_grays_are_ten_apart(n: nat, set: Seq<Option<Rgb>>)
    requires
        n < 24,
        set.len() == 269,
        set[(232 + n) as int] is None,
    ensures
        ({
            let shade = shade_at(232 + n, set);
            let gray = (8 + 10 * n) as u8;
            shade == (Shade { rgb: (gray, gray, gray), dims: 0 })
        }),
{
}

/// Behind the grays stand the foreground and the background, and the dim forms of the
/// first eight colours and of the foreground.
pub proof fn what_stands_behind_the_grays(index: nat, set: Seq<Option<Rgb>>)
    requires
        index < 269,
        set.len() == 269,
        set[index as int] is None,
    ensures
        index < 16 ==> shade_at(index, set) == (Shade { rgb: named(index), dims: 0 }),
        index == 256 ==> shade_at(index, set) == (Shade { rgb: (214u8, 220u8, 229u8), dims: 0 }),
        index == 257 ==> shade_at(index, set) == (Shade { rgb: (18u8, 21u8, 26u8), dims: 0 }),
        index == 268 ==> shade_at(index, set) == (Shade { rgb: (214u8, 220u8, 229u8), dims: 1 }),
        259 <= index <= 266 && set[index - 259] is None ==> shade_at(index, set) == (Shade {
            rgb: named((index - 259) as nat),
            dims: 1,
        }),
        259 <= index <= 266 && set[index - 259] is Some ==> shade_at(index, set) == (Shade {
            rgb: set[index - 259]->0,
            dims: 1,
        }),
{
}

/// Bold text in one of the first eight colours is bright, dim text is dimmed once more,
/// and a colour given by its parts is that colour.
pub proof fn how_a_style_colors_text(
    index: u8,
    red: u8,
    green: u8,
    blue: u8,
    style: Style,
    set: Seq<Option<Rgb>>,
)
    requires
        set.len() == 269,
        !style.dim,
    ensures
        style.bold && index < 8 ==> ink_shade(Ink::Indexed(index), style, set) == shade_at(
            (index + 8) as nat,
            set,
        ),
        !style.bold || index >= 8 ==> ink_shade(Ink::Indexed(index), style, set) == shade_at(
            index as nat,
            set,
        ),
        ink_shade(Ink::Rgb(red, green, blue), style, set) == (Shade {
            rgb: (red, green, blue),
            dims: 0,
        }),
{
}

/// Dim text is the same text dimmed once more, and neither its style nor its boldness
/// touches the background.
pub proof fn dim_text_is_dimmed_once_more(
    foreground: Ink,
    background: Ink,
    style: Style,
    set: Seq<Option<Rgb>>,
)
    requires
        style.dim,
        !style.inverse,
    ensures
        ({
            let plain = ink_shade(foreground, Style { dim: false, ..style }, set);
            let dimmed = shades(foreground, background, style, set).0;
            dimmed.rgb == plain.rgb && dimmed.dims == plain.dims + 1
        }),
        shades(foreground, background, style, set).1 == shade_of(background, set),
{
    a_cell_is_dimmed_at_most_twice(foreground, background, style, set);
}

/// A frozen channel goes a sixth of the way to the background.
pub proof fn freezing_goes_a_sixth_of_the_way(channel: u8, goal: u8)
    ensures
        6 * toward(channel, goal) <= 5 * channel + goal,
        5 * channel + goal < 6 * toward(channel, goal) + 6,
{
}

/// A selection holds the cells from its first to its last in reading order; a block
/// holds the rectangle between its corners.
pub proof fn a_selection_is_in_reading_order(span: Span, line: int, column: int)
    requires
        span.start.line <= span.end.line,
    ensures
        span.is_block ==> (covers(span, line, column) <==> span.start.line <= line
            <= span.end.line && span.start.column <= column <= span.end.column),
        !span.is_block ==> (covers(span, line, column) <==> {
            let behind_start = line > span.start.line || (line == span.start.line && column
                >= span.start.column);
            let before_end = line < span.end.line || (line == span.end.line && column
                <= span.end.column);
            behind_start && before_end
        }),
{
}

/// A cell is highlighted if it is selected or if it is a wide character whose second
/// half is; nothing is without a selection.
pub proof fn a_wide_character_is_highlighted_whole(span: Span, point: Point, wide: bool)
    ensures
        !is_highlighted(None, point, wide),
        covers(span, point.line as int, point.column as int) ==> is_highlighted(
            Some(span),
            point,
            wide,
        ),
        wide && covers(span, point.line as int, point.column + 1) ==> is_highlighted(
            Some(span),
            point,
            wide,
        ),
        !covers(span, point.line as int, point.column as int) && !wide ==> !is_highlighted(
            Some(span),
            point,
            wide,
        ),
{
}

/// A cursor is drawn in the shape that the application chose; a block is an outline
/// where the pane does not have the keyboard.
pub proof fn a_cursor_has_its_shape(active: bool)
    ensures
        mark_of(Shape::Beam, active) == Mark::Bar,
        mark_of(Shape::Underline, active) == Mark::Line,
        mark_of(Shape::Block, true) == Mark::Block,
        mark_of(Shape::Block, false) == Mark::Outline,
        mark_of(Shape::HollowBlock, true) == Mark::Block,
        mark_of(Shape::HollowBlock, false) == Mark::Outline,
{
}

/// A cursor is drawn in its own row, which lies behind the history, if that row is
/// painted, the pane is live and the cursor is not hidden.
pub proof fn where_the_cursor_is_drawn(
    shape: Shape,
    line: i32,
    history: usize,
    first: usize,
    count: usize,
    active: bool,
    frozen: bool,
)
    ensures
        ({
            let mark = mark_at(shape, line, history, first, count, active, frozen);
            &&& mark is Some <==> !frozen && shape != Shape::Hidden && first <= history + line
                && history + line < first + count
            &&& match mark {
                Some((row, drawn)) => row + first == history + line && drawn == mark_of(
                    shape,
                    active,
                ),
                None => true,
            }
        }),
{
}

proof fn lemma_trim_start_keeps(s: Seq<char>, i: int)
    requires
        0 <= i < s.len(),
        !text::whitespace(s[i]),
    ensures
        text::trim_start(s).contains(s[i]),
    decreases s.len(),
{
    if text::whitespace(s[0]) {
        assert(s.skip(1)[i - 1] == s[i]);
        lemma_trim_start_keeps(s.skip(1), i - 1);
    } else {
        assert(s.contains(s[i]));
    }
}

proof fn lemma_trim_end_keeps(s: Seq<char>, i: int)
    requires
        0 <= i < s.len(),
        !text::whitespace(s[i]),
    ensures
        text::trim_end(s).len() > 0,
    decreases s.len(),
{
    if text::whitespace(s.last()) {
        assert(s.drop_last()[i] == s[i]);
        lemma_trim_end_keeps(s.drop_last(), i);
    }
}

proof fn lemma_run_covers(cells: Seq<Cell>, start: int, at: int)
    requires
        0 <= start <= at <= cells.len(),
        forall|i: int| start <= i < at ==> ordinary(#[trigger] cells[i]) && alike(cells[i], cells[start]),
    ensures
        at <= run_to(cells, start, at) <= cells.len(),
        forall|i: int|
            start <= i < run_to(cells, start, at) ==> ordinary(#[trigger] cells[i]) && alike(
                cells[i],
                cells[start],
            ),
        run_to(cells, start, at) < cells.len() ==> !(ordinary(cells[run_to(cells, start, at)])
            && alike(cells[run_to(cells, start, at)], cells[start])),
    decreases cells.len() - at,
{
    if at < cells.len() && ordinary(cells[at]) && alike(cells[at], cells[start]) {
        lemma_run_covers(cells, start, at + 1);
    }
}

/// A run reaches as far as ordinary cells are painted alike and no further, and shows
/// each of its cells' characters at that cell's place.
pub proof fn a_run_reaches_as_far_as_cells_are_alike(cells: Seq<Cell>, start: int)
    requires
        0 <= start < cells.len(),
        ordinary(cells[start]),
    ensures
        ({
            let run = run_at(cells, start);
            &&& run.start == start
            &&& start < run.end <= cells.len()
            &&& run.text.len() == run.end - start
            &&& forall|i: int|
                start <= i < run.end ==> ordinary(#[trigger] cells[i]) && alike(
                    cells[i],
                    cells[start],
                ) && run.text[i - start] == (if text::control(cells[i].look.c) {
                    ' '
                } else {
                    cells[i].look.c
                })
            &&& run.end < cells.len() ==> !(ordinary(cells[run.end]) && alike(
                cells[run.end],
                cells[start],
            ))
        }),
{
    lemma_run_covers(cells, start, start);
}

/// A character that is not ordinary stands alone, with everything that combines with
/// it.
pub proof fn a_combined_character_stands_alone(cells: Seq<Cell>, start: int)
    requires
        0 <= start < cells.len(),
        (cells[start].look.c as u32) >= 0x80 || cells[start].look.zerowidth@.len() > 0,
    ensures
        run_at(cells, start).start == start,
        run_at(cells, start).end == start + 1,
        run_at(cells, start).text == seq![cells[start].look.c] + cells[start].look.zerowidth@,
{
}

/// Every ordinary character of a row that is to be seen is painted, at its own place.
pub proof fn every_visible_character_is_painted(cells: Seq<Cell>, from: int, i: int)
    requires
        0 <= from <= i < cells.len(),
        forall|j: int| from <= j < cells.len() ==> !skipped(#[trigger] cells[j]),
        ordinary(cells[i]),
        !text::control(cells[i].look.c),
        !text::whitespace(cells[i].look.c),
    ensures
        exists|k: int|
            0 <= k < runs_from(cells, from).len() && (#[trigger] runs_from(cells, from)[k]).start
                <= i < runs_from(cells, from)[k].end && runs_from(cells, from)[k].text[i
                - runs_from(cells, from)[k].start] == cells[i].look.c,
    decreases cells.len() - from,
{
    let run = run_at(cells, from);
    assert(!skipped(cells[from]));
    if ordinary(cells[from]) {
        a_run_reaches_as_far_as_cells_are_alike(cells, from);
    }
    let all = runs_from(cells, from);
    let rest = runs_from(cells, run.end);
    if i < run.end {
        if !ordinary(cells[from]) {
            assert(i == from);
        }
        assert(run.text[i - from] == cells[i].look.c);
        lemma_trim_start_keeps(run.text, i - from);
        let t = text::trim_start(run.text);
        let j = choose|j: int| 0 <= j < t.len() && t[j] == run.text[i - from];
        lemma_trim_end_keeps(t, j);
        assert(visible(cells, run));
        assert(all[0] == run);
    } else {
        every_visible_character_is_painted(cells, run.end, i);
        let k = choose|k: int|
            0 <= k < rest.len() && (#[trigger] rest[k]).start <= i < rest[k].end && rest[k].text[i
                - rest[k].start] == cells[i].look.c;
        if visible(cells, run) {
            assert(all[k + 1] == rest[k]);
        } else {
            assert(all == rest);
        }
    }
}

/// Hidden cells and the cells behind or before a wide character are not painted
/// themselves.
pub proof fn which_cells_are_not_painted(cell: Cell)
    ensures
        skipped(cell) <==> cell.style.hidden || cell.style.spacer || cell.style.leading,
{
}

/// What is copied is what is highlighted: of every line of a selection exactly the cells
/// that are read belong to it.
pub proof fn what_is_copied_is_what_is_highlighted(
    span: Span,
    line: int,
    column: int,
    columns: nat,
)
    requires
        span.start.line <= line <= span.end.line,
        0 <= column < columns,
    ensures
        covers(span, line, column) <==> crate::screen::span_from(span, line) <= column
            <= crate::screen::span_to(span, line, columns),
{
}

/// A wide character takes two cells, and any other run as many as it covers.
pub proof fn a_wide_character_takes_two_cells(start: usize, end: usize, style: Style, r: usize)
    requires
        start <= end,
        takes_cells(start, end, style, r),
    ensures
        style.wide ==> r == 2,
        !style.wide ==> start + r == end,
{
}

/// Two cells are painted alike only if their styles and both of their colours are the
/// same.
pub proof fn which_cells_are_painted_alike(a: Cell, b: Cell)
    ensures
        alike(a, b) ==> a.style.bits == b.style.bits,
        alike(a, b) ==> a.look.foreground == b.look.foreground,
        alike(a, b) ==> a.look.background == b.look.background,
        a.style.bits == b.style.bits && a.look.foreground == b.look.foreground && a.look.background
            == b.look.background ==> alike(a, b),
{
}

} // verus!
