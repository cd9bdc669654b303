//! Built-in data for looking at the window without a connection.
use vstd::prelude::*;
use crate::ids::{PaneId, SessionId, WindowId};
use crate::model::Size;
use crate::snapshot::{PaneState, SessionView, Status};
use crate::text;

verus! {

/// The lines of the second pane.
pub const WORKER_LINES: u64 = 80;

/// Where a demo pane stands: side by side with the other, a column between them.
pub open spec fn demo_pane(id: u32) -> PaneState {
    PaneState {
        id: PaneId(id),
        window: WindowId(0),
        size: Size::of(54, 27),
        left: (id * 55) as usize,
        top: 0,
    }
}

fn pane(id: u32) -> (r: PaneState)
    requires
        id <= 1,
    ensures
        r == demo_pane(id),
{
    let size: Size = match Size::new(54, 27) {
        Ok(size) => size,
        Err(_) => Size::default(),
    };
    PaneState { id: PaneId(id), window: WindowId(0), size, left: (id * 55) as usize, top: 0 }
}

/// The demo's view: two panes of one window.
pub fn demo_view() -> (r: SessionView)
    ensures
        r.session == SessionId(0),
        r.panes@ == seq![demo_pane(0), demo_pane(1)],
        r.status == Status::Watching,
        r.exit is None,
        r.seq == 0,
{
    let mut panes: Vec<PaneState> = Vec::new();
    panes.push(pane(0));
    panes.push(pane(1));
    assert(panes@ =~= seq![demo_pane(0), demo_pane(1)]);
    SessionView::new(SessionId(0), panes)
}

/// A number below a thousand with at least so many digits.
pub open spec fn padded(n: nat, width: nat) -> Seq<char> {
    let d = text::digits(n);
    if d.len() >= width {
        d
    } else {
        Seq::new((width - d.len()) as nat, |i: int| '0') + d
    }
}

/// A name with blanks behind it up to a width.
pub open spec fn left_aligned(name: Seq<char>, width: nat) -> Seq<char> {
    if name.len() >= width {
        name
    } else {
        name + Seq::new((width - name.len()) as nat, |i: int| ' ')
    }
}

/// One line of the second pane.
pub open spec fn worker_line(line: nat) -> Seq<char> {
    "\x1b[90m[12:"@ + padded(line / 60, 2) + ":"@ + padded(line % 60, 2)
        + "]\x1b[0m  worker  \x1b[32mready\x1b[0m  batch "@ + padded(line, 3) + "\r\n"@
}

/// The first so many lines of the second pane.
pub open spec fn worker_lines(count: nat) -> Seq<char>
    decreases count,
{
    if count == 0 {
        Seq::empty()
    } else {
        worker_lines((count - 1) as nat) + worker_line(count)
    }
}

/// One line of test results.
pub open spec fn check_line(name: Seq<char>) -> Seq<char> {
    "test "@ + left_aligned(name, 28) + " ... \x1b[32mok\x1b[0m\r\n"@
}

/// What the first pane shows.
pub open spec fn shell_text(version: Seq<char>) -> Seq<char> {
    "\x1b[36mStarcom\x1b[0m  /  terminal workspace\r\n\r\n"@
        + "\x1b[90mThis is built-in demo data, not an SSH session.\x1b[0m\r\n\r\n"@
        + "\x1b[32mdemo@workstation\x1b[0m:~/starcom$ cargo test\r\n\r\n"@
        + "  \x1b[32mCompiling\x1b[0m starcom v"@ + version
        + "\r\n  \x1b[32mFinished\x1b[0m test profile\r\n\r\n"@ + check_line("control framing"@)
        + check_line("snapshot -> live"@) + check_line("Unicode selection"@) + check_line(
        "independent panes"@,
    ) + "\r\n\x1b[36mDrag to select. Selection copies on release.\x1b[0m\r\n\r\n"@
        + "The window is a client; tmux owns your jobs.\r\n\r\n"@
        + "\x1b[32mdemo@workstation\x1b[0m:~/starcom$ "@
}

/// What the second pane shows.
pub open spec fn worker_text() -> Seq<char> {
    worker_lines(WORKER_LINES as nat)
        + "\r\n\x1b[33mScroll upward to inspect retained output.\x1b[0m\r\n\r\n"@
}

fn push_padded(out: &mut String, n: u64, width: usize)
    ensures
        final(out)@ == old(out)@ + padded(n as nat, width as nat),
{
    let d = text::decimal(n);
    let v = text::chars_of(d.as_str());
    let ghost before = out@;
    let missing: usize = if v.len() >= width {
        0
    } else {
        width - v.len()
    };
    assert(out@ =~= before + Seq::new(0, |i: int| '0'));
    for i in 0..missing
        invariant
            out@ == before + Seq::new(i as nat, |i: int| '0'),
    {
        out.push('0');
        assert(out@ =~= before + Seq::new((i + 1) as nat, |i: int| '0'));
    }
    text::push_text(out, d.as_str());
    assert(out@ =~= before + padded(n as nat, width as nat));
}

fn push_check(out: &mut String, name: &str)
    ensures
        final(out)@ == old(out)@ + check_line(name@),
{
    text::push_text(out, "test ");
    let v = text::chars_of(name);
    text::push_text(out, name);
    let ghost before = out@;
    let missing: usize = if v.len() >= 28 {
        0
    } else {
        28 - v.len()
    };
    assert(out@ =~= before + Seq::new(0, |i: int| ' '));
    for i in 0..missing
        invariant
            out@ == before + Seq::new(i as nat, |i: int| ' '),
    {
        out.push(' ');
        assert(out@ =~= before + Seq::new((i + 1) as nat, |i: int| ' '));
    }
    text::push_text(out, " ... \x1b[32mok\x1b[0m\r\n");
    assert(out@ =~= old(out)@ + check_line(name@));
}

/// What a demo pane shows, as terminal output: a shell in the first pane, and a
/// log in the second.
pub fn demo_output(pane: PaneId, version: &str) -> (r: String)
    ensures
        r@ == (if pane == PaneId(0) {
            shell_text(version@)
        } else {
            worker_text()
        }),
{
    let mut r = String::new();
    if pane == PaneId(0) {
        text::push_text(&mut r, "\x1b[36mStarcom\x1b[0m  /  terminal workspace\r\n\r\n");
        text::push_text(
            &mut r,
            "\x1b[90mThis is built-in demo data, not an SSH session.\x1b[0m\r\n\r\n",
        );
        text::push_text(&mut r, "\x1b[32mdemo@workstation\x1b[0m:~/starcom$ cargo test\r\n\r\n");
        text::push_text(&mut r, "  \x1b[32mCompiling\x1b[0m starcom v");
        text::push_text(&mut r, version);
        text::push_text(&mut r, "\r\n  \x1b[32mFinished\x1b[0m test profile\r\n\r\n");
        push_check(&mut r, "control framing");
        push_check(&mut r, "snapshot -> live");
        push_check(&mut r, "Unicode selection");
        push_check(&mut r, "independent panes");
        text::push_text(
            &mut r,
            "\r\n\x1b[36mDrag to select. Selection copies on release.\x1b[0m\r\n\r\n",
        );
        text::push_text(&mut r, "The window is a client; tmux owns your jobs.\r\n\r\n");
        text::push_text(&mut r, "\x1b[32mdemo@workstation\x1b[0m:~/starcom$ ");
        assert(r@ =~= shell_text(version@));
    } else {
        for i in 0..WORKER_LINES
            invariant
                r@ == worker_lines(i as nat),
        {
            let ghost before = r@;
            let line: u64 = i + 1;
            text::push_text(&mut r, "\x1b[90m[12:");
            push_padded(&mut r, line / 60, 2);
            text::push_text(&mut r, ":");
            push_padded(&mut r, line % 60, 2);
            text::push_text(&mut r, "]\x1b[0m  worker  \x1b[32mready\x1b[0m  batch ");
            push_padded(&mut r, line, 3);
            text::push_text(&mut r, "\r\n");
            assert(r@ =~= before + worker_line(line as nat));
        }
        text::push_text(
            &mut r,
            "\r\n\x1b[33mScroll upward to inspect retained output.\x1b[0m\r\n\r\n",
        );
    }
    r
}

/// The demo's panes stand side by side, a column apart, in one window.
pub proof fn the_demo_panes_stand_side_by_side()
    ensures
        demo_pane(0).id == PaneId(0),
        demo_pane(1).id == PaneId(1),
        demo_pane(0).window == demo_pane(1).window,
        demo_pane(0).left == 0 && demo_pane(0).top == 0 && demo_pane(1).top == 0,
        demo_pane(1).left == demo_pane(0).left + demo_pane(0).size.width() + 1,
        demo_pane(0).size.width() == 54 && demo_pane(0).size.height() == 27,
        demo_pane(1).size == demo_pane(0).size,
{
    Size::a_size_is_its_cells(54, 27, Size::of(54, 27));
}

/// A padded number has at least so many digits, the first of which are zeros; a longer
/// one is not cut.
pub proof fn a_padded_number_is_the_number(n: nat, width: nat)
    ensures
        padded(n, width).len() >= width,
        text::digits(n).len() >= width ==> padded(n, width) == text::digits(n),
        text::digits(n).len() < width ==> padded(n, width).len() == width && padded(
            n,
            width,
        ).skip(width - text::digits(n).len()) == text::digits(n) && forall|i: int|
            0 <= i < width - text::digits(n).len() ==> #[trigger] padded(n, width)[i] == '0',
{
    let d = text::digits(n);
    if d.len() < width {
        assert(padded(n, width).skip(width - d.len()) =~= d);
    }
}

/// A name is filled up with blanks behind it, and a longer one is not cut.
pub proof fn a_name_is_filled_up_behind(name: Seq<char>, width: nat)
    ensures
        left_aligned(name, width).len() >= width,
        left_aligned(name, width).take(name.len() as int) == name,
        forall|i: int|
            name.len() <= i < left_aligned(name, width).len() ==> #[trigger] left_aligned(
                name,
                width,
            )[i] == ' ',
{
    assert(left_aligned(name, width).take(name.len() as int) =~= name);
}

/// The log has its lines in order, from the first one on.
pub proof fn the_log_goes_on_line_by_line(count: nat)
    ensures
        worker_lines(0) == Seq::<char>::empty(),
        worker_lines(count + 1) == worker_lines(count) + worker_line(count + 1),
{
}

/// A line of the log tells its time, that the worker is ready, and its number; a line of
/// test results tells its name and that it is well.
pub proof fn what_the_lines_of_the_demo_tell(line: nat, name: Seq<char>)
    ensures
        worker_line(line) == "\x1b[90m[12:"@ + padded(line / 60, 2) + ":"@ + padded(line % 60, 2)
            + "]\x1b[0m  worker  \x1b[32mready\x1b[0m  batch "@ + padded(line, 3) + "\r\n"@,
        check_line(name) == "test "@ + left_aligned(name, 28) + " ... \x1b[32mok\x1b[0m\r\n"@,
        worker_text() == worker_lines(80)
            + "\r\n\x1b[33mScroll upward to inspect retained output.\x1b[0m\r\n\r\n"@,
{
}

} // verus!
