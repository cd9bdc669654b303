use starcom::ids::{PaneId, WindowId};
use starcom::input::{Action, Key};
use starcom::model::Size;
use starcom::paint::{
    cell_colors, color, cursor_mark, freeze, highlighted, indexed, row_runs, run_width, Cell, Mark,
    Shade, BACKGROUND, FOREGROUND, PALETTE,
};
use starcom::pane::{
    chrome, copy, focus_after, forwarded_click, neighbors, respond, wheel_actions, ChromeIcon,
    Neighbors,
    Pressed, Response,
};
use starcom::snapshot::PaneState;
use starcom::screen::{Ink, Look, Point, Shape, Span, Style};

const PLAIN: Style = Style {
    bits: 0,
    inverse: false,
    bold: false,
    italic: false,
    dim: false,
    hidden: false,
    strikeout: false,
    underlined: false,
    wide: false,
    spacer: false,
    leading: false,
};

fn shade(rgb: (u8, u8, u8), dims: u8) -> Shade {
    Shade { rgb, dims }
}

#[test]
fn indexed_rgb_and_inverse_colors_are_preserved() {
    let colors = vec![None; PALETTE];
    assert_eq!(indexed(196, &colors), shade((255, 0, 0), 0));
    // The dim foreground is the foreground, dimmed once.
    assert_eq!(color(Ink::Named(268), &colors), shade(FOREGROUND, 1));
    let inverse = Style {
        inverse: true,
        ..PLAIN
    };
    assert_eq!(
        cell_colors(Ink::Rgb(12, 34, 56), Ink::Named(257), inverse, &colors),
        (shade(BACKGROUND, 0), shade((12, 34, 56), 0))
    );
}

#[test]
fn every_part_of_the_palette_has_its_colors() {
    let mut colors = vec![None; PALETTE];
    assert_eq!(indexed(0, &colors), shade((30, 34, 42), 0));
    assert_eq!(indexed(15, &colors), shade((244, 246, 250), 0));
    assert_eq!(indexed(16, &colors), shade((0, 0, 0), 0));
    assert_eq!(indexed(67, &colors), shade((95, 135, 175), 0));
    assert_eq!(indexed(232, &colors), shade((8, 8, 8), 0));
    assert_eq!(indexed(255, &colors), shade((238, 238, 238), 0));
    assert_eq!(indexed(256, &colors), shade(FOREGROUND, 0));
    assert_eq!(indexed(260, &colors), shade((224, 108, 117), 1));
    colors[1] = Some((1, 2, 3));
    assert_eq!(indexed(260, &colors), shade((1, 2, 3), 1));
    let bold = Style {
        bold: true,
        dim: true,
        ..PLAIN
    };
    assert_eq!(
        cell_colors(Ink::Indexed(2), Ink::Indexed(1), bold, &colors),
        (shade((174, 217, 143), 1), shade((1, 2, 3), 0))
    );
}

#[test]
fn freeze_dims_toward_the_background() {
    let frozen = freeze((255, 0, 0));
    assert!(frozen.0 > frozen.1, "hue is kept, only dimmed");
    assert!(frozen.0 < 255);
    assert!(frozen.0 > BACKGROUND.0);
    assert_eq!(frozen, (215, 3, 4));
}

fn cell(c: char, style: Style) -> Cell {
    Cell {
        look: Look {
            c,
            zerowidth: Vec::new(),
            foreground: Ink::Named(256),
            background: Ink::Named(257),
        },
        style,
    }
}

#[test]
fn rows_are_painted_in_runs_that_never_move_the_next_column() {
    let wide = Style {
        bits: 32,
        wide: true,
        ..PLAIN
    };
    let spacer = Style {
        bits: 64,
        spacer: true,
        ..PLAIN
    };
    let underlined = Style {
        bits: 8,
        underlined: true,
        ..PLAIN
    };
    let mut accent = cell('e', PLAIN);
    accent.look.zerowidth.push('\u{301}');
    let cells = vec![
        cell('a', PLAIN),
        cell('\t', PLAIN),
        cell('b', PLAIN),
        cell('界', wide),
        cell(' ', spacer),
        accent,
        cell(' ', PLAIN),
        cell(' ', underlined),
    ];
    let runs = row_runs(&cells);
    let found: Vec<_> = runs
        .iter()
        .map(|run| (run.start, run.end, run.text.as_str()))
        .collect();
    assert_eq!(
        found,
        [(0, 3, "a b"), (3, 4, "界"), (5, 6, "e\u{301}"), (7, 8, " ")]
    );
    assert_eq!(run_width(&runs[1], wide), 2);
    assert_eq!(run_width(&runs[0], PLAIN), 3);
    assert!(row_runs(&Vec::new()).is_empty());
}

#[test]
fn a_wide_character_is_highlighted_with_either_half() {
    let span = |start, end, is_block| {
        Some(Span {
            start,
            end,
            is_block,
        })
    };
    let at = |line, column| Point { line, column };
    let lines = span(at(0, 5), at(2, 1), false);
    assert!(highlighted(lines, at(1, 0), false));
    assert!(!highlighted(lines, at(0, 4), false));
    assert!(highlighted(lines, at(0, 4), true));
    assert!(!highlighted(lines, at(2, 2), false));
    let block = span(at(0, 1), at(2, 3), true);
    assert!(highlighted(block, at(1, 2), false));
    assert!(!highlighted(block, at(1, 4), false));
    assert!(!highlighted(None, at(0, 0), true));
}

#[test]
fn the_wheel_is_a_report_only_on_an_alternate_screen() {
    let actions = wheel_actions(-2, true, true, 3, 4, true);
    assert_eq!(actions.len(), 2);
    for action in actions {
        let Action::Bytes(bytes) = action else {
            panic!("expected a report")
        };
        assert_eq!(bytes, b"\x1b[<65;4;5M");
    }
    let actions = wheel_actions(1, true, false, 3, 4, true);
    assert!(matches!(actions[0], Action::Key(Key::WheelUp, _)));
    // An alternate screen without mouse reports scrolls by cursor keys.
    let actions = wheel_actions(-1, false, true, 3, 4, true);
    assert!(matches!(&actions[0], Action::Bytes(bytes) if bytes == b"\x1b[B"));
    assert!(wheel_actions(0, true, true, 0, 0, false).is_empty());
    assert!(wheel_actions(5, false, false, 0, 0, false).is_empty());
}

#[test]
fn plain_single_clicks_belong_to_an_application_that_asked() {
    let pressed = Pressed {
        clicked: true,
        double_clicked: false,
        triple_clicked: false,
        drag_started: false,
        unmodified: true,
        mouse: true,
        frozen: false,
    };
    assert_eq!(respond(pressed), Response::Forward);
    assert_eq!(
        respond(Pressed {
            frozen: true,
            ..pressed
        }),
        Response::Clear
    );
    assert_eq!(
        respond(Pressed {
            double_clicked: true,
            ..pressed
        }),
        Response::Word
    );
    assert_eq!(
        respond(Pressed {
            triple_clicked: true,
            double_clicked: true,
            ..pressed
        }),
        Response::Line
    );
    assert_eq!(
        respond(Pressed {
            clicked: false,
            drag_started: true,
            ..pressed
        }),
        Response::Anchor
    );
    assert_eq!(
        respond(Pressed {
            clicked: false,
            ..pressed
        }),
        Response::Nothing
    );
    let click = forwarded_click(0, 1, true);
    let (Action::Bytes(press), Action::Bytes(release)) = (&click[0], &click[1]) else {
        panic!("expected two reports")
    };
    assert_eq!((press.as_slice(), release.as_slice()), (&b"\x1b[<0;1;2M"[..], &b"\x1b[<0;1;2m"[..]));
}

#[test]
fn a_pane_offers_what_it_can_do() {
    let neighbors = Neighbors {
        left: None,
        right: Some(PaneId(2)),
        up: None,
        down: Some(PaneId(3)),
    };
    let icons: Vec<_> = chrome(true, true, neighbors)
        .into_iter()
        .map(|button| button.icon)
        .collect();
    assert_eq!(
        icons,
        [
            ChromeIcon::Close,
            ChromeIcon::Restore,
            ChromeIcon::MoveDown,
            ChromeIcon::MoveRight,
            ChromeIcon::SplitBelow,
            ChromeIcon::SplitRight,
        ]
    );
    let buttons = chrome(false, false, neighbors);
    assert_eq!(buttons[0].icon.tip(), "Maximize this pane");
    assert!(matches!(buttons[1].action(), Action::SwapPane(PaneId(3))));
    assert_eq!(focus_after(true, None, PaneId(1)), Some(PaneId(1)));
    assert_eq!(focus_after(false, Some(PaneId(1)), PaneId(1)), None);
    assert_eq!(focus_after(false, Some(PaneId(2)), PaneId(1)), Some(PaneId(2)));
}

#[test]
fn a_copy_is_made_whole_or_not_at_all() {
    let copied = copy("text", "Copied!");
    assert!(copied.made && copied.notice == "Copied!");
    let refused = copy(&"x".repeat(1_048_577), "Copied!");
    assert!(!refused.made);
    assert_eq!(refused.notice, "Selection exceeds the 1 MiB clipboard limit.");
}

#[test]
fn the_cursor_is_drawn_only_where_it_is_live_and_in_sight() {
    let mark = |shape, line, frozen| cursor_mark(shape, line, 100, 90, 20, true, frozen);
    assert_eq!(mark(Shape::Block, 0, false), Some((10, Mark::Block)));
    assert_eq!(mark(Shape::Beam, -10, false), Some((0, Mark::Bar)));
    assert_eq!(mark(Shape::Underline, 9, false), Some((19, Mark::Line)));
    assert_eq!(mark(Shape::Block, 10, false), None);
    assert_eq!(mark(Shape::Block, -11, false), None);
    assert_eq!(mark(Shape::Hidden, 0, false), None);
    assert_eq!(mark(Shape::Block, 0, true), None);
    assert_eq!(
        cursor_mark(Shape::HollowBlock, 0, 0, 0, 1, false, false),
        Some((0, Mark::Outline))
    );
}

#[test]
fn neighbors_share_an_edge() {
    let pane = |id, left, top, columns, rows| PaneState {
        id: PaneId(id),
        window: WindowId(u32::from(id == 9)),
        size: Size::new(columns, rows).unwrap(),
        left,
        top,
    };
    // One pane on the left, two on the right, and one of another window.
    let panes = vec![
        pane(0, 0, 0, 40, 21),
        pane(1, 41, 0, 39, 10),
        pane(2, 41, 11, 39, 10),
        pane(9, 41, 0, 39, 10),
    ];
    let found = neighbors(&panes, panes[0]);
    assert_eq!((found.left, found.right), (None, Some(PaneId(1))));
    assert_eq!((found.up, found.down), (None, None));
    let found = neighbors(&panes, panes[2]);
    assert_eq!((found.left, found.right), (Some(PaneId(0)), None));
    assert_eq!((found.up, found.down), (Some(PaneId(1)), None));
    assert_eq!(neighbors(&panes, panes[1]).down, Some(PaneId(2)));
}
