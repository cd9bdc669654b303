use starcom::links::{first_http_url, http_url_at};
use starcom::model::Size;
use starcom::screen::{Extent, Ink, Point, Shape, Side};
use starcom::terminal::Terminal;
use starcom::width::is_wide;

fn terminal(columns: usize, rows: usize, history: usize) -> Terminal {
    Terminal::new(Size::new(columns, rows).unwrap(), history)
}

fn point(line: i32, column: usize) -> Point {
    Point { line, column }
}

#[test]
fn carriage_return_and_ansi_are_emulated_not_stripped() {
    let mut terminal = terminal(20, 4, 0);
    terminal.feed(b"working\r\x1b[2K\x1b[32mdone\x1b[0m");
    assert_eq!(terminal.screen_lines()[0], "done");
}

#[test]
fn alternate_screen_restores_primary_content() {
    let mut terminal = terminal(20, 4, 0);
    terminal.feed(b"primary\x1b[?1049h\x1b[Halternate");
    assert!(terminal.is_alternate_screen());
    assert_eq!(terminal.screen_lines()[0], "alternate");
    terminal.feed(b"\x1b[?1049l");
    assert!(!terminal.is_alternate_screen());
    assert_eq!(terminal.screen_lines()[0], "primary");
}

#[test]
fn local_resize_changes_the_grid() {
    let mut terminal = terminal(4, 2, 0);
    terminal.feed(b"abcdefgh");
    assert_eq!(terminal.screen_lines(), ["abcd", "efgh"]);
    terminal.resize(Size::new(8, 3).unwrap());
    assert_eq!(terminal.size(), Size::new(8, 3).unwrap());
    assert_eq!(terminal.screen_lines().len(), 3);
}

#[test]
fn scrolled_history_stays_put_when_a_line_is_appended() {
    let mut terminal = terminal(20, 4, 8);
    for i in 0..12 {
        terminal.feed(format!("line{i:02}\r\n").as_bytes());
    }
    assert_eq!(terminal.history_size(), 8);
    terminal.scroll_history(3);
    let offset = terminal.history_offset();
    assert_eq!(offset, 3);
    let shown = terminal.line_text(-(offset as i32)).unwrap();
    assert!(!shown.is_empty(), "{shown:?}");
    terminal.feed(b"ping\r\n");
    let offset_after = terminal.history_offset();
    assert_eq!(offset_after, offset + 1);
    assert_eq!(terminal.line_text(-(offset_after as i32)).unwrap(), shown);
}

#[test]
fn scrolling_stops_at_either_end_of_the_history() {
    let mut terminal = terminal(20, 4, 8);
    terminal.feed(b"1\r\n2\r\n3\r\n4\r\n5\r\n6");
    assert_eq!(terminal.history_size(), 2);
    terminal.scroll_history(usize::MAX);
    assert_eq!(terminal.history_offset(), 2);
    terminal.scroll_history(1);
    assert_eq!(terminal.history_offset(), 1);
    terminal.scroll_history(0);
    assert_eq!(terminal.history_offset(), 0);
    assert_eq!(terminal.line_text(-3), None);
    assert_eq!(terminal.line_text(-2).as_deref(), Some("1"));
    assert_eq!(terminal.line_text(3).as_deref(), Some("6"));
    assert_eq!(terminal.line_text(4), None);
}

#[test]
fn osc8_hyperlink_is_stored_on_the_cell() {
    let mut terminal = terminal(20, 4, 0);
    terminal.feed(b"\x1b]8;;https://example.com/login\x07here\x1b]8;;\x07.");
    assert_eq!(
        terminal.hyperlink_at(point(0, 0)).as_deref(),
        Some("https://example.com/login")
    );
    assert_eq!(
        terminal.hyperlink_at(point(0, 3)).as_deref(),
        Some("https://example.com/login")
    );
    assert!(terminal.hyperlink_at(point(0, 4)).is_none());
}

#[test]
fn osc8_st_terminator_is_stored_on_the_cell() {
    let mut terminal = terminal(20, 4, 0);
    terminal.feed(b"\x1b]8;;https://example.com/st\x1b\\here\x1b]8;;\x1b\\.");
    assert_eq!(
        terminal.link_destination(point(0, 1)).as_deref(),
        Some("https://example.com/st")
    );
}

#[test]
fn underlined_here_copies_a_nearby_http_url() {
    let mut terminal = terminal(40, 4, 0);
    terminal.feed(b"\x1b[4mhere\x1b[0m to copy\r\nhttps://auth.example/device\r\n");
    assert_eq!(
        terminal.link_destination(point(0, 1)).as_deref(),
        Some("https://auth.example/device")
    );
    assert_eq!(
        terminal.link_destination(point(1, 4)).as_deref(),
        Some("https://auth.example/device")
    );
    assert!(
        terminal.link_destination(point(0, 8)).is_none(),
        "plain text next to the underline is not a link"
    );
}

#[test]
fn a_long_underlined_run_near_a_url_is_content_not_a_link() {
    let mut terminal = terminal(80, 4, 0);
    terminal.feed(
        b"\x1b[4mthis entire sentence is underlined and clearly is not a link\x1b[0m\r\nhttps://not.a.link/here\r\n",
    );
    assert!(
        terminal.link_destination(point(0, 3)).is_none(),
        "a long underlined run is content, not a link affordance"
    );
}

#[test]
fn an_underlined_affordance_two_lines_from_a_url_is_not_a_link() {
    let mut terminal = terminal(40, 5, 0);
    terminal.feed(b"\x1b[4mhere\x1b[0m\r\nfiller line\r\nhttps://far.example/x\r\n");
    assert!(
        terminal.link_destination(point(0, 1)).is_none(),
        "a URL two lines away is not associated with the affordance"
    );
}

#[test]
fn osc8_wins_over_a_nearby_visible_url() {
    let mut terminal = terminal(40, 4, 0);
    terminal.feed(
        b"\x1b]8;;https://copied.example/a\x07\x1b[4mhere\x1b]8;;\x07\x1b[0m\r\nhttps://other.example/b\r\n",
    );
    assert_eq!(
        terminal.link_destination(point(0, 0)).as_deref(),
        Some("https://copied.example/a")
    );
}

#[test]
fn mouse_reporting_and_alternate_scroll_are_observable() {
    let mut terminal = terminal(20, 4, 0);
    assert!(!terminal.reports_mouse());
    assert!(!terminal.wants_wheel());
    terminal.feed(b"\x1b[?1000h\x1b[?1006h");
    assert!(terminal.reports_mouse());
    assert!(terminal.sgr_mouse());
    assert!(terminal.wants_wheel());
    terminal.feed(b"\x1b[?1000l\x1b[?1006l\x1b[?1049h");
    assert!(!terminal.reports_mouse());
    assert!(terminal.is_alternate_screen());
    assert!(terminal.wants_wheel());
}

#[test]
fn unicode_survives_bytewise_input() {
    let mut terminal = terminal(20, 4, 0);
    for byte in "café 界 e\u{301}".as_bytes() {
        terminal.feed(std::slice::from_ref(byte));
    }
    assert_eq!(terminal.screen_lines()[0], "café 界 e\u{301}");
}

#[test]
fn a_collapsed_drag_has_no_range_until_it_moves() {
    let mut terminal = terminal(20, 4, 0);
    terminal.feed(b"hello world");
    terminal.begin_selection(point(0, 0), Side::Left, Extent::Simple);
    assert!(
        terminal.selection_range().is_none(),
        "a one-cell Simple selection is not a range; drag update must not wait for one"
    );
    terminal.update_selection(point(0, 4), Side::Right);
    assert!(terminal.selection_range().is_some());
    assert_eq!(terminal.selected_text().as_deref(), Some("hello"));
}

#[test]
fn local_copy_preserves_soft_wraps_wide_and_combining_characters() {
    let mut terminal = terminal(8, 3, 20);
    terminal.feed("abcdefghij界e\u{301}".as_bytes());
    terminal.begin_selection(point(0, 0), Side::Left, Extent::Simple);
    terminal.update_selection(point(1, 4), Side::Right);
    assert_eq!(
        terminal.selected_text().as_deref(),
        Some("abcdefghij界e\u{301}")
    );
}

#[test]
fn selection_moves_with_incoming_scroll_without_copying_new_text() {
    let mut terminal = terminal(10, 2, 20);
    terminal.feed(b"alpha\r\nbeta");
    terminal.begin_selection(point(0, 0), Side::Left, Extent::Simple);
    terminal.update_selection(point(0, 4), Side::Right);
    terminal.feed(b"\r\ngamma");
    assert_eq!(terminal.selected_text().as_deref(), Some("alpha"));
    assert_eq!(terminal.selection_range().unwrap().start.line, -1);
}

#[test]
fn held_output_does_not_move_text_during_a_drag() {
    let mut terminal = terminal(20, 4, 20);
    terminal.feed(b"hello");
    terminal.hold_output(true);
    terminal.begin_selection(point(0, 0), Side::Left, Extent::Simple);
    terminal.update_selection(point(0, 4), Side::Right);
    terminal.feed(b"\x1b[2J\x1b[Hxxxx");
    assert_eq!(terminal.screen_lines()[0], "hello");
    assert_eq!(terminal.selected_text().as_deref(), Some("hello"));
    terminal.hold_output(false);
    assert_eq!(terminal.screen_lines()[0], "xxxx");
    assert!(terminal.selected_text().is_none());
}

#[test]
fn a_selection_can_be_words_lines_or_blocks_and_be_dropped() {
    let mut terminal = terminal(20, 4, 0);
    terminal.feed(b"one two\r\nthree");
    terminal.begin_selection(point(0, 5), Side::Left, Extent::Semantic);
    assert_eq!(terminal.selected_text().as_deref(), Some("two"));
    terminal.begin_selection(point(1, 2), Side::Right, Extent::Lines);
    assert_eq!(terminal.selected_text().as_deref(), Some("three\n"));
    terminal.begin_selection(point(0, 0), Side::Left, Extent::Block);
    terminal.update_selection(point(1, 1), Side::Right);
    assert!(terminal.selection_range().unwrap().is_block);
    assert_eq!(terminal.selected_text().as_deref(), Some("on\nth"));
    terminal.clear_selection();
    assert!(terminal.selected_text().is_none());
    // Points off the grid go to the nearest cell.
    terminal.begin_selection(point(-9, 99), Side::Left, Extent::Lines);
    assert_eq!(terminal.selected_text().as_deref(), Some("one two\n"));
}

#[test]
fn the_history_is_bounded_by_lines_and_by_cells() {
    assert_eq!(terminal(80, 24, 300).history_capacity(), 300);
    assert_eq!(terminal(10, 2, 50_000).history_capacity(), 10_000);
    assert_eq!(terminal(1000, 31, 500).history_capacity(), 100);
    assert_eq!(terminal(4096, 4096, 500).history_capacity(), 0);
    let size = Size::new(1000, 31).unwrap();
    assert_eq!(Terminal::estimated_cells(size, 500), (100 + 62) * 1000);
    assert_eq!(terminal(1000, 31, 500).cell_budget(), (100 + 62) * 1000);
}

#[test]
fn a_restored_cursor_keeps_a_pending_wrap() {
    let mut terminal = terminal(4, 3, 0);
    terminal.restore_cursor(4, 1);
    terminal.feed(b"x");
    assert_eq!(terminal.screen_lines(), ["", "", "x"]);
    terminal.restore_cursor(2, 0);
    terminal.feed(b"y");
    assert_eq!(terminal.screen_lines()[0], "  y");
    assert_eq!(terminal.cursor(), (Shape::Block, point(0, 3)));
}

#[test]
fn cells_show_their_characters_colors_and_styles() {
    let mut terminal = terminal(20, 2, 0);
    terminal.feed("\x1b[1;31;44mA\x1b[0;38;2;1;2;3;7;9me\u{301}\x1b[0;8m界".as_bytes());
    let (look, style) = terminal.look(point(0, 0));
    assert_eq!((look.c, look.foreground, look.background), ('A', Ink::Named(1), Ink::Named(4)));
    assert!(style.bold && !style.inverse && !style.dim);
    let (look, style) = terminal.look(point(0, 1));
    assert_eq!((look.c, look.zerowidth.as_slice()), ('e', ['\u{301}'].as_slice()));
    assert_eq!(look.foreground, Ink::Rgb(1, 2, 3));
    assert!(style.inverse && style.strikeout);
    assert!(terminal.look(point(0, 2)).1.wide);
    assert!(terminal.look(point(0, 2)).1.hidden);
    assert!(terminal.look(point(0, 3)).1.spacer);
    assert!(!terminal.look(point(1, 0)).1.underlined);
}

#[test]
fn the_application_can_set_colors() {
    let mut terminal = terminal(20, 2, 0);
    assert_eq!(terminal.palette(1), None);
    terminal.feed(b"\x1b]4;1;rgb:0a/0b/0c\x07");
    assert_eq!(terminal.palette(1), Some((10, 11, 12)));
}

fn chars(text: &str) -> Vec<char> {
    text.chars().collect()
}

fn text(link: Option<Vec<char>>) -> Option<String> {
    link.map(|link| link.into_iter().collect())
}

#[test]
fn links_end_before_punctuation_quotes_and_brackets() {
    let row = chars("see (http://a.example/x), \"https://b.example\".");
    assert_eq!(text(http_url_at(&row, 6)).as_deref(), Some("http://a.example/x"));
    assert_eq!(text(http_url_at(&row, 30)).as_deref(), Some("https://b.example"));
    assert_eq!(text(http_url_at(&row, 0)), None);
    // A secure link is preferred wherever it stands.
    assert_eq!(text(first_http_url(&row)).as_deref(), Some("https://b.example"));
    assert_eq!(text(first_http_url(&chars("http://. https://"))), None);
    assert_eq!(text(first_http_url(&chars("http://x"))).as_deref(), Some("http://x"));
}

#[test]
fn a_single_column_takes_narrow_characters() {
    let mut terminal = Terminal::new(Size::new(1, 3).unwrap(), 0);
    terminal.feed("aé".as_bytes());
    assert_eq!(terminal.screen_lines(), ["a", "é", ""]);
    terminal.resize(Size::new(1, 3).unwrap());
    terminal.resize(Size::new(4, 3).unwrap());
    terminal.feed(b"\r\x1b[2J\x1b[Hwxyz");
    terminal.resize(Size::new(1, 4).unwrap());
    assert_eq!(terminal.screen_lines(), ["z", "", "", ""]);
}

#[test]
fn a_torn_wide_character_leaves_its_line_readable() {
    let mut terminal = Terminal::new(Size::new(6, 2).unwrap(), 0);
    terminal.feed("界ab\r\x1b[P".as_bytes());
    assert!(terminal.look(point(0, 0)).1.spacer);
    assert_eq!(terminal.screen_lines(), ["ab", ""]);
    assert_eq!(terminal.cursor(), (Shape::Block, point(0, 0)));
    terminal.begin_selection(point(0, 0), Side::Left, Extent::Lines);
    assert_eq!(terminal.selected_text().as_deref(), Some("ab"));
    terminal.begin_selection(point(0, 0), Side::Left, Extent::Simple);
    terminal.update_selection(point(1, 5), Side::Right);
    assert_eq!(terminal.selected_text().as_deref(), Some("ab\n"));
    terminal.feed(b"\x1b[?25l");
    assert_eq!(terminal.cursor().0, Shape::Hidden);
}

#[test]
fn a_wide_character_that_did_not_fit_its_row_is_no_part_of_it() {
    let mut terminal = Terminal::new(Size::new(4, 2).unwrap(), 0);
    terminal.feed("abc界".as_bytes());
    assert!(terminal.look(point(0, 3)).1.leading);
    assert_eq!(terminal.screen_lines(), ["abc", "界"]);
    terminal.begin_selection(point(0, 0), Side::Left, Extent::Simple);
    terminal.update_selection(point(0, 3), Side::Right);
    assert_eq!(terminal.selected_text().as_deref(), Some("abc"));
}

#[test]
fn the_cursor_shows_on_the_first_half_of_a_wide_character() {
    let mut terminal = Terminal::new(Size::new(6, 2).unwrap(), 0);
    terminal.feed("界\x1b[1;2H".as_bytes());
    assert_eq!(terminal.cursor(), (Shape::Block, point(0, 0)));
}

#[test]
fn a_block_behind_the_last_column_selects_nothing() {
    let mut terminal = Terminal::new(Size::new(2, 2).unwrap(), 0);
    terminal.feed(b"abcd");
    terminal.begin_selection(point(0, 1), Side::Right, Extent::Block);
    terminal.update_selection(point(1, 1), Side::Left);
    assert_eq!(terminal.selected_text(), None);
}

#[test]
fn held_output_comes_through_as_it_came() {
    let pieces: [&[u8]; 5] = [b"one ", b"", "é".as_bytes(), b"\x1b[3", b"1mred"];
    let mut held = Terminal::new(Size::new(12, 2).unwrap(), 0);
    let mut direct = Terminal::new(Size::new(12, 2).unwrap(), 0);
    held.hold_output(true);
    for piece in pieces {
        held.feed(piece);
        direct.feed(piece);
        held.hold_output(true);
        assert_eq!(held.screen_lines(), ["", ""]);
    }
    held.hold_output(false);
    assert_eq!(held.screen_lines(), ["one éred", ""]);
    assert_eq!(held.screen_lines(), direct.screen_lines());
    assert_eq!(held.cursor(), direct.cursor());
}

#[test]
fn a_single_column_takes_all_but_wide_characters() {
    for wide in ['界', '\u{1100}', '\u{17a4}', '\u{17d8}', '⌚', '😀', '\u{3fffd}'] {
        assert!(is_wide(wide as u32), "{wide}");
    }
    for narrow in ['a', 'é', '─', '⠿', '☀', '\u{e0b0}', '\u{2600}', '\u{10ffff}'] {
        assert!(!is_wide(narrow as u32), "{narrow}");
    }
    let mut terminal = terminal(1, 4, 0);
    terminal.feed("─☀".as_bytes());
    assert_eq!(terminal.screen_lines(), ["─", "☀", "", ""]);
    // A character in two pieces, and bytes that are no UTF-8.
    terminal.feed(b"\x1b[2J\x1b[H\xe2\x94");
    terminal.feed(b"\x80\xff");
    assert_eq!(terminal.screen_lines(), ["─", "\u{fffd}", "", ""]);
    // A wide character never comes together, in one piece or two.
    terminal.feed("\x1b[2J\x1b[Ha界b".as_bytes());
    assert_eq!(terminal.screen_lines(), ["a", "\u{fffd}", "b", ""]);
    terminal.feed(b"\x1b[2J\x1b[H\xf0\x9f\x98");
    terminal.feed(b"\x80c");
    assert_eq!(terminal.screen_lines(), ["\u{fffd}", "c", "", ""]);
    assert!(terminal.can_resize(Size::new(1, 2).unwrap()));
}

#[test]
fn a_grid_with_a_wide_character_does_not_become_a_single_column() {
    let mut terminal = terminal(4, 2, 0);
    assert!(terminal.can_resize(Size::new(1, 2).unwrap()));
    terminal.feed("界".as_bytes());
    assert!(!terminal.can_resize(Size::new(1, 2).unwrap()));
    assert!(terminal.can_resize(Size::new(2, 2).unwrap()));
}

#[test]
fn held_output_comes_through_a_single_column_too() {
    let pieces: [&[u8]; 4] = [b"x\xe2", b"\x94\x80", "界".as_bytes(), b"\xe5"];
    let mut held = terminal(1, 4, 0);
    let mut direct = terminal(1, 4, 0);
    held.hold_output(true);
    for piece in pieces {
        held.feed(piece);
        direct.feed(piece);
    }
    held.hold_output(false);
    assert_eq!(held.screen_lines(), direct.screen_lines());
    assert_eq!(held.screen_lines()[1], "─");
}
