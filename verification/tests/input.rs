use starcom::command;
use starcom::ids::{PaneId, SessionId, WindowId};
use starcom::input::{
    alternate_scroll_bytes, mouse_click_bytes, mouse_wheel_bytes, Action, Axis, Error, Key,
    Modifiers, Paste, Resize, Target, MAX_PASTE_BYTES,
};
use starcom::model::{SessionName, Size};

#[test]
fn named_keys_cannot_become_control_commands() {
    assert_eq!(Key::Up.name(Modifiers::default()).unwrap(), "Up");
    assert_eq!(
        Key::Enter
            .name(Modifiers {
                shift: true,
                ..Modifiers::default()
            })
            .unwrap(),
        "Enter",
        "Shift+Enter must not become literal S-Enter input"
    );
    assert_eq!(
        Key::Backspace
            .name(Modifiers {
                shift: true,
                ..Modifiers::default()
            })
            .unwrap(),
        "BSpace",
        "Shift+Backspace must not become literal S-BSpace input"
    );
    assert_eq!(
        Key::Left
            .name(Modifiers {
                control: true,
                alt: true,
                shift: true
            })
            .unwrap(),
        "C-M-S-Left"
    );
    assert_eq!(
        Key::Tab
            .name(Modifiers {
                shift: true,
                ..Modifiers::default()
            })
            .unwrap(),
        "BTab"
    );
    assert!(Key::Function(0).name(Modifiers::default()).is_err());
    assert!(Key::Function(21).name(Modifiers::default()).is_err());
    assert!(
        Key::WheelUp.name(Modifiers::default()).is_err(),
        "WheelUp must not be a send-keys name; tmux types unknown names as text"
    );
    assert!(Key::WheelDown.name(Modifiers::default()).is_err());
}

#[test]
fn every_named_key_has_tmux_s_name() {
    let plain = Modifiers::default();
    for (key, name) in [
        (Key::Enter, "Enter"),
        (Key::Backspace, "BSpace"),
        (Key::Tab, "Tab"),
        (Key::Escape, "Escape"),
        (Key::Down, "Down"),
        (Key::Right, "Right"),
        (Key::Home, "Home"),
        (Key::End, "End"),
        (Key::Insert, "IC"),
        (Key::Delete, "DC"),
        (Key::PageUp, "PPage"),
        (Key::PageDown, "NPage"),
        (Key::Function(1), "F1"),
        (Key::Function(20), "F20"),
    ] {
        assert_eq!(key.name(plain).unwrap(), name);
    }
    let shifted = Modifiers {
        control: true,
        shift: true,
        ..plain
    };
    assert_eq!(Key::Tab.name(shifted).unwrap(), "C-S-Tab");
}

#[test]
fn mouse_wheel_reports_sgr_and_x10() {
    assert_eq!(alternate_scroll_bytes(true), b"\x1b[A");
    assert_eq!(alternate_scroll_bytes(false), b"\x1b[B");
    assert_eq!(mouse_wheel_bytes(true, 0, 0, true), b"\x1b[<64;1;1M");
    assert_eq!(mouse_wheel_bytes(false, 9, 4, true), b"\x1b[<65;10;5M");
    assert_eq!(
        mouse_wheel_bytes(true, 0, 0, false),
        vec![0x1b, b'[', b'M', 96, 33, 33]
    );
}

#[test]
fn mouse_clicks_report_sgr_press_release_and_x10() {
    assert_eq!(mouse_click_bytes(true, 0, 0, true), b"\x1b[<0;1;1M");
    assert_eq!(mouse_click_bytes(false, 3, 7, true), b"\x1b[<0;4;8m");
    assert_eq!(
        mouse_click_bytes(true, 0, 0, false),
        vec![0x1b, b'[', b'M', 32, 33, 33]
    );
    assert_eq!(
        mouse_click_bytes(false, 0, 0, false),
        vec![0x1b, b'[', b'M', 35, 33, 33]
    );
}

#[test]
fn far_cells_saturate_in_x10_reports() {
    assert_eq!(
        mouse_wheel_bytes(false, 222, usize::MAX, false),
        vec![0x1b, b'[', b'M', 97, 255, 255]
    );
    assert_eq!(
        mouse_click_bytes(true, usize::MAX, 0, true),
        format!("\x1b[<0;{};1M", usize::MAX).into_bytes()
    );
}

#[test]
fn paste_is_bounded_normalized_and_cannot_close_its_bracket() {
    let text = Paste::new("café\r\n界\re\u{301}\t").unwrap();
    assert_eq!(text.as_str(), "café\n界\ne\u{301}\t");
    assert!(text.is_multiline());
    for text in ["\x1b[201~echo pwned\n", "\0", "\u{9b}201~", "\x7f", "\x03"] {
        assert!(matches!(Paste::new(text), Err(Error::PasteControl)));
    }
    assert!(Paste::new("").is_err());
    assert!(Paste::new(&"x".repeat(MAX_PASTE_BYTES + 1)).is_err());
    assert!(Paste::new(&"x".repeat(MAX_PASTE_BYTES)).is_ok());
    assert!(!Paste::new("printf '%s' \"$(literal); #{pane_id}\"")
        .unwrap()
        .is_multiline());
}

#[test]
fn line_endings_of_every_kind_become_one_line_feed() {
    assert_eq!(Paste::new("a\r\r\nb\n\nc\r").unwrap().as_str(), "a\n\nb\n\nc\n");
    assert!(matches!(Paste::new(""), Err(Error::PasteSize)));
    let wide = "界".repeat(MAX_PASTE_BYTES / 3 + 1);
    assert!(matches!(Paste::new(&wide), Err(Error::PasteSize)));
}

#[test]
fn actions_are_validated_sized_and_sorted() {
    assert_eq!(Action::Bytes(Vec::new()).validate(), Err(Error::InputSize));
    assert_eq!(Action::Bytes(vec![7; 1025]).validate(), Err(Error::InputSize));
    assert_eq!(Action::Bytes(vec![7; 1024]).validate(), Ok(()));
    let plain = Modifiers::default();
    assert_eq!(
        Action::Key(Key::WheelUp, plain).validate(),
        Err(Error::UnsupportedKey)
    );
    let resize = |cells| {
        Action::Resize(Resize {
            axis: Axis::Columns,
            cells,
        })
    };
    assert_eq!(resize(0).validate(), Err(Error::ResizeSize));
    assert_eq!(resize(4097).validate(), Err(Error::ResizeSize));
    assert_eq!(resize(4096).validate(), Ok(()));
    assert_eq!(Action::Bytes(vec![1, 2, 3]).size(), 3);
    assert_eq!(Action::Paste(Paste::new("é").unwrap()).size(), 2);
    assert_eq!(Action::KillPane.size(), 32);
    assert!(Action::Split(Axis::Rows).changes_layout());
    assert!(!Action::SelectPane.changes_layout());
    assert!(Action::ClientSize(Size::default()).changes_window_size());
    assert!(!Action::ZoomPane.changes_window_size());
}

#[test]
fn errors_say_what_was_wrong() {
    assert_eq!(Error::UnsupportedKey.to_text(), "this key is not supported");
    assert_eq!(Error::InputSize.to_text(), "terminal input must contain 1..=1024 bytes");
    assert_eq!(Error::PasteSize.to_text(), "paste must contain 1..=65536 UTF-8 bytes");
    assert_eq!(Error::ResizeSize.to_text(), "pane size must be between 1 and 4096 cells");
    assert_eq!(
        Error::PasteControl.to_text(),
        "paste contains control characters; nothing was sent (only tabs and newlines are allowed)"
    );
}

#[test]
fn a_guard_names_every_condition() {
    let target = Target {
        session: SessionId(2),
        pane: PaneId(7),
        window: WindowId(3),
        size: Size::new(80, 24).unwrap(),
        left: 1,
        top: 0,
    };
    let guard = target.guard(false);
    assert_eq!(
        guard,
        "#{&&:#{&&:#{&&:#{&&:#{&&:#{&&:#{&&:#{&&:#{&&:#{==:#{session_id},$2},\
         #{==:#{window_id},@3}},#{==:#{pane_width},80}},#{==:#{pane_height},24}},\
         #{==:#{pane_left},1}},#{==:#{pane_top},0}},#{==:#{pane_dead},0}},\
         #{==:#{pane_in_mode},0}},#{==:#{pane_input_off},0}},#{==:#{synchronize-panes},0}}"
    );
    assert!(!guard.contains('\''));
    assert!(target.guard(true).contains("#{==:#{window_zoomed_flag},0}"));
    assert!(!target.guard(true).contains("synchronize-panes"));
}

#[test]
fn commands_are_rendered_for_tmux() {
    let pane = PaneId(4);
    assert_eq!(
        command::send_bytes(pane, &vec![0x61, 0x1b, 0xff]),
        "send-keys -t %4 -H 61 1b ff"
    );
    assert_eq!(command::send_key(pane, "C-Left"), "send-keys -t %4 C-Left");
    assert_eq!(
        command::resize_axis(
            pane,
            Resize {
                axis: Axis::Rows,
                cells: 12
            }
        ),
        "resize-pane -t %4 -y 12"
    );
    assert_eq!(command::split_pane(pane, Axis::Columns), "split-window -h -t %4");
    assert_eq!(command::split_pane(pane, Axis::Rows), "split-window -v -t %4");
    assert_eq!(command::kill_pane(pane), "kill-pane -t %4");
    assert_eq!(command::zoom_pane(pane), "resize-pane -Z -t %4");
    assert_eq!(command::select_pane(pane), "select-pane -t %4");
    assert_eq!(command::swap_pane(pane, PaneId(5)), "swap-pane -s %4 -t %5");
    assert_eq!(command::client_size(Size::default()), "refresh-client -C 80x24");
    assert_eq!(
        command::rename_session(SessionId(1), &SessionName::new("my 'work'").unwrap()),
        "rename-session -t '$1' 'my '\"'\"'work'\"'\"''"
    );
}

#[test]
fn a_paste_is_uploaded_in_bounded_octal_chunks() {
    let content = Paste::new(&format!("a\n{}", "x".repeat(511))).unwrap();
    let commands = command::paste(PaneId(1), &content, "starcom-1-a-1");
    assert_eq!(commands.len(), 3);
    assert!(commands[0].starts_with("set-buffer -b starcom-1-a-1 \"\\141\\012\\170"));
    assert_eq!(commands[1], "set-buffer -a -b starcom-1-a-1 \"\\170\"");
    assert_eq!(commands[2], "paste-buffer -d -p -b starcom-1-a-1 -t %1");
}

#[test]
fn shell_words_survive_any_text_but_control_characters() {
    assert_eq!(command::shell_quote("plain").unwrap(), "'plain'");
    assert_eq!(command::shell_quote("").unwrap(), "''");
    assert_eq!(command::shell_quote("it's $(x)").unwrap(), "'it'\"'\"'s $(x)'");
    assert!(command::shell_quote("a\nb").is_err());
}
