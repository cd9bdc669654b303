use starcom::input::{Action, Error, Key, Modifiers};
use starcom::keys::{
    follows_live_tip, terminal_control_key, translate, Code, ControlKey, Event, Held, WindowEvent,
};

const NONE: Held = Held {
    alt: false,
    ctrl: false,
    shift: false,
    mac_cmd: false,
};
const CTRL: Held = Held { ctrl: true, ..NONE };

fn raw(event: Option<Event>) -> Vec<u8> {
    let Some(Event::Input(actions)) = event else {
        panic!("expected terminal bytes")
    };
    actions
        .into_iter()
        .flat_map(|action| match action {
            Action::Bytes(bytes) => bytes,
            _ => panic!("not bytes"),
        })
        .collect()
}

fn key(code: Code, name: &str, held: Held) -> WindowEvent {
    WindowEvent::Key {
        code,
        name: name.to_owned(),
        pressed: true,
        held,
    }
}

#[test]
fn control_c_is_interrupt_but_shift_copy_is_local() {
    assert_eq!(raw(translate(&WindowEvent::Copy, CTRL, true).unwrap()), [3]);
    assert!(matches!(
        translate(&WindowEvent::Copy, Held { shift: true, ..CTRL }, true).unwrap(),
        Some(Event::Copy)
    ));
}

#[test]
fn typing_and_paste_follow_the_live_tip_but_copy_does_not() {
    let arrow = key(Code::ArrowUp, "Up", NONE);
    assert!(follows_live_tip(&WindowEvent::Text("a".into()), NONE, true));
    assert!(follows_live_tip(&arrow, NONE, true));
    assert!(follows_live_tip(&WindowEvent::Paste("x".into()), NONE, true));
    assert!(!follows_live_tip(&WindowEvent::Copy, Held { shift: true, ..CTRL }, true));
}

#[test]
fn control_characters_come_from_letters_and_punctuation() {
    for (code, name, byte) in [
        (Code::Other, "A", 1),
        (Code::Other, "Z", 26),
        (Code::Space, "Space", 0),
        (Code::OpenBracket, "[", 27),
        (Code::Pipe, "|", 28),
        (Code::Num5, "5", 29),
        (Code::Num6, "6", 30),
        (Code::Slash, "/", 31),
        (Code::Questionmark, "?", 127),
    ] {
        assert_eq!(raw(translate(&key(code, name, CTRL), NONE, true).unwrap()), [byte]);
    }
    let alt = Held { alt: true, ..CTRL };
    assert_eq!(
        raw(translate(&key(Code::Other, "c", alt), NONE, true).unwrap()),
        [0x1b, 3]
    );
}

#[test]
fn named_keys_keep_their_modifiers() {
    let shifted = Held { shift: true, ..NONE };
    let Ok(Some(Event::Input(actions))) = translate(&key(Code::Other, "F5", shifted), NONE, true)
    else {
        panic!("expected a key")
    };
    let Action::Key(pressed, modifiers) = &actions[0] else {
        panic!("expected a key")
    };
    assert_eq!(*pressed, Key::Function(5));
    assert_eq!(
        *modifiers,
        Modifiers {
            shift: true,
            ..Modifiers::default()
        }
    );
    assert!(matches!(
        translate(&key(Code::Other, "F21", NONE), NONE, true),
        Err(Error::UnsupportedKey)
    ));
    assert!(matches!(translate(&key(Code::Other, "F", NONE), NONE, true), Ok(None)));
    assert!(matches!(
        translate(&key(Code::Insert, "Insert", shifted), NONE, true),
        Ok(Some(Event::RequestPaste))
    ));
    let released = WindowEvent::Key {
        code: Code::Enter,
        name: "Enter".to_owned(),
        pressed: false,
        held: NONE,
    };
    assert!(matches!(translate(&released, NONE, true), Ok(None)));
    let command = Held { mac_cmd: true, ..NONE };
    assert!(matches!(translate(&key(Code::Enter, "Enter", command), NONE, true), Ok(None)));
}

#[test]
fn text_is_cut_into_pieces_and_alt_sends_an_escape() {
    let long = "é".repeat(700);
    let Ok(Some(Event::Input(actions))) = translate(&WindowEvent::Text(long.clone()), NONE, true)
    else {
        panic!("expected input")
    };
    let lengths: Vec<_> = actions.iter().map(Action::size).collect();
    assert_eq!(lengths, [1024, 376]);
    assert_eq!(raw(Some(Event::Input(actions))), long.as_bytes());
    let alt = Held { alt: true, ..NONE };
    assert_eq!(raw(translate(&WindowEvent::Text("x".into()), alt, true).unwrap()), b"\x1bx");
    assert_eq!(raw(translate(&WindowEvent::Text("x".into()), alt, false).unwrap()), b"x");
    assert!(matches!(translate(&WindowEvent::Text(String::new()), NONE, true), Ok(None)));
    assert!(matches!(
        translate(&WindowEvent::Text("\x1b[A".into()), NONE, true),
        Err(Error::InputSize)
    ));
    assert!(matches!(
        translate(&WindowEvent::Paste("\x1b".into()), NONE, true),
        Err(Error::PasteControl)
    ));
    assert!(matches!(
        translate(&WindowEvent::Paste(String::new()), NONE, true),
        Err(Error::PasteSize)
    ));
    assert_eq!(raw(translate(&WindowEvent::Cut, CTRL, true).unwrap()), [24]);
}

#[test]
fn only_unshifted_shortcuts_are_terminal_control_keys() {
    assert_eq!(terminal_control_key(Some("C"), CTRL), Some(ControlKey::C));
    assert_eq!(terminal_control_key(Some("v"), CTRL), Some(ControlKey::V));
    assert_eq!(terminal_control_key(Some("x"), CTRL), Some(ControlKey::X));
    assert_eq!(terminal_control_key(Some("a"), CTRL), None);
    assert_eq!(terminal_control_key(None, CTRL), None);
    assert_eq!(terminal_control_key(Some("c"), Held { shift: true, ..CTRL }), None);
    assert_eq!(terminal_control_key(Some("c"), NONE), None);
}
