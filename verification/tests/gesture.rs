use starcom::gesture::{Click, DragPhase, Outcome, Pointer, Signals};

/// A frame with the button held and nothing else, as a base for the cases.
fn held() -> Signals {
    Signals {
        unmodified: true,
        primary_down: true,
        ..Signals::default()
    }
}

/// A release frame (button no longer down) with the given click.
fn released(click: Click) -> Signals {
    Signals {
        click: Some(click),
        primary_down: false,
        ..held()
    }
}

#[test]
fn a_plain_click_clears_selection_and_does_not_forward() {
    let mut pointer = Pointer::default();
    assert_eq!(
        pointer.update(released(Click::Single)),
        Outcome::Click {
            forward_to_app: false
        }
    );
}

#[test]
fn double_and_triple_clicks_select_word_and_line() {
    let mut pointer = Pointer::default();
    assert_eq!(pointer.update(released(Click::Double)), Outcome::SelectWord);
    assert_eq!(pointer.update(released(Click::Triple)), Outcome::SelectLine);
}

#[test]
fn a_drag_begins_extends_and_copies_on_release() {
    let mut pointer = Pointer::default();
    assert_eq!(
        pointer.update(Signals {
            drag: Some(DragPhase::Start),
            ..held()
        }),
        Outcome::DragBegin
    );
    assert_eq!(
        pointer.update(Signals {
            drag: Some(DragPhase::Continue),
            ..held()
        }),
        Outcome::DragExtend
    );
    assert_eq!(
        pointer.update(Signals {
            drag: Some(DragPhase::Stop),
            has_selection: true,
            primary_down: false,
            ..held()
        }),
        Outcome::DragEnd {
            forward_to_app: false
        }
    );
}

#[test]
fn a_press_on_a_link_copies_it_and_consumes_the_gesture() {
    let mut pointer = Pointer::default();
    assert_eq!(
        pointer.update(Signals {
            primary_pressed: true,
            link_at_origin: true,
            ..held()
        }),
        Outcome::CopyLink
    );
    // A drag off the link must not begin a selection.
    assert_eq!(
        pointer.update(Signals {
            drag: Some(DragPhase::Start),
            link_at_origin: true,
            ..held()
        }),
        Outcome::Idle
    );
    // Release clears the latch; nothing else happens for the link.
    assert_eq!(
        pointer.update(Signals {
            drag: Some(DragPhase::Stop),
            primary_down: false,
            ..held()
        }),
        Outcome::Idle
    );
}

#[test]
fn a_modified_click_on_a_link_stays_local_selection() {
    let mut pointer = Pointer::default();
    assert_eq!(
        pointer.update(Signals {
            unmodified: false,
            link_at_origin: true,
            ..released(Click::Single)
        }),
        Outcome::Click {
            forward_to_app: false
        },
        "Shift/Ctrl/Alt/Cmd is a local gesture, even on a link"
    );
}

#[test]
fn a_mouse_app_click_is_forwarded() {
    let mut pointer = Pointer::default();
    assert_eq!(
        pointer.update(Signals {
            mouse_app: true,
            ..released(Click::Single)
        }),
        Outcome::Click {
            forward_to_app: true
        }
    );
}

#[test]
fn a_mouse_app_drag_that_selected_text_copies_instead_of_forwarding() {
    let mut pointer = Pointer::default();
    assert_eq!(
        pointer.update(Signals {
            drag: Some(DragPhase::Stop),
            mouse_app: true,
            has_selection: true,
            primary_down: false,
            ..held()
        }),
        Outcome::DragEnd {
            forward_to_app: false
        }
    );
}

#[test]
fn a_mouse_app_collapsed_drag_forwards_the_click() {
    let mut pointer = Pointer::default();
    assert_eq!(
        pointer.update(Signals {
            drag: Some(DragPhase::Stop),
            mouse_app: true,
            has_selection: false,
            primary_down: false,
            ..held()
        }),
        Outcome::DragEnd {
            forward_to_app: true
        }
    );
}

#[test]
fn a_modified_click_is_not_forwarded_to_the_app() {
    let mut pointer = Pointer::default();
    assert_eq!(
        pointer.update(Signals {
            unmodified: false,
            mouse_app: true,
            ..released(Click::Single)
        }),
        Outcome::Click {
            forward_to_app: false
        }
    );
}

#[test]
fn double_and_triple_clicks_never_forward_even_in_a_mouse_app() {
    let mut pointer = Pointer::default();
    assert_eq!(
        pointer.update(Signals {
            mouse_app: true,
            ..released(Click::Double)
        }),
        Outcome::SelectWord
    );
    assert_eq!(
        pointer.update(Signals {
            mouse_app: true,
            ..released(Click::Triple)
        }),
        Outcome::SelectLine
    );
}

#[test]
fn the_link_latch_resets_after_release_so_the_next_press_selects() {
    let mut pointer = Pointer::default();
    pointer.update(Signals {
        primary_pressed: true,
        link_at_origin: true,
        ..held()
    });
    pointer.update(Signals {
        primary_down: false,
        ..held()
    });
    // A later press on empty text drags normally.
    assert_eq!(
        pointer.update(Signals {
            drag: Some(DragPhase::Start),
            ..held()
        }),
        Outcome::DragBegin
    );
}
