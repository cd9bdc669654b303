use starcom::desktop::Phase;
use starcom::store::{self, format_open, label, Limits, Settings};
use starcom::workspace::{
    after_paint, busy_phase, drop_insert_at, lift, quiet_after, tab_color, Action, Frame, Glance,
    Performed, Plan,
    Settled, Strip, TabAction, Workspace, MAX_TABS, SECOND,
};

const LIMITS: Limits = Limits {
    tabs: 16,
    fps: 60,
    idle: 3600,
    open_secs: 1_000_000,
};

fn saved(destination: &str, host: &str, session: &str) -> store::Tab {
    store::Tab {
        destination: destination.into(),
        host: host.into(),
        session: session.into(),
    }
}

/// A workspace that shows one tab, as the demo does.
fn demo() -> Workspace {
    let mut workspace = Workspace::new(false, LIMITS, 0);
    assert!(workspace.push_idle_tab(0));
    workspace
}

fn glance(revision: u64, phase: Phase, seq: u64) -> Glance {
    Glance {
        revision,
        phase,
        seq,
    }
}

#[test]
fn a_quiet_connected_tab_turns_blue() {
    let idle = (40, 40, 40);
    let live = tab_color(Phase::Watching, idle, false);
    let quiet = tab_color(Phase::Watching, idle, true);
    assert_ne!(live, quiet);
    assert_eq!(
        tab_color(Phase::Failed, idle, false),
        tab_color(Phase::Reconnecting, idle, false),
        "failed uses the same chip fill as reconnecting"
    );
    assert_eq!(
        tab_color(Phase::Resynchronizing, idle, false),
        live,
        "a layout rebuild is not a yellow reconnect"
    );
    assert!(!busy_phase(Phase::Resynchronizing));
    assert_eq!(tab_color(Phase::Idle, idle, true), idle);
    assert_eq!(lift((10, 250, 255), 32), (42, 255, 255));
}

#[test]
fn open_time_formats_compactly() {
    assert_eq!(format_open(8), "8s");
    assert_eq!(format_open(90), "1m");
    assert_eq!(format_open(3720), "1h 2m");
    assert_eq!(format_open(86_400 * 2 + 3_600), "2d 1h");
}

#[test]
fn plus_opens_the_composer_without_a_new_tab() {
    let mut workspace = demo();
    assert_eq!(workspace.tabs.len(), 1);
    workspace.plan(Action::New, "", 0);
    assert_eq!(workspace.tabs.len(), 1);
    assert!(workspace.composer_open);
}

#[test]
fn closing_the_composer_does_not_close_the_hidden_session() {
    let mut workspace = demo();
    let live = workspace.tabs[0].id;
    workspace.open_composer();
    assert!(matches!(
        workspace.close_shortcut_action(),
        Action::Select(id) if id == live
    ));
    workspace.composer_open = false;
    assert!(matches!(
        workspace.close_shortcut_action(),
        Action::Close(id) if id == live
    ));
}

#[test]
fn connecting_from_the_composer_registers_a_tab() {
    let mut workspace = demo();
    workspace.open_composer();
    let composer = workspace.composer.id;
    assert!(workspace.promote_composer(0));
    assert_eq!(workspace.tabs.len(), 2);
    assert!(!workspace.composer_open);
    assert_eq!(workspace.tabs[1].id, composer);
    assert_ne!(workspace.composer.id, composer);
}

#[test]
fn exit_closes_an_empty_form_and_keeps_a_named_one() {
    let mut workspace = demo();
    assert!(workspace.push_idle_tab(0));
    let first = workspace.tabs[0].id;
    workspace.plan(Action::Select(first), "", 0);
    let plan = workspace.plan(Action::Tab(first, TabAction::Disconnect), "", 0);
    assert_eq!(plan, Plan::Active);
    assert_eq!(
        workspace.settle(false, Performed::Disconnected(saved("", " ", "")), 0),
        Settled::Closed
    );
    assert_eq!(workspace.tabs.len(), 1);
    assert_ne!(workspace.tabs[0].id, first);

    let id = workspace.tabs[0].id;
    assert_eq!(workspace.plan(Action::Tab(id, TabAction::Disconnect), "", 0), Plan::Active);
    assert_eq!(
        workspace.settle(false, Performed::Disconnected(saved("dev", "10.0.0.2", "work")), 0),
        Settled::Done
    );
    assert_eq!(workspace.tabs.len(), 1);
    assert_eq!(workspace.tabs[0].label, "dev / work");
}

#[test]
fn a_tab_without_a_destination_is_labelled_by_host_and_session() {
    assert_eq!(label(&saved("", "build.example.test", "ci")), "build.example.test / ci");
    assert_eq!(label(&saved("dev", "10.0.0.2", "work")), "dev / work");
    assert_eq!(label(&saved(" ", "", " solo ")), "solo");
    assert_eq!(label(&saved("", " host ", "")), "host");
    assert_eq!(label(&saved("", "", "")), "New connection");
}

#[test]
fn reordering_tabs_keeps_the_active_tab() {
    let mut workspace = demo();
    let first = workspace.tabs[0].id;
    assert!(workspace.push_idle_tab(0));
    let second = workspace.tabs[1].id;
    assert_eq!(workspace.active, 1);
    let move_second = || Action::Reorder {
        id: second,
        insert_at: 0,
    };
    assert_eq!(workspace.plan(move_second(), "", 0), Plan::Save);
    assert_eq!(workspace.tabs[0].id, second);
    assert_eq!(workspace.tabs[1].id, first);
    assert_eq!(workspace.active, 0);
    workspace.plan(move_second(), "", 0);
    assert_eq!(workspace.tabs[0].id, second);
}

#[test]
fn new_tab_preserves_existing_session_and_close_only_detaches_its_client() {
    let mut workspace = demo();
    let original = workspace.tabs[0].id;
    assert!(workspace.push_idle_tab(0));
    assert_eq!(workspace.tabs.len(), 2);
    let second = workspace.tabs[1].id;
    assert_eq!(workspace.plan(Action::Close(second), "", 0), Plan::Save);
    assert_eq!(workspace.tabs.len(), 1);
    assert_eq!(workspace.tabs[0].id, original);
    workspace.shutdown(0);
    workspace.shutdown(0);
    assert!(workspace.tabs.is_empty());
}

#[test]
fn stale_tab_actions_do_not_modify_the_current_tab() {
    let mut workspace = demo();
    let original = workspace.tabs[0].id;
    assert!(workspace.push_idle_tab(0));
    // The first tab is hidden: no client is asked for anything.
    let plan = workspace.plan(Action::Tab(original, TabAction::Disconnect), "", 0);
    assert_eq!(plan, Plan::Done);
    assert_eq!(workspace.tabs.len(), 2);
    assert_eq!(workspace.active, 1);
}

#[test]
fn connections_and_tabs_are_bounded() {
    let mut workspace = demo();
    for _ in 1..MAX_TABS {
        assert!(workspace.push_idle_tab(0));
    }
    assert!(!workspace.push_idle_tab(0));
    workspace.open_composer();
    let composer = workspace.composer.id;
    assert_eq!(workspace.plan(Action::Tab(composer, TabAction::Connect), "", 0), Plan::Done);
    assert_eq!(
        workspace.notice.as_deref(),
        Some("at most 16 connection tabs may be open")
    );
    assert!(workspace.composer_open);
}

#[test]
fn sending_input_raises_the_remote_paint_rate() {
    let mut workspace = demo();
    let idle = workspace.repaint_interval();
    assert_eq!(idle, 200_000_000);
    assert_eq!(workspace.paint_interval(SECOND), idle);
    let sent = Performed::Sent {
        selected_pane: false,
        accepted: true,
    };
    assert_eq!(workspace.settle(false, sent, SECOND), Settled::Done);
    assert_eq!(workspace.echo_until, Some(SECOND + 400_000_000));
    assert_eq!(workspace.paint_interval(SECOND), 50_000_000);
    workspace.echo_until = Some(SECOND - 1_000_000);
    assert_eq!(workspace.paint_interval(SECOND), idle);
}

#[test]
fn hidden_terminal_updates_do_not_repaint_the_selected_terminal() {
    let mut workspace = demo();
    let shown = glance(1, Phase::Demo, 1);
    assert!(workspace.remote_changed(&vec![shown], 0, 1));
    assert!(
        workspace.remote_changed(&vec![shown], 0, 2),
        "pending work stays pending until the terminal is painted"
    );
    workspace.observe(&vec![shown], 2);
    workspace.ack_painted(1);
    assert!(
        !workspace.remote_changed(&vec![shown], 0, 3),
        "duplicate wakes are discarded after paint"
    );

    assert!(workspace.push_idle_tab(3));
    workspace.active = 0;
    let hidden = glance(1, Phase::Demo, 1);
    assert!(
        workspace.remote_changed(&vec![shown, hidden], 0, 4),
        "a hidden tab's phase change updates its visible chip"
    );
    assert!(!workspace.remote_changed(&vec![shown, hidden], 0, 5));

    let hidden = glance(2, Phase::Demo, 2);
    assert!(
        !workspace.remote_changed(&vec![shown, hidden], 0, 6),
        "new hidden terminal contents do not repaint the selected terminal"
    );
    let shown = glance(2, Phase::Demo, 2);
    assert!(
        workspace.remote_changed(&vec![shown, hidden], 0, 7),
        "new selected terminal contents do repaint"
    );
    workspace.ack_painted(2);
    assert!(
        !workspace.remote_changed(&vec![shown, hidden], 0, 8),
        "selected contents stay pending only until show paints"
    );
    // Output in a tab that had been quiet for long changes its colour.
    let hidden = glance(3, Phase::Demo, 3);
    assert!(workspace.remote_changed(&vec![shown, hidden], 0, 31 * SECOND));
    assert!(!workspace.remote_changed(&vec![shown, hidden], 9, 32 * SECOND));
    workspace.open_composer();
    assert!(workspace.remote_changed(&vec![shown, hidden], 10, 33 * SECOND));
}

#[test]
fn idle_frames_do_not_request_another_repaint() {
    let mut workspace = demo();
    let id = workspace.tabs[0].id;
    assert_eq!(workspace.plan(Action::Tab(id, TabAction::Idle), "", 0), Plan::Nothing);
    assert!(!workspace.local_dirty);
    assert_eq!(workspace.plan(Action::Idle, "", 0), Plan::Nothing);
    workspace.plan(Action::Select(99), "", 0);
    assert!(workspace.local_dirty);
    workspace.begin_frame();
    assert!(!workspace.local_dirty);
}

fn restored(settings: Settings, tabs: Vec<store::Tab>) -> Workspace {
    let mut workspace = Workspace::new(true, LIMITS, 0);
    workspace.restore(&store::Workspace { tabs, settings }, 5);
    workspace
}

const SETTINGS: Settings = Settings {
    active: 1,
    restore_tabs: true,
    fps: 5,
    idle: 30,
    open_secs: 7,
};

#[test]
fn saved_tabs_come_back_with_their_names() {
    let tabs = vec![saved("dev", "10.0.0.2", "work"), saved("", "build.example.test", "ci")];
    let mut workspace = restored(SETTINGS, tabs);
    assert_eq!(workspace.tabs.len(), 2);
    assert_eq!(workspace.tabs[0].label, "dev / work");
    assert_eq!(workspace.tabs[1].label, "build.example.test / ci");
    assert_eq!(workspace.active, 1);
    assert!(!workspace.composer_open);
    let (settings, count) = workspace.persist(3 * SECOND).unwrap();
    assert_eq!(count, 2);
    assert_eq!(
        settings,
        Settings {
            open_secs: 10,
            ..SETTINGS
        }
    );
    // Only the first shutdown saves.
    assert!(workspace.shutdown(4 * SECOND).is_some());
    assert!(workspace.shutdown(5 * SECOND).is_none());
}

#[test]
fn restoring_is_bounded_and_can_be_switched_off() {
    let many = || (0..20).map(|_| saved("a", "", "b")).collect::<Vec<_>>();
    let workspace = restored(
        Settings {
            active: 99,
            fps: 0,
            idle: u32::MAX,
            open_secs: u64::MAX,
            ..SETTINGS
        },
        many(),
    );
    assert_eq!(workspace.tabs.len(), MAX_TABS);
    assert_eq!((workspace.active, workspace.fps, workspace.idle), (15, 1, 3600));
    assert_eq!(workspace.open_secs_now(SECOND * 9), 1_000_000);
    let off = restored(
        Settings {
            restore_tabs: false,
            ..SETTINGS
        },
        many(),
    );
    assert!(off.tabs.is_empty() && off.composer_open && !off.restore_tabs);
}

#[test]
fn an_unreadable_workspace_is_cleared_or_left_alone() {
    let mut workspace = Workspace::new(true, LIMITS, 0);
    assert!(workspace.unreadable(true));
    assert!(workspace.persist(0).is_some());
    assert!(!workspace.unreadable(false));
    assert!(workspace.persist(0).is_none());
    let mut workspace = Workspace::new(true, LIMITS, 0);
    workspace.save_failed("disk full");
    assert_eq!(workspace.notice.as_deref(), Some("Could not save tabs: disk full"));
    assert!(workspace.persist(0).is_none());
}

#[test]
fn actions_of_a_tab_reach_its_client() {
    let mut workspace = demo();
    let id = workspace.tabs[0].id;
    let mut plan = |action| workspace.plan(Action::Tab(id, action), "work", 0);
    assert_eq!(plan(TabAction::Frame), Plan::Active);
    assert_eq!(plan(TabAction::ReloadConfig), Plan::Reload);
    assert_eq!(plan(TabAction::RenameSession("work".into())), Plan::Done);
    assert_eq!(plan(TabAction::RenameSession("other".into())), Plan::Active);
    assert_eq!(plan(TabAction::RenameSession("a\tb".into())), Plan::Done);
    assert!(workspace.notice.is_some());
    workspace.open_composer();
    let composer = workspace.composer.id;
    let listing = Action::Tab(composer, TabAction::ListSessions);
    assert_eq!(workspace.plan(listing, "", 0), Plan::Composer);
    let connect = Action::Tab(composer, TabAction::Connect);
    assert_eq!(workspace.plan(connect, "", 0), Plan::Active);
    assert_eq!(workspace.tabs[workspace.active].id, composer);
    let connected = Performed::Connected(saved("dev", "", "work"));
    assert_eq!(workspace.settle(false, connected, 0), Settled::Save);
    assert_eq!(workspace.tabs[1].label, "dev / work");
}

#[test]
fn closing_keeps_what_is_shown_shown() {
    let mut workspace = demo();
    for _ in 0..3 {
        workspace.push_idle_tab(0);
    }
    let ids: Vec<_> = workspace.tabs.iter().map(|tab| tab.id).collect();
    workspace.active = 2;
    workspace.plan(Action::Close(ids[0]), "", 0);
    assert_eq!(workspace.tabs[workspace.active].id, ids[2]);
    workspace.plan(Action::Close(ids[3]), "", 0);
    assert_eq!(workspace.tabs[workspace.active].id, ids[2]);
    workspace.plan(Action::Close(ids[2]), "", 0);
    assert_eq!(workspace.tabs[workspace.active].id, ids[1]);
    workspace.plan(Action::Close(ids[1]), "", 0);
    assert!(workspace.composer_open && workspace.active == 0);
    assert_eq!(workspace.plan(Action::Close(ids[1]), "", 0), Plan::Done);
}

#[test]
fn a_frame_asks_for_one_thing() {
    let mut workspace = demo();
    let id = workspace.tabs[0].id;
    let nothing = Strip {
        new_shortcut: false,
        close_shortcut: false,
        clicked: None,
        added: false,
        dropped: None,
    };
    assert!(matches!(workspace.navigation(nothing), Action::Idle));
    let both = Strip {
        new_shortcut: true,
        close_shortcut: true,
        ..nothing
    };
    assert!(matches!(workspace.navigation(both), Action::Close(closed) if closed == id));
    let clicked = Strip {
        clicked: Some(7),
        ..both
    };
    assert!(matches!(workspace.navigation(clicked), Action::Select(7)));
    let added = Strip {
        added: true,
        ..clicked
    };
    assert!(matches!(workspace.navigation(added), Action::New));
    let dropped = Strip {
        dropped: Some((3, 1)),
        ..added
    };
    assert!(matches!(
        workspace.navigation(dropped),
        Action::Reorder { id: 3, insert_at: 1 }
    ));
    assert_eq!(drop_insert_at(1, 1, 0, true), None);
    assert_eq!(drop_insert_at(1, 2, 4, true), Some(4));
    assert_eq!(drop_insert_at(1, 2, 4, false), Some(5));
    assert!(workspace.terminal_focused(true));
    workspace.open_composer();
    assert!(!workspace.terminal_focused(true));
}

#[test]
fn a_session_is_renamed_in_its_tab() {
    let mut workspace = demo();
    assert!(!workspace.begin_rename(2, Phase::Demo, "x"));
    assert_eq!(
        workspace.notice.as_deref(),
        Some("The demo has no remote session to rename.")
    );
    assert!(!workspace.begin_rename(2, Phase::Failed, "x"));
    assert!(workspace.begin_rename(2, Phase::Watching, " new "));
    assert!(workspace.rename_step(false, false, false).is_none());
    assert_eq!(workspace.rename_step(false, true, false), Some((2, "new".to_owned())));
    assert!(workspace.renaming.is_none());
    workspace.begin_rename(2, Phase::Watching, "y");
    assert!(workspace.rename_step(true, true, false).is_none());
    assert!(workspace.renaming.is_none());
    workspace.begin_rename(2, Phase::Watching, "y");
    assert!(workspace.rename_step(false, false, true).is_none());
    assert!(workspace.renaming.is_none());
}

#[test]
fn preferences_are_kept_within_their_bounds() {
    let mut workspace = demo();
    assert!(!workspace.set_preferences(5, 30, true));
    assert!(workspace.set_preferences(500, 30, true));
    assert_eq!(workspace.fps, 60);
    assert_eq!(workspace.repaint_interval(), 16_666_667);
    assert!(workspace.set_preferences(60, 0, false));
    assert_eq!(quiet_after(30, Phase::Watching, 0, 10 * SECOND), Some(20 * SECOND));
    assert_eq!(quiet_after(30, Phase::Watching, 0, 30 * SECOND), None);
    assert_eq!(quiet_after(0, Phase::Watching, 0, 0), None);
    assert_eq!(quiet_after(30, Phase::Failed, 0, 0), None);
}

#[test]
fn a_frame_is_used_up_by_a_rename_or_a_switch() {
    let mut workspace = demo();
    let id = workspace.tabs[0].id;
    assert!(matches!(
        workspace.frame(Some((4, "new".into())), Action::Close(id)),
        Frame::Used(Action::Tab(4, TabAction::RenameSession(name))) if name == "new"
    ));
    for action in [Action::New, Action::Select(id), Action::Close(id)] {
        assert!(matches!(workspace.frame(None, action), Frame::Used(_)));
    }
    let reorder = Action::Reorder { id, insert_at: 0 };
    let Frame::Paint { id: painted, navigation } = workspace.frame(None, reorder) else {
        panic!("expected a painted frame");
    };
    assert_eq!(painted, id);
    assert!(matches!(
        after_paint(painted, navigation, TabAction::Frame),
        Action::Reorder { .. }
    ));
    assert!(matches!(
        after_paint(id, Action::Idle, TabAction::Frame),
        Action::Tab(_, TabAction::Frame)
    ));
    workspace.plan(Action::Close(id), "", 0);
    workspace.composer_open = false;
    let composer = workspace.composer.id;
    assert!(matches!(
        workspace.frame(None, Action::Idle),
        Frame::Paint { id, .. } if id == composer
    ));
    assert!(workspace.composer_open);
}

#[test]
fn a_renamed_session_renames_its_tab() {
    let mut workspace = demo();
    let renamed = Performed::Renamed(saved("dev", "", "other"));
    assert_eq!(workspace.settle(false, renamed, 0), Settled::Save);
    assert_eq!(workspace.tabs[0].label, "dev / other");
}
