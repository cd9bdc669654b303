use std::time::{Duration, Instant};

use starcom::demo::{demo_output, demo_view};
use starcom::desktop::{
    continuity, explain, jitter_seed, lists_sessions_after, plan_retry, recognize, slept, Connection, Discovery, Heard,
    Phase, Refused, Request, Retry, State, Step, Taken, Target, Update, Wait, Work,
    MAX_PENDING_ACTIONS,
};
use starcom::exchange::Notification;
use starcom::fault::Fault;
use starcom::ids::{PaneId, SessionId, WindowId};
use starcom::input::{self, Action, Key, Modifiers, Paste};
use starcom::inspect::Identity;
use starcom::model::{SessionName, Size};
use starcom::reconnect::{Backoff, Failure};
use starcom::snapshot::{Access, Status};
use starcom::ssh::{Error, Kind, Options};
use starcom::terminal::Terminal;

fn editable() -> State {
    State {
        phase: Phase::Watching,
        view: Some(demo_view()),
        access: Access::Interactive,
        ..State::default()
    }
}

fn enter() -> Action {
    Action::Key(Key::Enter, Modifiers::default())
}

fn bytes(text: &str) -> Action {
    Action::Bytes(text.as_bytes().to_vec())
}

fn connection(history: usize) -> Connection {
    Connection {
        options: Options {
            host: "dev.example.test".into(),
            port: 22,
            user: "alice".into(),
            known_hosts: "/tmp/known_hosts".into(),
            identities: Vec::new(),
            agent: true,
            identities_only: false,
            host_key_alias: None,
            timeout_secs: 10,
            jumps: Vec::new(),
        },
        session: SessionName::new("work").unwrap(),
        socket: None,
        history,
        access: Access::Interactive,
        reconnect: true,
    }
}

#[test]
fn cancelled_or_replaced_epochs_cannot_publish() {
    let mut state = State::default();
    assert!(state.accepts(0));
    state.cancel();
    assert!(!state.accepts(0));
    assert!(state.accepts(1));
    state.stopping = true;
    assert!(!state.accepts(1));
}

#[test]
fn demo_and_disconnect_need_no_network() {
    let mut state = State::default();
    state.demo(demo_view());
    assert_eq!(state.phase, Phase::Demo);
    assert_eq!(state.view.as_ref().unwrap().panes.len(), 2);
    state.disconnect();
    assert_eq!(state.phase, Phase::Disconnected);
    assert_eq!(state.view.as_ref().unwrap().status(), Status::Disconnected);
}

#[test]
fn queue_is_bounded_and_cancellation_invalidates_all_actions() {
    let mut state = editable();
    let target = state.target(PaneId(0)).unwrap();
    for _ in 0..MAX_PENDING_ACTIONS {
        state.enqueue(target, enter()).unwrap();
    }
    assert!(state.enqueue(target, bytes("overflow")).is_err());
    assert_eq!(state.actions.len(), MAX_PENDING_ACTIONS);
    state.cancel();
    assert!(state.actions.is_empty());
    assert_eq!(state.action_bytes, 0);
    assert!(state.enqueue(target, bytes("stale")).is_err());
}

#[test]
fn queue_coalesces_bytes_without_crossing_a_key_or_pane_boundary() {
    let mut state = editable();
    let a = state.target(PaneId(0)).unwrap();
    let b = state.target(PaneId(1)).unwrap();
    for text in ["one", "two"] {
        state.enqueue(a, bytes(text)).unwrap();
    }
    state.enqueue(a, enter()).unwrap();
    state.enqueue(b, bytes("three")).unwrap();
    assert_eq!(state.actions.len(), 3);
    assert!(matches!(&state.actions[0].action, Action::Bytes(bytes) if bytes == b"onetwo"));
    assert_eq!(state.actions[2].target, b);
    assert_eq!(state.action_bytes, 6 + 32 + 5);
}

#[test]
fn a_gui_batch_is_rejected_as_a_whole_when_it_would_overflow() {
    let mut state = editable();
    let target = state.target(PaneId(0)).unwrap();
    let actions = (0..=MAX_PENDING_ACTIONS).map(|_| (target, enter())).collect();
    assert!(state.submit_batch(actions).is_err());
    assert!(state.actions.is_empty());
    assert_eq!(state.action_bytes, 0);
}

#[test]
fn a_batch_with_one_bad_action_changes_nothing() {
    let mut state = editable();
    let target = state.target(PaneId(0)).unwrap();
    let stale = Target {
        generation: target.generation + 1,
        ..target
    };
    assert_eq!(
        state.submit_batch(vec![(target, bytes("ok")), (stale, bytes("no"))]),
        Err(Refused::Stale)
    );
    assert!(state.actions.is_empty());
    assert_eq!(
        state.submit_batch(vec![(target, Action::Key(Key::WheelUp, Modifiers::default()))]),
        Err(Refused::Invalid(input::Error::UnsupportedKey))
    );
    assert_eq!(
        state.submit_batch(vec![(target, Action::ClientSize(Size::default()))]),
        Err(Refused::ResizeDisabled)
    );
    state.io_wake = true;
    assert_eq!(
        state.submit_batch(vec![(target, bytes("a")), (target, bytes("b")), (target, enter())]),
        Ok(true)
    );
    assert_eq!(state.actions.len(), 2);
    assert_eq!(state.action_bytes, 2 + 32);
    let paste = Paste::new(&"x".repeat(65_536)).unwrap();
    let full = vec![
        (target, Action::Paste(paste.clone())),
        (target, Action::Paste(paste)),
    ];
    assert_eq!(state.submit_batch(full), Err(Refused::QueueFull));
}

#[test]
fn a_connection_replaces_what_went_on() {
    let mut state = editable();
    let target = state.target(PaneId(1)).unwrap();
    state.enqueue(target, enter()).unwrap();
    state.io_wake = true;
    assert_eq!(state.connect(connection(1001)), Err(Refused::HistoryTooLong));
    assert_eq!(state.actions.len(), 1);
    assert_eq!(state.connect(connection(1000)), Ok(true));
    assert_eq!(state.phase, Phase::Connecting);
    assert!(state.actions.is_empty());
    assert_eq!(state.target(PaneId(1)), None);
    let Taken::Run { epoch, request } = state.take_request() else {
        panic!("expected a request");
    };
    assert_eq!(epoch, 1);
    assert!(matches!(request, Request::Attach(_)));
    assert!(matches!(state.take_request(), Taken::Wait));
    state.stop();
    assert!(matches!(state.take_request(), Taken::Stop));
}

#[test]
fn a_host_is_asked_only_while_nothing_is_connected() {
    let mut state = State::default();
    assert_eq!(state.query(Request::ListSessions(connection(0))), Ok(()));
    assert!(matches!(state.discovery, Some(Discovery::Running)));
    assert_eq!(
        state.query(Request::CreateSession(connection(0), Size::default())),
        Err(Refused::Busy)
    );
    let mut busy = editable();
    assert_eq!(busy.query(Request::ListSessions(connection(0))), Err(Refused::Connected));
    assert!(state.answered(0, Err(Fault::message(&"e".repeat(2000)))));
    let Some(Discovery::Failed(shown)) = &state.discovery else {
        panic!("expected a failure");
    };
    assert_eq!(shown.len(), 1024);
    assert!(!state.answered(7, Ok(Discovery::Created("x".into()))));
    state.clear_discovery();
    assert!(state.discovery.is_none());
    assert!(state.begin_listing(0));
}

fn watched() -> State {
    let mut state = State::default();
    let identity = Identity {
        server: 1,
        session: SessionId(0),
        created: 5,
    };
    assert!(state.attached(0, demo_view(), Access::Interactive, None, continuity(None, identity)));
    state
}

#[test]
fn typing_goes_out_together_and_is_never_queued_again() {
    let mut state = watched();
    assert!(state.allow_resize);
    let a = state.target(PaneId(0)).unwrap();
    let b = state.target(PaneId(1)).unwrap();
    state.enqueue(a, bytes("ls")).unwrap();
    state.enqueue(a, enter()).unwrap();
    state.enqueue(b, bytes("x")).unwrap();
    assert_eq!(state.step(0), Step::Watch);
    let Work::Interact { target, actions } = state.take_work(0) else {
        panic!("expected a transaction");
    };
    assert_eq!((target.pane, target.left, actions.len()), (PaneId(0), 0, 2));
    let Work::Interact { target, actions } = state.take_work(0) else {
        panic!("expected a transaction");
    };
    assert_eq!((target.pane, target.left, actions.len()), (PaneId(1), 55, 1));
    assert!(matches!(state.take_work(0), Work::Idle));
    assert_eq!(state.action_bytes, 0);
    assert!(matches!(state.take_work(3), Work::Cancelled));
}

#[test]
fn a_layout_change_drops_what_waits_behind_it() {
    let mut state = watched();
    let a = state.target(PaneId(0)).unwrap();
    state.enqueue(a, Action::ZoomPane).unwrap();
    state.enqueue(a, bytes("later")).unwrap();
    let Work::Interact { actions, .. } = state.take_work(0) else {
        panic!("expected a transaction");
    };
    assert_eq!(actions.len(), 1);
    assert!(state.actions.is_empty());
    assert_eq!(
        state.error.as_deref(),
        Some("Layout changed; queued input was discarded, not replayed.")
    );
    assert_eq!(state.step(0), Step::Resynchronize);
    assert_eq!(state.phase, Phase::Resynchronizing);
    assert!(state.resynchronized(0, demo_view(), None));
    assert_eq!(state.generation, 2);
    assert_eq!(state.enqueue(a, bytes("stale")), Err(Refused::Stale));
}

#[test]
fn a_size_report_needs_consent() {
    let mut state = watched();
    let a = state.target(PaneId(0)).unwrap();
    state.enqueue(a, Action::ClientSize(Size::default())).unwrap();
    state.allow_remote_resize(false);
    assert!(matches!(state.take_work(0), Work::Dropped));
    state.allow_remote_resize(true);
    state.enqueue(a, Action::ClientSize(Size::default())).unwrap();
    assert!(matches!(state.take_work(0), Work::ClientSize(size) if size == Size::default()));
    state.client_size_set(0, Some(Duration::from_millis(3)));
    assert_eq!(state.last_rtt, Some(Duration::from_millis(3)));
}

fn update(status: Status, seq: u64) -> Update {
    Update {
        status,
        exit: None,
        seq,
    }
}

#[test]
fn a_blocked_action_is_reported_and_not_retried() {
    let mut state = watched();
    assert!(state.interacted(0, false, update(Status::Watching, 4), None));
    assert!(state.error.as_deref().unwrap().starts_with("tmux blocked this action"));
    assert_eq!(state.step(0), Step::Resynchronize);
    assert_eq!(state.heard(0, update(Status::Watching, 4)), Heard::Unchanged);
    assert_eq!(state.heard(0, update(Status::Watching, 5)), Heard::Changed);
    assert_eq!(state.heard(9, update(Status::Watching, 6)), Heard::Cancelled);
    assert!(!state.interacted(9, true, update(Status::Watching, 6), None));
}

#[test]
fn tmux_ending_the_session_ends_the_attachment() {
    let mut state = watched();
    state.heard(
        0,
        Update {
            status: Status::Disconnected,
            exit: Some(Some("server exited".into())),
            seq: 1,
        },
    );
    assert_eq!(state.step(0), Step::Ended(Failure::ServerExit));
    assert_eq!(state.step(1), Step::Cancelled);
}

#[test]
fn a_failure_is_published_with_its_retry() {
    let mut state = watched();
    state.enqueue(state.target(PaneId(0)).unwrap(), enter()).unwrap();
    let mut backoff = Backoff::new(1);
    let fault = Fault::ssh(Error::new(Kind::Transport, "gone"));
    let (failure, detail) = explain(Err(fault));
    assert_eq!((failure, detail.as_str()), (Failure::Transport, "gone"));
    let (attempt, delay) = plan_retry(failure, true, &mut backoff).unwrap();
    assert_eq!(attempt, 1);
    let now = Instant::now();
    let resume_at = now + delay;
    assert_eq!(state.report_failure(9, failure, &detail, None), None);
    assert_eq!(
        state.report_failure(0, failure, &detail, Some((attempt, resume_at))),
        Some(resume_at)
    );
    assert_eq!(state.phase, Phase::Reconnecting);
    assert!(state.actions.is_empty());
    assert_eq!(state.error.as_deref(), Some("The connection dropped. gone"));
    assert_eq!(state.view.as_ref().unwrap().status(), Status::Disconnected);
    let retry: Retry = state.retry.unwrap();
    assert_eq!(retry.remaining_at(now), delay);
    assert_eq!(retry.remaining_at(resume_at), Duration::ZERO);
    assert!(retry.remaining() <= delay);
    assert!(matches!(state.retry_wait(0, resume_at, now), Wait::Sleep(left) if left == delay));
    assert!(matches!(state.retry_wait(0, resume_at, resume_at), Wait::Due));
    assert!(matches!(state.retry_wait(1, resume_at, now), Wait::Superseded));
    assert_eq!(state.renew_epoch(0), Some(1));
    assert_eq!(state.phase, Phase::Connecting);
    assert!(state.retry.is_none());
    assert_eq!(state.renew_epoch(0), None);
}

#[test]
fn only_transport_loss_of_a_connection_that_asks_is_planned_again() {
    let mut backoff = Backoff::new(1);
    assert!(plan_retry(Failure::HostKey, true, &mut backoff).is_none());
    assert!(plan_retry(Failure::Transport, false, &mut backoff).is_none());
    assert_eq!(backoff.attempt(), 0);
    assert!(lists_sessions_after(Failure::MissingSession, false));
    assert!(!lists_sessions_after(Failure::MissingSession, true));
    assert!(!lists_sessions_after(Failure::Authentication, false));
    let (failure, detail) = explain(Ok(Failure::Detached));
    assert_eq!(detail, failure.summary());
    let mut state = watched();
    state.report_failure(0, failure, &detail, None);
    assert_eq!(state.phase, Phase::Disconnected);
    let mut state = watched();
    state.report_failure(0, Failure::Protocol, &"d".repeat(4000), None);
    assert_eq!(state.phase, Phase::Failed);
    assert_eq!(state.error.unwrap().len(), 2048);
}

#[test]
fn a_replaced_session_is_reported() {
    let lost = Identity {
        server: 10,
        session: SessionId(0),
        created: 1,
    };
    assert_eq!(continuity(Some(lost), lost), None);
    assert_eq!(continuity(None, lost), None);
    let other = Identity {
        session: SessionId(4),
        ..lost
    };
    assert_eq!(
        continuity(Some(lost), other).unwrap(),
        "Reattached to a different tmux session ($4 replaced $0). The earlier session and its scrollback are gone."
    );
    let restarted = Identity { server: 11, ..lost };
    assert!(continuity(Some(lost), restarted)
        .unwrap()
        .starts_with("The remote tmux server restarted."));
}

#[test]
fn seeds_differ_by_time_and_epoch() {
    assert_eq!(jitter_seed(0, 0), 1);
    assert_eq!(jitter_seed(1, 0), 0x9E37_79B9_7F4A_7C15 ^ 1);
    assert_eq!(
        jitter_seed(999_999_999, u64::MAX),
        999_999_999u64.wrapping_mul(0x9E37_79B9_7F4A_7C15)
    );
}

#[test]
fn phases_are_named_and_revisions_move_on() {
    assert_eq!(Phase::Watching.label(), "Connected");
    assert_eq!(Phase::Failed.label(), "Connection failed");
    let mut state = State::default();
    state.revision = u64::MAX;
    state.bump();
    assert_eq!(state.revision(), 0);
    assert_eq!(state.epoch(), 0);
}

#[test]
fn the_demo_shows_a_shell_and_a_log() {
    let shell = demo_output(PaneId(0), "0.2.0");
    assert!(shell.contains("test control framing              ... \x1b[32mok\x1b[0m\r\n"));
    assert!(shell.contains("starcom v0.2.0\r\n"));
    let log = demo_output(PaneId(1), "");
    assert!(log.contains(
        "\x1b[90m[12:01:15]\x1b[0m  worker  \x1b[32mready\x1b[0m  batch 075\r\n"
    ));
    let mut terminal = Terminal::new(Size::new(54, 27).unwrap(), 300);
    terminal.feed(shell.as_bytes());
    assert_eq!(terminal.screen_lines()[0], "Starcom  /  terminal workspace");
}

#[test]
fn a_machine_that_slept_lost_its_transport() {
    let (failure, detail) = explain(Err(slept()));
    assert_eq!(failure, Failure::Transport);
    assert!(detail.starts_with("the machine slept"));
}

#[test]
fn an_attachment_is_identified_before_it_is_published() {
    let identity = Identity {
        server: 10,
        session: SessionId(2),
        created: 1,
    };
    assert!(matches!(recognize(SessionId(2), identity, None), Ok(None)));
    let lost = Identity {
        session: SessionId(0),
        ..identity
    };
    assert!(matches!(recognize(SessionId(2), identity, Some(lost)), Ok(Some(_))));
    assert_eq!(
        recognize(SessionId(1), identity, None).unwrap_err().to_text(),
        "the attached session changed while identifying it"
    );
}

#[test]
fn notifications_move_a_view_on() {
    let view = demo_view();
    let mut update = Update::of(&view);
    let output = |pane| Notification::Output {
        pane: PaneId(pane),
        bytes: b"hi".to_vec(),
    };
    assert_eq!(update.apply(&view, output(1)), Some((PaneId(1), b"hi".to_vec())));
    assert_eq!(update.apply(&view, output(9)), None);
    assert_eq!((update.seq, update.status), (1, Status::Watching));
    assert_eq!(update.apply(&view, Notification::SessionsChanged), None);
    assert_eq!(update.status, Status::Watching);
    update.apply(&view, Notification::WindowAdd(WindowId(3)));
    assert_eq!(update.status, Status::NeedsResync);
    update.apply(&view, Notification::Exit(Some("detached".into())));
    update.apply(&view, Notification::Pause(PaneId(0)));
    assert_eq!(update.status, Status::Disconnected);
    assert_eq!(update.exit, Some(Some("detached".to_owned())));
}

#[test]
fn a_rename_belongs_to_its_connection() {
    let name = || SessionName::new("other").unwrap();
    assert!(State::default().rename(name()).is_none());
    let mut state = watched();
    let renaming = state.rename(name()).unwrap();
    assert!(state.may_rename(0, &renaming));
    assert!(state.rename_finished(0, Err(Fault::message(&"e".repeat(3000)))));
    assert_eq!(state.error.as_ref().unwrap().len(), 2048);
    assert!(state.rename_finished(0, Ok(update(Status::Watching, 8))));
    assert_eq!(state.view.as_ref().unwrap().display_seq(), 8);
    state.cancel();
    assert!(!state.may_rename(1, &renaming));
    assert!(!state.rename_finished(0, Ok(update(Status::Watching, 9))));
}
