use std::time::Duration;

use starcom::desktop::MAX_TRANSACTION_ACTIONS;
use starcom::exchange::{
    after_read, after_wait, batch_wire, before_read, check_events, polled, rename_keeps_stream,
    AfterRead, Exchange, ExchangeError, Gate, Incoming, Inspector, Notification, ReadOutcome,
    ReadPurpose, SendStep, Sender, WriteOutcome,
};
use starcom::fault::{Fault, IoKind};
use starcom::ids::{PaneId, SessionId, WindowId};
use starcom::input::{Action, Axis, Key, Modifiers, Paste, Resize, Target};
use starcom::inspect::{
    attach_command, attach_command_with_access, identity_query, parse_identity, parse_info,
    parse_info_with_access, parse_panes, AttachError, IdentityError, InfoError, ObserveError,
    Observer, PaneError,
};
use starcom::interact::{
    alias_request, check_aliases, check_client, check_hooks, client_request, hook_queries,
    interaction_outcome, opaque, EnableError, Enabled, Enabling, InteractError, OutcomeError,
    Permit,
};
use starcom::model::{SessionName, Size};
use starcom::reconnect::{classify, Failure};
use starcom::snapshot::{Access, PaneState, SessionView};
use starcom::ssh::{Error, Kind};

fn lines(lines: &[&str]) -> Vec<String> {
    lines.iter().map(|line| line.to_string()).collect()
}

#[test]
fn attachment_does_not_create_resize_or_change_environment() {
    let session = SessionName::new("work's; $(false)").unwrap();
    assert_eq!(
        attach_command(&session, Some("/tmp/a'b")).unwrap(),
        "exec tmux -N -C -S '/tmp/a'\"'\"'b' attach-session -E -f read-only,ignore-size,no-output -t '=work'\"'\"'s; $(false)'"
    );
    assert_eq!(
        attach_command_with_access(&session, None, Access::Interactive).unwrap(),
        "exec tmux -N -C attach-session -E -f no-output -t '=work'\"'\"'s; $(false)'"
    );
    assert!(attach_command(&session, Some("x\nkill-server")).is_err());
}

#[test]
fn a_socket_path_is_checked() {
    let session = SessionName::new("w").unwrap();
    assert_eq!(attach_command(&session, Some("")), Err(AttachError::Socket));
    let long = "s".repeat(4097);
    assert_eq!(attach_command(&session, Some(&long)), Err(AttachError::Socket));
    assert!(attach_command(&session, Some(&long[1..])).is_ok());
    let (inspector, wire) = Inspector::attach(&session, None).unwrap();
    assert!(!inspector.answered && inspector.input_buffer_prefix.is_none());
    assert!(wire.ends_with("-t '=w'"));
}

#[test]
fn client_capabilities_are_checked_not_assumed() {
    let info = |line: &str| parse_info(&lines(&[line]));
    assert!(info("3.3a|$0|1|1|control-mode,read-only,ignore-size,no-output|").is_ok());
    assert!(info("3.3a|$0|1|0|ignore-size,no-output|").is_err());
    assert!(info("3.3a|$0|1|1|ignore-size|").is_err());
    assert!(info("3.3a|$0|1|1|ignore-size,no-output|/dev/pts/0").is_err());
    let interactive = |line: &str| parse_info_with_access(&lines(&[line]), Access::Interactive);
    assert!(interactive("3.3a|$0|1|0|control-mode,no-output|").is_ok());
    assert!(interactive("3.3a|$0|1|0|control-mode,ignore-size,no-output|").is_err());
}

#[test]
fn client_metadata_is_refused_for_its_own_reason() {
    let info = |line: &str| parse_info(&lines(&[line]));
    assert_eq!(
        info("3.3a|$12|1|1|ignore-size,no-output|").unwrap(),
        ("3.3a".to_owned(), SessionId(12))
    );
    assert_eq!(parse_info(&lines(&[])), Err(InfoError::Lines));
    assert_eq!(info("3.3a|$0|1|1|no-output"), Err(InfoError::Metadata));
    assert_eq!(info("|$0|1|1|ignore-size,no-output|"), Err(InfoError::Metadata));
    assert_eq!(info("3|$0|0|1|ignore-size,no-output|"), Err(InfoError::Access));
    assert_eq!(info("3|$0|1|1|ignore-size,no-outputs|"), Err(InfoError::Flags));
    assert_eq!(info("3|0|1|1|ignore-size,no-output|"), Err(InfoError::SessionId));
    assert_eq!(info("3|$x|1|1|ignore-size,no-output|"), Err(InfoError::SessionNumber));
}

#[test]
fn metadata_is_validated_before_allocation() {
    let valid = "%0 @1 80 24 0 0 80 23 1 0 2000";
    let panes = parse_panes(&lines(&[valid])).unwrap();
    assert!(panes[0].alternate_screen);
    assert_eq!(panes[0].size, Size::default());
    assert!(parse_panes(&lines(&[valid, valid])).is_err());
    for line in [
        "%0 @0 999999 999999 0 0 0 0 0 0 0",
        "%0 @0 80 24 0 0 0 0 2 0 0",
        "pane @0 80 24 0 0 0 0 0 0 0",
    ] {
        assert!(parse_panes(&lines(&[line])).is_err());
    }
    let clamped = parse_panes(&lines(&["%0 @0 80 24 0 0 120 40 1 0 2000"])).unwrap();
    assert_eq!(clamped[0].cursor_x, 80);
    assert_eq!(clamped[0].cursor_y, 23);
}

#[test]
fn panes_come_sorted_and_bad_lines_are_named() {
    let panes = parse_panes(&lines(&[
        "%9 @0 80 24 0 0 0 0 0 0 0",
        "%2 @1 80 24 0 0 0 0 0 0 0",
        "  %5\t@0  80 24 1 2 3 4 0 5 6 ",
    ]))
    .unwrap();
    let ids: Vec<_> = panes.iter().map(|pane| pane.id.0).collect();
    assert_eq!(ids, [2, 5, 9]);
    assert_eq!((panes[1].left, panes[1].top, panes[1].history_limit), (1, 2, 6));
    let refused = |line: &str| parse_panes(&lines(&[line])).unwrap_err();
    assert_eq!(parse_panes(&Vec::new()), Err(PaneError::Count));
    assert_eq!(
        parse_panes(&vec!["%0 @0 80 24 0 0 0 0 0 0 0".to_owned(); 129]),
        Err(PaneError::Count)
    );
    assert_eq!(refused("%0 @0 80 24"), PaneError::Metadata);
    assert_eq!(refused("0 @0 80 24 0 0 0 0 0 0 0"), PaneError::PaneId);
    assert_eq!(refused("%0 0 80 24 0 0 0 0 0 0 0"), PaneError::WindowId);
    assert_eq!(refused("%x @0 80 24 0 0 0 0 0 0 0"), PaneError::Number);
    assert_eq!(refused("%0 @0 0 24 0 0 0 0 0 0 0"), PaneError::Size);
    assert_eq!(refused("%0 @0 80 24 0 0 0 0 x 0 0"), PaneError::AlternateScreen);
    assert_eq!(refused("%0 @0 80 24 65536 0 0 0 0 0 0"), PaneError::Position);
    assert_eq!(refused("%0 @0 80 24 0 0 0 0 0 0 -1"), PaneError::Number);
    let twice = lines(&["%1 @0 80 24 0 0 0 0 0 0 0", "%01 @0 80 24 0 0 0 0 0 0 0"]);
    assert_eq!(parse_panes(&twice), Err(PaneError::DuplicatePane));
}

#[test]
fn an_identity_is_server_session_and_birth() {
    let identity = parse_identity(&lines(&["77|$3|1700000000"])).unwrap();
    assert_eq!((identity.server, identity.session, identity.created), (77, SessionId(3), 1700000000));
    let refused = |line: &str| parse_identity(&lines(&[line])).unwrap_err();
    assert_eq!(refused("77|$3"), IdentityError::Reply);
    assert_eq!(refused("x|$3|1"), IdentityError::Server);
    assert_eq!(refused("7|3|1"), IdentityError::SessionId);
    assert_eq!(refused("7|$|1"), IdentityError::SessionNumber);
    assert_eq!(refused("7|$3|x"), IdentityError::Created);
    assert_eq!(parse_identity(&Vec::new()), Err(IdentityError::Reply));
    assert!(identity_query().ends_with('\n'));
}

#[test]
fn an_observation_asks_for_everything_once() {
    assert!(matches!(Observer::new(1001), Err(ObserveError::History)));
    let mut observer = Observer::new(200).unwrap();
    assert!(observer.request().unwrap().starts_with("display-message -p '#{version}|"));
    assert!(observer.reply(lines(&["bad"])).is_err());
    observer.reply(lines(&["3.3a|$0|1|1|ignore-size,no-output|"])).unwrap();
    assert!(observer.request().unwrap().starts_with("list-panes -s -F '#{pane_id} "));
    let panes = lines(&["%4 @0 80 24 0 0 0 0 0 0 9", "%2 @0 80 24 0 0 0 0 0 0 9"]);
    observer.reply(panes.clone()).unwrap();
    assert_eq!(observer.request().unwrap(), "capture-pane -p -C -t %2 -S -200 -E -\n");
    observer.reply(lines(&["two"])).unwrap();
    assert_eq!(observer.request().unwrap(), "capture-pane -p -C -t %4 -S -200 -E -\n");
    assert_eq!(
        observer.reply(vec!["x".repeat(8 * 1024 * 1024)]),
        Err(ObserveError::TooLarge)
    );
    observer.reply(lines(&["four"])).unwrap();
    assert!(observer.request().unwrap().starts_with("list-panes"));
    observer.reply(panes).unwrap();
    assert!(observer.request().is_none());
    let observation = observer.finish("SHA256:x".to_owned());
    assert_eq!(observation.captures[1].escaped_rows, ["four"]);
    assert_eq!(observation.captures[0].pane.id, PaneId(2));
    assert!(!observation.metadata_changed_during_capture);
}

#[test]
fn a_batch_is_one_bounded_line() {
    assert_eq!(batch_wire(&lines(&["a\n", "b c"])).unwrap(), "a ; b c\n");
    assert!(matches!(batch_wire(&Vec::new()), Err(ExchangeError::CommandCount)));
    assert!(matches!(batch_wire(&vec!["a".into(); 257]), Err(ExchangeError::CommandCount)));
    for bad in ["", "\n", "a\nb", "a\rb", "a\0b"] {
        assert!(matches!(batch_wire(&lines(&["ok", bad])), Err(ExchangeError::InvalidCommand)));
    }
    let long = "x".repeat(4097);
    assert!(matches!(batch_wire(&vec![long]), Err(ExchangeError::InvalidCommand)));
    let many = vec!["x".repeat(4096); 128];
    assert!(matches!(batch_wire(&many), Err(ExchangeError::BatchTooLong)));
}

#[test]
fn a_line_is_written_once_and_in_order() {
    assert!(matches!(Sender::new("x", 0), Err(ExchangeError::ReplyCount)));
    let mut sender = Sender::new("héllo\n", 1).unwrap();
    assert_eq!(sender.next(false), SendStep::Write);
    assert_eq!(sender.next(true), SendStep::Expired);
    assert!(!sender.wrote(WriteOutcome::Wrote(3)).unwrap());
    assert_eq!(&sender.wire[sender.sent..], b"llo\n");
    assert!(sender.wrote(WriteOutcome::WouldBlock).unwrap());
    assert!(!sender.wrote(WriteOutcome::Interrupted).unwrap());
    assert!(matches!(
        sender.wrote(WriteOutcome::Wrote(0)),
        Err(ExchangeError::WriteClosed)
    ));
    assert!(!sender.wrote(WriteOutcome::Wrote(4)).unwrap());
    assert_eq!(sender.next(true), SendStep::Done);
    let lost = Fault::io(IoKind::BrokenPipe, "gone");
    let error = sender.wrote(WriteOutcome::Failed(lost)).unwrap_err().into_fault();
    assert_eq!(error.to_text(), "tmux write failed; delivery is uncertain: gone");
    assert_eq!(classify(&error), Failure::Transport);
}

fn inspector() -> Inspector {
    Inspector::attach(&SessionName::new("w").unwrap(), None).unwrap().0
}

fn reply(id: u64, text: &str) -> Incoming {
    Incoming::Reply {
        id,
        result: Ok(lines(&[text])),
    }
}

#[test]
fn replies_are_matched_in_order() {
    let mut inspector = inspector();
    let mut exchange = Exchange::new(vec![4, 5]);
    let output = || Incoming::Notification(Notification::SessionsChanged);
    assert!(!exchange.take(&mut inspector, vec![output(), reply(4, "a"), output()], 10).unwrap());
    assert!(inspector.answered);
    assert!(exchange.take(&mut inspector, vec![reply(5, "b")], 10).unwrap());
    let batch = exchange.finish(&mut inspector, Duration::from_millis(7));
    assert_eq!(batch.replies, [["a"], ["b"]]);
    let places: Vec<_> = batch.notifications.iter().map(|(place, _)| *place).collect();
    assert_eq!(places, [0, 1]);
    assert_eq!(inspector.last_rtt, Some(Duration::from_millis(7)));
}

#[test]
fn an_exchange_ends_with_its_reason() {
    let exit = || Incoming::Notification(Notification::Exit(Some("bye".into())));
    let fault = |events| {
        let mut inspector = inspector();
        Exchange::new(vec![1])
            .take(&mut inspector, events, 1)
            .unwrap_err()
            .into_fault()
            .to_text()
    };
    assert_eq!(
        fault(vec![exit()]),
        "tmux could not attach that session; it may not exist on this server"
    );
    assert_eq!(fault(vec![reply(1, "x"), exit()]), "tmux attachment ended (Some(\"bye\"))");
    assert_eq!(fault(vec![reply(2, "x")]), "unexpected command reply");
    let rejected = Incoming::Reply {
        id: 1,
        result: Err("no".into()),
    };
    assert_eq!(fault(vec![rejected]), "tmux rejected request: no");
    let mut inspector = inspector();
    let mut exchange = Exchange::new(vec![1]);
    assert!(matches!(
        exchange.take(&mut inspector, Vec::new(), 8 * 1024 * 1024 + 1),
        Err(ExchangeError::OverBudget)
    ));
    assert!(matches!(
        exchange.take(&mut inspector, Vec::new(), usize::MAX),
        Err(ExchangeError::BudgetOverflow)
    ));
    let never = ExchangeError::NeverAttached.into_fault();
    assert_eq!(classify(&never), Failure::MissingSession);
}

#[test]
fn reading_keeps_replies_and_idle_listening_apart() {
    assert!(matches!(
        before_read(ReadPurpose::Reply, true, false),
        Gate::Fail(ExchangeError::ReplyExpired)
    ));
    assert!(matches!(before_read(ReadPurpose::Poll, true, false), Gate::Idle));
    assert!(matches!(before_read(ReadPurpose::Poll, false, true), Gate::Idle));
    assert!(matches!(before_read(ReadPurpose::Reply, false, true), Gate::Read));
    assert!(matches!(after_read(1, true), AfterRead::Deliver));
    assert!(matches!(after_read(0, false), AfterRead::Wait));
    assert!(matches!(after_read(0, true), AfterRead::Fail(ExchangeError::ChannelEnded)));
    let late = || Error::timeout("late");
    assert!(matches!(after_wait(ReadPurpose::Poll, late()), Gate::Idle));
    let Gate::Fail(error) = after_wait(ReadPurpose::Reply, late()) else {
        panic!("expected a failure");
    };
    assert_eq!(classify(&error.into_fault()), Failure::Transport);
    let ended = ExchangeError::ChannelEnded.into_fault();
    assert_eq!(classify(&ended), Failure::Transport);
}

#[test]
fn complaints_are_kept_within_their_bound() {
    let mut inspector = inspector();
    assert_eq!(inspector.take_stderr(ReadOutcome::Read(b"oh \"no\"".to_vec())).unwrap(), 7);
    assert_eq!(inspector.take_stderr(ReadOutcome::WouldBlock).unwrap(), 0);
    let error = inspector.batch_failed(Fault::message("boom"));
    assert_eq!(
        error.to_text(),
        "tmux request failed; remote stderr: \"oh \\\"no\\\"\": boom"
    );
    let mut garbled = self::inspector();
    garbled.take_stderr(ReadOutcome::Read(vec![b'a', 0xff])).unwrap();
    assert_eq!(
        garbled.batch_failed(Fault::message("boom")).to_text(),
        "tmux request failed; remote stderr: \"a\u{fffd}\": boom"
    );
    assert!(matches!(
        inspector.take_stderr(ReadOutcome::Read(vec![b'x'; 65_536])),
        Err(ExchangeError::TooMuchStderr)
    ));
    assert_eq!(inspector.stderr.len(), 7);
    let failed = ReadOutcome::Failed(Fault::io(IoKind::ConnectionReset, "reset"));
    let error = inspector.take_stderr(failed).unwrap_err().into_fault();
    assert_eq!(error.to_text(), "read SSH stderr: reset");
}

#[test]
fn only_marked_lines_may_be_unknown() {
    let unknown = |line: &str| vec![Incoming::Notification(Notification::Unknown(line.into()))];
    assert!(check_events(&unknown("%future x")).is_ok());
    assert!(matches!(
        check_events(&unknown("shell noise")),
        Err(ExchangeError::UnexpectedStdout)
    ));
    assert!(check_events(&unknown("")).is_err());
    assert_eq!(polled(unknown("%a")).unwrap().len(), 1);
    assert!(matches!(polled(vec![reply(1, "x")]), Err(ExchangeError::UnsolicitedReply)));
    let rejected = ExchangeError::Rejected("duplicate".into()).into_fault();
    assert!(rename_keeps_stream(&rejected));
    assert!(!rename_keeps_stream(&rejected.context("lost")));
}

#[test]
fn aliases_and_hooks_must_leave_transactions_alone() {
    assert!(check_aliases(&lines(&["split-pane=split-window", "info=x", "send-keys"])).is_ok());
    assert!(matches!(
        check_aliases(&lines(&["send-keys=run-shell"])),
        Err(EnableError::Alias)
    ));
    let hooks = |line: &str| check_hooks(&vec![lines(&["session-created x"]), lines(&[line])]);
    assert!(hooks("after-send-keys").is_ok());
    assert!(hooks("after-new-window run").is_ok());
    assert!(hooks("").is_ok());
    for line in ["after-send-keys[0] run-shell x", "after-if-shell x", " after-kill-pane"] {
        assert!(matches!(hooks(line), Err(EnableError::Hook(_))), "{line:?}");
    }
}

fn pane_state(id: u32, window: u32) -> PaneState {
    PaneState {
        id: PaneId(id),
        window: WindowId(window),
        size: Size::default(),
        left: 0,
        top: 0,
    }
}

#[test]
fn every_hook_of_the_session_is_asked_for_once() {
    let panes = vec![pane_state(7, 2), pane_state(3, 1), pane_state(5, 2)];
    let view = SessionView::new(SessionId(6), panes);
    assert_eq!(
        hook_queries(&view),
        [
            "show-hooks -g",
            "show-hooks -gw",
            "show-hooks -t '$6'",
            "show-hooks -w -t @1",
            "show-hooks -w -t @2",
            "show-hooks -p -t %3",
            "show-hooks -p -t %5",
            "show-hooks -p -t %7",
        ]
    );
}

#[test]
fn a_client_must_be_able_to_type() {
    let client = |line: &str| check_client(&lines(&[line]));
    assert_eq!(client("1|0|control-mode||4242").unwrap(), 4242);
    assert!(matches!(client("1|0||1"), Err(EnableError::Metadata)));
    assert!(matches!(check_client(&Vec::new()), Err(EnableError::Metadata)));
    assert!(matches!(client("0|0|||1"), Err(EnableError::NotControlMode)));
    assert!(matches!(client("1|1|||1"), Err(EnableError::ReadOnly)));
    assert!(matches!(client("1|0|ignore-size||1"), Err(EnableError::IgnoresSize)));
    assert!(matches!(client("1|0||/dev/pts/1|1"), Err(EnableError::Terminal)));
    assert!(matches!(client("1|0|||x"), Err(EnableError::ProcessId)));
}

fn one_pane() -> SessionView {
    SessionView::new(SessionId(6), vec![pane_state(3, 1)])
}

/// Answers each check before input as a plain tmux does.
fn permit(pid: u32, stamp: u128) -> Permit {
    let mut enabling = Enabling::new(&one_pane());
    let answers = [
        vec![lines(&["split-pane=split-window"])],
        vec![lines(&[]); 5],
        vec![vec![format!("1|0|control-mode||{pid}")]],
    ];
    for answer in answers {
        assert_eq!(enabling.request().len(), answer.len());
        match enabling.reply(answer, stamp) {
            Ok(Enabled::More(next)) => enabling = next,
            Ok(Enabled::Done(permit)) => return permit,
            Err(error) => panic!("{error:?}"),
        }
    }
    panic!("no permit");
}

#[test]
fn input_stays_off_until_every_check_is_passed() {
    let more = |enabling: Enabling, answer| match enabling.reply(answer, 0) {
        Ok(Enabled::More(next)) => next,
        _ => panic!("expected another check"),
    };
    let start = || Enabling::new(&one_pane());
    assert_eq!(start().request(), [alias_request()]);
    assert!(matches!(
        start().reply(vec![lines(&["if-shell=x"])], 0),
        Err(EnableError::Alias)
    ));
    let hooks = || more(start(), vec![lines(&[])]);
    assert_eq!(hooks().request(), hook_queries(&one_pane()));
    let mut blocked = vec![lines(&[]); 5];
    blocked[4] = lines(&["after-send-keys[0] run-shell x"]);
    assert!(matches!(
        hooks().reply(blocked, 0),
        Err(EnableError::Hook(hook)) if hook == "after-send-keys"
    ));
    let client = || more(hooks(), vec![lines(&[]); 5]);
    assert_eq!(client().request(), [client_request()]);
    assert!(matches!(
        client().reply(vec![lines(&["1|1|||7"])], 0),
        Err(EnableError::ReadOnly)
    ));
    assert!(matches!(
        client().reply(vec![lines(&["1|0|||7"])], 0),
        Ok(Enabled::Done(_))
    ));
}

fn target() -> Target {
    Target {
        session: SessionId(0),
        pane: PaneId(1),
        window: WindowId(2),
        size: Size::default(),
        left: 0,
        top: 0,
    }
}

#[test]
fn actions_reach_a_pane_in_one_guarded_transaction() {
    let mut inspector = inspector();
    let typed = || Action::Bytes(b"hi".to_vec());
    assert_eq!(
        inspector.interact(target(), &vec![typed()]).err(),
        Some(InteractError::ReadOnly)
    );
    inspector.enable(permit(31, 0xabc));
    let prefix = inspector.input_buffer_prefix.as_ref().unwrap().prefix();
    assert_eq!(prefix, "starcom-31-abc");
    let transaction = inspector
        .interact(target(), &vec![typed(), Action::Key(Key::Enter, Modifiers::default())])
        .unwrap();
    assert_eq!(
        transaction.wire,
        format!(
            "if-shell -F -t %1 '{}' {{ send-keys -t %1 -H 68 69 ; send-keys -t %1 Enter ; \
             display-message -p STARCOM-APPLIED }} {{ display-message -p '' ; \
             display-message -p '' ; display-message -p STARCOM-BLOCKED }}\n",
            target().guard(false)
        )
    );
    assert_eq!(transaction.replies, 4);
    let paste = Action::Paste(Paste::new(&"é".repeat(300)).unwrap());
    let transaction = inspector.interact(target(), &vec![paste]).unwrap();
    assert_eq!(transaction.replies, 5);
    assert!(transaction.wire.contains("set-buffer -b starcom-31-abc-2 \"\\303\\251"));
    let resize = Action::Resize(Resize {
        axis: Axis::Columns,
        cells: 9,
    });
    let transaction = inspector.interact(target(), &vec![resize]).unwrap();
    assert!(transaction.wire.contains("window_zoomed_flag"));
    assert!(transaction.wire.contains("{ resize-pane -t %1 -x 9 ; "));
    assert_eq!(inspector.input_sequence, 3);
}

#[test]
fn everything_but_typing_stands_alone() {
    let mut inspector = inspector();
    inspector.enable(permit(1, 1));
    let mut refused = |actions: Vec<Action>| inspector.interact(target(), &actions).err();
    let typed = || Action::Bytes(b"x".to_vec());
    assert_eq!(refused(Vec::new()), Some(InteractError::BatchSize));
    let many = (0..=MAX_TRANSACTION_ACTIONS).map(|_| typed()).collect();
    assert_eq!(refused(many), Some(InteractError::BatchSize));
    for (action, error) in [
        (Action::Split(Axis::Rows), InteractError::SplitAlone),
        (Action::KillPane, InteractError::KillAlone),
        (Action::ZoomPane, InteractError::ZoomAlone),
        (Action::SelectPane, InteractError::SelectAlone),
        (Action::SwapPane(PaneId(9)), InteractError::SwapAlone),
        (Action::Paste(Paste::new("p").unwrap()), InteractError::PasteAlone),
        (
            Action::Resize(Resize {
                axis: Axis::Rows,
                cells: 1,
            }),
            InteractError::ResizeAlone,
        ),
    ] {
        assert_eq!(refused(vec![typed(), action]), Some(error));
    }
    assert_eq!(refused(vec![Action::SwapPane(PaneId(1))]), Some(InteractError::SwapSelf));
    assert_eq!(
        refused(vec![Action::ClientSize(Size::default())]),
        Some(InteractError::ClientSize)
    );
    assert_eq!(InteractError::SwapSelf.to_text(), "cannot swap a pane with itself");
    inspector.input_sequence = u64::MAX;
    assert_eq!(
        inspector.interact(target(), &vec![typed()]).err(),
        Some(InteractError::SequenceExhausted)
    );
}

#[test]
fn a_failed_transaction_hides_what_was_typed() {
    let lost = Fault::ssh(Error::new(Kind::Timeout, "late")).context("send-keys secret");
    let hidden = opaque(&lost);
    assert_eq!(classify(&hidden), Failure::Transport);
    assert!(!hidden.to_text().contains("secret"));
    let refused = Fault::message("tmux rejected request: secret; no such session");
    assert_eq!(classify(&opaque(&refused)), Failure::Protocol);
}

#[test]
fn a_transaction_says_whether_it_was_applied() {
    let outcome = |last: &[&str]| interaction_outcome(&vec![lines(&["x"]), lines(last)]);
    assert_eq!(outcome(&["STARCOM-APPLIED"]), Ok(true));
    assert_eq!(outcome(&["STARCOM-BLOCKED"]), Ok(false));
    assert_eq!(outcome(&["STARCOM"]), Err(OutcomeError::Invalid));
    assert_eq!(outcome(&[]), Err(OutcomeError::Invalid));
    assert_eq!(interaction_outcome(&Vec::new()), Err(OutcomeError::Missing));
}
