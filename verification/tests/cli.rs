use starcom::cli::{
    parse, parse_inspect, replay_total, CliError, Command, InspectError, Opt, MAX_REPLAY_BYTES,
};
use starcom::desktop::Startup;
use starcom::model::Size;
use starcom::window::{row_stride, unpadded, Redraw, Rest, Schedule, Wake};

fn args(args: &[&str]) -> Vec<Option<String>> {
    args.iter().map(|arg| Some(arg.to_string())).collect()
}

#[test]
fn the_desktop_opens_a_form_or_the_demo() {
    assert!(matches!(parse(&args(&[])), Ok(Command::Desktop(Startup::ConnectionForm))));
    assert!(matches!(parse(&args(&["--demo"])), Ok(Command::Desktop(Startup::Demo))));
    assert!(matches!(parse(&args(&["--demo", "-h", "x"])), Ok(Command::Help)));
    assert!(matches!(parse(&args(&["--version"])), Ok(Command::Version)));
    assert!(matches!(
        parse(&args(&["--snapshot", "a.png", "--demo"])),
        Ok(Command::Snapshot(1))
    ));
}

#[test]
fn a_recording_is_replayed_at_a_size() {
    let Ok(Command::Replay { file, size }) = parse(&args(&["--size", "100x30", "--replay", "-"]))
    else {
        panic!("expected a replay");
    };
    assert_eq!((file, size), (3, Size::new(100, 30).unwrap()));
    let Ok(Command::Replay { size, .. }) = parse(&vec![Some("--replay".into()), None]) else {
        panic!("expected a replay");
    };
    assert_eq!(size, Size::default());
    assert_eq!(replay_total(MAX_REPLAY_BYTES - 1, 1), Some(MAX_REPLAY_BYTES));
    assert_eq!(replay_total(MAX_REPLAY_BYTES, 1), None);
}

#[test]
fn a_command_line_is_refused_for_its_own_reason() {
    let refused = |line: &[&str]| parse(&args(line)).err();
    assert_eq!(refused(&["--demo", "--demo"]), Some(CliError::Twice(1)));
    assert_eq!(refused(&["--replay"]), Some(CliError::NeedsValue(0)));
    assert_eq!(refused(&["--snapshot", "a", "--snapshot"]), Some(CliError::Twice(2)));
    assert_eq!(refused(&["--size", "80"]), Some(CliError::SizeShape));
    assert_eq!(refused(&["--size", "80x24x1"]), Some(CliError::SizeNumber));
    assert_eq!(refused(&["--size", "80x0"]), Some(CliError::SizeRange));
    assert_eq!(parse(&vec![Some("--size".into()), None]).err(), Some(CliError::SizeText));
    assert_eq!(refused(&["what"]), Some(CliError::Unrecognized(0)));
    assert_eq!(parse(&vec![None]).err(), Some(CliError::Unrecognized(0)));
    assert_eq!(
        refused(&["--replay", "f", "--demo"]),
        Some(CliError::ReplayWithDesktop)
    );
    assert_eq!(refused(&["--size", "80x24"]), Some(CliError::SizeWithoutReplay));
    assert_eq!(refused(&["--snapshot", "a"]), Some(CliError::SnapshotWithoutDemo));
}

const BASE: [&str; 9] = [
    "--host", "h", "--user", "u", "--session", "s", "--known-hosts", "k", "--agent",
];

fn inspect(more: &[&str]) -> Result<Option<starcom::cli::Inspection>, InspectError> {
    let mut line = args(&BASE);
    line.extend(args(more));
    parse_inspect(&line)
}

#[test]
fn the_inspector_has_defaults() {
    let order = inspect(&[]).unwrap().unwrap();
    assert_eq!((order.host.as_str(), order.user.as_str()), ("h", "u"));
    assert_eq!(order.session.as_str(), "s");
    assert_eq!((order.port, order.history, order.timeout_secs), (22, 200, 10));
    assert_eq!((order.known_hosts, order.watch_secs, order.socket), (7, None, None));
    let order = inspect(&[
        "--identity", "a", "--port", "2222", "--identity", "b", "--history", "1000", "--watch",
        "3600", "--socket", "/s", "--timeout", "5",
    ])
    .unwrap()
    .unwrap();
    assert_eq!(order.identities, [10, 14]);
    assert_eq!((order.port, order.history, order.timeout_secs), (2222, 1000, 5));
    assert_eq!((order.watch_secs, order.socket.as_deref()), (Some(3600), Some("/s")));
    assert!(matches!(parse_inspect(&Vec::new()), Ok(None)));
    assert!(matches!(inspect(&["--help"]), Ok(None)));
}

#[test]
fn the_inspector_refuses_for_its_own_reason() {
    let refused = |more: &[&str]| inspect(more).err();
    assert_eq!(refused(&["--agent"]), Some(InspectError::Twice(9)));
    assert_eq!(refused(&["--host", "x"]), Some(InspectError::Twice(9)));
    assert_eq!(refused(&["--port"]), Some(InspectError::NeedsValue(9)));
    assert_eq!(refused(&["--what"]), Some(InspectError::Unrecognized(9)));
    assert_eq!(refused(&["--port", "65536"]), Some(InspectError::InvalidNumber(Opt::Port)));
    assert_eq!(refused(&["--history", "1001"]), Some(InspectError::HistoryTooLong));
    assert_eq!(refused(&["--watch", "0"]), Some(InspectError::WatchRange));
    assert_eq!(refused(&["--watch", "3601"]), Some(InspectError::WatchRange));
    assert_eq!(parse_inspect(&vec![None]).err(), Some(InspectError::NotUtf8(0)));
    let lone = |line: &[&str]| parse_inspect(&args(line)).err();
    assert_eq!(lone(&["--agent"]), Some(InspectError::Required(Opt::Host)));
    assert_eq!(lone(&["--host", "h"]), Some(InspectError::Required(Opt::User)));
    assert_eq!(lone(&BASE[..8]), Some(InspectError::NoAuthentication));
    assert_eq!(lone(&BASE[..6]), Some(InspectError::Required(Opt::KnownHosts)));
    let mut line = args(&BASE);
    line[5] = Some("a\nb".into());
    assert_eq!(parse_inspect(&line).err(), Some(InspectError::SessionName));
    line[1] = None;
    assert_eq!(parse_inspect(&line).err(), Some(InspectError::ValueNotUtf8(Opt::Host)));
}

#[test]
fn remote_output_waits_for_its_interval_and_local_events_do_not() {
    let mut schedule = Schedule::new();
    assert_eq!(schedule.redraw(10, 100), Redraw::Paint);
    schedule.painted(10);
    schedule.remote(20, 100);
    assert_eq!(schedule.next, Some(Wake { when: 110, force: false }));
    assert_eq!(schedule.redraw(50, 100), Redraw::Later);
    schedule.request();
    assert_eq!(schedule.redraw(50, 100), Redraw::Paint);
    assert_eq!(schedule.rest(60), Rest::Until(110));
    schedule.schedule(70, true);
    assert_eq!(schedule.rest(70), Rest::Redraw);
    assert!(schedule.input_redraw);
    assert_eq!(schedule.rest(71), Rest::Wait);
    schedule.remote(500, 100);
    assert_eq!(schedule.next, Some(Wake { when: 500, force: false }));
    schedule.input_redraw = false;
    assert_eq!(schedule.redraw(600, 100), Redraw::Paint);
    assert_eq!(schedule.next, None);
}

#[test]
fn a_picture_is_read_without_its_padding() {
    assert_eq!(row_stride(1280), 5120);
    assert_eq!(row_stride(1), 256);
    let mapped: Vec<u8> = (0..12).collect();
    assert_eq!(unpadded(&mapped, 4, 3, 3), [0, 1, 2, 4, 5, 6, 8, 9, 10]);
    assert!(unpadded(&mapped, 4, 0, 3).is_empty());
}
