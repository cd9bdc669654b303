use std::time::Duration;

use starcom::fault::{Fault, IoKind};
use starcom::reconnect::{
    classify, classify_exit, suspend_elapsed, AliveClock, Backoff, Failure, FIRST_DELAY_MS,
    MAX_DELAY_MS,
};
use starcom::ssh::{Error, Kind};

#[test]
fn only_transport_loss_is_retried_automatically() {
    assert!(Failure::Transport.retriable());
    for failure in [
        Failure::Authentication,
        Failure::HostKey,
        Failure::MissingSession,
        Failure::ServerExit,
        Failure::Detached,
        Failure::Configuration,
        Failure::Protocol,
    ] {
        assert!(!failure.retriable(), "{failure:?} must not auto-retry");
    }
}

#[test]
fn transport_errors_are_retriable_and_security_errors_are_not() {
    let cases = [
        (Kind::Transport, Failure::Transport),
        (Kind::Timeout, Failure::Transport),
        (Kind::Authentication, Failure::Authentication),
        (Kind::UnknownHostKey, Failure::HostKey),
        (Kind::ChangedHostKey, Failure::HostKey),
        (Kind::Configuration, Failure::Configuration),
    ];
    for (kind, expected) in cases {
        let error = Fault::ssh(Error::new(kind, "boom")).context("attach the control session");
        assert_eq!(classify(&error), expected, "{kind:?}");
    }
}

#[test]
fn remote_text_can_stop_a_retry_but_never_start_one() {
    // tmux refusing the session must not become an endless reattach loop.
    let error = Fault::ssh(Error::new(Kind::Transport, "SSH control channel ended"))
        .context("tmux request failed; remote stderr: \"can't find session: work\"");
    assert_eq!(classify(&error), Failure::MissingSession);

    // An explicit -S socket with no server behind it must not retry forever.
    let error = Fault::ssh(Error::new(Kind::Transport, "SSH control channel ended")).context(
        "tmux request failed; remote stderr: \"error connecting to /tmp/x.sock \
         (No such file or directory)\"",
    );
    assert_eq!(classify(&error), Failure::ServerExit);

    // Remote output claiming a transient fault cannot turn a host-key failure
    // into something that is retried.
    let error = Fault::ssh(Error::new(Kind::ChangedHostKey, "host key is not trusted"))
        .context("remote said: connection reset, please retry, no server running");
    assert_eq!(classify(&error), Failure::HostKey);

    // An attach that never attached is a missing session.
    let error = Fault::message("tmux could not attach that session; it may not exist on this server");
    assert_eq!(classify(&error), Failure::MissingSession);

    // An unrecognized failure is never retried.
    assert_eq!(classify(&Fault::message("something new and unexplained")), Failure::Protocol);
}

#[test]
fn a_channel_that_ended_is_transport_loss_at_any_layer() {
    for kind in [
        IoKind::BrokenPipe,
        IoKind::ConnectionReset,
        IoKind::ConnectionAborted,
        IoKind::NotConnected,
        IoKind::UnexpectedEof,
        IoKind::TimedOut,
    ] {
        let error = Fault::io(kind, "gone").context("tmux write failed; delivery is uncertain");
        assert_eq!(classify(&error), Failure::Transport, "{kind:?}");
    }
    // An SSH error nested inside an io error still decides the outcome.
    let nested = Fault::io_holding(Error::new(Kind::ChangedHostKey, "host key is not trusted"))
        .context("read SSH stdout");
    assert_eq!(classify(&nested), Failure::HostKey);
    // Ordinary io failures are not transport loss.
    assert_eq!(
        classify(&Fault::io(IoKind::PermissionDenied, "permission denied")),
        Failure::Protocol
    );
}

#[test]
fn tmux_exit_reasons_separate_detach_from_server_loss() {
    assert_eq!(classify_exit(None), Failure::Detached);
    assert_eq!(classify_exit(Some("detached")), Failure::Detached);
    assert_eq!(classify_exit(Some("server exited")), Failure::ServerExit);
    assert_eq!(classify_exit(Some("server exited unexpectedly")), Failure::ServerExit);
    assert_eq!(classify_exit(Some("session destroyed")), Failure::MissingSession);
}

#[test]
fn exit_reasons_are_read_in_either_case() {
    assert_eq!(classify_exit(Some("LOST SERVER")), Failure::ServerExit);
    assert_eq!(classify_exit(Some("No Such Session")), Failure::MissingSession);
    assert_eq!(classify_exit(Some("")), Failure::Detached);
}

#[test]
fn delays_grow_stay_bounded_and_are_jittered_per_connection() {
    let max_delay = Duration::from_millis(MAX_DELAY_MS);
    let mut backoff = Backoff::new(0x5eed);
    let mut previous = Duration::ZERO;
    for attempt in 1..=12 {
        let delay = backoff.next_delay();
        assert_eq!(backoff.attempt(), attempt);
        assert!(delay <= max_delay, "delay {delay:?} exceeds the ceiling");
        assert!(delay >= Duration::from_millis(1));
        if attempt <= 6 {
            assert!(
                delay >= previous,
                "attempt {attempt} did not back off: {delay:?} after {previous:?}"
            );
        }
        previous = delay;
    }
    // Late attempts sit at the ceiling rather than growing without bound.
    for _ in 0..8 {
        assert!(backoff.next_delay() <= max_delay);
    }
    // Two tabs failing at once must not line up on identical schedules.
    let mut a = Backoff::new(1);
    let mut b = Backoff::new(2);
    let left: Vec<_> = (0..6).map(|_| a.next_delay()).collect();
    let right: Vec<_> = (0..6).map(|_| b.next_delay()).collect();
    assert_ne!(left, right, "jitter must decorrelate connections");
    // The same seed reproduces the same schedule.
    let mut again = Backoff::new(1);
    assert_eq!(left, (0..6).map(|_| again.next_delay()).collect::<Vec<_>>());
}

#[test]
fn the_first_delay_of_a_seed_is_exact() {
    // Seed 1: the generator steps to 0x40822041, and the base delay is 500 ms.
    let x: u64 = 1;
    let a = x ^ (x << 13);
    let b = a ^ (a >> 7);
    let c = b ^ (b << 17);
    let expected = 500 - 125 + c % 251;
    assert_eq!(Backoff::new(1).next_delay(), Duration::from_millis(expected));
    assert_eq!(Backoff::new(0).next_delay(), Duration::from_millis(expected));
}

#[test]
fn a_reply_deadline_is_transport_loss_not_a_protocol_fault() {
    let error = Fault::ssh(Error::new(Kind::Timeout, "tmux reply deadline expired"));
    assert_eq!(classify(&error), Failure::Transport);
    let wrapped = Fault::ssh(Error::new(
        Kind::Timeout,
        "tmux write deadline expired; delivery is uncertain",
    ))
    .context("interactive request failed; delivery may be uncertain and was not retried");
    assert_eq!(classify(&wrapped), Failure::Transport);
    // The opaque interactive wrapper must not, by itself, become a retry.
    assert_eq!(
        classify(&Fault::message(
            "interactive request failed; delivery may be uncertain and was not retried"
        )),
        Failure::Protocol
    );
}

#[test]
fn wall_time_running_ahead_of_monotonic_is_a_suspend() {
    assert!(!suspend_elapsed(Duration::from_secs(30), Duration::from_secs(30)));
    assert!(!suspend_elapsed(Duration::from_secs(5), Duration::from_secs(6)));
    assert!(suspend_elapsed(Duration::from_millis(200), Duration::from_secs(60)));
    assert!(!AliveClock::now().suspended());
}

#[test]
fn the_slack_of_a_suspend_is_exact_and_never_overflows() {
    assert!(!suspend_elapsed(Duration::ZERO, Duration::from_secs(2)));
    assert!(suspend_elapsed(Duration::ZERO, Duration::from_nanos(2_000_000_001)));
    assert!(!suspend_elapsed(Duration::MAX, Duration::MAX));
}

#[test]
fn a_restored_attachment_starts_the_schedule_over() {
    let mut backoff = Backoff::new(7);
    for _ in 0..5 {
        backoff.next_delay();
    }
    assert_eq!(backoff.attempt(), 5);
    backoff.reset();
    assert_eq!(backoff.attempt(), 0);
    assert!(backoff.next_delay() <= Duration::from_millis(FIRST_DELAY_MS).saturating_mul(2));
}

#[test]
fn a_chain_reads_from_the_outside_in() {
    let error = Fault::message("inner").context("middle").context("outer");
    assert_eq!(error.to_text(), "outer: middle: inner");
    assert_eq!(Fault::message("alone").to_text(), "alone");
}

#[test]
fn every_failure_has_a_summary() {
    assert_eq!(Failure::Transport.summary(), "The connection dropped.");
    assert_eq!(Failure::Protocol.summary(), "The tmux control stream was not usable.");
    assert_eq!(
        Failure::Detached.summary(),
        "tmux ended this control session. Starcom does not reattach on its own, \
         because that happens both when you detach and when the server shuts down."
    );
    assert_eq!(
        Failure::ServerExit.summary(),
        "The remote tmux server exited. Any session it held is gone; reattaching \
         would attach to a different server."
    );
}

#[test]
fn a_wall_clock_that_ran_ahead_is_a_sleep() {
    let read = AliveClock::now();
    let alive = AliveClock::at(read.instant, read.wall);
    assert_eq!((alive.instant, alive.wall), (read.instant, read.wall));
    let second = Duration::from_secs(1);
    assert!(alive.suspended_at(alive.instant + second, alive.wall + 4 * second));
    assert!(!alive.suspended_at(alive.instant + second, alive.wall + 3 * second));
    assert!(!alive.suspended_at(alive.instant, alive.wall - 9 * second));
    assert!(!alive.suspended_at(alive.instant, alive.wall));
}
