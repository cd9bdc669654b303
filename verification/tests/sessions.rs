use starcom::model::{SessionName, Size};
use starcom::sessions::{
    create, created, host_has_no_sessions, list, listed, parse, CommandOutput, Error, Next, Stream,
    MAX_OUTPUT, MAX_SESSIONS,
};

#[test]
fn a_listing_is_parsed_and_bounded() {
    let sessions = parse("work\t3\t1\nbuild\t1\t0\n").unwrap();
    assert_eq!(sessions.len(), 2);
    assert_eq!(
        (sessions[0].name.as_str(), sessions[0].windows, sessions[0].attached),
        ("work", 3, 1)
    );
    assert_eq!(
        (sessions[1].name.as_str(), sessions[1].windows, sessions[1].attached),
        ("build", 1, 0)
    );
    assert_eq!(sessions[0].describe(), "3 windows, attached");
    assert_eq!(sessions[1].describe(), "1 window");
    assert!(parse("").unwrap().is_empty());
    for stderr in [
        "no sessions\n",
        "no server running on /tmp/tmux-1000/default\n",
        "error connecting to /tmp/tmux.sock (No such file or directory)\n",
        "error connecting to /tmp/tmux.sock (Connection refused)\n",
    ] {
        assert!(host_has_no_sessions(stderr.as_bytes()), "{stderr}");
    }
    for stderr in [
        "error connecting to /tmp/tmux.sock (Permission denied)\n",
        "no sessions\ntmux: command not found\n",
        "",
    ] {
        assert!(!host_has_no_sessions(stderr.as_bytes()), "{stderr}");
    }
    let many = "s\t1\t0\n".repeat(MAX_SESSIONS + 1);
    assert!(parse(&many).is_err());
}

#[test]
fn a_hostile_listing_cannot_produce_an_untargetable_session() {
    for line in [
        "work\u{1b}]0;x\u{7}\t1\t0",
        "work\t1",
        "work\t1\t0\textra",
        "work\tnot-a-number\t0",
        "\t1\t0",
    ] {
        assert!(parse(line).is_err(), "accepted {line:?}");
    }
    // A space is fine; tmux allows it and so does SessionName.
    assert_eq!(parse("my work\t1\t0").unwrap()[0].name, "my work");
}

#[test]
fn each_bad_line_is_refused_for_its_own_reason() {
    assert!(matches!(parse("work\t1"), Err(Error::UnexpectedListing)));
    assert!(matches!(parse("\t1\t0"), Err(Error::UntargetableName)));
    assert!(matches!(parse("w\tx\ty"), Err(Error::InvalidWindowCount)));
    assert!(matches!(parse("w\t1\ty"), Err(Error::InvalidAttachedCount)));
    let many = "s\t1\t0\n".repeat(MAX_SESSIONS + 1);
    assert!(matches!(parse(&many), Err(Error::TooManySessions)));
    let full = "s\t1\t0\r\n\n".repeat(MAX_SESSIONS);
    assert_eq!(parse(&full).unwrap().len(), MAX_SESSIONS);
}

#[test]
fn listing_and_creating_quote_what_they_are_given() {
    assert_eq!(
        list(None).unwrap(),
        "exec tmux -N list-sessions -F '#{session_name}\t#{session_windows}\t#{session_attached}'"
    );
    assert!(list(Some("/tmp/a b")).unwrap().starts_with("exec tmux -N -S '/tmp/a b' list-sessions"));
    assert!(matches!(list(Some("a\nb")), Err(Error::Unquotable)));
    let name = SessionName::new("it's").unwrap();
    assert_eq!(
        create(Some("/s"), &name, Size::default()).unwrap(),
        "exec tmux -S '/s' new-session -d -s 'it'\"'\"'s' -x 80 -y 24"
    );
    assert!(create(Some("\u{7f}"), &name, Size::default()).is_err());
}

fn output(stdout: &[u8], stderr: &[u8]) -> CommandOutput {
    let mut output = CommandOutput::new();
    output.take(Stream::Stdout, stdout).unwrap();
    output.take(Stream::Stderr, stderr).unwrap();
    output
}

#[test]
fn output_is_bounded_stream_by_stream() {
    let mut output = CommandOutput::new();
    assert!(output.take(Stream::Stdout, &vec![b'x'; MAX_OUTPUT]).is_ok());
    assert!(matches!(
        output.take(Stream::Stdout, b"y"),
        Err(Error::TooMuchOutput)
    ));
    assert_eq!(output.stdout.len(), MAX_OUTPUT);
    assert!(output.take(Stream::Stderr, b"y").is_ok());
    assert_eq!(CommandOutput::next(true, true), Next::Finished);
    assert_eq!(CommandOutput::next(false, true), Next::Expired);
    assert_eq!(CommandOutput::next(false, false), Next::Read);
}

#[test]
fn a_complaint_alone_is_escaped_and_cut() {
    let Err(Error::Reported(said)) = listed(output(b"", b"bad \x1b[31m\"news\"")) else {
        panic!("expected a complaint");
    };
    assert_eq!(said, "bad \\u{1b}[31m\\\"news\\\"");
    let Err(error) = created(output(b"", &[b'x'; 600])) else {
        panic!("expected a complaint");
    };
    assert_eq!(error.to_text(), format!("tmux reported: {}", "x".repeat(512)));
    assert!(created(output(b"", b"")).is_ok());
    assert!(matches!(listed(output(&[0xff], b"")), Err(Error::NotUtf8)));
    assert!(listed(output(b"", b"no sessions\n")).unwrap().is_empty());
    assert_eq!(listed(output(b"a\t1\t0\n", b"noise")).unwrap().len(), 1);
    // Bytes that are no UTF-8 are replaced before the complaint is read.
    assert!(!host_has_no_sessions(b"no sessions\xff"));
}
