use starcom::exchange::WriteOutcome;
use starcom::fault::{Fault, IoKind};
use starcom::sftp::{
    check_file_name, ensure_file_size, expect_handle, expect_ok, expect_version, join_remote,
    oversize_notice, payload, put_files, put_files_while, remote_file_name, sent,
    transfer_timeout, unique_remote_name, Chunk, Event, Leftover, LocalFile, Put, Realpath, Upload,
    UploadError, MAX_FILE_BYTES, MAX_NAME,
};

#[test]
fn remote_names_reject_path_separators_and_controls() {
    assert_eq!(remote_file_name("/tmp/notes.txt").unwrap(), "notes.txt");
    assert_eq!(remote_file_name("notes.txt").unwrap(), "notes.txt");
    assert!(remote_file_name(".").is_err());
    assert!(remote_file_name("..").is_err());
    assert!(remote_file_name("").is_err());
}

#[test]
fn a_name_is_refused_for_its_own_reason() {
    assert!(matches!(remote_file_name(""), Err(UploadError::NameMissing)));
    assert!(matches!(check_file_name(Some("a/b")), Err(UploadError::NameRefused)));
    assert!(matches!(check_file_name(Some("a\\b")), Err(UploadError::NameRefused)));
    assert!(matches!(check_file_name(Some("a\nb")), Err(UploadError::NameRefused)));
    assert!(matches!(check_file_name(Some("..")), Err(UploadError::NameRefused)));
    assert!(check_file_name(Some(&"a".repeat(MAX_NAME))).is_ok());
    assert!(check_file_name(Some(&"a".repeat(MAX_NAME + 1))).is_err());
}

#[test]
fn remote_join_does_not_double_a_trailing_slash() {
    assert_eq!(join_remote("/home/alice", "f"), "/home/alice/f");
    assert_eq!(join_remote("/home/alice/", "f"), "/home/alice/f");
    assert_eq!(join_remote("/tmp", "f"), "/tmp/f");
}

#[test]
fn unique_names_keep_the_original_and_stay_short() {
    let name = unique_remote_name("notes.txt", 1_700_000_000_000_000, 0).unwrap();
    assert_eq!(name, "starcom-1700000000000000-0-notes.txt");
    let long = unique_remote_name(&"a".repeat(MAX_NAME), 0, 0).unwrap();
    assert!(long.len() <= MAX_NAME);
    assert!(long.starts_with("starcom-0-0-"));
    assert!(long.ends_with('a'));
}

#[test]
fn a_long_name_is_cut_between_characters() {
    let long = unique_remote_name(&"界".repeat(85), u128::MAX, 3).unwrap();
    assert!(long.len() <= MAX_NAME && long.len() > MAX_NAME - 3);
    assert!(long.ends_with('界'));
    assert!(matches!(unique_remote_name("", 0, 0), Err(UploadError::NameTooLong)));
    assert_ne!(
        unique_remote_name("a", 9, 1).unwrap(),
        unique_remote_name("a", 9, 11).unwrap()
    );
}

#[test]
fn oversize_files_are_named_in_the_confirmation() {
    assert!(oversize_notice(&vec![("notes.txt".into(), 1024)]).is_none());
    assert_eq!(
        oversize_notice(&vec![("notes.pdf".into(), 80 * 1024 * 1024)]).as_deref(),
        Some("notes.pdf is 80 MiB (limit 32 MiB). Upload anyway?")
    );
    assert_eq!(
        oversize_notice(&vec![
            ("a.bin".into(), 40 * 1024 * 1024),
            ("b.bin".into(), 10 * 1024 * 1024)
        ])
        .as_deref(),
        Some("2 files, 50 MiB total (limit 32 MiB each). Upload anyway?")
    );
    assert!(ensure_file_size(MAX_FILE_BYTES, Some(MAX_FILE_BYTES)).is_ok());
    assert!(ensure_file_size(MAX_FILE_BYTES + 1, Some(MAX_FILE_BYTES)).is_err());
    assert!(ensure_file_size(MAX_FILE_BYTES + 1, None).is_ok());
}

#[test]
fn mebibytes_round_as_a_printed_quotient_does() {
    let mut sizes: Vec<u64> = vec![u64::MAX, u64::MAX - 1, 1 << 53, (1 << 53) + 1];
    for whole in [40u64, 41, 42, 1000, 8_796_093_022_207, 17_592_186_044_415] {
        for rest in [0, 1, 524_287, 524_288, 524_289, 1_048_575] {
            sizes.push(whole * 1_048_576 + rest);
        }
    }
    for bytes in sizes {
        let printed = format!("{:.0}", bytes as f64 / (1024.0 * 1024.0));
        assert_eq!(
            oversize_notice(&vec![("f".into(), bytes)]).unwrap(),
            format!("f is {printed} MiB (limit 32 MiB). Upload anyway?")
        );
    }
}

fn local(name: &str, len: u64) -> LocalFile {
    LocalFile {
        running: true,
        name: Some(name.to_owned()),
        stat: Ok((true, len)),
    }
}

#[test]
fn an_upload_is_prepared_as_a_whole() {
    let prepared = put_files(vec![local("a", 3), local("b", 4)], 7).unwrap();
    let names: Vec<_> = prepared.iter().map(|file| file.remote_name.as_str()).collect();
    assert_eq!(names, ["starcom-7-0-a", "starcom-7-1-b"]);
    assert_eq!((prepared[1].name.as_str(), prepared[1].total), ("b", 4));
    assert!(matches!(put_files(Vec::new(), 0), Err(UploadError::NoFiles)));
    let nine = (0..9).map(|_| local("a", 1)).collect();
    assert!(matches!(put_files(nine, 0), Err(UploadError::TooManyFiles)));
    let large = || vec![local("a", 1), local("b", MAX_FILE_BYTES + 1)];
    assert!(matches!(put_files(large(), 0), Err(UploadError::TooLarge)));
    assert_eq!(put_files_while(large(), 0, None).unwrap().len(), 2);
    let directory = LocalFile {
        stat: Ok((false, 0)),
        ..local("d", 0)
    };
    assert!(matches!(put_files(vec![directory], 0), Err(UploadError::NotRegular)));
    let missing = LocalFile {
        stat: Err(Fault::io(IoKind::Other, "not found")),
        ..local("m", 0)
    };
    assert!(matches!(put_files(vec![missing], 0), Err(UploadError::Stat(_))));
    let cancelled = LocalFile {
        running: false,
        ..local("../x", 0)
    };
    assert!(matches!(put_files(vec![cancelled], 0), Err(UploadError::Cancelled)));
    assert!(matches!(put_files(vec![local("a/b", 1)], 0), Err(UploadError::NameRefused)));
}

#[test]
fn a_failed_upload_is_undone_latest_first() {
    let files = || put_files(vec![local("a", 1), local("b", 1)], 5).unwrap();
    assert!(matches!(
        Upload::new("tmp".to_owned(), files()),
        Err(UploadError::Directory)
    ));
    let mut upload = Upload::new("/tmp".to_owned(), files()).unwrap();
    assert_eq!(upload.next(true).unwrap().unwrap(), "/tmp/starcom-5-0-a");
    assert!(matches!(upload.next(false), Err(UploadError::Cancelled)));
    let handle = || Event::Handle(vec![7]);
    assert_eq!(upload.opened(handle()).unwrap(), [7]);
    upload.store();
    assert_eq!(upload.next(true).unwrap().unwrap(), "/tmp/starcom-5-1-b");
    assert!(matches!(upload.opened(Event::Status(4)), Err(UploadError::Refused(4))));
    assert!(!upload.open);
    upload.opened(handle()).unwrap();
    upload.store();
    assert!(upload.next(false).unwrap().is_none());
    assert_eq!(upload.undo(), ["/tmp/starcom-5-1-b", "/tmp/starcom-5-0-a"]);
    let deep = Upload::new(format!("/{}", "d".repeat(1020)), files()).unwrap();
    assert!(matches!(deep.next(true), Err(UploadError::PathTooLong)));
}

#[test]
fn a_file_that_changes_size_is_not_uploaded() {
    let mut put = Put::new(10);
    assert_eq!(put.read(true, 6).unwrap(), Chunk::Write { offset: 0, count: 6 });
    assert_eq!(put.written(6), 6);
    assert!(matches!(put.read(true, 5), Err(UploadError::Changed)));
    assert!(matches!(put.read(true, 0), Err(UploadError::Changed)));
    assert_eq!(put.read(true, 4).unwrap(), Chunk::Write { offset: 6, count: 4 });
    assert_eq!(put.written(4), 10);
    assert_eq!(put.read(true, 0).unwrap(), Chunk::Close);
    assert!(matches!(put.read(false, 0), Err(UploadError::Cancelled)));
}

#[test]
fn the_host_answers_in_order() {
    assert!(expect_version(Event::Version).is_ok());
    assert!(matches!(expect_version(Event::NameEnd), Err(UploadError::Unexpected)));
    assert!(expect_ok(Event::Status(0)).is_ok());
    assert!(matches!(expect_ok(Event::Status(4)), Err(UploadError::Refused(4))));
    assert_eq!(expect_handle(Event::Handle(vec![1, 2])).unwrap(), [1, 2]);
    assert!(matches!(expect_handle(Event::Status(3)), Err(UploadError::Refused(3))));
    let announced = Realpath::Start.take(Event::NameStart(1)).unwrap().unwrap_err();
    let named = announced.take(Event::Name(b"/tmp".to_vec())).unwrap().unwrap_err();
    assert_eq!(named.take(Event::NameEnd).unwrap().unwrap(), "/tmp");
    assert!(matches!(
        Realpath::Start.take(Event::NameStart(0)),
        Err(UploadError::Unexpected)
    ));
    assert!(matches!(
        Realpath::Announced.take(Event::Name(vec![0xff])),
        Err(UploadError::NotUtf8)
    ));
}

#[test]
fn leftover_bytes_are_kept_until_they_are_used() {
    let mut leftover = Leftover::new();
    assert!(leftover.is_empty());
    leftover.keep(b"abc");
    leftover.keep(b"de");
    assert_eq!(leftover.rest(), b"abcde");
    assert!(leftover.used(2).is_ok());
    leftover.keep(b"f");
    assert_eq!(leftover.rest(), b"cdef");
    assert!(matches!(leftover.used(0), Err(UploadError::Stalled)));
    assert!(leftover.used(4).is_ok());
    assert!(leftover.is_empty());
}

#[test]
fn writes_report_how_far_they_came() {
    assert_eq!(sent(WriteOutcome::Wrote(3)).unwrap(), 3);
    assert_eq!(sent(WriteOutcome::WouldBlock).unwrap(), 0);
    assert!(matches!(sent(WriteOutcome::Wrote(0)), Err(UploadError::Closed)));
    let lost = WriteOutcome::Failed(Fault::io(IoKind::BrokenPipe, "gone"));
    assert!(matches!(sent(lost), Err(UploadError::WriteFailed(_))));
    assert_eq!(payload(10, 4, 6), Some(10));
    assert_eq!(payload(10, 4, 7), None);
    assert_eq!(transfer_timeout(10), 30);
    assert_eq!(transfer_timeout(60), 60);
}

#[test]
fn a_batch_is_uploaded_whole_or_not_at_all() {
    let files = || put_files(vec![local("a", 1), local("b", 1)], 5).unwrap();
    let start = || Upload::new("/tmp".to_owned(), files()).unwrap();
    let handle = || Event::Handle(vec![7]);
    assert!(start().finish().unwrap_err().is_empty());
    let mut upload = start();
    upload.opened(handle()).unwrap();
    assert_eq!(upload.finish().unwrap_err(), ["/tmp/starcom-5-0-a"]);
    let mut upload = start();
    upload.opened(handle()).unwrap();
    upload.store();
    upload.opened(Event::Status(4)).unwrap_err();
    assert_eq!(upload.finish().unwrap_err(), ["/tmp/starcom-5-0-a"]);
    let mut upload = start();
    upload.opened(handle()).unwrap();
    upload.store();
    upload.opened(handle()).unwrap();
    assert_eq!(upload.finish().unwrap_err(), ["/tmp/starcom-5-1-b", "/tmp/starcom-5-0-a"]);
    let mut upload = start();
    for _ in 0..2 {
        upload.opened(handle()).unwrap();
        upload.store();
    }
    assert_eq!(upload.finish().unwrap(), ["/tmp/starcom-5-0-a", "/tmp/starcom-5-1-b"]);
}
