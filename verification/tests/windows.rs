use ifuse_rs::afc::{RemoteDeviceInfo, RemoteFileInfo, RemoteFileType};
use ifuse_rs::backend::{Answer, Command, Mtime};
use ifuse_rs::error::{map_backend_error, AfcError, DeviceError, Error, NtStatus};
use ifuse_rs::reparse::{parse_symlink_reparse, write_symlink_reparse};
use ifuse_rs::transport::{AfcFopenMode, LinkType};
use ifuse_rs::windows_filesystem::{
    access_mode, afc_path, create_context, file_attributes, file_info, fill_next, join_afc_path, resume,
    system_time_to_windows_time, wide_string, windows_time_to_unix_nanos, Continuation,
    Filling, IfuseFileContext, IfuseFilesystem, Response, Step, FILE_APPEND_DATA, FILE_DIRECTORY_FILE,
    FILE_WRITE_DATA, WINDOWS_EPOCH_TICKS,
};

#[test]
fn access_modes_match_windows_rights() {
    assert!(matches!(access_mode(0), AfcFopenMode::RdOnly));
    assert!(matches!(access_mode(FILE_WRITE_DATA), AfcFopenMode::Rw));
    assert!(matches!(access_mode(FILE_APPEND_DATA), AfcFopenMode::RdAppend));
}

#[test]
fn symlink_reparse_round_trip() {
    let mut data = vec![0; 1024];
    let size = write_symlink_reparse("../Documents/file", &mut data).unwrap() as usize;
    assert_eq!(parse_symlink_reparse(&data[..size]).unwrap(), "../Documents/file");
}

#[test]
fn reparse_points_have_their_layout() {
    let mut data = vec![0xff; 40];
    let size = write_symlink_reparse("a/𝄞", &mut data).unwrap();
    assert_eq!(size, 36);
    assert_eq!(
        &data[..36],
        [
            0x0c, 0, 0, 0xa0, 28, 0, 0, 0, 0, 0, 8, 0, 8, 0, 8, 0, 1, 0, 0, 0, b'a', 0, b'\\', 0,
            0x34, 0xd8, 0x1e, 0xdd, b'a', 0, b'\\', 0, 0x34, 0xd8, 0x1e, 0xdd,
        ]
    );
    assert_eq!(&data[36..], [0xff; 4]);
    assert_eq!(parse_symlink_reparse(&data[..36]).unwrap(), "a/𝄞");
    assert_eq!(
        write_symlink_reparse("a/b", &mut data[..31]),
        Err(NtStatus::InvalidParameter)
    );
}

#[test]
fn broken_reparse_points_are_refused() {
    let mut data = vec![0; 24];
    write_symlink_reparse("a", &mut data).unwrap();
    assert_eq!(parse_symlink_reparse(&data[..19]), Err(NtStatus::NotSupported));
    assert_eq!(parse_symlink_reparse(&data[..23]), Err(NtStatus::InvalidParameter));
    let mut odd = data.clone();
    odd[14] = 1;
    assert_eq!(parse_symlink_reparse(&odd), Err(NtStatus::InvalidParameter));
    let mut other = data.clone();
    other[0] = 3;
    assert_eq!(parse_symlink_reparse(&other), Err(NtStatus::NotSupported));
}

fn wide(text: &str) -> Vec<u16> {
    text.encode_utf16().collect()
}

#[test]
fn paths_become_absolute() {
    assert_eq!(afc_path(&wide("")), "/");
    assert_eq!(afc_path(&wide("\\")), "/");
    assert_eq!(afc_path(&wide("\\a\\b")), "/a/b");
    assert_eq!(afc_path(&wide("a")), "/a");
    assert_eq!(join_afc_path("/", "a"), "/a");
    assert_eq!(join_afc_path("/a", "b"), "/a/b");
}

#[test]
fn wide_texts_are_read() {
    assert_eq!(wide_string(&wide("Grüße 𝄞")), "Grüße 𝄞");
    assert_eq!(wide_string(&[0xd834, 0x61, 0xdd1e]), "\u{fffd}a\u{fffd}");
}

fn info(kind: RemoteFileType) -> RemoteFileInfo {
    RemoteFileInfo {
        size: 11,
        blocks: 2,
        created: 1_000,
        modified: 2_050,
        nlink: 5,
        kind,
        link_target: None,
    }
}

fn known(kind: RemoteFileType) -> Result<Answer, Error> {
    Ok(Answer::FileInfo(info(kind)))
}

#[test]
fn objects_are_shown() {
    let shown = file_info(&info(RemoteFileType::RegularFile));
    assert_eq!(shown.file_attributes, 0x80);
    assert_eq!(shown.reparse_tag, 0);
    assert_eq!((shown.allocation_size, shown.file_size), (8192, 11));
    assert_eq!(shown.creation_time, WINDOWS_EPOCH_TICKS + 10);
    assert_eq!(shown.last_write_time, WINDOWS_EPOCH_TICKS + 20);
    assert_eq!(shown.last_access_time, shown.change_time);
    assert_eq!(file_attributes(&info(RemoteFileType::Directory)), 0x10);
    let link = file_info(&info(RemoteFileType::Symlink));
    assert_eq!((link.file_attributes, link.reparse_tag), (0x400, 0xa000000c));
    let mut large = info(RemoteFileType::RegularFile);
    large.blocks = u64::MAX;
    assert_eq!(file_info(&large).allocation_size, u64::MAX);
    large.blocks = 0;
    assert_eq!(file_info(&large).allocation_size, 11);
}

#[test]
fn times_survive() {
    assert_eq!(system_time_to_windows_time(None), 116_444_736_000_000_000);
    assert_eq!(system_time_to_windows_time(Some(199)), 116_444_736_000_000_001);
    for nanos in [0, 100, 1_500_000_000_123_456_700, u64::MAX - u64::MAX % 100] {
        let ticks = system_time_to_windows_time(Some(nanos as u128));
        assert_eq!(windows_time_to_unix_nanos(ticks), nanos);
    }
    assert_eq!(windows_time_to_unix_nanos(5), 0);
    assert_eq!(windows_time_to_unix_nanos(u64::MAX), u64::MAX);
}

#[test]
fn errors_have_statuses() {
    let cases = [
        (AfcError::ObjectNotFound, NtStatus::NotFound),
        (AfcError::ObjectExists, NtStatus::ObjectNameCollision),
        (AfcError::ObjectIsDir, NtStatus::FileIsADirectory),
        (AfcError::PermDenied, NtStatus::AccessDenied),
        (AfcError::NoSpaceLeft, NtStatus::DiskFull),
        (AfcError::DirNotEmpty, NtStatus::DirectoryNotEmpty),
        (AfcError::InvalidArg, NtStatus::InvalidParameter),
        (AfcError::OpNotSupported, NtStatus::NotSupported),
        (AfcError::ServiceNotConnected, NtStatus::DeviceNotConnected),
        (AfcError::OpTimeout, NtStatus::FileNotAvailable),
        (AfcError::ReadError, NtStatus::IoDeviceError),
    ];
    for (status, expected) in cases {
        assert_eq!(map_backend_error(&Error::Device(DeviceError::Afc(status))), expected);
    }
    let cases = [
        (Error::Device(DeviceError::DeviceNotFound), NtStatus::NotFound),
        (
            Error::Device(DeviceError::NoEstablishedConnection),
            NtStatus::DeviceNotConnected,
        ),
        (Error::Device(DeviceError::Timeout), NtStatus::FileNotAvailable),
        (Error::BackendStopped, NtStatus::DeviceNotConnected),
        (Error::DeviceNotFound, NtStatus::DeviceNotConnected),
        (Error::EmptyUdid, NtStatus::IoDeviceError),
    ];
    for (error, expected) in cases {
        assert_eq!(map_backend_error(&error), expected);
    }
}

fn asked(step: Step) -> (Command, Continuation) {
    match step {
        Step::Ask(command, next) => (command, next),
        other => panic!("unexpected {:?}", other),
    }
}

fn replied(step: Step) -> Response {
    match step {
        Step::Reply(response) => response,
        other => panic!("unexpected {:?}", other),
    }
}

fn refused(step: Step) -> NtStatus {
    match replied(step) {
        Response::Failed(status) => status,
        other => panic!("unexpected {:?}", other),
    }
}

fn refusal(status: AfcError) -> Result<Answer, Error> {
    Err(Error::Device(DeviceError::Afc(status)))
}

fn filesystem() -> IfuseFilesystem {
    IfuseFilesystem::new("Phone".to_string())
}

fn file() -> IfuseFileContext {
    create_context("/f".to_string(), false, Some(9))
}

fn directory() -> IfuseFileContext {
    create_context("/d".to_string(), true, None)
}

#[test]
fn security_tells_links() {
    let (command, next) = asked(filesystem().get_security_by_name(&wide("\\l")));
    assert!(matches!(command, Command::FileInfo(path) if path == "/l"));
    assert!(matches!(
        replied(resume(next, known(RemoteFileType::Symlink))),
        Response::Security { reparse: true, attributes: 0x400 }
    ));
}

#[test]
fn directories_open_without_descriptor() {
    let (_, next) = asked(filesystem().open(&wide("\\d"), FILE_WRITE_DATA));
    match replied(resume(next, known(RemoteFileType::Directory))) {
        Response::Opened(context, shown) => {
            assert_eq!((context.path.as_str(), context.descriptor), ("/d", None));
            assert!(context.directory && !context.delete_pending);
            assert_eq!(shown.file_size, 11);
        }
        other => panic!("unexpected {:?}", other),
    }
}

#[test]
fn files_open_with_descriptor() {
    let (_, next) = asked(filesystem().open(&wide("\\f"), FILE_WRITE_DATA));
    let (command, next) = asked(resume(next, known(RemoteFileType::RegularFile)));
    assert!(matches!(command, Command::Open(path, AfcFopenMode::Rw) if path == "/f"));
    match replied(resume(next, Ok(Answer::Handle(4)))) {
        Response::Opened(context, _) => {
            assert_eq!((context.descriptor, context.directory), (Some(4), false));
        }
        other => panic!("unexpected {:?}", other),
    }
}

#[test]
fn closing_closes_what_is_open() {
    let (command, next) = asked(filesystem().close(file()));
    assert!(matches!(command, Command::Close(9)));
    assert!(matches!(replied(resume(next, Ok(Answer::Done))), Response::Done));
    assert!(matches!(replied(filesystem().close(directory())), Response::Done));
}

#[test]
fn files_are_created() {
    let fs = filesystem();
    let (command, next) = asked(fs.create(&wide("\\n"), 0, 64, None, false));
    assert!(matches!(command, Command::Open(path, AfcFopenMode::Wr) if path == "/n"));
    let (command, next) = asked(resume(next, Ok(Answer::Handle(3))));
    assert!(matches!(command, Command::TruncateHandle(3, 64)));
    let (command, next) = asked(resume(next, Ok(Answer::Done)));
    assert!(matches!(command, Command::FileInfo(path) if path == "/n"));
    assert!(matches!(
        replied(resume(next, known(RemoteFileType::RegularFile))),
        Response::Opened(context, _) if context.descriptor == Some(3) && !context.directory
    ));
    let (_, next) = asked(fs.create(&wide("\\n"), 0, 0, None, false));
    let (command, _) = asked(resume(next, Ok(Answer::Handle(3))));
    assert!(matches!(command, Command::FileInfo(_)));
}

#[test]
fn directories_and_links_are_created() {
    let fs = filesystem();
    let (command, next) = asked(fs.create(&wide("\\d"), FILE_DIRECTORY_FILE, 5, None, false));
    assert!(matches!(command, Command::Mkdir(path) if path == "/d"));
    let (_, next) = asked(resume(next, Ok(Answer::Done)));
    assert!(matches!(
        replied(resume(next, known(RemoteFileType::Directory))),
        Response::Opened(context, _) if context.directory && context.descriptor.is_none()
    ));
    let mut point = vec![0; 100];
    let size = write_symlink_reparse("x/y", &mut point).unwrap() as usize;
    let (command, _) = asked(fs.create(&wide("\\l"), 0, 0, Some(&point[..size]), true));
    match command {
        Command::Link(target, link, kind) => {
            assert_eq!((target.as_str(), link.as_str()), ("x/y", "/l"));
            assert_eq!(kind, LinkType::Symlink);
        }
        other => panic!("unexpected {:?}", other),
    }
    assert_eq!(
        refused(fs.create(&wide("\\l"), 0, 0, None, true)),
        NtStatus::NotSupported
    );
}

#[test]
fn marked_objects_are_removed() {
    let fs = filesystem();
    let mut context = file();
    assert!(matches!(replied(fs.cleanup(&context)), Response::Done));
    assert!(matches!(
        replied(fs.set_delete(&context, true)),
        Response::DeletePending(true)
    ));
    context.delete_pending = true;
    let (command, _) = asked(fs.cleanup(&context));
    assert!(matches!(command, Command::Remove(path) if path == "/f"));
}

#[test]
fn only_empty_directories_are_marked() {
    let fs = filesystem();
    let (command, next) = asked(fs.set_delete(&directory(), true));
    assert!(matches!(command, Command::ListDir(path) if path == "/d"));
    let dots = vec![".".to_string(), "..".to_string()];
    assert!(matches!(
        replied(resume(next, Ok(Answer::Names(dots)))),
        Response::DeletePending(true)
    ));
    let (_, next) = asked(fs.set_delete(&directory(), true));
    let names = vec![".".to_string(), "x".to_string()];
    assert_eq!(
        refused(resume(next, Ok(Answer::Names(names)))),
        NtStatus::DirectoryNotEmpty
    );
    assert!(matches!(
        replied(fs.set_delete(&directory(), false)),
        Response::DeletePending(false)
    ));
}

#[test]
fn info_is_shown_after_changes() {
    let fs = filesystem();
    let (command, next) = asked(fs.set_file_size(&file(), 77));
    assert!(matches!(command, Command::TruncateHandle(9, 77)));
    let (command, next) = asked(resume(next, Ok(Answer::Done)));
    assert!(matches!(command, Command::FileInfo(path) if path == "/f"));
    assert!(matches!(
        replied(resume(next, known(RemoteFileType::RegularFile))),
        Response::Info(shown) if shown.file_size == 11
    ));
    let (command, _) = asked(fs.overwrite(&file(), 5));
    assert!(matches!(command, Command::TruncateHandle(9, 5)));
    assert_eq!(refused(fs.overwrite(&directory(), 5)), NtStatus::FileIsADirectory);
    let (command, _) = asked(fs.set_basic_info(&file(), WINDOWS_EPOCH_TICKS + 3));
    assert!(matches!(command, Command::SetMtime(_, Mtime::At(Some(300)))));
    let (command, _) = asked(fs.set_basic_info(&file(), 0));
    assert!(matches!(command, Command::FileInfo(_)));
    let (command, _) = asked(fs.get_file_info(&file()));
    assert!(matches!(command, Command::FileInfo(_)));
    let (command, _) = asked(fs.flush(Some(&file())));
    assert!(matches!(command, Command::FileInfo(_)));
    assert!(matches!(replied(fs.flush(None)), Response::Done));
}

#[test]
fn reading_fills_a_buffer() {
    let fs = filesystem();
    let (command, next) = asked(fs.read(&file(), 100, 7));
    assert!(matches!(command, Command::Read(9, 7, 100)));
    assert!(matches!(
        replied(resume(next, Ok(Answer::Data(vec![1])))),
        Response::Data(bytes) if bytes == [1]
    ));
    let (command, _) = asked(fs.read(&file(), usize::MAX, 0));
    assert!(matches!(command, Command::Read(9, 0, u32::MAX)));
    assert_eq!(refused(fs.read(&directory(), 1, 0)), NtStatus::FileIsADirectory);
}

#[test]
fn writing_goes_to_an_offset_or_the_end() {
    let fs = filesystem();
    let (command, next) = asked(fs.write(&file(), vec![1, 2], 30, false));
    assert!(matches!(command, Command::Write(9, 30, bytes) if bytes == [1, 2]));
    let (_, next) = asked(resume(next, Ok(Answer::Count(2))));
    assert!(matches!(
        replied(resume(next, known(RemoteFileType::RegularFile))),
        Response::Written(2, shown) if shown.file_size == 11
    ));
    let (command, next) = asked(fs.write(&file(), vec![1], 30, true));
    assert!(matches!(command, Command::FileInfo(_)));
    let (command, _) = asked(resume(next, known(RemoteFileType::RegularFile)));
    assert!(matches!(command, Command::Write(9, 11, _)));
    assert_eq!(
        refused(fs.write(&directory(), vec![1], 0, true)),
        NtStatus::FileIsADirectory
    );
}

#[test]
fn renaming_replaces_what_is_there() {
    let fs = filesystem();
    let (command, _) = asked(fs.rename(&wide("\\a"), &wide("\\b"), false));
    assert!(matches!(command, Command::Rename(from, to) if from == "/a" && to == "/b"));
    let (command, next) = asked(fs.rename(&wide("\\a"), &wide("\\b"), true));
    assert!(matches!(command, Command::FileInfo(path) if path == "/b"));
    let (command, next) = asked(resume(next, known(RemoteFileType::RegularFile)));
    assert!(matches!(command, Command::Remove(path) if path == "/b"));
    let (command, next) = asked(resume(next, Ok(Answer::Done)));
    assert!(matches!(command, Command::Rename(_, _)));
    assert!(matches!(replied(resume(next, Ok(Answer::Done))), Response::Done));
    let (_, next) = asked(fs.rename(&wide("\\a"), &wide("\\b"), true));
    let (command, next) = asked(resume(next, refusal(AfcError::ObjectNotFound)));
    assert!(matches!(command, Command::Rename(_, _)));
    assert_eq!(refused(resume(next, refusal(AfcError::PermDenied))), NtStatus::AccessDenied);
}

#[test]
fn volumes_have_labels() {
    let device = || {
        Ok(Answer::DeviceInfo(RemoteDeviceInfo {
            total_bytes: 10,
            free_bytes: 4,
            block_size: 1,
            model: String::new(),
        }))
    };
    let mut fs = filesystem();
    let (command, next) = asked(fs.get_volume_info());
    assert!(matches!(command, Command::DeviceInfo));
    assert!(matches!(
        replied(resume(next, device())),
        Response::Volume { total_size: 10, free_size: 4, label } if label == "Phone"
    ));
    let (_, next) = asked(fs.set_volume_label(&wide("Neu")));
    assert_eq!(fs.volume_label, "Neu");
    assert!(matches!(
        replied(resume(next, device())),
        Response::Volume { label, .. } if label == "Neu"
    ));
}

#[test]
fn links_are_shown_and_made_anew() {
    let fs = filesystem();
    let (command, next) = asked(fs.get_reparse_point_by_name(&wide("\\l")));
    assert!(matches!(command, Command::FileInfo(path) if path == "/l"));
    let mut link = info(RemoteFileType::Symlink);
    link.link_target = Some("there".to_string());
    assert!(matches!(
        replied(resume(next, Ok(Answer::FileInfo(link)))),
        Response::Target(target) if target == "there"
    ));
    let (_, next) = asked(fs.get_reparse_point(&file()));
    assert_eq!(
        refused(resume(next, known(RemoteFileType::RegularFile))),
        NtStatus::NotSupported
    );
    let mut point = vec![0; 100];
    let size = write_symlink_reparse("x", &mut point).unwrap() as usize;
    let (command, next) = asked(fs.set_reparse_point(&file(), &point[..size]));
    assert!(matches!(command, Command::Remove(path) if path == "/f"));
    let (command, _) = asked(resume(next, Ok(Answer::Done)));
    assert!(matches!(
        command,
        Command::Link(target, link, LinkType::Symlink) if target == "x" && link == "/f"
    ));
    assert_eq!(refused(fs.set_reparse_point(&file(), &[])), NtStatus::NotSupported);
}

#[test]
fn directories_are_read_in_order() {
    let fs = filesystem();
    let mut context = directory();
    assert_eq!(refused(fs.read_directory(&file(), false)), NtStatus::NotADirectory);
    let (command, next) = asked(fs.read_directory(&context, false));
    assert!(matches!(command, Command::ListDir(path) if path == "/d"));
    let names = ["b", ".", "ä", "a", "..", "Z"];
    let names = names.iter().map(|name| name.to_string()).collect();
    let mut step = resume(next, Ok(Answer::Names(names)));
    let mut paths = Vec::new();
    let listing = loop {
        match step {
            Step::Ask(Command::FileInfo(path), next) => {
                paths.push(path);
                step = resume(next, known(RemoteFileType::RegularFile));
            }
            Step::Reply(Response::Entries(listing)) => break listing,
            other => panic!("unexpected {:?}", other),
        }
    };
    assert_eq!(paths, ["/d/b", "/d/ä", "/d/a", "/d/Z"]);
    assert!(context.entries_after(None).is_empty());
    context.directory_entries = Some(listing);
    let all: Vec<String> =
        context.entries_after(None).into_iter().map(|entry| entry.name).collect();
    assert_eq!(all, ["Z", "a", "b", "ä"]);
    let rest: Vec<String> =
        context.entries_after(Some(&wide("a"))).into_iter().map(|entry| entry.name).collect();
    assert_eq!(rest, ["b", "ä"]);
    let rest: Vec<String> =
        context.entries_after(Some(&wide("aa"))).into_iter().map(|entry| entry.name).collect();
    assert_eq!(rest, ["b", "ä"]);
    assert!(context.entries_after(Some(&wide("ä"))).is_empty());
    assert_eq!(context.entries_after(None)[0].info.file_size, 11);
    assert!(matches!(replied(fs.read_directory(&context, true)), Response::KeptEntries));
}

fn listed(names: &[&str]) -> IfuseFileContext {
    let mut context = directory();
    let (_, next) = asked(filesystem().read_directory(&context, false));
    let names = names.iter().map(|name| name.to_string()).collect();
    let mut step = resume(next, Ok(Answer::Names(names)));
    while let Step::Ask(_, next) = step {
        step = resume(next, known(RemoteFileType::RegularFile));
    }
    match replied(step) {
        Response::Entries(listing) => context.directory_entries = Some(listing),
        other => panic!("unexpected {:?}", other),
    }
    context
}

/// The names that come into a buffer with room for so many, and whether the end mark does.
fn buffer(context: &IfuseFileContext, marker: Option<&[u16]>, room: usize) -> (Vec<String>, bool) {
    let entries = context.entries_after(marker);
    let mut names = Vec::new();
    let mut position = 0;
    let mut fitted = true;
    loop {
        match fill_next(&entries, position, fitted) {
            Filling::Add(index) => {
                fitted = names.len() < room;
                if fitted {
                    names.push(entries[index].name.clone());
                }
                position = index + 1;
            }
            Filling::End => return (names, true),
            Filling::Stop => return (names, false),
        }
    }
}

#[test]
fn buffers_end_where_the_directory_does() {
    let context = listed(&["c", ".", "a", "..", "b"]);
    let first = buffer(&context, None, 2);
    assert_eq!(first, (vec!["a".to_string(), "b".to_string()], false));
    let second = buffer(&context, Some(&wide("b")), 2);
    assert_eq!(second, (vec!["c".to_string()], true));
    assert_eq!(buffer(&context, Some(&wide("c")), 2), (Vec::new(), true));
    assert_eq!(buffer(&context, None, 0), (Vec::new(), false));
    let all = ["a", "b", "c"].map(|name| name.to_string()).to_vec();
    assert_eq!(buffer(&context, None, 3), (all, true));
    assert_eq!(buffer(&listed(&[]), None, 0), (Vec::new(), true));
}

#[test]
fn windows_failures_are_answered() {
    let (_, next) = asked(filesystem().read_directory(&directory(), false));
    assert_eq!(refused(resume(next, refusal(AfcError::ReadError))), NtStatus::IoDeviceError);
    let (_, next) = asked(filesystem().read(&file(), 1, 0));
    assert_eq!(refused(resume(next, Ok(Answer::Done))), NtStatus::IoDeviceError);
}
