use ifuse_rs::afc::{RemoteDeviceInfo, RemoteFileInfo, RemoteFileType};
use ifuse_rs::backend::{Answer, Command, Mtime};
use ifuse_rs::error::{errno, AfcError, DeviceError, Errno, Error};
use ifuse_rs::filesystem::{
    file_type, open_mode, Continuation, FileType, IfuseFilesystem, Response, Step,
};
use ifuse_rs::transport::{AfcFopenMode, LinkType};
use std::path::PathBuf;

#[test]
fn maps_open_flags() {
    assert!(matches!(open_mode(libc::O_RDONLY), Ok(AfcFopenMode::RdOnly)));
    assert!(matches!(
        open_mode(libc::O_WRONLY | libc::O_TRUNC),
        Ok(AfcFopenMode::WrOnly)
    ));
    assert!(matches!(
        open_mode(libc::O_RDWR | libc::O_APPEND),
        Ok(AfcFopenMode::RdAppend)
    ));
}

#[test]
fn maps_every_open_flag() {
    let cases = [
        (libc::O_RDONLY | libc::O_TRUNC | libc::O_APPEND, AfcFopenMode::RdOnly),
        (libc::O_WRONLY | libc::O_APPEND, AfcFopenMode::Append),
        (libc::O_WRONLY | libc::O_APPEND | libc::O_TRUNC, AfcFopenMode::WrOnly),
        (libc::O_WRONLY, AfcFopenMode::Rw),
        (libc::O_RDWR | libc::O_TRUNC, AfcFopenMode::Wr),
        (libc::O_RDWR, AfcFopenMode::Rw),
        (libc::O_ACCMODE, AfcFopenMode::RdOnly),
    ];
    for (flags, mode) in cases {
        assert_eq!(open_mode(flags).unwrap(), mode);
        assert_eq!(open_mode(flags | libc::O_CREAT).unwrap(), mode);
    }
}

fn filesystem() -> IfuseFilesystem {
    let device = RemoteDeviceInfo {
        total_bytes: 10_000,
        free_bytes: 5_000,
        block_size: 1_000,
        model: "iPhone".to_string(),
    };
    IfuseFilesystem::new(device, 1000, 100)
}

fn info(kind: RemoteFileType) -> RemoteFileInfo {
    RemoteFileInfo {
        size: 11,
        blocks: 2,
        created: 3,
        modified: 4,
        nlink: 5,
        kind,
        link_target: None,
    }
}

fn known(kind: RemoteFileType) -> Result<Answer, Error> {
    Ok(Answer::FileInfo(info(kind)))
}

fn name(text: &str) -> Result<String, PathBuf> {
    Ok(text.to_string())
}

fn asked(step: Step) -> (Command, Continuation) {
    match step {
        Step::Ask(command, next) => (command, next),
        other => panic!("unexpected {:?}", other),
    }
}

fn replied(step: Step) -> Response {
    match step {
        Step::Reply(response) => response,
        other => panic!("unexpected {:?}", other),
    }
}

fn refused(step: Step) -> Errno {
    match replied(step) {
        Response::Failed(errno) => errno,
        other => panic!("unexpected {:?}", other),
    }
}

fn refusal(status: AfcError) -> Result<Answer, Error> {
    Err(Error::Device(DeviceError::Afc(status)))
}

#[test]
fn lookup_shows_an_entry() {
    let mut fs = filesystem();
    let (command, next) = asked(fs.lookup(1, name("a")));
    assert!(matches!(command, Command::FileInfo(path) if path == "/a"));
    match replied(fs.resume(next, known(RemoteFileType::RegularFile))) {
        Response::Entry(attr) => {
            assert_eq!(attr.ino, 2);
            assert_eq!((attr.size, attr.blocks, attr.nlink), (11, 2, 5));
            assert_eq!((attr.atime, attr.mtime, attr.ctime, attr.crtime), (4, 4, 4, 3));
            assert_eq!((attr.uid, attr.gid), (1000, 100));
            assert_eq!((attr.kind, attr.perm), (FileType::RegularFile, 0o644));
            assert_eq!((attr.rdev, attr.blksize, attr.flags), (0, 1_000, 0));
        }
        other => panic!("unexpected {:?}", other),
    }
    let (command, next) = asked(fs.getattr(2));
    assert!(matches!(command, Command::FileInfo(path) if path == "/a"));
    match replied(fs.resume(next, known(RemoteFileType::Directory))) {
        Response::Attr(attr) => assert_eq!((attr.ino, attr.perm), (2, 0o755)),
        other => panic!("unexpected {:?}", other),
    }
}

#[test]
fn unknown_inodes_and_names_are_refused() {
    let fs = filesystem();
    assert_eq!(refused(fs.getattr(9)), Errno::EIO);
    assert_eq!(refused(fs.lookup(9, name("a"))), Errno::EIO);
    assert_eq!(refused(fs.lookup(9, Err(PathBuf::from("x")))), Errno::EILSEQ);
    match fs.path(9) {
        Err(Error::InvalidAfcResponse(words)) => assert_eq!(words, "unknown inode 9"),
        other => panic!("unexpected {:?}", other),
    }
}

#[test]
fn failures_are_answered() {
    let mut fs = filesystem();
    let (_, next) = asked(fs.lookup(1, name("a")));
    assert_eq!(refused(fs.resume(next, refusal(AfcError::ObjectNotFound))), Errno::ENOENT);
    assert!(matches!(fs.path(2), Err(_)));
}

#[test]
fn setattr_goes_through_size_and_time() {
    let mut fs = filesystem();
    let (command, next) = asked(fs.setattr(1, Some(7), Some(Mtime::Now)));
    assert!(matches!(command, Command::Truncate(path, 7) if path == "/"));
    let (command, next) = asked(fs.resume(next, Ok(Answer::Done)));
    assert!(matches!(command, Command::SetMtime(path, Mtime::Now) if path == "/"));
    let (command, next) = asked(fs.resume(next, Ok(Answer::Done)));
    assert!(matches!(command, Command::FileInfo(path) if path == "/"));
    assert!(matches!(
        replied(fs.resume(next, known(RemoteFileType::Directory))),
        Response::Attr(attr) if attr.ino == 1
    ));
    let (command, _) = asked(fs.setattr(1, None, Some(Mtime::At(Some(8)))));
    assert!(matches!(command, Command::SetMtime(_, Mtime::At(Some(8)))));
    let (command, _) = asked(fs.setattr(1, None, None));
    assert!(matches!(command, Command::FileInfo(_)));
    let (_, next) = asked(fs.setattr(1, Some(7), None));
    let (command, _) = asked(fs.resume(next, Ok(Answer::Done)));
    assert!(matches!(command, Command::FileInfo(_)));
}

#[test]
fn readlink_shows_the_target() {
    let mut fs = filesystem();
    let (_, next) = asked(fs.readlink(1));
    let mut link = info(RemoteFileType::Symlink);
    link.link_target = Some("ä".to_string());
    match replied(fs.resume(next, Ok(Answer::FileInfo(link)))) {
        Response::Data(bytes) => assert_eq!(bytes, "ä".as_bytes()),
        other => panic!("unexpected {:?}", other),
    }
    let (_, next) = asked(fs.readlink(1));
    assert_eq!(refused(fs.resume(next, known(RemoteFileType::Symlink))), Errno::EIO);
}

#[test]
fn new_objects_are_shown() {
    let mut fs = filesystem();
    let (command, next) = asked(fs.mkdir(1, name("d")));
    assert!(matches!(command, Command::Mkdir(path) if path == "/d"));
    let (command, next) = asked(fs.resume(next, Ok(Answer::Done)));
    assert!(matches!(command, Command::FileInfo(path) if path == "/d"));
    assert!(matches!(
        replied(fs.resume(next, known(RemoteFileType::Directory))),
        Response::Entry(attr) if attr.ino == 2
    ));
    let (command, _) = asked(fs.symlink(2, name("l"), name("../x")));
    match command {
        Command::Link(target, link, kind) => {
            assert_eq!((target.as_str(), link.as_str()), ("../x", "/d/l"));
            assert_eq!(kind, LinkType::Symlink);
        }
        other => panic!("unexpected {:?}", other),
    }
    assert_eq!(refused(fs.symlink(2, name("l"), Err(PathBuf::from("x")))), Errno::EILSEQ);
    let (command, _) = asked(fs.link(2, 1, name("h")));
    match command {
        Command::Link(target, link, kind) => {
            assert_eq!((target.as_str(), link.as_str()), ("/d", "/h"));
            assert_eq!(kind, LinkType::Hardlink);
        }
        other => panic!("unexpected {:?}", other),
    }
}

#[test]
fn renaming_moves_numbers() {
    let mut fs = filesystem();
    let (_, next) = asked(fs.lookup(1, name("a")));
    fs.resume(next, known(RemoteFileType::Directory));
    let (command, next) = asked(fs.rename(1, name("a"), 1, name("b"), 0));
    assert!(matches!(command, Command::Rename(from, to) if from == "/a" && to == "/b"));
    assert!(matches!(replied(fs.resume(next, Ok(Answer::Done))), Response::Empty));
    assert_eq!(fs.path(2).unwrap(), "/b");
    assert_eq!(refused(fs.rename(1, name("b"), 1, name("c"), 1)), Errno::EINVAL);
    let (_, next) = asked(fs.rename(1, name("b"), 1, name("c"), 0));
    assert_eq!(refused(fs.resume(next, refusal(AfcError::ObjectExists))), Errno::EEXIST);
    assert_eq!(fs.path(2).unwrap(), "/b");
}

#[test]
fn removing_forgets_numbers() {
    let mut fs = filesystem();
    let (_, next) = asked(fs.lookup(1, name("a")));
    fs.resume(next, known(RemoteFileType::RegularFile));
    let (command, next) = asked(fs.unlink(1, name("a")));
    assert!(matches!(command, Command::Remove(path) if path == "/a"));
    assert!(matches!(replied(fs.resume(next, Ok(Answer::Done))), Response::Empty));
    assert!(fs.path(2).is_err());
    let (_, next) = asked(fs.rmdir(1, name("d")));
    assert_eq!(refused(fs.resume(next, refusal(AfcError::DirNotEmpty))), Errno::ENOTEMPTY);
}

#[test]
fn files_are_opened_read_written_and_closed() {
    let mut fs = filesystem();
    let (command, next) = asked(fs.open(1, libc::O_RDWR));
    assert!(matches!(command, Command::Open(path, AfcFopenMode::Rw) if path == "/"));
    assert!(matches!(replied(fs.resume(next, Ok(Answer::Handle(6)))), Response::Opened(6)));
    let (command, next) = asked(fs.read(6, 10, 20));
    assert!(matches!(command, Command::Read(6, 10, 20)));
    assert!(matches!(
        replied(fs.resume(next, Ok(Answer::Data(vec![1, 2])))),
        Response::Data(bytes) if bytes == [1, 2]
    ));
    let (command, next) = asked(fs.write(6, 10, vec![3]));
    assert!(matches!(command, Command::Write(6, 10, bytes) if bytes == [3]));
    assert!(matches!(replied(fs.resume(next, Ok(Answer::Count(1)))), Response::Written(1)));
    let (command, next) = asked(fs.release(6));
    assert!(matches!(command, Command::Close(6)));
    assert!(matches!(replied(fs.resume(next, Ok(Answer::Done))), Response::Empty));
    assert!(matches!(replied(fs.flush()), Response::Empty));
    assert!(matches!(replied(fs.fsync()), Response::Empty));
}

#[test]
fn creation_opens_and_shows() {
    let mut fs = filesystem();
    let (command, next) = asked(fs.create(1, name("n"), libc::O_WRONLY | libc::O_TRUNC));
    assert!(matches!(command, Command::Open(path, AfcFopenMode::WrOnly) if path == "/n"));
    let (command, next) = asked(fs.resume(next, Ok(Answer::Handle(8))));
    assert!(matches!(command, Command::FileInfo(path) if path == "/n"));
    assert!(matches!(
        replied(fs.resume(next, known(RemoteFileType::RegularFile))),
        Response::Created(attr, 8) if attr.ino == 2
    ));
}

#[test]
fn failed_creation_closes_the_file() {
    let mut fs = filesystem();
    let (_, next) = asked(fs.create(1, name("n"), libc::O_RDWR));
    let (_, next) = asked(fs.resume(next, Ok(Answer::Handle(8))));
    let (command, next) = asked(fs.resume(next, refusal(AfcError::PermDenied)));
    assert!(matches!(command, Command::Close(8)));
    assert_eq!(refused(fs.resume(next, refusal(AfcError::ObjectBusy))), Errno::EPERM);
    assert!(fs.path(2).is_err());
}

/// Lists the root directory from a position on, with room for so many entries.
fn listed(names: &[&str], offset: u64, room: usize) -> Vec<(u64, u64, String)> {
    let mut fs = filesystem();
    let (command, next) = asked(fs.readdir(1, offset));
    assert!(matches!(command, Command::ListDir(path) if path == "/"));
    let names = names.iter().map(|name| name.to_string()).collect();
    let mut step = fs.resume(next, Ok(Answer::Names(names)));
    let mut entries = Vec::new();
    loop {
        match step {
            Step::Ask(Command::FileInfo(_), next) => {
                step = fs.resume(next, known(RemoteFileType::RegularFile));
            }
            Step::Add(entry, next) => {
                let full = entries.len() == room;
                if !full {
                    entries.push((entry.inode, entry.offset, entry.name));
                }
                step = fs.added(next, full);
            }
            Step::Reply(Response::Directory) => return entries,
            other => panic!("unexpected {:?}", other),
        }
    }
}

#[test]
fn listings_show_every_name() {
    let all = [
        (1, 1, ".".to_string()),
        (1, 2, "..".to_string()),
        (2, 3, "a".to_string()),
        (3, 4, "b".to_string()),
    ];
    assert_eq!(listed(&["a", "b"], 0, 10), all);
    assert_eq!(listed(&[".", "..", "a", "b"], 0, 10), all);
    assert_eq!(listed(&["a", "b"], 0, 2), all[..2]);
    assert_eq!(listed(&["a", "b"], 3, 10), [(2, 4, "b".to_string())]);
    assert!(listed(&["a", "b"], 4, 10).is_empty());
    assert_eq!(listed(&["a", "."], 0, 1), [(2, 1, "a".to_string())]);
    let names: Vec<String> = listed(&["a", "."], 0, 9).into_iter().map(|entry| entry.2).collect();
    assert_eq!(names, ["a", "..", "."]);
}

#[test]
fn space_is_counted_in_blocks() {
    let stat = filesystem().statfs();
    assert_eq!((stat.blocks, stat.bfree, stat.bavail), (10, 5, 5));
    assert_eq!((stat.files, stat.ffree), (1_000_000_000, 1_000_000_000));
    assert_eq!((stat.bsize, stat.namelen, stat.frsize), (1_000, 255, 1_000));
    let mut fs = filesystem();
    fs.device_info.block_size = 0;
    let stat = fs.statfs();
    assert_eq!((stat.blocks, stat.bsize), (10_000, 0));
}

#[test]
fn kinds_and_permissions() {
    let kinds = [
        (RemoteFileType::RegularFile, FileType::RegularFile, 0o644),
        (RemoteFileType::Directory, FileType::Directory, 0o755),
        (RemoteFileType::Symlink, FileType::Symlink, 0o777),
        (RemoteFileType::BlockDevice, FileType::BlockDevice, 0o644),
        (RemoteFileType::CharDevice, FileType::CharDevice, 0o644),
        (RemoteFileType::NamedPipe, FileType::NamedPipe, 0o644),
        (RemoteFileType::Socket, FileType::Socket, 0o644),
    ];
    for (remote, shown, perm) in kinds {
        assert_eq!(file_type(remote), shown);
        assert_eq!(filesystem().attr(1, &info(remote)).perm, perm);
    }
}

#[test]
fn errors_have_numbers() {
    let cases = [
        (AfcError::NoResources, Errno::EMFILE),
        (AfcError::ReadError, Errno::ENOTDIR),
        (AfcError::InvalidArg, Errno::EINVAL),
        (AfcError::ObjectNotFound, Errno::ENOENT),
        (AfcError::ObjectIsDir, Errno::EISDIR),
        (AfcError::DirNotEmpty, Errno::ENOTEMPTY),
        (AfcError::PermDenied, Errno::EPERM),
        (AfcError::ServiceNotConnected, Errno::ENXIO),
        (AfcError::OpTimeout, Errno::ETIMEDOUT),
        (AfcError::TooMuchData, Errno::EFBIG),
        (AfcError::EndOfData, Errno::ENODATA),
        (AfcError::OpNotSupported, Errno::ENOSYS),
        (AfcError::ObjectExists, Errno::EEXIST),
        (AfcError::ObjectBusy, Errno::EBUSY),
        (AfcError::NoSpaceLeft, Errno::ENOSPC),
        (AfcError::OpWouldBlock, Errno::EWOULDBLOCK),
        (AfcError::OpInterrupted, Errno::EINTR),
        (AfcError::OpInProgress, Errno::EALREADY),
        (AfcError::WriteError, Errno::EIO),
    ];
    for (status, number) in cases {
        assert_eq!(errno(&Error::Device(DeviceError::Afc(status))), number);
    }
    assert_eq!(errno(&Error::NonUtf8Path(PathBuf::new())), Errno::EILSEQ);
    assert_eq!(errno(&Error::BackendStopped), Errno::ENXIO);
    assert_eq!(errno(&Error::DeviceNotFound), Errno::ENXIO);
    assert_eq!(errno(&Error::Device(DeviceError::Timeout)), Errno::EIO);
}

#[test]
fn answers_of_another_kind_are_refused() {
    let mut fs = filesystem();
    let (_, next) = asked(fs.read(1, 0, 1));
    assert_eq!(refused(fs.resume(next, Ok(Answer::Done))), Errno::EIO);
    assert!(fs.has_room());
}
