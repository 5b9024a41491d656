//! The filesystem that FUSE is shown: each operation as a series of requests to the device, and
//! what it is answered with.

use std::path::PathBuf;
use vstd::prelude::*;
use vstd::string::*;

use crate::afc;
use crate::afc::{RemoteDeviceInfo, RemoteFileInfo, RemoteFileType};
use crate::backend;
use crate::backend::{Answer, Command, Mtime};
use crate::error;
use crate::error::{Errno, Error, Result};
use crate::inode;
use crate::inode::InodeTable;
use crate::text;
use crate::transport;
use crate::transport::{AfcFopenMode, LinkType};

verus! {

/// What FUSE takes an object for.
#[derive(Clone, Copy, Debug, PartialEq, Eq, Structural)]
pub enum FileType {
    NamedPipe,
    CharDevice,
    BlockDevice,
    Directory,
    RegularFile,
    Symlink,
    Socket,
}

/// What FUSE takes an object of the device for.
pub open spec fn file_type_of(kind: RemoteFileType) -> FileType {
    match kind {
        RemoteFileType::RegularFile => FileType::RegularFile,
        RemoteFileType::Directory => FileType::Directory,
        RemoteFileType::Symlink => FileType::Symlink,
        RemoteFileType::BlockDevice => FileType::BlockDevice,
        RemoteFileType::CharDevice => FileType::CharDevice,
        RemoteFileType::NamedPipe => FileType::NamedPipe,
        RemoteFileType::Socket => FileType::Socket,
    }
}

/// What FUSE takes an object of the device for.
pub fn file_type(kind: RemoteFileType) -> (r: FileType)
    ensures
        r == file_type_of(kind),
{
    match kind {
        RemoteFileType::RegularFile => FileType::RegularFile,
        RemoteFileType::Directory => FileType::Directory,
        RemoteFileType::Symlink => FileType::Symlink,
        RemoteFileType::BlockDevice => FileType::BlockDevice,
        RemoteFileType::CharDevice => FileType::CharDevice,
        RemoteFileType::NamedPipe => FileType::NamedPipe,
        RemoteFileType::Socket => FileType::Socket,
    }
}

/// How the flags of `open` say that a file is used.
#[derive(Clone, Copy, Debug, PartialEq, Eq, Structural)]
pub enum OpenAccMode {
    RdOnly,
    WrOnly,
    RdWr,
}

/// How the flags of `open` say that a file is used: by their two lowest bits.
pub open spec fn access_of(flags: i32) -> OpenAccMode {
    if flags & 3 == 1 {
        OpenAccMode::WrOnly
    } else if flags & 3 == 2 {
        OpenAccMode::RdWr
    } else {
        OpenAccMode::RdOnly
    }
}

/// `fuser::OpenFlags::acc_mode` reads the access mode off the bits of `O_ACCMODE`, which on Linux
/// with glibc are the two lowest: 1 is writing, 2 is both, and everything else counts as reading.
#[verifier::external_body]
fn acc_mode(flags: i32) -> (r: OpenAccMode)
    ensures
        r == access_of(flags),
{
    match fuser::OpenFlags(flags).acc_mode() {
        fuser::OpenAccMode::O_RDONLY => OpenAccMode::RdOnly,
        fuser::OpenAccMode::O_WRONLY => OpenAccMode::WrOnly,
        fuser::OpenAccMode::O_RDWR => OpenAccMode::RdWr,
    }
}

/// `libc::O_APPEND`, as it is on Linux with glibc on x86-64 and AArch64.
#[verifier::external_body]
fn append_flag() -> (r: i32)
    ensures
        r == 1024,
{
    libc::O_APPEND
}

/// `libc::O_TRUNC`, as it is on Linux with glibc on x86-64 and AArch64.
#[verifier::external_body]
fn truncate_flag() -> (r: i32)
    ensures
        r == 512,
{
    libc::O_TRUNC
}

/// `libc::O_CREAT`, as it is on Linux with glibc on x86-64 and AArch64.
#[verifier::external_body]
fn create_flag() -> (r: i32)
    ensures
        r == 64,
{
    libc::O_CREAT
}

/// How a file is opened on the device for the flags of `open`.
pub open spec fn mode_of(flags: i32) -> AfcFopenMode {
    let truncate = flags & 512 != 0;
    let append = flags & 1024 != 0;
    match access_of(flags) {
        OpenAccMode::RdOnly => AfcFopenMode::RdOnly,
        OpenAccMode::WrOnly => if truncate {
            AfcFopenMode::WrOnly
        } else if append {
            AfcFopenMode::Append
        } else {
            AfcFopenMode::Rw
        },
        OpenAccMode::RdWr => if truncate {
            AfcFopenMode::Wr
        } else if append {
            AfcFopenMode::RdAppend
        } else {
            AfcFopenMode::Rw
        },
    }
}

/// How a file is opened on the device for the flags of `open`.
pub fn open_mode(flags: i32) -> (r: Result<AfcFopenMode>)
    ensures
        r == Ok::<AfcFopenMode, Error>(mode_of(flags)),
{
    let append: bool = flags & append_flag() != 0;
    let truncate: bool = flags & truncate_flag() != 0;
    Ok(
        match acc_mode(flags) {
            OpenAccMode::RdOnly => AfcFopenMode::RdOnly,
            OpenAccMode::WrOnly => if truncate {
                AfcFopenMode::WrOnly
            } else if append {
                AfcFopenMode::Append
            } else {
                AfcFopenMode::Rw
            },
            OpenAccMode::RdWr => if truncate {
                AfcFopenMode::Wr
            } else if append {
                AfcFopenMode::RdAppend
            } else {
                AfcFopenMode::Rw
            },
        },
    )
}

/// Creating a file opens it in the mode that its flags ask for without that.
pub proof fn law_creating_keeps_the_mode(flags: i32)
    ensures
        mode_of(flags | 64) == mode_of(flags),
{
    assert((flags | 64) & 3 == flags & 3) by (bit_vector);
    assert((flags | 64) & 512 == flags & 512) by (bit_vector);
    assert((flags | 64) & 1024 == flags & 1024) by (bit_vector);
}

/// A file that is opened for reading alone is never changed by it, and a file that is to be emptied
/// is emptied: of the modes, only two empty a file.
pub proof fn law_modes_do_what_flags_say(flags: i32)
    ensures
        access_of(flags) == OpenAccMode::RdOnly <==> mode_of(flags) == AfcFopenMode::RdOnly,
        access_of(flags) != OpenAccMode::RdOnly ==> (flags & 512 != 0 <==> mode_of(flags)
            == AfcFopenMode::WrOnly || mode_of(flags) == AfcFopenMode::Wr),
        access_of(flags) != OpenAccMode::RdOnly ==> (flags & 512 == 0 && flags & 1024 != 0
            <==> mode_of(flags) == AfcFopenMode::Append || mode_of(flags)
            == AfcFopenMode::RdAppend),
{
}

/// What FUSE is told of an object. Times are in nanoseconds since 1970.
#[derive(Clone, Copy, Debug, PartialEq, Eq, Structural)]
pub struct FileAttr {
    pub ino: u64,
    pub size: u64,
    pub blocks: u64,
    pub atime: u64,
    pub mtime: u64,
    pub ctime: u64,
    pub crtime: u64,
    pub kind: FileType,
    pub perm: u16,
    pub nlink: u32,
    pub uid: u32,
    pub gid: u32,
    pub rdev: u32,
    pub blksize: u32,
    pub flags: u32,
}

/// The permissions that an object is shown with: a directory can be searched, a link can be
/// followed, and everything else can be read by all and written by its owner.
pub open spec fn permissions(kind: FileType) -> u16 {
    match kind {
        FileType::Directory => 0o755,
        FileType::Symlink => 0o777,
        _ => 0o644,
    }
}

/// What the filesystem is told of the space on the device.
#[derive(Clone, Copy, Debug, PartialEq, Eq, Structural)]
pub struct Statfs {
    pub blocks: u64,
    pub bfree: u64,
    pub bavail: u64,
    pub files: u64,
    pub ffree: u64,
    pub bsize: u32,
    pub namelen: u32,
    pub frsize: u32,
}

/// What an operation is answered with.
#[derive(Debug)]
pub enum Response {
    Entry(FileAttr),
    Attr(FileAttr),
    Data(Vec<u8>),
    Opened(u64),
    Written(u32),
    Empty,
    /// The entries that were added.
    Directory,
    Created(FileAttr, u64),
    Failed(Errno),
}

/// What an operation is answered with.
pub ghost enum Shown {
    Entry(FileAttr),
    Attr(FileAttr),
    Data(Seq<u8>),
    Opened(u64),
    Written(u32),
    Empty,
    Directory,
    Created(FileAttr, u64),
    Failed(Errno),
}

impl View for Response {
    type V = Shown;

    open spec fn view(&self) -> Shown {
        match *self {
            Response::Entry(attr) => Shown::Entry(attr),
            Response::Attr(attr) => Shown::Attr(attr),
            Response::Data(bytes) => Shown::Data(bytes@),
            Response::Opened(handle) => Shown::Opened(handle),
            Response::Written(count) => Shown::Written(count),
            Response::Empty => Shown::Empty,
            Response::Directory => Shown::Directory,
            Response::Created(attr, handle) => Shown::Created(attr, handle),
            Response::Failed(errno) => Shown::Failed(errno),
        }
    }
}

/// How an operation goes on once its last request is answered.
#[derive(Debug)]
pub enum Continuation {
    /// The object at a path is shown as an entry.
    Entry { path: String },
    /// The object of an inode is shown.
    Attr { inode: u64 },
    /// The size is set, and the time is next.
    Sized { inode: u64, path: String, mtime: Option<Mtime> },
    /// The time is set.
    Timed { inode: u64, path: String },
    /// The target of a link is shown.
    Readlink,
    /// The object at a path is made.
    Made { path: String },
    /// A path is renamed.
    Renamed { from: String, to: String },
    /// A path is removed.
    Removed { path: String },
    /// A file is opened.
    Opened,
    /// Bytes are read.
    Read,
    /// Bytes are written.
    Written,
    /// A file is closed.
    Released,
    /// The names in a directory are there.
    Names { path: String, offset: u64 },
    /// The object of a name in a directory is known.
    Listed { path: String, names: Vec<String>, index: usize },
    /// The entry before `index` was added.
    Added { path: String, names: Vec<String>, index: usize },
    /// A new file is opened.
    CreateOpened { path: String },
    /// A new file is known.
    CreateKnown { path: String, handle: u64 },
    /// A new file that is not known is closed.
    CreateClosed { errno: Errno },
}

/// How an operation goes on once its last request is answered.
pub ghost enum Stage {
    Entry { path: Seq<char> },
    Attr { inode: u64 },
    Sized { inode: u64, path: Seq<char>, mtime: Option<Mtime> },
    Timed { inode: u64, path: Seq<char> },
    Readlink,
    Made { path: Seq<char> },
    Renamed { from: Seq<char>, to: Seq<char> },
    Removed { path: Seq<char> },
    Opened,
    Read,
    Written,
    Released,
    Names { path: Seq<char>, offset: u64 },
    Listed { path: Seq<char>, names: Seq<Seq<char>>, index: nat },
    Added { path: Seq<char>, names: Seq<Seq<char>>, index: nat },
    CreateOpened { path: Seq<char> },
    CreateKnown { path: Seq<char>, handle: u64 },
    CreateClosed { errno: Errno },
}

impl View for Continuation {
    type V = Stage;

    open spec fn view(&self) -> Stage {
        match *self {
            Continuation::Entry { path } => Stage::Entry { path: path@ },
            Continuation::Attr { inode } => Stage::Attr { inode },
            Continuation::Sized { inode, path, mtime } => Stage::Sized { inode, path: path@, mtime },
            Continuation::Timed { inode, path } => Stage::Timed { inode, path: path@ },
            Continuation::Readlink => Stage::Readlink,
            Continuation::Made { path } => Stage::Made { path: path@ },
            Continuation::Renamed { from, to } => Stage::Renamed { from: from@, to: to@ },
            Continuation::Removed { path } => Stage::Removed { path: path@ },
            Continuation::Opened => Stage::Opened,
            Continuation::Read => Stage::Read,
            Continuation::Written => Stage::Written,
            Continuation::Released => Stage::Released,
            Continuation::Names { path, offset } => Stage::Names { path: path@, offset },
            Continuation::Listed { path, names, index } => Stage::Listed {
                path: path@,
                names: afc::texts(names@),
                index: index as nat,
            },
            Continuation::Added { path, names, index } => Stage::Added {
                path: path@,
                names: afc::texts(names@),
                index: index as nat,
            },
            Continuation::CreateOpened { path } => Stage::CreateOpened { path: path@ },
            Continuation::CreateKnown { path, handle } => Stage::CreateKnown { path: path@, handle },
            Continuation::CreateClosed { errno } => Stage::CreateClosed { errno },
        }
    }
}

/// An entry of a directory, and where the listing goes on after it.
#[derive(Debug)]
pub struct DirEntry {
    pub inode: u64,
    pub offset: u64,
    pub kind: FileType,
    pub name: String,
}

/// What to do next for an operation.
#[derive(Debug)]
pub enum Step {
    /// Ask the device for something.
    Ask(Command, Continuation),
    /// Add an entry to the listing that is asked for.
    Add(DirEntry, Continuation),
    /// Answer the operation.
    Reply(Response),
}

/// What to do next for an operation.
pub ghost enum Act {
    Ask(backend::Wish, Stage),
    Add { inode: u64, offset: u64, kind: FileType, name: Seq<char>, next: Stage },
    Reply(Shown),
}

impl View for Step {
    type V = Act;

    open spec fn view(&self) -> Act {
        match *self {
            Step::Ask(command, next) => Act::Ask(command@, next@),
            Step::Add(entry, next) => Act::Add {
                inode: entry.inode,
                offset: entry.offset,
                kind: entry.kind,
                name: entry.name@,
                next: next@,
            },
            Step::Reply(response) => Act::Reply(response@),
        }
    }
}

/// What a filesystem holds: the numbers of the paths that FUSE knows, the block size of the device,
/// and whose its objects are.
#[verifier::ext_equal]
pub ghost struct Core {
    pub table: inode::Inodes,
    pub block_size: u32,
    pub uid: u32,
    pub gid: u32,
}

impl Core {
    /// What FUSE is told of an object.
    pub open spec fn attr(self, inode: u64, facts: afc::FileFacts) -> FileAttr {
        FileAttr {
            ino: inode,
            size: facts.size,
            blocks: facts.blocks,
            atime: facts.modified,
            mtime: facts.modified,
            ctime: facts.modified,
            crtime: facts.created,
            kind: file_type_of(facts.kind),
            perm: permissions(file_type_of(facts.kind)),
            nlink: facts.nlink,
            uid: self.uid,
            gid: self.gid,
            rdev: 0,
            blksize: self.block_size,
            flags: 0,
        }
    }

    /// The path of an inode, or what FUSE is told where it has none.
    pub open spec fn path(self, inode: u64) -> std::result::Result<Seq<char>, Errno> {
        if self.table.paths.contains_key(inode) {
            Ok(self.table.paths[inode])
        } else {
            Err(Errno::EIO)
        }
    }

    /// The path of a name in the directory of an inode, or what FUSE is told where it has none. A
    /// name that is no text comes as the path it makes by itself.
    pub open spec fn named_path(
        self,
        parent: u64,
        name: std::result::Result<String, PathBuf>,
    ) -> std::result::Result<Seq<char>, Errno> {
        match (name, self.path(parent)) {
            (Err(_), _) => Err(Errno::EILSEQ),
            (Ok(_), Err(errno)) => Err(errno),
            (Ok(name), Ok(path)) => Ok(inode::child_path(path, name@)),
        }
    }

    /// The filesystem with another table.
    pub open spec fn with(self, table: inode::Inodes) -> Core {
        Core { table, ..self }
    }
}

/// A failed operation.
pub open spec fn failed(errno: Errno) -> Act {
    Act::Reply(Shown::Failed(errno))
}

/// The path that a name in the listing of a directory leads to.
pub open spec fn entry_path(path: Seq<char>, name: Seq<char>) -> Seq<char> {
    if name == seq!['.'] {
        path
    } else if name == seq!['.', '.'] {
        inode::parent_path(path)
    } else {
        inode::child_path(path, name)
    }
}

/// The names in a directory, with the directory itself at first and its parent after that, where
/// the device leaves them out.
pub open spec fn with_dots(names: Seq<Seq<char>>) -> Seq<Seq<char>> {
    let here = if names.contains(seq!['.']) {
        names
    } else {
        names.insert(0, seq!['.'])
    };
    if here.contains(seq!['.', '.']) {
        here
    } else {
        here.insert(1, seq!['.', '.'])
    }
}

/// How a listing goes on with the name at a position.
pub open spec fn next_entry(path: Seq<char>, names: Seq<Seq<char>>, index: nat) -> Act {
    if index < names.len() {
        Act::Ask(
            backend::Wish::FileInfo(entry_path(path, names[index as int])),
            Stage::Listed { path, names, index },
        )
    } else {
        Act::Reply(Shown::Directory)
    }
}

/// How an operation goes on once its last request has an outcome, and what the filesystem is then.
pub open spec fn resumed(core: Core, stage: Stage, outcome: backend::Said) -> (Core, Act) {
    match (stage, outcome) {
        (Stage::CreateKnown { handle, .. }, backend::Said::Failed(failure)) => (
            core,
            Act::Ask(
                backend::Wish::Close(handle),
                Stage::CreateClosed { errno: error::failure_errno(failure) },
            ),
        ),
        (Stage::CreateClosed { errno }, _) => (core, failed(errno)),
        (_, backend::Said::Failed(failure)) => (core, failed(error::failure_errno(failure))),
        (Stage::Entry { path }, backend::Said::FileInfo(facts)) => (
            core.with(core.table.numbered(path)),
            Act::Reply(Shown::Entry(core.attr(core.table.number(path), facts))),
        ),
        (Stage::Attr { inode }, backend::Said::FileInfo(facts)) => (
            core,
            Act::Reply(Shown::Attr(core.attr(inode, facts))),
        ),
        (Stage::Sized { inode, path, mtime }, backend::Said::Done) => (
            core,
            match mtime {
                Some(time) => Act::Ask(
                    backend::Wish::SetMtime(path, time),
                    Stage::Timed { inode, path },
                ),
                None => Act::Ask(backend::Wish::FileInfo(path), Stage::Attr { inode }),
            },
        ),
        (Stage::Timed { inode, path }, backend::Said::Done) => (
            core,
            Act::Ask(backend::Wish::FileInfo(path), Stage::Attr { inode }),
        ),
        (Stage::Readlink, backend::Said::FileInfo(facts)) => (
            core,
            match facts.link_target {
                Some(target) => Act::Reply(Shown::Data(vstd::utf8::encode_utf8(target))),
                None => failed(Errno::EIO),
            },
        ),
        (Stage::Made { path }, backend::Said::Done) => (
            core,
            Act::Ask(backend::Wish::FileInfo(path), Stage::Entry { path }),
        ),
        (Stage::Renamed { from, to }, backend::Said::Done) => (
            core.with(core.table.renamed(from, to)),
            Act::Reply(Shown::Empty),
        ),
        (Stage::Removed { path }, backend::Said::Done) => (
            core.with(core.table.removed(path)),
            Act::Reply(Shown::Empty),
        ),
        (Stage::Opened, backend::Said::Handle(handle)) => (
            core,
            Act::Reply(Shown::Opened(handle)),
        ),
        (Stage::Read, backend::Said::Data(bytes)) => (core, Act::Reply(Shown::Data(bytes))),
        (Stage::Written, backend::Said::Count(count)) => (core, Act::Reply(Shown::Written(count))),
        (Stage::Released, backend::Said::Done) => (core, Act::Reply(Shown::Empty)),
        (Stage::Names { path, offset }, backend::Said::Names(names)) => (
            core,
            next_entry(path, with_dots(names), offset as usize as nat),
        ),
        (Stage::Listed { path, names, index }, backend::Said::FileInfo(facts)) if index
            < names.len() => {
            let there = entry_path(path, names[index as int]);
            (
                core.with(core.table.numbered(there)),
                Act::Add {
                    inode: core.table.number(there),
                    offset: (index + 1) as u64,
                    kind: file_type_of(facts.kind),
                    name: names[index as int],
                    next: Stage::Added { path, names, index: index + 1 },
                },
            )
        },
        (Stage::CreateOpened { path }, backend::Said::Handle(handle)) => (
            core,
            Act::Ask(backend::Wish::FileInfo(path), Stage::CreateKnown { path, handle }),
        ),
        (Stage::CreateKnown { path, handle }, backend::Said::FileInfo(facts)) => (
            core.with(core.table.numbered(path)),
            Act::Reply(Shown::Created(core.attr(core.table.number(path), facts), handle)),
        ),
        _ => (core, failed(Errno::EIO)),
    }
}

/// The path whose object FUSE is shown by its number, where an operation comes to that.
pub open spec fn shown_path(stage: Stage, outcome: backend::Said) -> Option<Seq<char>> {
    match (stage, outcome) {
        (Stage::Entry { path }, backend::Said::FileInfo(_)) => Some(path),
        (Stage::CreateKnown { path, .. }, backend::Said::FileInfo(_)) => Some(path),
        (Stage::Listed { path, names, index }, backend::Said::FileInfo(_)) if index
            < names.len() => Some(entry_path(path, names[index as int])),
        _ => None,
    }
}

/// Whether an outcome is of the kind that an operation waits for.
pub open spec fn wants(stage: Stage, outcome: backend::Said) -> bool {
    ||| outcome is Failed
    ||| match stage {
        Stage::Entry { .. } => outcome is FileInfo,
        Stage::Attr { .. } => outcome is FileInfo,
        Stage::Sized { .. } => outcome is Done,
        Stage::Timed { .. } => outcome is Done,
        Stage::Readlink => outcome is FileInfo,
        Stage::Made { .. } => outcome is Done,
        Stage::Renamed { .. } => outcome is Done,
        Stage::Removed { .. } => outcome is Done,
        Stage::Opened => outcome is Handle,
        Stage::Read => outcome is Data,
        Stage::Written => outcome is Count,
        Stage::Released => outcome is Done,
        Stage::Names { .. } => outcome is Names,
        Stage::Listed { .. } => outcome is FileInfo,
        Stage::Added { .. } => false,
        Stage::CreateOpened { .. } => outcome is Handle,
        Stage::CreateKnown { .. } => outcome is FileInfo,
        Stage::CreateClosed { .. } => outcome is Done,
    }
}

/// Whether what is asked for is what is then waited for.
pub open spec fn consistent(act: Act) -> bool {
    match act {
        Act::Ask(wish, stage) => forall|outcome: backend::Said|
            backend::fits(wish, outcome) ==> #[trigger] wants(stage, outcome),
        Act::Add { next, .. } => next is Added,
        Act::Reply(_) => true,
    }
}

/// An operation only asks for what it then waits for, at every step.
pub proof fn law_steps_are_consistent(core: Core, stage: Stage, outcome: backend::Said)
    ensures
        consistent(resumed(core, stage, outcome).1),
{
}

/// What is read through the mount is what the file holds: FUSE is answered with the bytes from the
/// position on, as many as were asked for or as there are, where the device does what it is asked.
pub proof fn law_reads_show_the_file(
    core: Core,
    root: Seq<char>,
    number: u64,
    handle: u64,
    offset: u64,
    size: u32,
    file: Seq<u8>,
)
    ensures
        ({
            let wish = backend::Wish::Read(handle, offset, size);
            let bytes = file.take(
                if file.len() < size {
                    file.len() as int
                } else {
                    size as int
                },
            );
            &&& transport::opening(wish, root, None) matches Some((operation, header, pending)) && {
                &&& transport::packet(number, operation, header, Seq::empty())
                    == transport::seek_packet(number, handle, offset)
                &&& match transport::turn(
                    transport::next_number(number),
                    pending,
                    transport::done_reply(),
                ) {
                    transport::Turn::Finished(outcome) => outcome == backend::Said::Data(bytes),
                    transport::Turn::Send { pending: next, .. } => transport::served(
                        transport::next_number(transport::next_number(number)),
                        next,
                        file,
                    ) == bytes,
                }
            }
            &&& resumed(core, Stage::Read, backend::Said::Data(bytes)) == (
                core,
                Act::Reply(Shown::Data(bytes)),
            )
        }),
{
    let pending = transport::Await::SeekRead { handle, size: size as nat };
    transport::law_read_serves_file(
        transport::next_number(number),
        handle,
        size as nat,
        file,
    );
    assert(transport::opening(backend::Wish::Read(handle, offset, size), root, None) == Some(
        (
            transport::AfcOpcode::FileSeek,
            transport::word(handle as nat) + transport::word(0) + transport::word(offset as nat),
            pending,
        ),
    ));
    if size == 0 {
        assert(file.take(0) =~= Seq::<u8>::empty());
    }
}

/// What is written through the mount reaches the device whole: its bytes are sent in order and
/// once, from the position on, and FUSE is told that all of them were written.
pub proof fn law_writes_reach_the_device(
    core: Core,
    root: Seq<char>,
    number: u64,
    handle: u64,
    offset: u64,
    bytes: Seq<u8>,
)
    ensures
        ({
            let wish = backend::Wish::Write(handle, offset, bytes);
            let count = bytes.len() as u32;
            let after = transport::next_number(number);
            &&& transport::opening(wish, root, None) matches Some((operation, header, pending)) && {
                &&& transport::packet(number, operation, header, Seq::empty())
                    == transport::seek_packet(number, handle, offset)
                &&& match transport::turn(after, pending, transport::done_reply()) {
                    transport::Turn::Finished(outcome) => bytes.len() == 0 && outcome
                        == backend::Said::Count(count),
                    transport::Turn::Send { packet, pending: next } => {
                        let rest = transport::write_run(transport::next_number(after), next);
                        &&& seq![packet] + rest.0 == transport::write_packets(
                            after,
                            handle,
                            transport::chunks(bytes),
                        )
                        &&& rest.1 == backend::Said::Count(count)
                    },
                }
            }
            &&& transport::concatenated(transport::chunks(bytes)) == bytes
            &&& resumed(core, Stage::Written, backend::Said::Count(count)) == (
                core,
                Act::Reply(Shown::Written(count)),
            )
        }),
{
    let pending = transport::Await::SeekWrite { handle, bytes };
    transport::law_write_sends_all(transport::next_number(number), handle, bytes);
    transport::law_chunks_lose_nothing(bytes);
    assert(transport::opening(backend::Wish::Write(handle, offset, bytes), root, None) == Some(
        (
            transport::AfcOpcode::FileSeek,
            transport::word(handle as nat) + transport::word(0) + transport::word(offset as nat),
            pending,
        ),
    ));
}

/// An object that was looked up or made is known to FUSE by a number that leads back to its path,
/// and what the number of any other path leads to stays the same.
pub proof fn law_shown_entries_lead_back(
    core: Core,
    path: Seq<char>,
    handle: u64,
    facts: afc::FileFacts,
    other: u64,
)
    requires
        core.table.wf(),
        core.table.can_number(path),
    ensures
        ({
            let (after, act) = resumed(core, Stage::Entry { path }, backend::Said::FileInfo(facts));
            &&& act matches Act::Reply(Shown::Entry(attr)) && after.path(attr.ino) == Ok::<
                Seq<char>,
                Errno,
            >(path)
            &&& core.table.paths.contains_key(other) ==> after.path(other) == core.path(other)
        }),
        ({
            let (after, act) = resumed(
                core,
                Stage::CreateKnown { path, handle },
                backend::Said::FileInfo(facts),
            );
            &&& act matches Act::Reply(Shown::Created(attr, opened)) && opened == handle
                && after.path(attr.ino) == Ok::<Seq<char>, Errno>(path)
            &&& core.table.paths.contains_key(other) ==> after.path(other) == core.path(other)
        }),
{
    inode::law_number_leads_back(core.table, path, path);
}

/// A request that fails ends its operation at once, with the errno of the failure, and changes
/// nothing; only a file that was opened for being made is closed first.
pub proof fn law_failures_are_answered(core: Core, stage: Stage, failure: error::Failure)
    requires
        !(stage is CreateKnown),
        !(stage is CreateClosed),
    ensures
        resumed(core, stage, backend::Said::Failed(failure)) == (
            core,
            failed(error::failure_errno(failure)),
        ),
{
}

/// A file that was opened for being made but cannot be shown is closed again, and the operation
/// fails with what kept it from being shown, whatever closing it leads to.
pub proof fn law_failed_creation_closes_the_file(
    core: Core,
    path: Seq<char>,
    handle: u64,
    failure: error::Failure,
    outcome: backend::Said,
)
    ensures
        ({
            let (after, act) = resumed(
                core,
                Stage::CreateKnown { path, handle },
                backend::Said::Failed(failure),
            );
            &&& after == core
            &&& act matches Act::Ask(wish, stage) && wish == backend::Wish::Close(handle)
                && resumed(core, stage, outcome) == (
                core,
                failed(error::failure_errno(failure)),
            )
        }),
{
}

/// A listing shows the directory and its parent, every name that the device lists, and nothing
/// else.
pub proof fn law_listing_has_dots(names: Seq<Seq<char>>, name: Seq<char>)
    ensures
        with_dots(names).contains(seq!['.']),
        with_dots(names).contains(seq!['.', '.']),
        name != seq!['.'] && name != seq!['.', '.'] ==> with_dots(names).contains(name)
            == names.contains(name),
{
    let here = if names.contains(seq!['.']) {
        names
    } else {
        names.insert(0, seq!['.'])
    };
    if !names.contains(seq!['.']) {
        lemma_insert_contains(names, 0, seq!['.'], name);
        lemma_insert_contains(names, 0, seq!['.'], seq!['.']);
    }
    if !here.contains(seq!['.', '.']) {
        assert(here.len() > 0);
        lemma_insert_contains(here, 1, seq!['.', '.'], name);
        lemma_insert_contains(here, 1, seq!['.', '.'], seq!['.']);
        lemma_insert_contains(here, 1, seq!['.', '.'], seq!['.', '.']);
    }
}

proof fn lemma_insert_contains(names: Seq<Seq<char>>, k: int, new: Seq<char>, name: Seq<char>)
    requires
        0 <= k <= names.len(),
    ensures
        names.insert(k, new).contains(name) == (names.contains(name) || name == new),
{
    let all = names.insert(k, new);
    if names.contains(name) {
        let i = choose|i: int| 0 <= i < names.len() && names[i] == name;
        if i < k {
            assert(all[i] == name);
        } else {
            assert(all[i + 1] == name);
        }
    }
    if name == new {
        assert(all[k] == name);
    }
    if all.contains(name) {
        let i = choose|i: int| 0 <= i < all.len() && all[i] == name;
        if i < k {
            assert(names[i] == name);
        } else if i > k {
            assert(names[i - 1] == name);
        }
    }
}

/// The entries that a listing shows from a position on, each with the position after it, where the
/// device knows all of them and there is room for all.
pub open spec fn listing(
    core: Core,
    path: Seq<char>,
    names: Seq<Seq<char>>,
    index: nat,
    facts: spec_fn(Seq<char>) -> afc::FileFacts,
) -> Seq<(u64, Seq<char>)>
    decreases names.len() - index,
{
    match next_entry(path, names, index) {
        Act::Ask(backend::Wish::FileInfo(there), stage) if index < names.len() => match resumed(
            core,
            stage,
            backend::Said::FileInfo(facts(there)),
        ) {
            (after, Act::Add { offset, name, next, .. }) => if next == (Stage::Added {
                path,
                names,
                index: index + 1,
            }) {
                seq![(offset, name)] + listing(after, path, names, index + 1, facts)
            } else {
                Seq::empty()
            },
            _ => Seq::empty(),
        },
        _ => Seq::empty(),
    }
}

/// A listing shows every name once and in order, and a listing that goes on after an entry goes on
/// with the name after that entry.
pub proof fn law_listing_shows_every_name(
    core: Core,
    path: Seq<char>,
    names: Seq<Seq<char>>,
    index: nat,
    facts: spec_fn(Seq<char>) -> afc::FileFacts,
)
    requires
        index <= names.len() <= u64::MAX,
    ensures
        listing(core, path, names, index, facts) == Seq::new(
            (names.len() - index) as nat,
            |k: int| ((index + k + 1) as u64, names[index + k]),
        ),
    decreases names.len() - index,
{
    let expected = Seq::new(
        (names.len() - index) as nat,
        |k: int| ((index + k + 1) as u64, names[index + k]),
    );
    if index < names.len() {
        let there = entry_path(path, names[index as int]);
        let stage = Stage::Listed { path, names, index };
        let (after, act) = resumed(core, stage, backend::Said::FileInfo(facts(there)));
        law_listing_shows_every_name(after, path, names, index + 1, facts);
        assert(listing(core, path, names, index, facts) =~= expected);
    } else {
        assert(expected =~= Seq::empty());
    }
}

/// The filesystem that FUSE is shown.
pub struct IfuseFilesystem {
    pub inodes: InodeTable,
    pub device_info: RemoteDeviceInfo,
    pub uid: u32,
    pub gid: u32,
}

impl View for IfuseFilesystem {
    type V = Core;

    open spec fn view(&self) -> Core {
        Core {
            table: self.inodes@,
            block_size: self.device_info.block_size,
            uid: self.uid,
            gid: self.gid,
        }
    }
}

/// A failed operation.
fn fail(e: &Error) -> (r: Step)
    ensures
        r@ == failed(error::errno_of(*e)),
        r@ == failed(error::failure_errno(error::failure_of(*e))),
{
    Step::Reply(Response::Failed(error::errno(e)))
}

/// The path that a name in the listing of a directory leads to.
fn listed_path(path: &str, name: &str) -> (r: String)
    ensures
        r@ == entry_path(path@, name@),
{
    proof {
        reveal_strlit(".");
        reveal_strlit("..");
        assert("."@ =~= seq!['.']);
        assert(".."@ =~= seq!['.', '.']);
    }
    if text::same(name, ".") {
        path.to_owned()
    } else if text::same(name, "..") {
        inode::parent(path).to_owned()
    } else {
        inode::child(path, name)
    }
}

/// Whether a name occurs among several.
fn has_name(names: &Vec<String>, name: &str) -> (r: bool)
    ensures
        r == afc::texts(names@).contains(name@),
{
    let mut i: usize = 0;
    while i < names.len()
        invariant
            i <= names@.len(),
            forall|j: int| 0 <= j < i ==> (#[trigger] names@[j])@ != name@,
        decreases names.len() - i,
    {
        if text::same(names[i].as_str(), name) {
            assert(afc::texts(names@)[i as int] == name@);
            return true;
        }
        i += 1;
    }
    assert forall|j: int| 0 <= j < afc::texts(names@).len() implies afc::texts(names@)[j]
        != name@ by {
        assert(names@[j]@ != name@);
    }
    false
}

/// The names in a directory, with the directory itself and its parent.
fn dotted(names: Vec<String>) -> (r: Vec<String>)
    ensures
        afc::texts(r@) == with_dots(afc::texts(names@)),
{
    proof {
        reveal_strlit(".");
        reveal_strlit("..");
        assert("."@ =~= seq!['.']);
        assert(".."@ =~= seq!['.', '.']);
    }
    let mut out: Vec<String> = names;
    if !has_name(&out, ".") {
        let ghost before = out@;
        out.insert(0, ".".to_owned());
        assert(afc::texts(out@) =~= afc::texts(before).insert(0, seq!['.']));
    }
    if !has_name(&out, "..") {
        let ghost before = out@;
        proof {
            let all = afc::texts(before);
            assert(all.contains(seq!['.'])) by {
                if !afc::texts(names@).contains(seq!['.']) {
                    assert(all[0] == seq!['.']);
                }
            }
            assert(all.len() > 0);
        }
        out.insert(1, "..".to_owned());
        assert(afc::texts(out@) =~= afc::texts(before).insert(1, seq!['.', '.']));
    }
    out
}

/// How a listing goes on with the name at a position.
fn entry_step(path: String, names: Vec<String>, index: usize) -> (r: Step)
    ensures
        r@ == next_entry(path@, afc::texts(names@), index as nat),
{
    if index < names.len() {
        let there: String = listed_path(path.as_str(), names[index].as_str());
        Step::Ask(Command::FileInfo(there), Continuation::Listed { path, names, index })
    } else {
        Step::Reply(Response::Directory)
    }
}

impl IfuseFilesystem {
    /// The filesystem of a new mount, for a user and a group.
    pub fn new(device_info: RemoteDeviceInfo, uid: u32, gid: u32) -> (r: Self)
        ensures
            r@ == (Core {
                table: inode::Inodes::initial(),
                block_size: device_info.block_size,
                uid,
                gid,
            }),
            r.device_info == device_info,
    {
        IfuseFilesystem { inodes: InodeTable::default(), device_info, uid, gid }
    }

    /// Whether there are inode numbers left to give out.
    pub fn has_room(&self) -> (r: bool)
        ensures
            r == (self@.table.next < u64::MAX),
    {
        self.inodes.has_room()
    }

    /// The path of an inode.
    pub fn path(&self, inode: u64) -> (r: Result<String>)
        ensures
            match self@.path(inode) {
                Ok(path) => r matches Ok(found) && found@ == path,
                Err(_) => r matches Err(e) && error::complains(
                    e,
                    "unknown inode "@ + text::decimal(inode as nat),
                ),
            },
    {
        match self.inodes.path(inode) {
            Some(path) => Ok(path),
            None => Err(
                Error::InvalidAfcResponse(
                    text::joined("unknown inode ", text::number(inode).as_str()),
                ),
            ),
        }
    }

    /// The path of a name in the directory of an inode.
    pub fn named_path(
        &self,
        parent: u64,
        name: std::result::Result<String, PathBuf>,
    ) -> (r: Result<String>)
        ensures
            match self@.named_path(parent, name) {
                Ok(path) => r matches Ok(found) && found@ == path,
                Err(errno) => r matches Err(e) && error::errno_of(e) == errno && match name {
                    Err(path) => e == Error::NonUtf8Path(path),
                    Ok(_) => error::complains(
                        e,
                        "unknown inode "@ + text::decimal(parent as nat),
                    ),
                },
            },
    {
        match name {
            Err(path) => Err(Error::NonUtf8Path(path)),
            Ok(name) => match self.path(parent) {
                Ok(path) => Ok(inode::child(path.as_str(), name.as_str())),
                Err(e) => Err(e),
            },
        }
    }

    /// What FUSE is told of an object.
    pub fn attr(&self, inode: u64, info: &RemoteFileInfo) -> (r: FileAttr)
        ensures
            r == self@.attr(inode, info@),
    {
        let kind: FileType = file_type(info.kind);
        let perm: u16 = match kind {
            FileType::Directory => 0o755,
            FileType::Symlink => 0o777,
            _ => 0o644,
        };
        FileAttr {
            ino: inode,
            size: info.size,
            blocks: info.blocks,
            atime: info.modified,
            mtime: info.modified,
            ctime: info.modified,
            crtime: info.created,
            kind,
            perm,
            nlink: info.nlink,
            uid: self.uid,
            gid: self.gid,
            rdev: 0,
            blksize: self.device_info.block_size,
            flags: 0,
        }
    }

    /// What FUSE is told of the object at a path, which gets a number where it has none.
    pub fn entry(&mut self, path: &str, info: &RemoteFileInfo) -> (r: FileAttr)
        requires
            old(self)@.table.can_number(path@),
        ensures
            r == old(self)@.attr(old(self)@.table.number(path@), info@),
            final(self)@ == old(self)@.with(old(self)@.table.numbered(path@)),
            final(self).device_info == old(self).device_info,
    {
        let inode: u64 = self.inodes.inode(path);
        self.attr(inode, info)
    }

    /// Looks up a name in a directory.
    pub fn lookup(&self, parent: u64, name: std::result::Result<String, PathBuf>) -> (r: Step)
        ensures
            consistent(r@),
            r@ == (match self@.named_path(parent, name) {
                Ok(path) => Act::Ask(backend::Wish::FileInfo(path), Stage::Entry { path }),
                Err(errno) => failed(errno),
            }),
    {
        match self.named_path(parent, name) {
            Ok(path) => Step::Ask(Command::FileInfo(path.clone()), Continuation::Entry { path }),
            Err(e) => fail(&e),
        }
    }

    /// Tells what an inode is.
    pub fn getattr(&self, inode: u64) -> (r: Step)
        ensures
            consistent(r@),
            r@ == (match self@.path(inode) {
                Ok(path) => Act::Ask(backend::Wish::FileInfo(path), Stage::Attr { inode }),
                Err(errno) => failed(errno),
            }),
    {
        match self.path(inode) {
            Ok(path) => Step::Ask(Command::FileInfo(path), Continuation::Attr { inode }),
            Err(e) => fail(&e),
        }
    }

    /// Sets the size and the time of modification of an inode, as far as they are given.
    pub fn setattr(&self, inode: u64, size: Option<u64>, mtime: Option<Mtime>) -> (r: Step)
        ensures
            consistent(r@),
            r@ == (match (self@.path(inode), size, mtime) {
                (Err(errno), _, _) => failed(errno),
                (Ok(path), Some(size), _) => Act::Ask(
                    backend::Wish::Truncate(path, size),
                    Stage::Sized { inode, path, mtime },
                ),
                (Ok(path), None, Some(time)) => Act::Ask(
                    backend::Wish::SetMtime(path, time),
                    Stage::Timed { inode, path },
                ),
                (Ok(path), None, None) => Act::Ask(
                    backend::Wish::FileInfo(path),
                    Stage::Attr { inode },
                ),
            }),
    {
        match self.path(inode) {
            Ok(path) => match (size, mtime) {
                (Some(size), mtime) => Step::Ask(
                    Command::Truncate(path.clone(), size),
                    Continuation::Sized { inode, path, mtime },
                ),
                (None, Some(time)) => Step::Ask(
                    Command::SetMtime(path.clone(), time),
                    Continuation::Timed { inode, path },
                ),
                (None, None) => Step::Ask(Command::FileInfo(path), Continuation::Attr { inode }),
            },
            Err(e) => fail(&e),
        }
    }

    /// Tells where a link leads.
    pub fn readlink(&self, inode: u64) -> (r: Step)
        ensures
            consistent(r@),
            r@ == (match self@.path(inode) {
                Ok(path) => Act::Ask(backend::Wish::FileInfo(path), Stage::Readlink),
                Err(errno) => failed(errno),
            }),
    {
        match self.path(inode) {
            Ok(path) => Step::Ask(Command::FileInfo(path), Continuation::Readlink),
            Err(e) => fail(&e),
        }
    }

    /// Makes a directory.
    pub fn mkdir(&self, parent: u64, name: std::result::Result<String, PathBuf>) -> (r: Step)
        ensures
            consistent(r@),
            r@ == (match self@.named_path(parent, name) {
                Ok(path) => Act::Ask(backend::Wish::Mkdir(path), Stage::Made { path }),
                Err(errno) => failed(errno),
            }),
    {
        match self.named_path(parent, name) {
            Ok(path) => Step::Ask(Command::Mkdir(path.clone()), Continuation::Made { path }),
            Err(e) => fail(&e),
        }
    }

    /// Removes a file.
    pub fn unlink(&self, parent: u64, name: std::result::Result<String, PathBuf>) -> (r: Step)
        ensures
            consistent(r@),
            r@ == (match self@.named_path(parent, name) {
                Ok(path) => Act::Ask(backend::Wish::Remove(path), Stage::Removed { path }),
                Err(errno) => failed(errno),
            }),
    {
        self.remove(parent, name)
    }

    /// Removes a directory.
    pub fn rmdir(&self, parent: u64, name: std::result::Result<String, PathBuf>) -> (r: Step)
        ensures
            consistent(r@),
            r@ == (match self@.named_path(parent, name) {
                Ok(path) => Act::Ask(backend::Wish::Remove(path), Stage::Removed { path }),
                Err(errno) => failed(errno),
            }),
    {
        self.remove(parent, name)
    }

    fn remove(&self, parent: u64, name: std::result::Result<String, PathBuf>) -> (r: Step)
        ensures
            consistent(r@),
            r@ == (match self@.named_path(parent, name) {
                Ok(path) => Act::Ask(backend::Wish::Remove(path), Stage::Removed { path }),
                Err(errno) => failed(errno),
            }),
    {
        match self.named_path(parent, name) {
            Ok(path) => Step::Ask(Command::Remove(path.clone()), Continuation::Removed { path }),
            Err(e) => fail(&e),
        }
    }

    /// Makes a symbolic link.
    pub fn symlink(
        &self,
        parent: u64,
        name: std::result::Result<String, PathBuf>,
        target: std::result::Result<String, PathBuf>,
    ) -> (r: Step)
        ensures
            consistent(r@),
            r@ == (match (self@.named_path(parent, name), target) {
                (Err(errno), _) => failed(errno),
                (Ok(_), Err(_)) => failed(Errno::EILSEQ),
                (Ok(path), Ok(target)) => Act::Ask(
                    backend::Wish::Link(target@, path, LinkType::Symlink),
                    Stage::Made { path },
                ),
            }),
    {
        match self.named_path(parent, name) {
            Ok(path) => match target {
                Ok(target) => Step::Ask(
                    Command::Link(target, path.clone(), LinkType::Symlink),
                    Continuation::Made { path },
                ),
                Err(target) => fail(&Error::NonUtf8Path(target)),
            },
            Err(e) => fail(&e),
        }
    }

    /// Renames an object. No flag of `renameat2` is supported.
    pub fn rename(
        &self,
        parent: u64,
        name: std::result::Result<String, PathBuf>,
        new_parent: u64,
        new_name: std::result::Result<String, PathBuf>,
        flags: u32,
    ) -> (r: Step)
        ensures
            consistent(r@),
            r@ == (if flags != 0 {
                failed(Errno::EINVAL)
            } else {
                match (
                    self@.named_path(parent, name),
                    self@.named_path(new_parent, new_name),
                ) {
                    (Err(errno), _) => failed(errno),
                    (Ok(_), Err(errno)) => failed(errno),
                    (Ok(from), Ok(to)) => Act::Ask(
                        backend::Wish::Rename(from, to),
                        Stage::Renamed { from, to },
                    ),
                }
            }),
    {
        if flags != 0 {
            return Step::Reply(Response::Failed(Errno::EINVAL));
        }
        match self.named_path(parent, name) {
            Ok(from) => match self.named_path(new_parent, new_name) {
                Ok(to) => Step::Ask(
                    Command::Rename(from.clone(), to.clone()),
                    Continuation::Renamed { from, to },
                ),
                Err(e) => fail(&e),
            },
            Err(e) => fail(&e),
        }
    }

    /// Makes a hard link.
    pub fn link(
        &self,
        inode: u64,
        new_parent: u64,
        new_name: std::result::Result<String, PathBuf>,
    ) -> (r: Step)
        ensures
            consistent(r@),
            r@ == (match (self@.path(inode), self@.named_path(new_parent, new_name)) {
                (Err(errno), _) => failed(errno),
                (Ok(_), Err(errno)) => failed(errno),
                (Ok(target), Ok(path)) => Act::Ask(
                    backend::Wish::Link(target, path, LinkType::Hardlink),
                    Stage::Made { path },
                ),
            }),
    {
        match self.path(inode) {
            Ok(target) => match self.named_path(new_parent, new_name) {
                Ok(path) => Step::Ask(
                    Command::Link(target, path.clone(), LinkType::Hardlink),
                    Continuation::Made { path },
                ),
                Err(e) => fail(&e),
            },
            Err(e) => fail(&e),
        }
    }

    fn open_path(&self, path: String, flags: i32) -> (r: Result<Command>)
        ensures
            r matches Ok(command) && command@ == backend::Wish::Open(path@, mode_of(flags)),
    {
        match open_mode(flags) {
            Ok(mode) => Ok(Command::Open(path, mode)),
            Err(e) => Err(e),
        }
    }

    /// Opens a file.
    pub fn open(&self, inode: u64, flags: i32) -> (r: Step)
        ensures
            consistent(r@),
            r@ == (match self@.path(inode) {
                Ok(path) => Act::Ask(backend::Wish::Open(path, mode_of(flags)), Stage::Opened),
                Err(errno) => failed(errno),
            }),
    {
        match self.path(inode) {
            Ok(path) => match self.open_path(path, flags) {
                Ok(command) => Step::Ask(command, Continuation::Opened),
                Err(e) => fail(&e),
            },
            Err(e) => fail(&e),
        }
    }

    /// Reads from an open file.
    pub fn read(&self, handle: u64, offset: u64, size: u32) -> (r: Step)
        ensures
            consistent(r@),
            r@ == Act::Ask(backend::Wish::Read(handle, offset, size), Stage::Read),
    {
        Step::Ask(Command::Read(handle, offset, size), Continuation::Read)
    }

    /// Writes to an open file.
    pub fn write(&self, handle: u64, offset: u64, data: Vec<u8>) -> (r: Step)
        ensures
            consistent(r@),
            r@ == Act::Ask(backend::Wish::Write(handle, offset, data@), Stage::Written),
    {
        Step::Ask(Command::Write(handle, offset, data), Continuation::Written)
    }

    /// Every write has reached the device by the time it is answered.
    pub fn flush(&self) -> (r: Step)
        ensures
            consistent(r@),
            r@ == Act::Reply(Shown::Empty),
    {
        Step::Reply(Response::Empty)
    }

    /// Closes an open file.
    pub fn release(&self, handle: u64) -> (r: Step)
        ensures
            consistent(r@),
            r@ == Act::Ask(backend::Wish::Close(handle), Stage::Released),
    {
        Step::Ask(Command::Close(handle), Continuation::Released)
    }

    /// Every write has reached the device by the time it is answered.
    pub fn fsync(&self) -> (r: Step)
        ensures
            consistent(r@),
            r@ == Act::Reply(Shown::Empty),
    {
        Step::Reply(Response::Empty)
    }

    /// Lists a directory from a position on.
    pub fn readdir(&self, inode: u64, offset: u64) -> (r: Step)
        ensures
            consistent(r@),
            r@ == (match self@.path(inode) {
                Ok(path) => Act::Ask(backend::Wish::ListDir(path), Stage::Names { path, offset }),
                Err(errno) => failed(errno),
            }),
    {
        match self.path(inode) {
            Ok(path) => Step::Ask(
                Command::ListDir(path.clone()),
                Continuation::Names { path, offset },
            ),
            Err(e) => fail(&e),
        }
    }

    /// Tells how much space the device has.
    pub fn statfs(&self) -> (r: Statfs)
        ensures
            ({
                let block = if self.device_info.block_size == 0 {
                    1
                } else {
                    self.device_info.block_size as int
                };
                r == (Statfs {
                    blocks: (self.device_info.total_bytes as int / block) as u64,
                    bfree: (self.device_info.free_bytes as int / block) as u64,
                    bavail: (self.device_info.free_bytes as int / block) as u64,
                    files: 1_000_000_000,
                    ffree: 1_000_000_000,
                    bsize: self.device_info.block_size,
                    namelen: 255,
                    frsize: self.device_info.block_size,
                })
            }),
    {
        let block: u64 = if self.device_info.block_size == 0 {
            1
        } else {
            self.device_info.block_size as u64
        };
        Statfs {
            blocks: self.device_info.total_bytes / block,
            bfree: self.device_info.free_bytes / block,
            bavail: self.device_info.free_bytes / block,
            files: 1_000_000_000,
            ffree: 1_000_000_000,
            bsize: self.device_info.block_size,
            namelen: 255,
            frsize: self.device_info.block_size,
        }
    }

    /// Makes a file and opens it.
    pub fn create(
        &self,
        parent: u64,
        name: std::result::Result<String, PathBuf>,
        flags: i32,
    ) -> (r: Step)
        ensures
            consistent(r@),
            r@ == (match self@.named_path(parent, name) {
                Ok(path) => Act::Ask(
                    backend::Wish::Open(path, mode_of(flags)),
                    Stage::CreateOpened { path },
                ),
                Err(errno) => failed(errno),
            }),
    {
        proof {
            law_creating_keeps_the_mode(flags);
        }
        match self.named_path(parent, name) {
            Ok(path) => match self.open_path(path.clone(), flags | create_flag()) {
                Ok(command) => Step::Ask(command, Continuation::CreateOpened { path }),
                Err(e) => fail(&e),
            },
            Err(e) => fail(&e),
        }
    }

    /// Goes on with an operation once its last request has an outcome.
    pub fn resume(&mut self, continuation: Continuation, outcome: Result<Answer>) -> (r: Step)
        requires
            forall|path: Seq<char>|
                shown_path(continuation@, backend::said(outcome)) == Some(path)
                    ==> #[trigger] old(self)@.table.can_number(path),
        ensures
            consistent(r@),
            (final(self)@, r@) == resumed(old(self)@, continuation@, backend::said(outcome)),
            final(self).device_info == old(self).device_info,
    {
        let ghost stage = continuation@;
        let ghost heard = backend::said(outcome);
        match (continuation, outcome) {
            (Continuation::CreateKnown { handle, .. }, Err(e)) => Step::Ask(
                Command::Close(handle),
                Continuation::CreateClosed { errno: error::errno(&e) },
            ),
            (Continuation::CreateClosed { errno }, _) => Step::Reply(Response::Failed(errno)),
            (_, Err(e)) => fail(&e),
            (Continuation::Entry { path }, Ok(Answer::FileInfo(info))) => {
                let attr: FileAttr = self.entry(path.as_str(), &info);
                Step::Reply(Response::Entry(attr))
            },
            (Continuation::Attr { inode }, Ok(Answer::FileInfo(info))) => Step::Reply(
                Response::Attr(self.attr(inode, &info)),
            ),
            (Continuation::Sized { inode, path, mtime }, Ok(Answer::Done)) => match mtime {
                Some(time) => Step::Ask(
                    Command::SetMtime(path.clone(), time),
                    Continuation::Timed { inode, path },
                ),
                None => Step::Ask(Command::FileInfo(path), Continuation::Attr { inode }),
            },
            (Continuation::Timed { inode, path }, Ok(Answer::Done)) => Step::Ask(
                Command::FileInfo(path),
                Continuation::Attr { inode },
            ),
            (Continuation::Readlink, Ok(Answer::FileInfo(info))) => match info.link_target {
                Some(target) => Step::Reply(
                    Response::Data(vstd::slice::slice_to_vec(target.as_str().as_bytes())),
                ),
                None => fail(&Error::InvalidAfcResponse("symlink has no target".to_owned())),
            },
            (Continuation::Made { path }, Ok(Answer::Done)) => Step::Ask(
                Command::FileInfo(path.clone()),
                Continuation::Entry { path },
            ),
            (Continuation::Renamed { from, to }, Ok(Answer::Done)) => {
                self.inodes.rename(from.as_str(), to.as_str());
                Step::Reply(Response::Empty)
            },
            (Continuation::Removed { path }, Ok(Answer::Done)) => {
                self.inodes.remove(path.as_str());
                Step::Reply(Response::Empty)
            },
            (Continuation::Opened, Ok(Answer::Handle(handle))) => Step::Reply(
                Response::Opened(handle),
            ),
            (Continuation::Read, Ok(Answer::Data(bytes))) => Step::Reply(Response::Data(bytes)),
            (Continuation::Written, Ok(Answer::Count(count))) => Step::Reply(
                Response::Written(count),
            ),
            (Continuation::Released, Ok(Answer::Done)) => Step::Reply(Response::Empty),
            (Continuation::Names { path, offset }, Ok(Answer::Names(names))) => entry_step(
                path,
                dotted(names),
                offset as usize,
            ),
            (Continuation::Listed { path, names, index }, Ok(Answer::FileInfo(info))) => {
                if index >= names.len() {
                    return Step::Reply(Response::Failed(Errno::EIO));
                }
                let there: String = listed_path(path.as_str(), names[index].as_str());
                assert(shown_path(stage, heard) == Some(there@));
                assert(old(self)@.table.can_number(there@));
                let inode: u64 = self.inodes.inode(there.as_str());
                assert(index + 1 <= names.len());
                let entry = DirEntry {
                    inode,
                    offset: index as u64 + 1,
                    kind: file_type(info.kind),
                    name: names[index].clone(),
                };
                Step::Add(entry, Continuation::Added { path, names, index: index + 1 })
            },
            (Continuation::CreateOpened { path }, Ok(Answer::Handle(handle))) => Step::Ask(
                Command::FileInfo(path.clone()),
                Continuation::CreateKnown { path, handle },
            ),
            (Continuation::CreateKnown { path, handle }, Ok(Answer::FileInfo(info))) => {
                let attr: FileAttr = self.entry(path.as_str(), &info);
                Step::Reply(Response::Created(attr, handle))
            },
            _ => Step::Reply(Response::Failed(Errno::EIO)),
        }
    }

    /// Goes on with a listing once an entry was added, or found no room.
    pub fn added(&self, continuation: Continuation, full: bool) -> (r: Step)
        ensures
            consistent(r@),
            r@ == (match continuation@ {
                Stage::Added { path, names, index } => if full {
                    Act::Reply(Shown::Directory)
                } else {
                    next_entry(path, names, index)
                },
                _ => failed(Errno::EIO),
            }),
    {
        match continuation {
            Continuation::Added { path, names, index } => if full {
                Step::Reply(Response::Directory)
            } else {
                entry_step(path, names, index)
            },
            _ => Step::Reply(Response::Failed(Errno::EIO)),
        }
    }
}

} // verus!
