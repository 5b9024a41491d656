//! What each operation of FUSE asks of the device and is answered, from its arguments and the
//! device's own numbers on.

use std::path::PathBuf;
use vstd::prelude::*;
use vstd::string::*;

use crate::afc;
use crate::afc::{RemoteDeviceInfo, RemoteFileInfo, RemoteFileType};
use crate::answer_laws;
use crate::backend;
use crate::backend::{Answer, Command, Mtime};
use crate::error;
use crate::error::{AfcError, DeviceError, Errno, Error, Result};
use crate::filesystem;
use crate::filesystem::{
    Continuation, FileAttr, FileType, IfuseFilesystem, Response, Statfs, Step,
};
use crate::inode;
use crate::text;
use crate::transport::{AfcFopenMode, LinkType};

verus! {

/// The path of a name in a directory.
pub open spec fn below(dir: Seq<char>, name: Seq<char>) -> Seq<char> {
    if dir == seq!['/'] {
        seq!['/'] + name
    } else {
        dir + seq!['/'] + name
    }
}

/// Whether FUSE knows a path by a number.
pub open spec fn leads_to(mount: IfuseFilesystem, inode: u64, path: Seq<char>) -> bool {
    mount.inodes@.paths.contains_key(inode) && mount.inodes@.paths[inode] == path
}

/// Whether FUSE knows nothing by a number.
pub open spec fn is_unknown(mount: IfuseFilesystem, inode: u64) -> bool {
    !mount.inodes@.paths.contains_key(inode)
}

/// Whether FUSE is told of an object what the device says of it: size, blocks and links as they
/// are, and the times as full numbers of nanoseconds since 1970. The device tells no time of last
/// access or change, so that of modification stands for them.
pub open spec fn is_told(attr: FileAttr, facts: afc::FileFacts) -> bool {
    &&& attr.size == facts.size
    &&& attr.blocks == facts.blocks
    &&& attr.nlink == facts.nlink
    &&& attr.mtime == facts.modified
    &&& attr.atime == facts.modified
    &&& attr.ctime == facts.modified
    &&& attr.crtime == facts.created
    &&& attr.rdev == 0
    &&& attr.flags == 0
    &&& is_kind(attr.kind, facts.kind)
    &&& attr.perm == (match facts.kind {
        RemoteFileType::Directory => 0o755u16,
        RemoteFileType::Symlink => 0o777u16,
        _ => 0o644u16,
    })
}

/// Whether FUSE takes an object for what it is on the device.
pub open spec fn is_kind(shown: FileType, kind: RemoteFileType) -> bool {
    match kind {
        RemoteFileType::RegularFile => shown is RegularFile,
        RemoteFileType::Directory => shown is Directory,
        RemoteFileType::Symlink => shown is Symlink,
        RemoteFileType::BlockDevice => shown is BlockDevice,
        RemoteFileType::CharDevice => shown is CharDevice,
        RemoteFileType::NamedPipe => shown is NamedPipe,
        RemoteFileType::Socket => shown is Socket,
    }
}

/// Whether an object is shown as belonging to the mount: its user and group, and the block size of
/// the device.
pub open spec fn belongs(attr: FileAttr, mount: IfuseFilesystem) -> bool {
    attr.uid == mount.uid && attr.gid == mount.gid && attr.blksize == mount.device_info.block_size
}

/// What is looked up is asked for by its path and shown as the device describes it, in all its
/// numbers, under a number that leads back to it.
pub proof fn law_lookup_shows_what_the_device_says(
    before: IfuseFilesystem,
    mount: &mut IfuseFilesystem,
    parent: u64,
    dir: Seq<char>,
    name: String,
    asked: Step,
    payload: &[u8],
    list: Seq<Seq<char>>,
    facts: afc::FileFacts,
    answer: Result<RemoteFileInfo>,
    shown: Step,
)
    requires
        leads_to(before, parent, dir),
        *old(mount) == before,
        before.inodes@.wf(),
        before.inodes@.next < u64::MAX,
        call_ensures(IfuseFilesystem::lookup, (&before, parent, Ok(name)), asked),
        payload@ == afc::zero_ended_list(list),
        answer_laws::describes(list, facts),
        call_ensures(afc::read_file_info, (payload,), answer),
        asked matches Step::Ask(_, next) ==> (answer matches Ok(info) ==> call_ensures(
            IfuseFilesystem::resume,
            (mount, next, Ok(Answer::FileInfo(info))),
            shown,
        )),
    ensures
        asked matches Step::Ask(Command::FileInfo(path), _) && path@ == below(dir, name@),
        answer is Ok,
        shown matches Step::Reply(Response::Entry(attr)) && is_told(attr, facts) && belongs(
            attr,
            before,
        ) && leads_to(*final(mount), attr.ino, below(dir, name@)),
{
    answer_laws::law_object_is_known_as_the_device_says(payload, list, facts, answer);
    inode::law_number_leads_back(before.inodes@, below(dir, name@), below(dir, name@));
}

/// An object is asked for by the path of its number and shown as the device describes it, in all
/// its numbers, and nothing changes by it.
pub proof fn law_getattr_shows_what_the_device_says(
    before: IfuseFilesystem,
    mount: &mut IfuseFilesystem,
    inode: u64,
    path: Seq<char>,
    asked: Step,
    payload: &[u8],
    list: Seq<Seq<char>>,
    facts: afc::FileFacts,
    answer: Result<RemoteFileInfo>,
    shown: Step,
)
    requires
        leads_to(before, inode, path),
        *old(mount) == before,
        call_ensures(IfuseFilesystem::getattr, (&before, inode), asked),
        payload@ == afc::zero_ended_list(list),
        answer_laws::describes(list, facts),
        call_ensures(afc::read_file_info, (payload,), answer),
        asked matches Step::Ask(_, next) ==> (answer matches Ok(info) ==> call_ensures(
            IfuseFilesystem::resume,
            (mount, next, Ok(Answer::FileInfo(info))),
            shown,
        )),
    ensures
        asked matches Step::Ask(Command::FileInfo(there), _) && there@ == path,
        answer is Ok,
        shown matches Step::Reply(Response::Attr(attr)) && is_told(attr, facts) && belongs(
            attr,
            before,
        ) && attr.ino == inode,
        final(mount)@ == old(mount)@,
{
    answer_laws::law_object_is_known_as_the_device_says(payload, list, facts, answer);
}

/// A file or directory that is made, and a link, is shown as the device describes it once it is
/// there, under a number that leads back to it.
pub proof fn law_what_is_made_is_shown(
    mount: &mut IfuseFilesystem,
    path: String,
    handle: u64,
    next: Continuation,
    info: RemoteFileInfo,
    shown: Step,
)
    requires
        old(mount).inodes@.wf(),
        old(mount).inodes@.next < u64::MAX,
        (next matches Continuation::Entry { path: there } && there@ == path@) || (
        next matches Continuation::CreateKnown { path: there, handle: opened } && there@ == path@
            && opened == handle),
        call_ensures(
            IfuseFilesystem::resume,
            (mount, next, Ok(Answer::FileInfo(info))),
            shown,
        ),
    ensures
        next is Entry ==> (shown matches Step::Reply(Response::Entry(attr)) && is_told(
            attr,
            info@,
        ) && belongs(attr, *old(mount)) && leads_to(*final(mount), attr.ino, path@)),
        next is CreateKnown ==> (shown matches Step::Reply(Response::Created(attr, opened))
            && opened == handle && is_told(attr, info@) && belongs(attr, *old(mount)) && leads_to(
            *final(mount),
            attr.ino,
            path@,
        )),
        info@.size == info.size && info@.blocks == info.blocks && info@.nlink == info.nlink
            && info@.modified == info.modified && info@.created == info.created && info@.kind
            == info.kind,
{
    inode::law_number_leads_back(old(mount).inodes@, path@, path@);
}

/// The size and the time that an object is to have are asked for in full and in this order, each
/// where it is given, at the path of the object, and what it is then is shown.
pub proof fn law_setattr_sets_what_it_is_given(
    before: IfuseFilesystem,
    inode: u64,
    path: Seq<char>,
    size: Option<u64>,
    mtime: Option<Mtime>,
    asked: Step,
)
    requires
        leads_to(before, inode, path),
        call_ensures(IfuseFilesystem::setattr, (&before, inode, size, mtime), asked),
    ensures
        match (size, mtime) {
            (Some(size), _) => asked matches Step::Ask(Command::Truncate(there, length), next)
                && there@ == path && length == size && (next matches Continuation::Sized {
                inode: i,
                path: p,
                mtime: m,
            } && i == inode && p@ == path && m == mtime),
            (None, Some(time)) => asked matches Step::Ask(Command::SetMtime(there, t), next)
                && there@ == path && t == time && (next matches Continuation::Timed {
                inode: i,
                path: p,
            } && i == inode && p@ == path),
            (None, None) => asked matches Step::Ask(Command::FileInfo(there), next) && there@
                == path && (next matches Continuation::Attr { inode: i } && i == inode),
        },
{
}

/// Once the size is set the time is, where one is given, and once that is set the object is asked
/// for; the time that is set is the one that was given.
pub proof fn law_setattr_goes_on_in_order(
    mount: &mut IfuseFilesystem,
    next: Continuation,
    r: Step,
)
    requires
        call_ensures(IfuseFilesystem::resume, (mount, next, Ok(Answer::Done)), r),
    ensures
        match next {
            Continuation::Sized { inode, path, mtime: Some(time) } => r matches Step::Ask(
                Command::SetMtime(there, t),
                after,
            ) && there@ == path@ && t == time && (after matches Continuation::Timed {
                inode: i,
                path: p,
            } && i == inode && p@ == path@),
            Continuation::Sized { inode, path, mtime: None } => r matches Step::Ask(
                Command::FileInfo(there),
                after,
            ) && there@ == path@ && (after matches Continuation::Attr { inode: i } && i == inode),
            Continuation::Timed { inode, path } => r matches Step::Ask(
                Command::FileInfo(there),
                after,
            ) && there@ == path@ && (after matches Continuation::Attr { inode: i } && i == inode),
            _ => true,
        },
{
}

/// A link is asked for by its path, and shown with the target that the device says, byte by byte;
/// what has no target is no link.
pub proof fn law_readlink_shows_the_target(
    before: IfuseFilesystem,
    mount: &mut IfuseFilesystem,
    inode: u64,
    path: Seq<char>,
    asked: Step,
    info: RemoteFileInfo,
    shown: Step,
)
    requires
        leads_to(before, inode, path),
        call_ensures(IfuseFilesystem::readlink, (&before, inode), asked),
        asked matches Step::Ask(_, next) ==> call_ensures(
            IfuseFilesystem::resume,
            (mount, next, Ok(Answer::FileInfo(info))),
            shown,
        ),
    ensures
        asked matches Step::Ask(Command::FileInfo(there), _) && there@ == path,
        match info.link_target {
            Some(target) => shown matches Step::Reply(Response::Data(bytes)) && bytes@
                == vstd::utf8::encode_utf8(target@),
            None => shown matches Step::Reply(Response::Failed(Errno::EIO)),
        },
        final(mount)@ == old(mount)@,
{
}

/// Making a directory or a link asks for just that at the path of the name, with the target as it
/// was given, and then for what was made.
pub proof fn law_making_asks_for_the_named_path(
    before: IfuseFilesystem,
    mount: &mut IfuseFilesystem,
    parent: u64,
    dir: Seq<char>,
    name: String,
    target: String,
    inode: u64,
    existing: Seq<char>,
    directory: Step,
    symbolic: Step,
    hard: Step,
    next: Continuation,
    made: Step,
)
    requires
        leads_to(before, parent, dir),
        leads_to(before, inode, existing),
        call_ensures(IfuseFilesystem::mkdir, (&before, parent, Ok(name)), directory),
        call_ensures(IfuseFilesystem::symlink, (&before, parent, Ok(name), Ok(target)), symbolic),
        call_ensures(IfuseFilesystem::link, (&before, inode, parent, Ok(name)), hard),
        next is Made,
        call_ensures(IfuseFilesystem::resume, (mount, next, Ok(Answer::Done)), made),
    ensures
        directory matches Step::Ask(Command::Mkdir(path), Continuation::Made { path: there })
            && path@ == below(dir, name@) && there@ == below(dir, name@),
        symbolic matches Step::Ask(
            Command::Link(to, path, LinkType::Symlink),
            Continuation::Made { path: there },
        ) && to@ == target@ && path@ == below(dir, name@) && there@ == below(dir, name@),
        hard matches Step::Ask(
            Command::Link(to, path, LinkType::Hardlink),
            Continuation::Made { path: there },
        ) && to@ == existing && path@ == below(dir, name@) && there@ == below(dir, name@),
        next matches Continuation::Made { path } && (made matches Step::Ask(
            Command::FileInfo(asked),
            Continuation::Entry { path: there },
        ) && asked@ == path@ && there@ == path@),
{
}

/// Removing asks for the path of the name, and once it is done neither the path nor what lay below
/// it is known any more, and everything else is.
pub proof fn law_removing_forgets_the_named_path(
    before: IfuseFilesystem,
    mount: &mut IfuseFilesystem,
    parent: u64,
    dir: Seq<char>,
    name: String,
    file: Step,
    directory: Step,
    done: Step,
    other: Seq<char>,
)
    requires
        leads_to(before, parent, dir),
        old(mount).inodes@.wf(),
        call_ensures(IfuseFilesystem::unlink, (&before, parent, Ok(name)), file),
        call_ensures(IfuseFilesystem::rmdir, (&before, parent, Ok(name)), directory),
        file matches Step::Ask(_, next) ==> call_ensures(
            IfuseFilesystem::resume,
            (mount, next, Ok(Answer::Done)),
            done,
        ),
    ensures
        file matches Step::Ask(Command::Remove(path), Continuation::Removed { path: there })
            && path@ == below(dir, name@) && there@ == below(dir, name@),
        directory matches Step::Ask(Command::Remove(path), Continuation::Removed { path: there })
            && path@ == below(dir, name@) && there@ == below(dir, name@),
        done matches Step::Reply(Response::Empty),
        !final(mount).inodes@.inodes.contains_key(below(dir, name@)),
        !final(mount).inodes@.inodes.contains_key(below(dir, name@) + seq!['/'] + other),
        old(mount).inodes@.inodes.contains_key(other) && !(other == below(dir, name@))
            && !text::has_prefix(other, below(dir, name@) + seq!['/']) ==> {
            let number = old(mount).inodes@.inodes[other];
            leads_to(*final(mount), number, other) && final(mount).inodes@.inodes[other] == number
        },
{
    let path = below(dir, name@);
    let table = old(mount).inodes@;
    inode::law_subtree_is_what_lies_below(path, path);
    inode::law_subtree_is_what_lies_below(path, path + seq!['/'] + other);
    inode::law_subtree_is_what_lies_below(path, other);
    inode::law_remove_forgets_subtree(table, path, path);
    inode::law_remove_forgets_subtree(table, path, path + seq!['/'] + other);
    inode::law_remove_forgets_subtree(table, path, other);
    assert((path + seq!['/'] + other).take(path.len() as int + 1) =~= path + seq!['/']);
}

/// Renaming asks for the two named paths, and refuses every flag; once it is done, what was known by
/// the old path, or by a path below it, is known by the new path, or by the path below that, under
/// the number it had.
pub proof fn law_renaming_moves_the_named_path(
    before: IfuseFilesystem,
    mount: &mut IfuseFilesystem,
    parent: u64,
    dir: Seq<char>,
    name: String,
    new_parent: u64,
    new_dir: Seq<char>,
    new_name: String,
    flags: u32,
    asked: Step,
    done: Step,
    rest: Seq<char>,
)
    requires
        leads_to(before, parent, dir),
        leads_to(before, new_parent, new_dir),
        old(mount).inodes@.wf(),
        call_ensures(
            IfuseFilesystem::rename,
            (&before, parent, Ok(name), new_parent, Ok(new_name), flags),
            asked,
        ),
        asked matches Step::Ask(_, next) ==> call_ensures(
            IfuseFilesystem::resume,
            (mount, next, Ok(Answer::Done)),
            done,
        ),
    ensures
        ({
            let from = below(dir, name@);
            let to = below(new_dir, new_name@);
            let table = old(mount).inodes@.inodes;
            if flags != 0 {
                asked matches Step::Reply(Response::Failed(Errno::EINVAL))
            } else {
                &&& asked matches Step::Ask(Command::Rename(a, b), _) && a@ == from && b@ == to
                &&& done matches Step::Reply(Response::Empty)
                &&& table.contains_key(from) ==> leads_to(*final(mount), table[from], to)
                    && final(mount).inodes@.inodes[to] == table[from]
                &&& table.contains_key(from + seq!['/'] + rest) ==> leads_to(
                    *final(mount),
                    table[from + seq!['/'] + rest],
                    to + seq!['/'] + rest,
                )
            }
        }),
{
    if flags == 0 {
        let from = below(dir, name@);
        let to = below(new_dir, new_name@);
        let table = old(mount).inodes@;
        let longer = from + seq!['/'] + rest;
        inode::law_subtree_is_what_lies_below(from, from);
        inode::law_subtree_is_what_lies_below(from, longer);
        assert(longer.take(from.len() as int + 1) =~= from + seq!['/']);
        assert(from.skip(from.len() as int) =~= Seq::<char>::empty());
        assert(longer.skip(from.len() as int) =~= seq!['/'] + rest);
        assert(to + Seq::<char>::empty() =~= to);
        assert(to + (seq!['/'] + rest) =~= to + seq!['/'] + rest);
        if table.inodes.contains_key(from) {
            inode::law_rename_moves_subtree(table, from, to, from);
        }
        if table.inodes.contains_key(longer) {
            inode::law_rename_moves_subtree(table, from, to, longer);
        }
    }
}

/// The bits of the flags of `open`, as Linux numbers them: how a file is used, whether it is
/// emptied, and whether it is written to at its end.
pub open spec fn is_mode(mode: AfcFopenMode, flags: i32) -> bool {
    if flags & 3 == 1 && flags & 512 != 0 {
        mode is WrOnly
    } else if flags & 3 == 1 && flags & 1024 != 0 {
        mode is Append
    } else if flags & 3 == 1 {
        mode is Rw
    } else if flags & 3 == 2 && flags & 512 != 0 {
        mode is Wr
    } else if flags & 3 == 2 && flags & 1024 != 0 {
        mode is RdAppend
    } else if flags & 3 == 2 {
        mode is Rw
    } else {
        mode is RdOnly
    }
}

/// A file is opened at its path and in the mode that its flags ask for, and FUSE is told the number
/// that the device gave it; a file that is made is opened in the same way, and then asked for.
pub proof fn law_opening_asks_for_the_path_and_mode(
    before: IfuseFilesystem,
    mount: &mut IfuseFilesystem,
    inode: u64,
    path: Seq<char>,
    parent: u64,
    dir: Seq<char>,
    name: String,
    flags: i32,
    opened: Step,
    created: Step,
    next: Continuation,
    handle: u64,
    done: Step,
)
    requires
        leads_to(before, inode, path),
        leads_to(before, parent, dir),
        call_ensures(IfuseFilesystem::open, (&before, inode, flags), opened),
        call_ensures(IfuseFilesystem::create, (&before, parent, Ok(name), flags), created),
        call_ensures(
            IfuseFilesystem::resume,
            (mount, next, Ok(Answer::Handle(handle))),
            done,
        ),
    ensures
        opened matches Step::Ask(Command::Open(there, mode), Continuation::Opened) && there@ == path
            && is_mode(mode, flags),
        created matches Step::Ask(
            Command::Open(there, mode),
            Continuation::CreateOpened { path: kept },
        ) && there@ == below(dir, name@) && kept@ == below(dir, name@) && is_mode(mode, flags),
        next is Opened ==> (done matches Step::Reply(Response::Opened(told)) && told == handle),
        next matches Continuation::CreateOpened { path: kept } ==> (done matches Step::Ask(
            Command::FileInfo(asked),
            Continuation::CreateKnown { path: there, handle: told },
        ) && asked@ == kept@ && there@ == kept@ && told == handle),
{
}

/// A read asks for the bytes that it names, and is answered with what was read; a write asks for
/// the bytes that it brings to be written where it says, and is answered with how many were; a file
/// is closed by its number. What was written is on the device by then, so that nothing is left to
/// flush.
pub proof fn law_open_files_are_used_as_asked(
    before: IfuseFilesystem,
    mount: &mut IfuseFilesystem,
    handle: u64,
    offset: u64,
    size: u32,
    data: Vec<u8>,
    read: Step,
    write: Step,
    release: Step,
    flush: Step,
    fsync: Step,
    next: Continuation,
    answer: Answer,
    done: Step,
)
    requires
        call_ensures(IfuseFilesystem::read, (&before, handle, offset, size), read),
        call_ensures(IfuseFilesystem::write, (&before, handle, offset, data), write),
        call_ensures(IfuseFilesystem::release, (&before, handle), release),
        call_ensures(IfuseFilesystem::flush, (&before,), flush),
        call_ensures(IfuseFilesystem::fsync, (&before,), fsync),
        call_ensures(IfuseFilesystem::resume, (mount, next, Ok(answer)), done),
    ensures
        read matches Step::Ask(Command::Read(h, o, s), Continuation::Read) && h == handle && o
            == offset && s == size,
        write matches Step::Ask(Command::Write(h, o, bytes), Continuation::Written) && h == handle
            && o == offset && bytes@ == data@,
        release matches Step::Ask(Command::Close(h), Continuation::Released) && h == handle,
        flush matches Step::Reply(Response::Empty),
        fsync matches Step::Reply(Response::Empty),
        next is Read ==> (answer matches Answer::Data(bytes) ==> (done matches Step::Reply(
            Response::Data(shown),
        ) && shown@ == bytes@)),
        next is Written ==> (answer matches Answer::Count(count) ==> (done matches Step::Reply(
            Response::Written(told),
        ) && told == count)),
        next is Released && answer is Done ==> done matches Step::Reply(Response::Empty),
        next is Read || next is Written || next is Released ==> final(mount)@ == old(mount)@,
{
}

/// The names that a listing shows: those of the device, with the directory and its parent in front
/// where the device leaves them out.
pub open spec fn shown_names(names: Seq<Seq<char>>) -> Seq<Seq<char>> {
    if names.contains(seq!['.']) {
        if names.contains(seq!['.', '.']) {
            names
        } else {
            names.take(1) + seq![seq!['.', '.']] + names.skip(1)
        }
    } else if names.contains(seq!['.', '.']) {
        seq![seq!['.']] + names
    } else {
        seq![seq!['.'], seq!['.', '.']] + names
    }
}

/// Where a name in the listing of a directory leads.
pub open spec fn place(dir: Seq<char>, name: Seq<char>) -> Seq<char> {
    if name == seq!['.'] {
        dir
    } else if name == seq!['.', '.'] {
        inode::parent_path(dir)
    } else {
        below(dir, name)
    }
}

proof fn lemma_shown_names(names: Seq<Seq<char>>)
    ensures
        filesystem::with_dots(names) == shown_names(names),
{
    let one = seq!['.'];
    let two = seq!['.', '.'];
    assert(one.len() == 1 && two.len() == 2);
    if names.contains(one) {
        assert(names.len() > 0);
        if !names.contains(two) {
            assert(names.insert(1, two) =~= names.take(1) + seq![two] + names.skip(1));
        }
    } else {
        let here = names.insert(0, one);
        assert(here =~= seq![one] + names);
        if names.contains(two) {
            let k = choose|k: int| 0 <= k < names.len() && names[k] == two;
            assert(here[k + 1] == two);
        } else {
            assert(!here.contains(two)) by {
                if here.contains(two) {
                    let k = choose|k: int| 0 <= k < here.len() && here[k] == two;
                    if k > 0 {
                        assert(names[k - 1] == two);
                    }
                }
            }
            assert(here.insert(1, two) =~= seq![one, two] + names);
        }
    }
}

/// A listing asks for the names in the directory, and goes on with the name at the position that it
/// was asked to go on at, in the list of all names; where that is behind the last name it ends.
pub proof fn law_listing_goes_on_where_it_was_asked_to(
    before: IfuseFilesystem,
    mount: &mut IfuseFilesystem,
    inode: u64,
    dir: Seq<char>,
    offset: u64,
    asked: Step,
    names: Vec<String>,
    r: Step,
)
    requires
        leads_to(before, inode, dir),
        offset <= usize::MAX,
        call_ensures(IfuseFilesystem::readdir, (&before, inode, offset), asked),
        asked matches Step::Ask(_, next) ==> call_ensures(
            IfuseFilesystem::resume,
            (mount, next, Ok(Answer::Names(names))),
            r,
        ),
    ensures
        asked matches Step::Ask(Command::ListDir(path), _) && path@ == dir,
        ({
            let all = shown_names(afc::texts(names@));
            if offset < all.len() {
                r matches Step::Ask(
                    Command::FileInfo(there),
                    Continuation::Listed { path, names: kept, index },
                ) && there@ == place(dir, all[offset as int]) && path@ == dir && afc::texts(kept@)
                    == all && index == offset
            } else {
                r matches Step::Reply(Response::Directory)
            }
        }),
        final(mount)@ == old(mount)@,
{
    lemma_shown_names(afc::texts(names@));
}

/// Each name of a listing is shown with the position behind it, with the kind of its object, and
/// under a number that leads to its path; then the listing goes on with the next name, until it is
/// full or ends behind the last name.
pub proof fn law_listing_shows_name_by_name(
    mount: &mut IfuseFilesystem,
    dir: String,
    names: Vec<String>,
    index: usize,
    info: RemoteFileInfo,
    shown: Step,
    after: IfuseFilesystem,
    going_on: Step,
    stopping: Step,
)
    requires
        old(mount).inodes@.wf(),
        old(mount).inodes@.next < u64::MAX,
        index < names@.len(),
        call_ensures(
            IfuseFilesystem::resume,
            (
                mount,
                Continuation::Listed { path: dir, names, index },
                Ok(Answer::FileInfo(info)),
            ),
            shown,
        ),
        shown matches Step::Add(_, next) ==> call_ensures(
            IfuseFilesystem::added,
            (&after, next, false),
            going_on,
        ) && call_ensures(IfuseFilesystem::added, (&after, next, true), stopping),
    ensures
        shown matches Step::Add(entry, _) && entry.name@ == names@[index as int]@ && entry.offset
            == index + 1 && is_kind(entry.kind, info.kind) && leads_to(
            *final(mount),
            entry.inode,
            place(dir@, names@[index as int]@),
        ),
        if index + 1 < names@.len() {
            going_on matches Step::Ask(
                Command::FileInfo(there),
                Continuation::Listed { path, names: kept, index: next },
            ) && there@ == place(dir@, names@[index + 1]@) && path@ == dir@ && afc::texts(kept@)
                == afc::texts(names@) && next == index + 1
        } else {
            going_on matches Step::Reply(Response::Directory)
        },
        stopping matches Step::Reply(Response::Directory),
{
    let there = place(dir@, names@[index as int]@);
    assert(afc::texts(names@)[index as int] == names@[index as int]@);
    if index + 1 < names@.len() {
        assert(afc::texts(names@)[index + 1] == names@[index + 1]@);
    }
    inode::law_number_leads_back(old(mount).inodes@, there, there);
}

/// A listing that is asked to go on at a position shows exactly the names from that position on,
/// each with the position behind it, where the device knows all of them and there is room: so a
/// listing that goes on at the position that was shown with a name shows what follows that name,
/// and one that goes on at the end shows nothing.
pub proof fn law_listing_from_a_position(
    core: filesystem::Core,
    dir: Seq<char>,
    offset: u64,
    names: Seq<Seq<char>>,
    facts: spec_fn(Seq<char>) -> afc::FileFacts,
)
    requires
        offset <= usize::MAX,
        offset <= shown_names(names).len() <= u64::MAX,
    ensures
        ({
            let all = shown_names(names);
            let (after, act) = filesystem::resumed(
                core,
                filesystem::Stage::Names { path: dir, offset },
                backend::Said::Names(names),
            );
            if offset == all.len() {
                act == filesystem::Act::Reply(filesystem::Shown::Directory)
            } else {
                act matches filesystem::Act::Ask(
                    _,
                    filesystem::Stage::Listed { path, names: kept, index },
                ) && filesystem::listing(after, path, kept, index, facts) == Seq::new(
                    (all.len() - offset) as nat,
                    |k: int| ((offset + k + 1) as u64, all[offset + k]),
                )
            }
        }),
{
    lemma_shown_names(names);
    filesystem::law_listing_shows_every_name(
        core,
        dir,
        shown_names(names),
        offset as nat,
        facts,
    );
}

/// The space of the device is told in its own blocks: as many as lie whole in the bytes that it has,
/// and in those that are free; a device without blocks counts bytes.
pub proof fn law_space_is_told_in_blocks(mount: IfuseFilesystem, r: Statfs)
    requires
        call_ensures(IfuseFilesystem::statfs, (&mount,), r),
    ensures
        ({
            let block = if mount.device_info.block_size == 0 {
                1int
            } else {
                mount.device_info.block_size as int
            };
            &&& r.blocks * block <= mount.device_info.total_bytes < (r.blocks + 1) * block
            &&& r.bfree * block <= mount.device_info.free_bytes < (r.bfree + 1) * block
            &&& r.bavail == r.bfree
            &&& r.bsize == mount.device_info.block_size
            &&& r.frsize == mount.device_info.block_size
            &&& r.namelen == 255
            &&& r.files == 1_000_000_000
            &&& r.ffree == 1_000_000_000
        }),
{
    let block = if mount.device_info.block_size == 0 {
        1int
    } else {
        mount.device_info.block_size as int
    };
    let total = mount.device_info.total_bytes as int;
    let free = mount.device_info.free_bytes as int;
    lemma_whole_blocks(total, block);
    lemma_whole_blocks(free, block);
}

proof fn lemma_whole_blocks(bytes: int, block: int)
    requires
        0 <= bytes,
        0 < block,
    ensures
        0 <= bytes / block <= bytes,
        (bytes / block) * block <= bytes < (bytes / block + 1) * block,
{
    assert(0 <= bytes / block <= bytes && (bytes / block) * block <= bytes && bytes < (bytes / block
        + 1) * block) by (nonlinear_arith)
        requires
            0 <= bytes,
            0 < block,
    ;
}

/// A new mount knows its root directory by the number one and nothing else, and belongs to whom it
/// was made for.
pub proof fn law_new_mounts_know_their_root(
    device: RemoteDeviceInfo,
    uid: u32,
    gid: u32,
    r: IfuseFilesystem,
    inode: u64,
)
    requires
        call_ensures(IfuseFilesystem::new, (device, uid, gid), r),
    ensures
        leads_to(r, 1, seq!['/']),
        inode != 1 ==> is_unknown(r, inode),
        r.uid == uid && r.gid == gid && r.device_info == device,
{
}

/// What FUSE does not know is answered with an error, and the device is not asked; so is a name that
/// is no text.
pub proof fn law_unknown_objects_are_refused(
    mount: IfuseFilesystem,
    inode: u64,
    parent: u64,
    name: String,
    raw: PathBuf,
    flags: i32,
    size: Option<u64>,
    mtime: Option<Mtime>,
    offset: u64,
    lookup: Step,
    getattr: Step,
    setattr: Step,
    readlink: Step,
    open: Step,
    readdir: Step,
    wrong: Step,
)
    requires
        is_unknown(mount, inode),
        call_ensures(IfuseFilesystem::lookup, (&mount, inode, Ok(name)), lookup),
        call_ensures(IfuseFilesystem::getattr, (&mount, inode), getattr),
        call_ensures(IfuseFilesystem::setattr, (&mount, inode, size, mtime), setattr),
        call_ensures(IfuseFilesystem::readlink, (&mount, inode), readlink),
        call_ensures(IfuseFilesystem::open, (&mount, inode, flags), open),
        call_ensures(IfuseFilesystem::readdir, (&mount, inode, offset), readdir),
        call_ensures(IfuseFilesystem::lookup, (&mount, parent, Err(raw)), wrong),
    ensures
        lookup matches Step::Reply(Response::Failed(Errno::EIO)),
        getattr matches Step::Reply(Response::Failed(Errno::EIO)),
        setattr matches Step::Reply(Response::Failed(Errno::EIO)),
        readlink matches Step::Reply(Response::Failed(Errno::EIO)),
        open matches Step::Reply(Response::Failed(Errno::EIO)),
        readdir matches Step::Reply(Response::Failed(Errno::EIO)),
        wrong matches Step::Reply(Response::Failed(Errno::EILSEQ)),
{
}

/// A link to what FUSE does not know is refused, and so is one to a target that is no text.
pub proof fn law_links_to_nothing_are_refused(
    mount: IfuseFilesystem,
    unknown: u64,
    parent: u64,
    dir: Seq<char>,
    name: String,
    raw: PathBuf,
    hard: Step,
    symbolic: Step,
)
    requires
        is_unknown(mount, unknown),
        leads_to(mount, parent, dir),
        call_ensures(IfuseFilesystem::link, (&mount, unknown, parent, Ok(name)), hard),
        call_ensures(IfuseFilesystem::symlink, (&mount, parent, Ok(name), Err(raw)), symbolic),
    ensures
        hard matches Step::Reply(Response::Failed(Errno::EIO)),
        symbolic matches Step::Reply(Response::Failed(Errno::EILSEQ)),
{
}

/// Making, removing and renaming refuse what FUSE does not know, and names that are no text, in the
/// same way, before the device is asked.
pub proof fn law_unknown_directories_are_refused(
    mount: IfuseFilesystem,
    inode: u64,
    name: std::result::Result<String, PathBuf>,
    target: std::result::Result<String, PathBuf>,
    known: u64,
    dir: Seq<char>,
    other: String,
    flags: i32,
    mkdir: Step,
    unlink: Step,
    rmdir: Step,
    symlink: Step,
    create: Step,
    rename: Step,
    renamed_to: Step,
    link: Step,
)
    requires
        is_unknown(mount, inode) || name is Err,
        leads_to(mount, known, dir),
        call_ensures(IfuseFilesystem::mkdir, (&mount, inode, name), mkdir),
        call_ensures(IfuseFilesystem::unlink, (&mount, inode, name), unlink),
        call_ensures(IfuseFilesystem::rmdir, (&mount, inode, name), rmdir),
        call_ensures(IfuseFilesystem::symlink, (&mount, inode, name, target), symlink),
        call_ensures(IfuseFilesystem::create, (&mount, inode, name, flags), create),
        call_ensures(IfuseFilesystem::rename, (&mount, inode, name, known, Ok(other), 0), rename),
        call_ensures(
            IfuseFilesystem::rename,
            (&mount, known, Ok(other), inode, name, 0),
            renamed_to,
        ),
        call_ensures(IfuseFilesystem::link, (&mount, known, inode, name), link),
    ensures
        ({
            let errno = if name is Err {
                Errno::EILSEQ
            } else {
                Errno::EIO
            };
            &&& mkdir matches Step::Reply(Response::Failed(e)) && e == errno
            &&& unlink matches Step::Reply(Response::Failed(e)) && e == errno
            &&& rmdir matches Step::Reply(Response::Failed(e)) && e == errno
            &&& symlink matches Step::Reply(Response::Failed(e)) && e == errno
            &&& create matches Step::Reply(Response::Failed(e)) && e == errno
            &&& rename matches Step::Reply(Response::Failed(e)) && e == errno
            &&& renamed_to matches Step::Reply(Response::Failed(e)) && e == errno
            &&& link matches Step::Reply(Response::Failed(e)) && e == errno
        }),
{
}

/// A request that the device refuses ends its operation with the errno for the device's status, and
/// changes nothing; a file that was opened for being made is closed first.
pub proof fn law_refusals_end_operations(
    mount: &mut IfuseFilesystem,
    next: Continuation,
    error: Error,
    r: Step,
    errno: Errno,
)
    requires
        call_ensures(IfuseFilesystem::resume, (mount, next, Err(error)), r),
        call_ensures(error::errno, (&error,), errno),
    ensures
        final(mount)@ == old(mount)@,
        match next {
            Continuation::CreateKnown { handle, .. } => r matches Step::Ask(
                Command::Close(h),
                Continuation::CreateClosed { errno: e },
            ) && h == handle && e == errno,
            Continuation::CreateClosed { errno: e } => r matches Step::Reply(Response::Failed(told))
                && told == e,
            _ => r matches Step::Reply(Response::Failed(told)) && told == errno,
        },
{
}

/// The path of a number, and of a name in the directory of a number, is the one that FUSE knows it
/// by; what it does not know is named in the error, and so is a name that is no text.
pub proof fn law_paths_are_those_of_the_numbers(
    mount: IfuseFilesystem,
    inode: u64,
    path: Result<String>,
    name: std::result::Result<String, PathBuf>,
    named: Result<String>,
    room: bool,
)
    requires
        call_ensures(IfuseFilesystem::path, (&mount, inode), path),
        call_ensures(IfuseFilesystem::named_path, (&mount, inode, name), named),
        call_ensures(IfuseFilesystem::has_room, (&mount,), room),
    ensures
        is_unknown(mount, inode) ==> (path matches Err(Error::InvalidAfcResponse(words)) && words@
            == "unknown inode "@ + text::decimal(inode as nat)),
        !is_unknown(mount, inode) ==> (path matches Ok(found) && leads_to(mount, inode, found@)),
        match name {
            Err(raw) => named matches Err(Error::NonUtf8Path(told)) && told == raw,
            Ok(name) => if is_unknown(mount, inode) {
                named matches Err(Error::InvalidAfcResponse(words)) && words@ == "unknown inode "@
                    + text::decimal(inode as nat)
            } else {
                named matches Ok(found) && found@ == below(mount.inodes@.paths[inode], name@)
            },
        },
        room <==> mount.inodes@.next < 0xffff_ffff_ffff_ffff,
{
}

/// Every operation can be begun whatever it is given, and goes on whatever comes, as long as there
/// is a number left for what is shown.
pub proof fn law_operations_take_what_they_are_given(
    mount: IfuseFilesystem,
    going_on: &mut IfuseFilesystem,
    next: Continuation,
    outcome: Result<Answer>,
    a: u64,
    b: u64,
    size: u32,
    flags: i32,
    rename_flags: u32,
    name: std::result::Result<String, PathBuf>,
    other: std::result::Result<String, PathBuf>,
    length: Option<u64>,
    mtime: Option<Mtime>,
    data: Vec<u8>,
    full: bool,
)
    ensures
        call_requires(IfuseFilesystem::lookup, (&mount, a, name)),
        call_requires(IfuseFilesystem::getattr, (&mount, a)),
        call_requires(IfuseFilesystem::setattr, (&mount, a, length, mtime)),
        call_requires(IfuseFilesystem::readlink, (&mount, a)),
        call_requires(IfuseFilesystem::mkdir, (&mount, a, name)),
        call_requires(IfuseFilesystem::unlink, (&mount, a, name)),
        call_requires(IfuseFilesystem::rmdir, (&mount, a, name)),
        call_requires(IfuseFilesystem::symlink, (&mount, a, name, other)),
        call_requires(IfuseFilesystem::rename, (&mount, a, name, b, other, rename_flags)),
        call_requires(IfuseFilesystem::link, (&mount, a, b, name)),
        call_requires(IfuseFilesystem::open, (&mount, a, flags)),
        call_requires(IfuseFilesystem::read, (&mount, a, b, size)),
        call_requires(IfuseFilesystem::write, (&mount, a, b, data)),
        call_requires(IfuseFilesystem::release, (&mount, a)),
        call_requires(IfuseFilesystem::flush, (&mount,)),
        call_requires(IfuseFilesystem::fsync, (&mount,)),
        call_requires(IfuseFilesystem::readdir, (&mount, a, b)),
        call_requires(IfuseFilesystem::statfs, (&mount,)),
        call_requires(IfuseFilesystem::create, (&mount, a, name, flags)),
        call_requires(IfuseFilesystem::added, (&mount, next, full)),
        old(going_on).inodes@.next < 0xffff_ffff_ffff_ffff ==> call_requires(
            IfuseFilesystem::resume,
            (going_on, next, outcome),
        ),
{
}

} // verus!
