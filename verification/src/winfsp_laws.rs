//! What each operation of WinFsp asks of the device and is answered, from its arguments and the
//! device's own numbers on.

use vstd::prelude::*;
use vstd::string::*;

use crate::afc;
use crate::afc::{RemoteDeviceInfo, RemoteFileInfo, RemoteFileType};
use crate::answer_laws;
use crate::backend::{Answer, Command, Mtime};
use crate::error;
use crate::error::{Error, NtStatus};
use crate::fuse_laws;
use crate::reparse;
use crate::text;
use crate::transport::{AfcFopenMode, LinkType};
use crate::utf16;
use crate::windows_filesystem;
use crate::windows_filesystem::{
    Continuation, FileInfo, IfuseFileContext, IfuseFilesystem, Response, Step,
};

verus! {

/// A character with the separator of the device in place of that of Windows.
pub open spec fn device_char(c: char) -> char {
    if c == '\\' {
        '/'
    } else {
        c
    }
}

/// A path of Windows stands for the path of the same characters with the separators of the device,
/// and with one in front where it has none.
pub proof fn law_paths_keep_their_characters(units: &[u16], r: String)
    requires
        call_ensures(windows_filesystem::afc_path, (units,), r),
    ensures
        ({
            let s = utf16::decoded(units@);
            let given = s.len() > 0 && (s[0] == '\\' || s[0] == '/');
            let lead = if given {
                0int
            } else {
                1
            };
            &&& r@ == windows_filesystem::mount_path(units@)
            &&& r@.len() == s.len() + lead
            &&& !given ==> r@[0] == '/'
            &&& forall|i: int| 0 <= i < s.len() ==> #[trigger] r@[i + lead] == device_char(s[i])
        }),
{
    let s = utf16::decoded(units@);
    text::law_replacing_one_by_one(s, '\\', '/');
}

/// Whether WinFsp is told of an object what the device says of it: its size as it is, the blocks of
/// four kibibytes that it takes or at least its size, and its times in full, in steps of a hundred
/// nanoseconds since 1601. The device tells no time of last access or change, so that of
/// modification stands for them.
pub open spec fn is_told(shown: FileInfo, facts: afc::FileFacts) -> bool {
    &&& shown.file_size == facts.size
    &&& shown.last_write_time == 116_444_736_000_000_000 + facts.modified / 100
    &&& shown.last_access_time == shown.last_write_time
    &&& shown.change_time == shown.last_write_time
    &&& shown.creation_time == 116_444_736_000_000_000 + facts.created / 100
    &&& shown.allocation_size >= facts.size
    &&& facts.blocks * 4096 <= 0xffff_ffff_ffff_ffff ==> shown.allocation_size == (if facts.blocks
        * 4096 < facts.size {
        facts.size as int
    } else {
        facts.blocks * 4096
    })
    &&& facts.blocks * 4096 > 0xffff_ffff_ffff_ffff ==> shown.allocation_size
        == 0xffff_ffff_ffff_ffff
    &&& shown.file_attributes == attributes(facts.kind)
    &&& shown.reparse_tag == (if facts.kind is Symlink {
        0xa000000cu32
    } else {
        0
    })
}

/// What Windows takes an object of the device for.
pub open spec fn attributes(kind: RemoteFileType) -> u32 {
    match kind {
        RemoteFileType::Directory => 0x10,
        RemoteFileType::Symlink => 0x400,
        _ => 0x80,
    }
}

/// An object is shown as the device describes it, from the bytes of the device's answer on.
pub proof fn law_objects_are_shown_as_the_device_says(
    payload: &[u8],
    list: Seq<Seq<char>>,
    facts: afc::FileFacts,
    answer: error::Result<RemoteFileInfo>,
    context: IfuseFileContext,
    mount: IfuseFilesystem,
    asked: Step,
    shown: Step,
)
    requires
        payload@ == afc::zero_ended_list(list),
        answer_laws::describes(list, facts),
        call_ensures(afc::read_file_info, (payload,), answer),
        call_ensures(IfuseFilesystem::get_file_info, (&mount, &context), asked),
        asked matches Step::Ask(_, next) ==> (answer matches Ok(info) ==> call_ensures(
            windows_filesystem::resume,
            (next, Ok(Answer::FileInfo(info))),
            shown,
        )),
    ensures
        asked matches Step::Ask(Command::FileInfo(path), _) && path@ == context.path@,
        answer is Ok,
        shown matches Step::Reply(Response::Info(told)) && is_told(told, facts),
{
    answer_laws::law_object_is_known_as_the_device_says(payload, list, facts, answer);
}

/// What is known of an object is told in full, wherever an operation ends with it.
pub proof fn law_known_objects_are_told_in_full(info: RemoteFileInfo, r: FileInfo)
    requires
        call_ensures(windows_filesystem::file_info, (&info,), r),
    ensures
        is_told(r, info@),
        info@.size == info.size && info@.blocks == info.blocks && info@.modified == info.modified
            && info@.created == info.created && info@.kind == info.kind,
{
}

/// Times of Windows and of the device are the same times: what was modified at a time of the device
/// is shown so, and what is set to a time of Windows is given that time. Times before 1970, and
/// those that are too late for sixty-four bits of nanoseconds, become the nearest that there are.
pub proof fn law_times_are_the_same_times(nanos: Option<u128>, ticks: u64, shown: u64, set: u64)
    requires
        call_ensures(windows_filesystem::system_time_to_windows_time, (nanos,), shown),
        call_ensures(windows_filesystem::windows_time_to_unix_nanos, (ticks,), set),
    ensures
        nanos is None ==> shown == 116_444_736_000_000_000,
        nanos matches Some(n) ==> (n <= 0xffff_ffff_ffff_ffff ==> shown == 116_444_736_000_000_000
            + n / 100),
        ticks <= 116_444_736_000_000_000 ==> set == 0,
        ticks > 116_444_736_000_000_000 && (ticks - 116_444_736_000_000_000) * 100
            <= 0xffff_ffff_ffff_ffff ==> set == (ticks - 116_444_736_000_000_000) * 100,
        ticks > 116_444_736_000_000_000 && (ticks - 116_444_736_000_000_000) * 100
            > 0xffff_ffff_ffff_ffff ==> set == 0xffff_ffff_ffff_ffff,
{
}

/// A name is asked for by its path, and Windows is told whether it is a link and what it is.
pub proof fn law_security_tells_what_a_name_is(
    mount: IfuseFilesystem,
    units: &[u16],
    asked: Step,
    info: RemoteFileInfo,
    shown: Step,
)
    requires
        call_ensures(IfuseFilesystem::get_security_by_name, (&mount, units), asked),
        asked matches Step::Ask(_, next) ==> call_ensures(
            windows_filesystem::resume,
            (next, Ok(Answer::FileInfo(info))),
            shown,
        ),
    ensures
        asked matches Step::Ask(Command::FileInfo(path), _) && path@
            == windows_filesystem::mount_path(units@),
        shown matches Step::Reply(Response::Security { reparse, attributes: told }) && reparse == (
        info.kind is Symlink) && told == attributes(info.kind),
{
}

/// Whether an object was just opened: at its path, with the number that the device gave it where it
/// is a file, not marked for removal, and with nothing read of it.
pub open spec fn is_new(
    context: IfuseFileContext,
    path: Seq<char>,
    directory: bool,
    descriptor: Option<u64>,
) -> bool {
    &&& context.path@ == path
    &&& context.directory == directory
    &&& context.descriptor == descriptor
    &&& !context.delete_pending
    &&& context.directory_entries is None
}

/// An object that is opened is asked for by its path. A directory is not opened on the device; every
/// other object is, in the mode that the rights ask for: to append where they hold that right, to
/// write where they hold that one, and else to read.
pub proof fn law_opening_opens_the_named_object(
    mount: IfuseFilesystem,
    units: &[u16],
    access: u32,
    asked: Step,
    info: RemoteFileInfo,
    known: Step,
    handle: u64,
    opened: Step,
)
    requires
        call_ensures(IfuseFilesystem::open, (&mount, units, access), asked),
        asked matches Step::Ask(_, next) ==> call_ensures(
            windows_filesystem::resume,
            (next, Ok(Answer::FileInfo(info))),
            known,
        ),
        known matches Step::Ask(_, next) ==> call_ensures(
            windows_filesystem::resume,
            (next, Ok(Answer::Handle(handle))),
            opened,
        ),
    ensures
        ({
            let path = windows_filesystem::mount_path(units@);
            &&& asked matches Step::Ask(Command::FileInfo(there), _) && there@ == path
            &&& info.kind is Directory ==> (known matches Step::Reply(
                Response::Opened(context, told),
            ) && is_new(context, path, true, None) && is_told(told, info@))
            &&& !(info.kind is Directory) ==> {
                &&& known matches Step::Ask(Command::Open(there, mode), _) && there@ == path && (
                if access & 4 != 0 {
                    mode is RdAppend
                } else if access & 2 != 0 {
                    mode is Rw
                } else {
                    mode is RdOnly
                })
                &&& opened matches Step::Reply(Response::Opened(context, told)) && is_new(
                    context,
                    path,
                    false,
                    Some(handle),
                ) && is_told(told, info@)
            }
        }),
{
}

/// A file is closed by the number that it was opened with, and a directory needs no closing. What is
/// marked for removal is removed at its path, and nothing else is.
pub proof fn law_closing_and_cleaning_up(
    mount: IfuseFilesystem,
    context: IfuseFileContext,
    closed: Step,
    cleaned: Step,
    done: Step,
)
    requires
        call_ensures(IfuseFilesystem::close, (&mount, context), closed),
        call_ensures(IfuseFilesystem::cleanup, (&mount, &context), cleaned),
        call_ensures(
            windows_filesystem::resume,
            (Continuation::Finished, Ok(Answer::Done)),
            done,
        ),
    ensures
        match context.descriptor {
            Some(handle) => closed matches Step::Ask(Command::Close(h), Continuation::Finished) && h
                == handle,
            None => closed matches Step::Reply(Response::Done),
        },
        if context.delete_pending {
            cleaned matches Step::Ask(Command::Remove(path), Continuation::Finished) && path@
                == context.path@
        } else {
            cleaned matches Step::Reply(Response::Done)
        },
        done matches Step::Reply(Response::Done),
{
}

/// A new file is opened for reading and writing at its path, emptied; where it is to have a size it
/// is given that size, and then it is asked for and shown with the number that the device gave it.
pub proof fn law_new_files_are_opened_and_sized(
    mount: IfuseFilesystem,
    units: &[u16],
    options: u32,
    size: u64,
    extra: Option<&[u8]>,
    asked: Step,
    handle: u64,
    opened: Step,
    sized: Step,
    info: RemoteFileInfo,
    shown: Step,
)
    requires
        options & 1 == 0,
        call_ensures(IfuseFilesystem::create, (&mount, units, options, size, extra, false), asked),
        asked matches Step::Ask(_, next) ==> call_ensures(
            windows_filesystem::resume,
            (next, Ok(Answer::Handle(handle))),
            opened,
        ),
        size != 0 ==> (opened matches Step::Ask(_, next) ==> call_ensures(
            windows_filesystem::resume,
            (next, Ok(Answer::Done)),
            sized,
        )),
        size == 0 ==> sized == opened,
        sized matches Step::Ask(_, next) ==> call_ensures(
            windows_filesystem::resume,
            (next, Ok(Answer::FileInfo(info))),
            shown,
        ),
    ensures
        ({
            let path = windows_filesystem::mount_path(units@);
            &&& asked matches Step::Ask(Command::Open(there, AfcFopenMode::Wr), _) && there@ == path
            &&& size != 0 ==> (opened matches Step::Ask(Command::TruncateHandle(h, length), _) && h
                == handle && length == size)
            &&& sized matches Step::Ask(Command::FileInfo(there), _) && there@ == path
            &&& shown matches Step::Reply(Response::Opened(context, told)) && is_new(
                context,
                path,
                false,
                Some(handle),
            ) && is_told(told, info@)
        }),
{
}

/// A new directory, or a link where a reparse point is given, is made at its path, a link with the
/// target that the reparse point holds, and then it is asked for and shown.
pub proof fn law_new_directories_and_links_are_made(
    mount: IfuseFilesystem,
    units: &[u16],
    options: u32,
    size: u64,
    extra: &[u8],
    is_reparse: bool,
    target: std::result::Result<String, NtStatus>,
    asked: Step,
    made: Step,
    info: RemoteFileInfo,
    shown: Step,
)
    requires
        is_reparse || options & 1 != 0,
        call_ensures(reparse::parse_symlink_reparse, (extra,), target),
        call_ensures(
            IfuseFilesystem::create,
            (&mount, units, options, size, Some(extra), is_reparse),
            asked,
        ),
        asked matches Step::Ask(_, next) ==> call_ensures(
            windows_filesystem::resume,
            (next, Ok(Answer::Done)),
            made,
        ),
        made matches Step::Ask(_, next) ==> call_ensures(
            windows_filesystem::resume,
            (next, Ok(Answer::FileInfo(info))),
            shown,
        ),
    ensures
        ({
            let path = windows_filesystem::mount_path(units@);
            match (is_reparse, target) {
                (true, Err(status)) => asked matches Step::Reply(Response::Failed(told)) && told
                    == status,
                (true, Ok(target)) => {
                    &&& asked matches Step::Ask(Command::Link(to, there, LinkType::Symlink), _)
                        && to@ == target@ && there@ == path
                    &&& made matches Step::Ask(Command::FileInfo(there), _) && there@ == path
                    &&& shown matches Step::Reply(Response::Opened(context, told)) && is_new(
                        context,
                        path,
                        false,
                        None,
                    ) && is_told(told, info@)
                },
                (false, _) => {
                    &&& asked matches Step::Ask(Command::Mkdir(there), _) && there@ == path
                    &&& made matches Step::Ask(Command::FileInfo(there), _) && there@ == path
                    &&& shown matches Step::Reply(Response::Opened(context, told)) && is_new(
                        context,
                        path,
                        true,
                        None,
                    ) && is_told(told, info@)
                },
            }
        }),
{
}

/// A link cannot be created without a reparse point.
pub proof fn law_links_need_a_reparse_point(
    mount: IfuseFilesystem,
    units: &[u16],
    options: u32,
    size: u64,
    r: Step,
)
    requires
        call_ensures(IfuseFilesystem::create, (&mount, units, options, size, None, true), r),
    ensures
        r matches Step::Reply(Response::Failed(NtStatus::NotSupported)),
{
}

/// An object that is flushed is asked for and shown; without an object there is nothing to do.
pub proof fn law_flushing_shows_the_object(
    mount: IfuseFilesystem,
    context: IfuseFileContext,
    flushed: Step,
    nothing: Step,
    info: RemoteFileInfo,
    shown: Step,
)
    requires
        call_ensures(IfuseFilesystem::flush, (&mount, Some(&context)), flushed),
        call_ensures(IfuseFilesystem::flush, (&mount, None), nothing),
        flushed matches Step::Ask(_, next) ==> call_ensures(
            windows_filesystem::resume,
            (next, Ok(Answer::FileInfo(info))),
            shown,
        ),
    ensures
        flushed matches Step::Ask(Command::FileInfo(path), _) && path@ == context.path@,
        nothing matches Step::Reply(Response::Done),
        shown matches Step::Reply(Response::Info(told)) && is_told(told, info@),
{
}

/// A file that is given a size, or written anew with one, is given that size by the number that it
/// was opened with, and then asked for and shown; a directory cannot be.
pub proof fn law_sizes_are_set_in_full(
    mount: IfuseFilesystem,
    context: IfuseFileContext,
    size: u64,
    resized: Step,
    overwritten: Step,
    changed: Step,
    info: RemoteFileInfo,
    shown: Step,
)
    requires
        call_ensures(IfuseFilesystem::set_file_size, (&mount, &context, size), resized),
        call_ensures(IfuseFilesystem::overwrite, (&mount, &context, size), overwritten),
        resized matches Step::Ask(_, next) ==> call_ensures(
            windows_filesystem::resume,
            (next, Ok(Answer::Done)),
            changed,
        ),
        changed matches Step::Ask(_, next) ==> call_ensures(
            windows_filesystem::resume,
            (next, Ok(Answer::FileInfo(info))),
            shown,
        ),
    ensures
        match context.descriptor {
            Some(handle) => {
                &&& resized matches Step::Ask(Command::TruncateHandle(h, length), _) && h == handle
                    && length == size
                &&& overwritten@ == resized@
                &&& changed matches Step::Ask(Command::FileInfo(path), _) && path@ == context.path@
                &&& shown matches Step::Reply(Response::Info(told)) && is_told(told, info@)
            },
            None => {
                &&& resized matches Step::Reply(Response::Failed(NtStatus::FileIsADirectory))
                &&& overwritten matches Step::Reply(Response::Failed(NtStatus::FileIsADirectory))
            },
        },
{
}

/// The time of modification that Windows gives is set at the path of the object, in nanoseconds
/// since 1970; a time of nothing sets nothing. Then the object is asked for and shown.
pub proof fn law_times_are_set_in_full(
    mount: IfuseFilesystem,
    context: IfuseFileContext,
    ticks: u64,
    asked: Step,
    changed: Step,
)
    requires
        call_ensures(IfuseFilesystem::set_basic_info, (&mount, &context, ticks), asked),
        ticks != 0 ==> (asked matches Step::Ask(_, next) ==> call_ensures(
            windows_filesystem::resume,
            (next, Ok(Answer::Done)),
            changed,
        )),
        ticks == 0 ==> changed == asked,
    ensures
        changed matches Step::Ask(Command::FileInfo(path), Continuation::Info) && path@
            == context.path@,
        ticks != 0 ==> (asked matches Step::Ask(
            Command::SetMtime(path, Mtime::At(Some(nanos))),
            _,
        ) && path@ == context.path@ && (if ticks <= 116_444_736_000_000_000 {
            nanos == 0
        } else if (ticks - 116_444_736_000_000_000) * 100 > 0xffff_ffff_ffff_ffff {
            nanos == 0xffff_ffff_ffff_ffff
        } else {
            nanos == (ticks - 116_444_736_000_000_000) * 100
        })),
{
}

/// A file that is shown with a time and set to that time keeps it, but for what is less than a step
/// of Windows.
pub proof fn law_shown_times_are_set_again(
    info: RemoteFileInfo,
    shown: FileInfo,
    mount: IfuseFilesystem,
    context: IfuseFileContext,
    asked: Step,
)
    requires
        call_ensures(windows_filesystem::file_info, (&info,), shown),
        call_ensures(
            IfuseFilesystem::set_basic_info,
            (&mount, &context, shown.last_write_time),
            asked,
        ),
    ensures
        asked matches Step::Ask(Command::SetMtime(_, Mtime::At(Some(nanos))), _) && info.modified
            - 100 < nanos <= info.modified,
{
}

/// A read asks for as many bytes as the buffer holds, from the position that it names, of the file
/// that was opened, and gives what was read; a directory cannot be read.
pub proof fn law_reads_ask_for_the_bytes_they_name(
    mount: IfuseFilesystem,
    context: IfuseFileContext,
    buffer: usize,
    offset: u64,
    asked: Step,
    bytes: Vec<u8>,
    shown: Step,
)
    requires
        call_ensures(IfuseFilesystem::read, (&mount, &context, buffer, offset), asked),
        asked matches Step::Ask(_, next) ==> call_ensures(
            windows_filesystem::resume,
            (next, Ok(Answer::Data(bytes))),
            shown,
        ),
    ensures
        match context.descriptor {
            Some(handle) => {
                &&& asked matches Step::Ask(Command::Read(h, place, size), _) && h == handle
                    && place == offset && size == (if buffer <= 0xffff_ffff {
                    buffer as int
                } else {
                    0xffff_ffff
                })
                &&& shown matches Step::Reply(Response::Data(read)) && read@ == bytes@
            },
            None => asked matches Step::Reply(Response::Failed(NtStatus::FileIsADirectory)),
        },
{
}

/// A write to the end of a file asks first how long the file is, and then for all of its bytes to be
/// written behind as many as the device says the file holds, to the file that was opened.
pub proof fn law_appending_writes_behind_the_last_byte(
    mount: IfuseFilesystem,
    context: IfuseFileContext,
    handle: u64,
    data: Vec<u8>,
    offset: u64,
    asked: Step,
    payload: &[u8],
    list: Seq<Seq<char>>,
    facts: afc::FileFacts,
    answer: error::Result<RemoteFileInfo>,
    written: Step,
)
    requires
        context.descriptor == Some(handle),
        call_ensures(IfuseFilesystem::write, (&mount, &context, data, offset, true), asked),
        payload@ == afc::zero_ended_list(list),
        answer_laws::describes(list, facts),
        call_ensures(afc::read_file_info, (payload,), answer),
        asked matches Step::Ask(_, next) ==> (answer matches Ok(info) ==> call_ensures(
            windows_filesystem::resume,
            (next, Ok(Answer::FileInfo(info))),
            written,
        )),
    ensures
        asked matches Step::Ask(Command::FileInfo(path), _) && path@ == context.path@,
        answer is Ok,
        written matches Step::Ask(Command::Write(h, place, bytes), _) && h == handle && place
            == facts.size && bytes@ == data@,
{
    answer_laws::law_object_is_known_as_the_device_says(payload, list, facts, answer);
}

/// A write asks for all of its bytes to be written where it says, to the file that was opened; then
/// the file is asked for, and shown with the number of bytes that the device wrote. A directory
/// cannot be written to.
pub proof fn law_writes_ask_for_the_bytes_they_bring(
    mount: IfuseFilesystem,
    context: IfuseFileContext,
    data: Vec<u8>,
    offset: u64,
    at_end: bool,
    size: RemoteFileInfo,
    asked: Step,
    sent: Step,
    count: u32,
    written: Step,
    info: RemoteFileInfo,
    shown: Step,
)
    requires
        call_ensures(IfuseFilesystem::write, (&mount, &context, data, offset, at_end), asked),
        at_end ==> (asked matches Step::Ask(_, next) ==> call_ensures(
            windows_filesystem::resume,
            (next, Ok(Answer::FileInfo(size))),
            sent,
        )),
        !at_end ==> sent == asked,
        sent matches Step::Ask(_, next) ==> call_ensures(
            windows_filesystem::resume,
            (next, Ok(Answer::Count(count))),
            written,
        ),
        written matches Step::Ask(_, next) ==> call_ensures(
            windows_filesystem::resume,
            (next, Ok(Answer::FileInfo(info))),
            shown,
        ),
    ensures
        match context.descriptor {
            Some(handle) => {
                &&& sent matches Step::Ask(Command::Write(h, place, bytes), _) && h == handle
                    && bytes@ == data@ && place == (if at_end {
                    size.size
                } else {
                    offset
                })
                &&& written matches Step::Ask(Command::FileInfo(path), _) && path@ == context.path@
                &&& shown matches Step::Reply(Response::Written(told, file)) && told == count
                    && is_told(file, info@)
            },
            None => asked matches Step::Reply(Response::Failed(NtStatus::FileIsADirectory)),
        },
{
}

/// Renaming asks for the two named paths; where the new one may be taken it is asked for first, and
/// what is there is removed before.
pub proof fn law_renaming_renames_the_named_paths(
    mount: IfuseFilesystem,
    from: &[u16],
    to: &[u16],
    replace: bool,
    asked: Step,
    found: std::result::Result<RemoteFileInfo, Error>,
    known: Step,
    removed: Step,
)
    requires
        call_ensures(IfuseFilesystem::rename, (&mount, from, to, replace), asked),
        replace ==> (asked matches Step::Ask(_, next) ==> call_ensures(
            windows_filesystem::resume,
            (
                next,
                match found {
                    Ok(info) => Ok(Answer::FileInfo(info)),
                    Err(e) => Err(e),
                },
            ),
            known,
        )),
        known matches Step::Ask(_, next) ==> call_ensures(
            windows_filesystem::resume,
            (next, Ok(Answer::Done)),
            removed,
        ),
    ensures
        ({
            let a = windows_filesystem::mount_path(from@);
            let b = windows_filesystem::mount_path(to@);
            if !replace {
                is_rename(asked, a, b)
            } else {
                &&& asked matches Step::Ask(Command::FileInfo(path), _) && path@ == b
                &&& found is Err ==> is_rename(known, a, b)
                &&& found is Ok ==> (known matches Step::Ask(Command::Remove(path), _) && path@ == b)
                    && is_rename(removed, a, b)
            }
        }),
{
}

/// Whether the last thing that is asked for is a renaming.
pub open spec fn is_rename(step: Step, from: Seq<char>, to: Seq<char>) -> bool {
    step matches Step::Ask(Command::Rename(a, b), Continuation::Finished) && a@ == from && b@ == to
}

/// A file is marked for removal as it is asked for, and the mark of any object is taken away as it
/// is asked for; a directory is marked only where the device lists nothing in it but itself and its
/// parent.
pub proof fn law_only_empty_directories_are_marked(
    mount: IfuseFilesystem,
    context: IfuseFileContext,
    remove: bool,
    asked: Step,
    names: Vec<String>,
    r: Step,
)
    requires
        call_ensures(IfuseFilesystem::set_delete, (&mount, &context, remove), asked),
        asked matches Step::Ask(_, next) ==> call_ensures(
            windows_filesystem::resume,
            (next, Ok(Answer::Names(names))),
            r,
        ),
    ensures
        if remove && context.directory {
            &&& asked matches Step::Ask(Command::ListDir(path), _) && path@ == context.path@
            &&& (forall|i: int|
                0 <= i < names@.len() ==> (#[trigger] names@[i])@ == seq!['.'] || names@[i]@
                    == seq!['.', '.']) ==> (r matches Step::Reply(Response::DeletePending(true)))
            &&& (exists|i: int|
                0 <= i < names@.len() && (#[trigger] names@[i])@ != seq!['.'] && names@[i]@
                    != seq!['.', '.']) ==> (r matches Step::Reply(
                Response::Failed(NtStatus::DirectoryNotEmpty),
            ))
        } else {
            asked matches Step::Reply(Response::DeletePending(marked)) && marked == remove
        },
{
    let all = afc::texts(names@);
    if exists|i: int|
        0 <= i < names@.len() && (#[trigger] names@[i])@ != seq!['.'] && names@[i]@
            != seq!['.', '.'] {
        let i = choose|i: int|
            0 <= i < names@.len() && (#[trigger] names@[i])@ != seq!['.'] && names@[i]@
                != seq!['.', '.'];
        assert(all[i] == names@[i]@);
        assert(all.contains(names@[i]@));
        windows_filesystem::law_only_empty_directories_go(all, names@[i]@);
    } else {
        assert forall|i: int| 0 <= i < all.len() implies windows_filesystem::is_dots(
            #[trigger] all[i],
        ) by {
            assert(all[i] == names@[i]@);
        }
        lemma_only_dots(all);
    }
}

proof fn lemma_only_dots(names: Seq<Seq<char>>)
    requires
        forall|i: int|
            0 <= i < names.len() ==> windows_filesystem::is_dots(#[trigger] names[i]),
    ensures
        windows_filesystem::without_dots(names).len() == 0,
    decreases names.len(),
{
    if names.len() > 0 {
        assert(names.last() == names[names.len() - 1]);
        assert forall|i: int| 0 <= i < names.drop_last().len() implies windows_filesystem::is_dots(
            #[trigger] names.drop_last()[i],
        ) by {
            assert(names.drop_last()[i] == names[i]);
        }
        lemma_only_dots(names.drop_last());
    }
}

/// A directory is shown without itself and its parent: of the names that the device lists, all
/// others are kept, in their order.
pub proof fn law_dots_are_left_out(before: Seq<Seq<char>>, name: Seq<char>)
    ensures
        windows_filesystem::without_dots(Seq::empty()) == Seq::<Seq<char>>::empty(),
        name == seq!['.'] || name == seq!['.', '.'] ==> windows_filesystem::without_dots(
            before.push(name),
        ) == windows_filesystem::without_dots(before),
        name != seq!['.'] && name != seq!['.', '.'] ==> windows_filesystem::without_dots(
            before.push(name),
        ) == windows_filesystem::without_dots(before).push(name),
{
    assert(before.push(name).drop_last() =~= before);
}

/// The volume has the space that the device says, in bytes, and the label of the mount, which is the
/// one that it was last given.
pub proof fn law_volumes_are_as_large_as_the_device(
    mount: IfuseFilesystem,
    label: String,
    made: IfuseFilesystem,
    named: &mut IfuseFilesystem,
    units: &[u16],
    asked: Step,
    renamed: Step,
    payload: &[u8],
    list: Seq<Seq<char>>,
    total: u64,
    free: u64,
    block: u32,
    answer: error::Result<RemoteDeviceInfo>,
    shown: Step,
    shown_anew: Step,
)
    requires
        call_ensures(IfuseFilesystem::new, (label,), made),
        call_ensures(IfuseFilesystem::get_volume_info, (&mount,), asked),
        call_ensures(IfuseFilesystem::set_volume_label, (named, units), renamed),
        payload@ == afc::zero_ended_list(list),
        answer_laws::is_answer(list),
        answer_laws::says(list, "FSTotalBytes"@, text::decimal(total as nat)),
        answer_laws::says(list, "FSFreeBytes"@, text::decimal(free as nat)),
        answer_laws::says(list, "FSBlockSize"@, text::decimal(block as nat)),
        answer_laws::is_silent(list, "Model"@),
        call_ensures(afc::read_device_info, (payload,), answer),
        asked matches Step::Ask(_, next) ==> (answer matches Ok(info) ==> call_ensures(
            windows_filesystem::resume,
            (next, Ok(Answer::DeviceInfo(info))),
            shown,
        )),
        renamed matches Step::Ask(_, next) ==> (answer matches Ok(info) ==> call_ensures(
            windows_filesystem::resume,
            (next, Ok(Answer::DeviceInfo(info))),
            shown_anew,
        )),
    ensures
        made.volume_label@ == label@,
        asked matches Step::Ask(Command::DeviceInfo, _),
        renamed matches Step::Ask(Command::DeviceInfo, _),
        answer is Ok,
        shown matches Step::Reply(Response::Volume { total_size, free_size, label: told })
            && total_size == total && free_size == free && told@ == mount.volume_label@,
        final(named).volume_label@ == utf16::decoded(units@),
        shown_anew matches Step::Reply(Response::Volume { total_size, free_size, label: told })
            && total_size == total && free_size == free && told@ == utf16::decoded(units@),
{
    answer_laws::law_device_is_known_as_it_says(payload, list, total, free, block, None, answer);
}

/// A link is asked for by its path, and shown with the target that the device says; what has none is
/// no link.
pub proof fn law_links_are_shown_with_their_target(
    mount: IfuseFilesystem,
    context: IfuseFileContext,
    units: &[u16],
    by_name: Step,
    asked: Step,
    info: RemoteFileInfo,
    shown: Step,
)
    requires
        call_ensures(IfuseFilesystem::get_reparse_point_by_name, (&mount, units), by_name),
        call_ensures(IfuseFilesystem::get_reparse_point, (&mount, &context), asked),
        asked matches Step::Ask(_, next) ==> call_ensures(
            windows_filesystem::resume,
            (next, Ok(Answer::FileInfo(info))),
            shown,
        ),
    ensures
        by_name matches Step::Ask(Command::FileInfo(path), Continuation::Target) && path@
            == windows_filesystem::mount_path(units@),
        asked matches Step::Ask(Command::FileInfo(path), Continuation::Target) && path@
            == context.path@,
        match info.link_target {
            Some(target) => shown matches Step::Reply(Response::Target(told)) && told@ == target@,
            None => shown matches Step::Reply(Response::Failed(NtStatus::NotSupported)),
        },
{
}

/// A link that is made anew is removed at its path, and then made there with the target that the
/// reparse point holds; where that holds none, nothing is removed.
pub proof fn law_links_are_made_anew(
    mount: IfuseFilesystem,
    context: IfuseFileContext,
    buffer: &[u8],
    target: std::result::Result<String, NtStatus>,
    asked: Step,
    made: Step,
)
    requires
        call_ensures(reparse::parse_symlink_reparse, (buffer,), target),
        call_ensures(IfuseFilesystem::set_reparse_point, (&mount, &context, buffer), asked),
        asked matches Step::Ask(_, next) ==> call_ensures(
            windows_filesystem::resume,
            (next, Ok(Answer::Done)),
            made,
        ),
    ensures
        match target {
            Ok(target) => {
                &&& asked matches Step::Ask(Command::Remove(path), _) && path@ == context.path@
                &&& made matches Step::Ask(
                    Command::Link(to, path, LinkType::Symlink),
                    Continuation::Finished,
                ) && to@ == target@ && path@ == context.path@
            },
            Err(status) => asked matches Step::Reply(Response::Failed(told)) && told == status,
        },
{
}

/// A request that fails ends its operation with the NTSTATUS for the error; only what a renaming
/// would replace may be unknown.
pub proof fn law_failures_end_operations(
    next: Continuation,
    error: Error,
    status: NtStatus,
    r: Step,
)
    requires
        !(next is ReplaceKnown),
        call_ensures(error::map_backend_error, (&error,), status),
        call_ensures(windows_filesystem::resume, (next, Err(error)), r),
    ensures
        r matches Step::Reply(Response::Failed(told)) && told == status,
{
}

/// A directory is read name by name: the device is asked for the names, then for what it knows of
/// each, by its path in the directory, and each is kept with what the device says of it.
pub proof fn law_directories_are_read_name_by_name(
    mount: IfuseFilesystem,
    context: IfuseFileContext,
    asked: Step,
    names: Vec<String>,
    first: Step,
    dir: String,
    list: Vec<String>,
    index: usize,
    listing: windows_filesystem::Listing,
    info: RemoteFileInfo,
    second: Step,
)
    requires
        call_ensures(IfuseFilesystem::read_directory, (&mount, &context, false), asked),
        context.directory,
        asked matches Step::Ask(_, next) ==> call_ensures(
            windows_filesystem::resume,
            (next, Ok(Answer::Names(names))),
            first,
        ),
        index < list@.len(),
        call_ensures(
            windows_filesystem::resume,
            (
                Continuation::Listed { path: dir, names: list, index, listing },
                Ok(Answer::FileInfo(info)),
            ),
            second,
        ),
    ensures
        asked matches Step::Ask(Command::ListDir(path), _) && path@ == context.path@,
        ({
            let all = windows_filesystem::without_dots(afc::texts(names@));
            if all.len() > 0 {
                first matches Step::Ask(
                    Command::FileInfo(there),
                    Continuation::Listed { path, names: kept, index: i, listing: l },
                ) && there@ == fuse_laws::below(context.path@, all[0]) && path@ == context.path@
                    && afc::texts(kept@) == all && i == 0 && l@.len() == 0
            } else {
                first matches Step::Reply(Response::Entries(l)) && l@.len() == 0
            }
        }),
        ({
            let entry = windows_filesystem::EntryFacts {
                name: list@[index as int]@,
                facts: info@,
            };
            if index + 1 < list@.len() {
                second matches Step::Ask(
                    Command::FileInfo(there),
                    Continuation::Listed { path, names: kept, index: i, listing: l },
                ) && there@ == fuse_laws::below(dir@, list@[index + 1]@) && path@ == dir@
                    && afc::texts(kept@) == afc::texts(list@) && i == index + 1 && l@
                    == windows_filesystem::placed(listing@, entry)
            } else {
                second matches Step::Reply(Response::Entries(l)) && l@
                    == windows_filesystem::placed(listing@, entry)
            }
        }),
{
    assert(afc::texts(list@)[index as int] == list@[index as int]@);
    if index + 1 < list@.len() {
        assert(afc::texts(list@)[index + 1] == list@[index + 1]@);
    }
}

proof fn lemma_shown_facts_are_told(all: Seq<windows_filesystem::EntryFacts>, i: int)
    requires
        0 <= i < all.len(),
    ensures
        windows_filesystem::shown_facts(all)[i].0 == all[i].name,
        is_told(windows_filesystem::shown_facts(all)[i].1, all[i].facts),
{
}

/// What is shown of a directory is what was read of it, each entry with its name and as the device
/// says of it, in order.
pub proof fn law_entries_are_shown_as_they_were_read(
    context: IfuseFileContext,
    listing: windows_filesystem::Listing,
    all: Vec<windows_filesystem::ShownEntry>,
    i: int,
)
    requires
        context.directory_entries == Some(listing),
        call_ensures(IfuseFileContext::entries_after, (&context, None), all),
    ensures
        all@.len() == listing@.len(),
        0 <= i < all@.len() ==> all@[i].name@ == listing@[i].name && is_told(
            all@[i].info,
            listing@[i].facts,
        ),
{
    let facts = listing@;
    let shown = windows_filesystem::shown_entries(all@);
    assert(facts.skip(0) =~= facts);
    assert(shown.len() == all@.len());
    if 0 <= i < all@.len() {
        assert(shown[i] == (all@[i].name@, all@[i].info));
        lemma_shown_facts_are_told(facts, i);
    }
}

/// With a marker only what comes behind it is shown of a directory: the entries before are those
/// whose names do not come after the marker, and the others are shown as they were read.
pub proof fn law_entries_behind_a_marker_are_shown(
    context: IfuseFileContext,
    listing: windows_filesystem::Listing,
    marker: &[u16],
    rest: Vec<windows_filesystem::ShownEntry>,
    i: int,
)
    requires
        context.directory_entries == Some(listing),
        call_ensures(IfuseFileContext::entries_after, (&context, Some(marker)), rest),
    ensures
        rest@.len() <= listing@.len(),
        0 <= i < rest@.len() ==> {
            let at = listing@.len() - rest@.len() + i;
            rest@[i].name@ == listing@[at].name && is_told(rest@[i].info, listing@[at].facts)
                && !text::not_after(rest@[i].name@, utf16::decoded(marker@))
        },
        0 <= i < listing@.len() - rest@.len() ==> text::not_after(
            listing@[i].name,
            utf16::decoded(marker@),
        ),
{
    let facts = listing@;
    let name = utf16::decoded(marker@);
    let start = windows_filesystem::start_after(facts, Some(name)) as int;
    let later = windows_filesystem::shown_entries(rest@);
    windows_filesystem::law_marker_parts_a_listing(facts, name);
    assert(later.len() == rest@.len());
    assert(later.len() == facts.len() - start);
    if 0 <= i < rest@.len() {
        assert(later[i] == (rest@[i].name@, rest@[i].info));
        lemma_shown_facts_are_told(facts.skip(start), i);
        assert(facts.skip(start)[i] == facts[start + i]);
    }
}

/// A directory that was not read shows nothing.
pub proof fn law_unread_directories_show_nothing(
    context: IfuseFileContext,
    marker: Option<&[u16]>,
    all: Vec<windows_filesystem::ShownEntry>,
)
    requires
        context.directory_entries is None,
        call_ensures(IfuseFileContext::entries_after, (&context, marker), all),
    ensures
        all@.len() == 0,
{
    assert(windows_filesystem::shown_entries(all@).len() == all@.len());
}

/// A buffer is filled entry by entry from the first on: the next is tried while the last fitted, the
/// mark that ends a directory comes behind the last entry, and nothing comes where one did not fit.
pub proof fn law_buffers_are_filled_entry_by_entry(
    entries: &Vec<windows_filesystem::ShownEntry>,
    position: usize,
    fitted: bool,
    r: windows_filesystem::Filling,
)
    requires
        call_ensures(windows_filesystem::fill_next, (entries, position, fitted), r),
    ensures
        !fitted <==> r is Stop,
        fitted && position < entries@.len() ==> (r matches windows_filesystem::Filling::Add(at)
            && at == position),
        fitted && position >= entries@.len() <==> r is End,
{
}

/// What is no directory cannot be read as one; what was read is shown again where a marker says
/// where to go on, and the device is not asked.
pub proof fn law_directories_are_asked_for_once(
    mount: IfuseFilesystem,
    context: IfuseFileContext,
    marked: Step,
    unmarked: Step,
)
    requires
        call_ensures(IfuseFilesystem::read_directory, (&mount, &context, true), marked),
        call_ensures(IfuseFilesystem::read_directory, (&mount, &context, false), unmarked),
    ensures
        !context.directory ==> (marked matches Step::Reply(
            Response::Failed(NtStatus::NotADirectory),
        )) && (unmarked matches Step::Reply(Response::Failed(NtStatus::NotADirectory))),
        context.directory ==> (marked matches Step::Reply(Response::KeptEntries)) && (
        unmarked matches Step::Ask(Command::ListDir(path), _) && path@ == context.path@),
{
}

/// Every operation can be begun whatever it is given, and goes on whatever comes.
pub proof fn law_operations_take_what_they_are_given(
    mount: IfuseFilesystem,
    named: &mut IfuseFilesystem,
    context: IfuseFileContext,
    units: &[u16],
    others: &[u16],
    bytes: &[u8],
    data: Vec<u8>,
    a: u64,
    access: u32,
    room: usize,
    flag: bool,
    next: Continuation,
    outcome: error::Result<Answer>,
)
    ensures
        call_requires(windows_filesystem::resume, (next, outcome)),
        call_requires(IfuseFilesystem::get_security_by_name, (&mount, units)),
        call_requires(IfuseFilesystem::open, (&mount, units, access)),
        call_requires(IfuseFilesystem::close, (&mount, context)),
        call_requires(IfuseFilesystem::create, (&mount, units, access, a, Some(bytes), flag)),
        call_requires(IfuseFilesystem::create, (&mount, units, access, a, None, flag)),
        call_requires(IfuseFilesystem::cleanup, (&mount, &context)),
        call_requires(IfuseFilesystem::flush, (&mount, Some(&context))),
        call_requires(IfuseFilesystem::get_file_info, (&mount, &context)),
        call_requires(IfuseFilesystem::overwrite, (&mount, &context, a)),
        call_requires(IfuseFilesystem::read_directory, (&mount, &context, flag)),
        call_requires(IfuseFilesystem::rename, (&mount, units, others, flag)),
        call_requires(IfuseFilesystem::set_basic_info, (&mount, &context, a)),
        call_requires(IfuseFilesystem::set_delete, (&mount, &context, flag)),
        call_requires(IfuseFilesystem::set_file_size, (&mount, &context, a)),
        call_requires(IfuseFilesystem::read, (&mount, &context, room, a)),
        call_requires(IfuseFilesystem::write, (&mount, &context, data, a, flag)),
        call_requires(IfuseFilesystem::get_volume_info, (&mount,)),
        call_requires(IfuseFilesystem::set_volume_label, (named, units)),
        call_requires(IfuseFilesystem::get_reparse_point_by_name, (&mount, units)),
        call_requires(IfuseFilesystem::get_reparse_point, (&mount, &context)),
        call_requires(IfuseFilesystem::set_reparse_point, (&mount, &context, bytes)),
        call_requires(IfuseFileContext::entries_after, (&context, Some(units))),
        call_requires(IfuseFileContext::entries_after, (&context, None)),
{
}

} // verus!
