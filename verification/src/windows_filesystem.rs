//! The filesystem that WinFsp is shown: each operation as a series of requests to the device, and
//! what it is answered with.

use vstd::prelude::*;
use vstd::string::*;

use crate::afc;
use crate::afc::{RemoteFileInfo, RemoteFileType};
use crate::backend;
use crate::backend::{Answer, Command, Mtime};
use crate::error;
use crate::error::{Error, NtStatus};
use crate::inode;
use crate::reparse;
use crate::sorting;
use crate::sorting::Named;
use crate::text;
use crate::transport::{AfcFopenMode, LinkType};
use crate::utf16;

verus! {

pub const FILE_ATTRIBUTE_DIRECTORY: u32 = 0x10;

pub const FILE_ATTRIBUTE_NORMAL: u32 = 0x80;

pub const FILE_ATTRIBUTE_REPARSE_POINT: u32 = 0x400;

pub const FILE_DIRECTORY_FILE: u32 = 0x1;

pub const FILE_WRITE_DATA: u32 = 0x2;

pub const FILE_APPEND_DATA: u32 = 0x4;

/// The text that the wide characters of Windows stand for.
pub fn wide_string(value: &[u16]) -> (r: String)
    ensures
        r@ == utf16::decoded(value@),
{
    let list: Vec<char> = utf16::decode(value);
    text::text(list.as_slice())
}

/// The path on the mount that a path of Windows stands for: with the separators of the device, and
/// with one at its start.
pub open spec fn mount_path(path: Seq<u16>) -> Seq<char> {
    let value = text::replaced(utf16::decoded(path), '\\', seq!['/']);
    if value.len() > 0 && value[0] == '/' {
        value
    } else {
        seq!['/'] + value
    }
}

/// The path on the mount that a path of Windows stands for.
pub fn afc_path(path: &[u16]) -> (r: String)
    ensures
        r@ == mount_path(path@),
{
    proof {
        reveal_strlit("/");
        assert("/"@ =~= seq!['/']);
    }
    let wide: String = wide_string(path);
    let value: String = text::replace(wide.as_str(), '\\', "/");
    let list: Vec<char> = text::chars(value.as_str());
    if list.len() > 0 && list[0] == '/' {
        value
    } else {
        text::joined("/", value.as_str())
    }
}

proof fn lemma_replaced_without(s: Seq<char>)
    ensures
        !text::replaced(s, '\\', seq!['/']).contains('\\'),
    decreases s.len(),
{
    if s.len() > 0 {
        lemma_replaced_without(s.drop_last());
        let before = text::replaced(s.drop_last(), '\\', seq!['/']);
        let all = text::replaced(s, '\\', seq!['/']);
        assert forall|i: int| 0 <= i < all.len() implies all[i] != '\\' by {
            if i < before.len() {
                assert(all[i] == before[i]);
            }
        }
    }
}

/// Every path of Windows stands for an absolute path with the separators of the device.
pub proof fn law_mount_paths_are_absolute(path: Seq<u16>)
    ensures
        mount_path(path).len() > 0,
        mount_path(path)[0] == '/',
        !mount_path(path).contains('\\'),
{
    lemma_replaced_without(utf16::decoded(path));
    let value = text::replaced(utf16::decoded(path), '\\', seq!['/']);
    let all = mount_path(path);
    assert forall|i: int| 0 <= i < all.len() implies all[i] != '\\' by {
        if all.len() == value.len() {
            assert(all[i] == value[i]);
        } else if i > 0 {
            assert(all[i] == value[i - 1]);
        }
    }
}

/// The path of an entry of a directory.
pub fn join_afc_path(parent: &str, name: &str) -> (r: String)
    ensures
        r@ == inode::child_path(parent@, name@),
{
    inode::child(parent, name)
}

/// How a file is opened on the device for the rights that Windows asks for.
pub open spec fn rights_mode(access: u32) -> AfcFopenMode {
    if access & FILE_APPEND_DATA != 0 {
        AfcFopenMode::RdAppend
    } else if access & FILE_WRITE_DATA != 0 {
        AfcFopenMode::Rw
    } else {
        AfcFopenMode::RdOnly
    }
}

/// How a file is opened on the device for the rights that Windows asks for.
pub fn access_mode(access: u32) -> (r: AfcFopenMode)
    ensures
        r == rights_mode(access),
{
    if access & FILE_APPEND_DATA != 0 {
        AfcFopenMode::RdAppend
    } else if access & FILE_WRITE_DATA != 0 {
        AfcFopenMode::Rw
    } else {
        AfcFopenMode::RdOnly
    }
}

/// What Windows takes an object of the device for.
pub open spec fn attributes_of(kind: RemoteFileType) -> u32 {
    match kind {
        RemoteFileType::Directory => FILE_ATTRIBUTE_DIRECTORY,
        RemoteFileType::Symlink => FILE_ATTRIBUTE_REPARSE_POINT,
        _ => FILE_ATTRIBUTE_NORMAL,
    }
}

/// What Windows takes an object of the device for.
pub fn file_attributes(info: &RemoteFileInfo) -> (r: u32)
    ensures
        r == attributes_of(info.kind),
{
    match info.kind {
        RemoteFileType::Directory => FILE_ATTRIBUTE_DIRECTORY,
        RemoteFileType::Symlink => FILE_ATTRIBUTE_REPARSE_POINT,
        _ => FILE_ATTRIBUTE_NORMAL,
    }
}

/// The start of 1970 as Windows counts time: in steps of a hundred nanoseconds since 1601.
pub const WINDOWS_EPOCH_TICKS: u64 = 116_444_736_000_000_000;

/// A time as Windows counts it; `None` is a time before 1970, and counts as its start.
pub open spec fn windows_ticks(nanos: Option<u128>) -> int {
    WINDOWS_EPOCH_TICKS + match nanos {
        Some(nanos) => if nanos <= i128::MAX {
            nanos as int / 100
        } else {
            i128::MAX as int / 100
        },
        None => 0,
    }
}

/// A time as Windows counts it, in as many bits as there are for it.
pub fn system_time_to_windows_time(nanos: Option<u128>) -> (r: u64)
    ensures
        windows_ticks(nanos) <= u64::MAX ==> r == windows_ticks(nanos),
        r == windows_ticks(nanos) as u64,
{
    let given: u128 = match nanos {
        Some(nanos) => nanos,
        None => 0,
    };
    let most: u128 = i128::MAX as u128;
    let kept: u128 = if given <= most {
        given
    } else {
        most
    };
    let ticks: u128 = WINDOWS_EPOCH_TICKS as u128 + kept / 100;
    ticks as u64
}

/// The nanoseconds since 1970 of a time as Windows counts it, as far as the field reaches. What lies
/// before 1970 becomes its start.
pub open spec fn unix_nanos(ticks: u64) -> u64 {
    if ticks <= WINDOWS_EPOCH_TICKS {
        0
    } else if (ticks - WINDOWS_EPOCH_TICKS) * 100 > u64::MAX {
        u64::MAX
    } else {
        ((ticks - WINDOWS_EPOCH_TICKS) * 100) as u64
    }
}

/// The nanoseconds since 1970 of a time as Windows counts it.
pub fn windows_time_to_unix_nanos(ticks: u64) -> (r: u64)
    ensures
        r == unix_nanos(ticks),
{
    if ticks <= WINDOWS_EPOCH_TICKS {
        return 0;
    }
    let nanos: u128 = (ticks - WINDOWS_EPOCH_TICKS) as u128 * 100;
    if nanos > u64::MAX as u128 {
        u64::MAX
    } else {
        nanos as u64
    }
}

/// A time of the device survives being counted as Windows counts it, but for what is less than a
/// step.
pub proof fn law_times_survive_windows(nanos: u64)
    ensures
        windows_ticks(Some(nanos as u128)) <= u64::MAX,
        unix_nanos(windows_ticks(Some(nanos as u128)) as u64) == nanos - nanos % 100,
{
}

/// What WinFsp is told of an object.
#[derive(Clone, Copy, Debug, PartialEq, Eq, Structural)]
pub struct FileInfo {
    pub file_attributes: u32,
    pub reparse_tag: u32,
    pub allocation_size: u64,
    pub file_size: u64,
    pub creation_time: u64,
    pub last_access_time: u64,
    pub last_write_time: u64,
    pub change_time: u64,
}

/// The space that an object takes: its blocks, or at least its size.
pub open spec fn allocation(blocks: u64, size: u64) -> u64 {
    let space = if blocks * 4096 > u64::MAX {
        u64::MAX
    } else {
        (blocks * 4096) as u64
    };
    if space < size {
        size
    } else {
        space
    }
}

/// What WinFsp is told of an object.
pub open spec fn info_of(facts: afc::FileFacts) -> FileInfo {
    let modified = windows_ticks(Some(facts.modified as u128)) as u64;
    FileInfo {
        file_attributes: attributes_of(facts.kind),
        reparse_tag: if facts.kind == RemoteFileType::Symlink {
            reparse::IO_REPARSE_TAG_SYMLINK
        } else {
            0
        },
        allocation_size: allocation(facts.blocks, facts.size),
        file_size: facts.size,
        creation_time: windows_ticks(Some(facts.created as u128)) as u64,
        last_access_time: modified,
        last_write_time: modified,
        change_time: modified,
    }
}

/// What WinFsp is told of an object.
pub fn file_info(info: &RemoteFileInfo) -> (r: FileInfo)
    ensures
        r == info_of(info@),
{
    let creation: u64 = system_time_to_windows_time(Some(info.created as u128));
    let modified: u64 = system_time_to_windows_time(Some(info.modified as u128));
    let space: u64 = if info.blocks > u64::MAX / 4096 {
        u64::MAX
    } else {
        info.blocks * 4096
    };
    FileInfo {
        file_attributes: file_attributes(info),
        reparse_tag: if info.kind == RemoteFileType::Symlink {
            reparse::IO_REPARSE_TAG_SYMLINK
        } else {
            0
        },
        allocation_size: if space < info.size {
            info.size
        } else {
            space
        },
        file_size: info.size,
        creation_time: creation,
        last_access_time: modified,
        last_write_time: modified,
        change_time: modified,
    }
}

/// An entry of a directory.
#[derive(Debug)]
pub struct DirectoryEntry {
    pub name: String,
    pub info: RemoteFileInfo,
}

/// What is known of an entry of a directory.
pub ghost struct EntryFacts {
    pub name: Seq<char>,
    pub facts: afc::FileFacts,
}

impl View for DirectoryEntry {
    type V = EntryFacts;

    open spec fn view(&self) -> EntryFacts {
        EntryFacts { name: self.name@, facts: self.info@ }
    }
}

impl Named for DirectoryEntry {
    open spec fn name_of(&self) -> Seq<char> {
        self.name@
    }

    fn name(&self) -> (r: &str) {
        self.name.as_str()
    }
}

/// The names of several entries.
pub open spec fn entry_names(list: Seq<EntryFacts>) -> Seq<Seq<char>> {
    list.map_values(|entry: EntryFacts| entry.name)
}

/// Entries in the order of their names, with one more.
pub open spec fn placed(list: Seq<EntryFacts>, entry: EntryFacts) -> Seq<EntryFacts> {
    list.insert(sorting::rank(entry_names(list), entry.name) as int, entry)
}

/// The entries of a directory, in the order of their names.
#[derive(Debug)]
pub struct Listing {
    entries: Vec<DirectoryEntry>,
}

impl View for Listing {
    type V = Seq<EntryFacts>;

    closed spec fn view(&self) -> Seq<EntryFacts> {
        self.entries@.map_values(|entry: DirectoryEntry| entry@)
    }
}

impl Listing {
    #[verifier::type_invariant]
    spec fn is_in_order(self) -> bool {
        sorting::in_order(sorting::names_of(self.entries@))
    }

    /// A directory without entries.
    pub fn new() -> (r: Self)
        ensures
            r@ == Seq::<EntryFacts>::empty(),
    {
        let entries: Vec<DirectoryEntry> = Vec::new();
        let listing = Listing { entries };
        assert(listing@ =~= Seq::<EntryFacts>::empty());
        listing
    }

    /// The entries with one more.
    pub fn with(self, entry: DirectoryEntry) -> (r: Self)
        ensures
            r@ == placed(self@, entry@),
            sorting::in_order(entry_names(r@)),
            sorting::rank(entry_names(self@), entry@.name) <= self@.len(),
    {
        proof {
            use_type_invariant(&self);
            assert(sorting::names_of(self.entries@) =~= entry_names(self@));
        }
        let ghost before = self@;
        let ghost new = entry@;
        let mut entries: Vec<DirectoryEntry> = self.entries;
        sorting::place(&mut entries, entry);
        let listing = Listing { entries };
        proof {
            assert(listing@ =~= placed(before, new));
            assert(sorting::names_of(listing.entries@) =~= entry_names(listing@));
        }
        listing
    }
}

/// Where a listing goes on after the entry that a marker names; without a marker it starts.
pub fn directory_start(entries: &Listing, marker: Option<&str>) -> (r: usize)
    ensures
        r <= entries@.len(),
        r == (match marker {
            Some(marker) => sorting::rank(entry_names(entries@), marker@),
            None => 0,
        }),
        sorting::in_order(entry_names(entries@)),
{
    proof {
        use_type_invariant(entries);
        assert(sorting::names_of(entries.entries@) =~= entry_names(entries@));
    }
    match marker {
        Some(marker) => sorting::position(&entries.entries, marker),
        None => 0,
    }
}

/// A listing that goes on after an entry goes on with the entry next to it, where no two entries
/// have the same name: nothing is shown twice, and nothing is left out.
pub proof fn law_listing_goes_on_after_marker(names: Seq<Seq<char>>, k: int)
    requires
        sorting::in_order(names),
        names.no_duplicates(),
        0 <= k < names.len(),
    ensures
        sorting::rank(names, names[k]) == k + 1,
{
    sorting::law_rank_parts_the_names(names, names[k]);
    let r = sorting::rank(names, names[k]) as int;
    text::law_order_total(names[k], names[k]);
    if k + 1 < names.len() && text::not_after(names[k + 1], names[k]) {
        assert(text::not_after(names[k], names[k + 1]));
        text::law_order_antisymmetric(names[k], names[k + 1]);
        assert(false);
    }
    if r > k + 1 {
        assert(text::not_after(names[k + 1], names[k]));
    }
}

/// An object that WinFsp has opened.
#[derive(Debug)]
pub struct IfuseFileContext {
    pub path: String,
    pub descriptor: Option<u64>,
    pub directory: bool,
    pub delete_pending: bool,
    pub directory_entries: Option<Listing>,
}

/// What is known of an object that WinFsp has opened.
pub ghost struct Context {
    pub path: Seq<char>,
    pub descriptor: Option<u64>,
    pub directory: bool,
    pub delete_pending: bool,
    pub entries: Option<Seq<EntryFacts>>,
}

impl View for IfuseFileContext {
    type V = Context;

    open spec fn view(&self) -> Context {
        Context {
            path: self.path@,
            descriptor: self.descriptor,
            directory: self.directory,
            delete_pending: self.delete_pending,
            entries: match self.directory_entries {
                Some(listing) => Some(listing@),
                None => None,
            },
        }
    }
}

/// What is known of an object that was just opened.
pub open spec fn new_context(path: Seq<char>, directory: bool, descriptor: Option<u64>) -> Context {
    Context { path, descriptor, directory, delete_pending: false, entries: None }
}

/// An object that was just opened.
pub fn create_context(path: String, directory: bool, descriptor: Option<u64>) -> (r:
    IfuseFileContext)
    ensures
        r@ == new_context(path@, directory, descriptor),
{
    IfuseFileContext {
        path,
        descriptor,
        directory,
        delete_pending: false,
        directory_entries: None,
    }
}

/// The descriptor of an open file; a directory has none.
pub fn descriptor(context: &IfuseFileContext) -> (r: Result<u64, NtStatus>)
    ensures
        r == (match context.descriptor {
            Some(descriptor) => Ok::<u64, NtStatus>(descriptor),
            None => Err(NtStatus::FileIsADirectory),
        }),
{
    match context.descriptor {
        Some(descriptor) => Ok(descriptor),
        None => Err(NtStatus::FileIsADirectory),
    }
}

/// An entry of a directory as WinFsp is shown it.
#[derive(Debug)]
pub struct ShownEntry {
    pub name: String,
    pub info: FileInfo,
}

/// The entries of a directory as WinFsp is shown them.
pub open spec fn shown_entries(list: Seq<ShownEntry>) -> Seq<(Seq<char>, FileInfo)> {
    list.map_values(|entry: ShownEntry| (entry.name@, entry.info))
}

/// Where a listing goes on after the name that a marker gives; without a marker it starts.
pub open spec fn start_after(all: Seq<EntryFacts>, marker: Option<Seq<char>>) -> nat {
    match marker {
        Some(name) => sorting::rank(entry_names(all), name),
        None => 0,
    }
}

/// Entries as WinFsp is shown them.
pub open spec fn shown_facts(all: Seq<EntryFacts>) -> Seq<(Seq<char>, FileInfo)> {
    all.map_values(|entry: EntryFacts| (entry.name, info_of(entry.facts)))
}

/// The entries that WinFsp is shown of a listing, after the name that a marker gives.
pub open spec fn shown_after(all: Seq<EntryFacts>, marker: Option<Seq<char>>) -> Seq<
    (Seq<char>, FileInfo),
> {
    shown_facts(all.skip(start_after(all, marker) as int))
}

impl Context {
    /// The entries of a directory, as far as it was read.
    pub open spec fn kept(self) -> Seq<EntryFacts> {
        match self.entries {
            Some(entries) => entries,
            None => Seq::empty(),
        }
    }
}

impl IfuseFileContext {
    /// The entries of a directory after the one that a marker names, as far as the directory was
    /// read.
    pub fn entries_after(&self, marker: Option<&[u16]>) -> (r: Vec<ShownEntry>)
        ensures
            shown_entries(r@) == shown_after(
                self@.kept(),
                match marker {
                    Some(units) => Some(utf16::decoded(units@)),
                    None => None,
                },
            ),
            sorting::in_order(entry_names(self@.kept())),
    {
        let mut out: Vec<ShownEntry> = Vec::new();
        match &self.directory_entries {
            None => {
                proof {
                    let none = Seq::<EntryFacts>::empty();
                    if let Some(units) = marker {
                        assert(sorting::rank(entry_names(none), utf16::decoded(units@)) == 0);
                    }
                    assert(shown_entries(out@) =~= shown_facts(none.skip(0)));
                }
            },
            Some(listing) => {
                let start: usize = match marker {
                    Some(units) => {
                        let name: String = wide_string(units);
                        directory_start(listing, Some(name.as_str()))
                    },
                    None => directory_start(listing, None),
                };
                let ghost rest = shown_facts(listing@.skip(start as int));
                let mut i: usize = start;
                assert(shown_entries(out@) =~= rest.take(0));
                assert(listing@.len() == listing.entries@.len());
                while i < listing.entries.len()
                    invariant
                        start <= i <= listing.entries@.len(),
                        listing@.len() == listing.entries@.len(),
                        rest == shown_facts(listing@.skip(start as int)),
                        shown_entries(out@) == rest.take(i - start),
                    decreases listing.entries.len() - i,
                {
                    let ghost before = out@;
                    let entry: &DirectoryEntry = &listing.entries[i];
                    let shown = ShownEntry { name: entry.name.clone(), info: file_info(&entry.info) };
                    let ghost pair = (shown.name@, shown.info);
                    out.push(shown);
                    proof {
                        assert(listing@[i as int] == listing.entries@[i as int]@);
                        assert(rest[i - start] == pair);
                        assert(shown_entries(out@) =~= shown_entries(before).push(pair));
                        assert(rest.take(i - start + 1) =~= rest.take(i - start).push(pair));
                    }
                    i += 1;
                }
                assert(rest.take(i - start) =~= rest);
            },
        }
        out
    }
}

/// What is done next to fill a buffer with the entries of a directory.
#[derive(Clone, Copy, Debug, PartialEq, Eq, Structural)]
pub enum Filling {
    /// Try to add the entry at a position.
    Add(usize),
    /// All entries are in the buffer: add the mark that ends a directory.
    End,
    /// The buffer is full.
    Stop,
}

/// What is done next to fill a buffer once the entries before a position were tried, of which the
/// last fitted or did not.
pub open spec fn filling(count: nat, position: nat, fitted: bool) -> Filling {
    if !fitted {
        Filling::Stop
    } else if position < count {
        Filling::Add(position as usize)
    } else {
        Filling::End
    }
}

/// What is done next to fill a buffer once the entries before a position were tried, of which the
/// last fitted or did not; before the first is tried nothing has failed to fit.
pub fn fill_next(entries: &Vec<ShownEntry>, position: usize, fitted: bool) -> (r: Filling)
    ensures
        r == filling(entries@.len(), position as nat, fitted),
{
    if !fitted {
        Filling::Stop
    } else if position < entries.len() {
        Filling::Add(position)
    } else {
        Filling::End
    }
}

/// The entries that come into a buffer from a position on, and whether the mark that ends a
/// directory follows them, where `fits` tells of each position whether its entry fits behind those
/// before it.
pub open spec fn filled(
    entries: Seq<(Seq<char>, FileInfo)>,
    position: nat,
    fitted: bool,
    fits: spec_fn(nat) -> bool,
) -> (Seq<(Seq<char>, FileInfo)>, bool)
    decreases
            if position < entries.len() {
                entries.len() - position
            } else {
                0
            },
{
    match filling(entries.len(), position, fitted) {
        Filling::Add(_) => {
            let (more, end) = filled(entries, position + 1, fits(position), fits);
            if fits(position) {
                (seq![entries[position as int]] + more, end)
            } else {
                (more, end)
            }
        },
        Filling::End => (Seq::empty(), true),
        Filling::Stop => (Seq::empty(), false),
    }
}

proof fn lemma_filled(
    entries: Seq<(Seq<char>, FileInfo)>,
    position: nat,
    count: nat,
    fits: spec_fn(nat) -> bool,
)
    requires
        position <= count <= entries.len(),
        forall|i: nat| position <= i < count ==> #[trigger] fits(i),
        count < entries.len() ==> !fits(count),
    ensures
        filled(entries, position, true, fits) == (
            entries.subrange(position as int, count as int),
            count == entries.len(),
        ),
    decreases count - position,
{
    if position < count {
        lemma_filled(entries, position + 1, count, fits);
        assert(fits(position));
        assert(seq![entries[position as int]] + entries.subrange(position as int + 1, count as int)
            =~= entries.subrange(position as int, count as int));
    } else if count < entries.len() {
        assert(filled(entries, position + 1, false, fits) == (
            Seq::<(Seq<char>, FileInfo)>::empty(),
            false,
        ));
        assert(entries.subrange(position as int, count as int) =~= Seq::empty());
    } else {
        assert(entries.subrange(position as int, count as int) =~= Seq::empty());
    }
}

/// A buffer holds the entries up to the first that does not fit, in order, and the mark that ends a
/// directory behind them where all fit, and only there.
pub proof fn law_buffer_holds_what_fits(
    entries: Seq<(Seq<char>, FileInfo)>,
    count: nat,
    fits: spec_fn(nat) -> bool,
)
    requires
        count <= entries.len(),
        forall|i: nat| i < count ==> #[trigger] fits(i),
        count < entries.len() ==> !fits(count),
    ensures
        filled(entries, 0, true, fits) == (entries.take(count as int), count == entries.len()),
{
    lemma_filled(entries, 0, count, fits);
}

/// What a marker says: exactly the entries whose names stand after it are shown, in their order.
pub proof fn law_marker_parts_a_listing(all: Seq<EntryFacts>, marker: Seq<char>)
    requires
        sorting::in_order(entry_names(all)),
    ensures
        start_after(all, Some(marker)) <= all.len(),
        forall|i: int|
            0 <= i < all.len() ==> (!text::not_after((#[trigger] all[i]).name, marker) <==> i
                >= start_after(all, Some(marker))),
        shown_after(all, Some(marker)) == shown_facts(
            all.skip(start_after(all, Some(marker)) as int),
        ),
        shown_after(all, None) == shown_facts(all),
{
    sorting::law_rank_parts_the_names(entry_names(all), marker);
    assert forall|i: int| 0 <= i < all.len() implies (!text::not_after(
        (#[trigger] all[i]).name,
        marker,
    ) <==> i >= start_after(all, Some(marker))) by {
        assert(entry_names(all)[i] == all[i].name);
    }
    assert(all.skip(0) =~= all);
}

/// The buffers of one directory show all of it: where one buffer took entries and the next goes on
/// after the last of them, the next is shown the rest, where no two entries have the same name.
pub proof fn law_buffers_join(all: Seq<EntryFacts>, count: int)
    requires
        sorting::in_order(entry_names(all)),
        entry_names(all).no_duplicates(),
        0 < count <= all.len(),
    ensures
        shown_after(all, None).take(count) + shown_after(all, Some(all[count - 1].name))
            == shown_after(all, None),
{
    let names = entry_names(all);
    law_listing_goes_on_after_marker(names, count - 1);
    assert(names[count - 1] == all[count - 1].name);
    assert(all.skip(0) =~= all);
    assert(shown_facts(all).take(count) + shown_facts(all.skip(count)) =~= shown_facts(all));
}

/// What an operation is answered with.
#[derive(Debug)]
pub enum Response {
    Security { reparse: bool, attributes: u32 },
    Opened(IfuseFileContext, FileInfo),
    Done,
    Info(FileInfo),
    /// The entries of a directory, to be kept with the object.
    Entries(Listing),
    /// The entries that are kept with the object are shown.
    KeptEntries,
    /// Whether the object is to be removed, to be kept with the object.
    DeletePending(bool),
    Data(Vec<u8>),
    Written(u32, FileInfo),
    Volume { total_size: u64, free_size: u64, label: String },
    /// The target of a link, to be written as a reparse point.
    Target(String),
    Failed(NtStatus),
}

/// What an operation is answered with.
pub ghost enum Shown {
    Security { reparse: bool, attributes: u32 },
    Opened(Context, FileInfo),
    Done,
    Info(FileInfo),
    Entries(Seq<EntryFacts>),
    KeptEntries,
    DeletePending(bool),
    Data(Seq<u8>),
    Written(u32, FileInfo),
    Volume { total_size: u64, free_size: u64, label: Seq<char> },
    Target(Seq<char>),
    Failed(NtStatus),
}

impl View for Response {
    type V = Shown;

    open spec fn view(&self) -> Shown {
        match *self {
            Response::Security { reparse, attributes } => Shown::Security { reparse, attributes },
            Response::Opened(context, info) => Shown::Opened(context@, info),
            Response::Done => Shown::Done,
            Response::Info(info) => Shown::Info(info),
            Response::Entries(listing) => Shown::Entries(listing@),
            Response::KeptEntries => Shown::KeptEntries,
            Response::DeletePending(pending) => Shown::DeletePending(pending),
            Response::Data(bytes) => Shown::Data(bytes@),
            Response::Written(count, info) => Shown::Written(count, info),
            Response::Volume { total_size, free_size, label } => Shown::Volume {
                total_size,
                free_size,
                label: label@,
            },
            Response::Target(target) => Shown::Target(target@),
            Response::Failed(status) => Shown::Failed(status),
        }
    }
}

/// How an operation goes on once its last request is answered.
#[derive(Debug)]
pub enum Continuation {
    /// The object of a name is known.
    Security,
    /// An object that is to be opened is known.
    OpenKnown { path: String, access: u32 },
    /// A known file is opened.
    OpenOpened { path: String, info: FileInfo },
    /// A file is closed, or a path is removed, and nothing more is done.
    Finished,
    /// A new object is made.
    CreateMade { path: String, directory: bool, descriptor: Option<u64> },
    /// A new file is opened.
    CreateOpened { path: String, allocation_size: u64 },
    /// A new object is known.
    CreateKnown { path: String, directory: bool, descriptor: Option<u64> },
    /// An object is known.
    Info,
    /// The object at a path is changed.
    Changed { path: String },
    /// The names in a directory are there.
    Names { path: String },
    /// The object of a name in a directory is known.
    Listed { path: String, names: Vec<String>, index: usize, listing: Listing },
    /// The object that a renaming replaces is known.
    ReplaceKnown { from: String, to: String },
    /// The object that a renaming replaces is removed.
    ReplaceRemoved { from: String, to: String },
    /// The names in a directory that is to be removed are there.
    DeleteNames,
    /// Bytes are read.
    Read,
    /// The end of the file that is written to is known.
    WriteEnd { path: String, descriptor: u64, data: Vec<u8> },
    /// Bytes are written.
    Written { path: String },
    /// The file that was written to is known.
    WrittenKnown { count: u32 },
    /// The device is known, and the volume has a label.
    Volume { label: String },
    /// A link is known.
    Target,
    /// A link that is to be made anew is removed.
    TargetRemoved { path: String, target: String },
}

/// How an operation goes on once its last request is answered.
pub ghost enum Stage {
    Security,
    OpenKnown { path: Seq<char>, access: u32 },
    OpenOpened { path: Seq<char>, info: FileInfo },
    Finished,
    CreateMade { path: Seq<char>, directory: bool, descriptor: Option<u64> },
    CreateOpened { path: Seq<char>, allocation_size: u64 },
    CreateKnown { path: Seq<char>, directory: bool, descriptor: Option<u64> },
    Info,
    Changed { path: Seq<char> },
    Names { path: Seq<char> },
    Listed {
        path: Seq<char>,
        names: Seq<Seq<char>>,
        index: nat,
        listing: Seq<EntryFacts>,
    },
    ReplaceKnown { from: Seq<char>, to: Seq<char> },
    ReplaceRemoved { from: Seq<char>, to: Seq<char> },
    DeleteNames,
    Read,
    WriteEnd { path: Seq<char>, descriptor: u64, data: Seq<u8> },
    Written { path: Seq<char> },
    WrittenKnown { count: u32 },
    Volume { label: Seq<char> },
    Target,
    TargetRemoved { path: Seq<char>, target: Seq<char> },
}

impl View for Continuation {
    type V = Stage;

    open spec fn view(&self) -> Stage {
        match *self {
            Continuation::Security => Stage::Security,
            Continuation::OpenKnown { path, access } => Stage::OpenKnown { path: path@, access },
            Continuation::OpenOpened { path, info } => Stage::OpenOpened { path: path@, info },
            Continuation::Finished => Stage::Finished,
            Continuation::CreateMade { path, directory, descriptor } => Stage::CreateMade {
                path: path@,
                directory,
                descriptor,
            },
            Continuation::CreateOpened { path, allocation_size } => Stage::CreateOpened {
                path: path@,
                allocation_size,
            },
            Continuation::CreateKnown { path, directory, descriptor } => Stage::CreateKnown {
                path: path@,
                directory,
                descriptor,
            },
            Continuation::Info => Stage::Info,
            Continuation::Changed { path } => Stage::Changed { path: path@ },
            Continuation::Names { path } => Stage::Names { path: path@ },
            Continuation::Listed { path, names, index, listing } => Stage::Listed {
                path: path@,
                names: afc::texts(names@),
                index: index as nat,
                listing: listing@,
            },
            Continuation::ReplaceKnown { from, to } => Stage::ReplaceKnown { from: from@, to: to@ },
            Continuation::ReplaceRemoved { from, to } => Stage::ReplaceRemoved {
                from: from@,
                to: to@,
            },
            Continuation::DeleteNames => Stage::DeleteNames,
            Continuation::Read => Stage::Read,
            Continuation::WriteEnd { path, descriptor, data } => Stage::WriteEnd {
                path: path@,
                descriptor,
                data: data@,
            },
            Continuation::Written { path } => Stage::Written { path: path@ },
            Continuation::WrittenKnown { count } => Stage::WrittenKnown { count },
            Continuation::Volume { label } => Stage::Volume { label: label@ },
            Continuation::Target => Stage::Target,
            Continuation::TargetRemoved { path, target } => Stage::TargetRemoved {
                path: path@,
                target: target@,
            },
        }
    }
}

/// What to do next for an operation.
#[derive(Debug)]
pub enum Step {
    /// Ask the device for something.
    Ask(Command, Continuation),
    /// Answer the operation.
    Reply(Response),
}

/// What to do next for an operation.
pub ghost enum Act {
    Ask(backend::Wish, Stage),
    Reply(Shown),
}

impl View for Step {
    type V = Act;

    open spec fn view(&self) -> Act {
        match *self {
            Step::Ask(command, next) => Act::Ask(command@, next@),
            Step::Reply(response) => Act::Reply(response@),
        }
    }
}

/// A failed operation.
pub open spec fn failed(status: NtStatus) -> Act {
    Act::Reply(Shown::Failed(status))
}

/// Whether a name in a directory is that of the directory itself or of its parent.
pub open spec fn is_dots(name: Seq<char>) -> bool {
    name == seq!['.'] || name == seq!['.', '.']
}

/// The names in a directory but for those of the directory itself and of its parent.
pub open spec fn without_dots(names: Seq<Seq<char>>) -> Seq<Seq<char>>
    decreases names.len(),
{
    if names.len() == 0 {
        names
    } else if is_dots(names.last()) {
        without_dots(names.drop_last())
    } else {
        without_dots(names.drop_last()).push(names.last())
    }
}

/// How the reading of a directory goes on with the name at a position.
pub open spec fn next_entry(
    path: Seq<char>,
    names: Seq<Seq<char>>,
    index: nat,
    listing: Seq<EntryFacts>,
) -> Act {
    if index < names.len() {
        Act::Ask(
            backend::Wish::FileInfo(inode::child_path(path, names[index as int])),
            Stage::Listed { path, names, index, listing },
        )
    } else {
        Act::Reply(Shown::Entries(listing))
    }
}

/// The NTSTATUS that a failure is answered with.
pub open spec fn failure_status(failure: error::Failure) -> NtStatus {
    match failure {
        error::Failure::Invalid(_) => NtStatus::IoDeviceError,
        error::Failure::Refused(status) => error::nt_status_of(
            Error::Device(error::DeviceError::Afc(status)),
        ),
        error::Failure::Other(e) => error::nt_status_of(e),
    }
}

/// How an operation goes on once its last request has an outcome.
pub open spec fn resumed(stage: Stage, outcome: backend::Said) -> Act {
    match (stage, outcome) {
        (Stage::ReplaceKnown { from, to }, backend::Said::Failed(_)) => Act::Ask(
            backend::Wish::Rename(from, to),
            Stage::Finished,
        ),
        (_, backend::Said::Failed(failure)) => failed(failure_status(failure)),
        (Stage::Security, backend::Said::FileInfo(facts)) => Act::Reply(
            Shown::Security {
                reparse: facts.kind == RemoteFileType::Symlink,
                attributes: attributes_of(facts.kind),
            },
        ),
        (Stage::OpenKnown { path, access }, backend::Said::FileInfo(facts)) => if facts.kind
            == RemoteFileType::Directory {
            Act::Reply(Shown::Opened(new_context(path, true, None), info_of(facts)))
        } else {
            Act::Ask(
                backend::Wish::Open(path, rights_mode(access)),
                Stage::OpenOpened { path, info: info_of(facts) },
            )
        },
        (Stage::OpenOpened { path, info }, backend::Said::Handle(handle)) => Act::Reply(
            Shown::Opened(new_context(path, false, Some(handle)), info),
        ),
        (Stage::Finished, backend::Said::Done) => Act::Reply(Shown::Done),
        (Stage::CreateMade { path, directory, descriptor }, backend::Said::Done) => Act::Ask(
            backend::Wish::FileInfo(path),
            Stage::CreateKnown { path, directory, descriptor },
        ),
        (Stage::CreateOpened { path, allocation_size }, backend::Said::Handle(handle)) =>
            if allocation_size != 0 {
            Act::Ask(
                backend::Wish::TruncateHandle(handle, allocation_size),
                Stage::CreateMade { path, directory: false, descriptor: Some(handle) },
            )
        } else {
            Act::Ask(
                backend::Wish::FileInfo(path),
                Stage::CreateKnown { path, directory: false, descriptor: Some(handle) },
            )
        },
        (Stage::CreateKnown { path, directory, descriptor }, backend::Said::FileInfo(facts)) =>
            Act::Reply(
            Shown::Opened(new_context(path, directory, descriptor), info_of(facts)),
        ),
        (Stage::Info, backend::Said::FileInfo(facts)) => Act::Reply(Shown::Info(info_of(facts))),
        (Stage::Changed { path }, backend::Said::Done) => Act::Ask(
            backend::Wish::FileInfo(path),
            Stage::Info,
        ),
        (Stage::Names { path }, backend::Said::Names(names)) => next_entry(
            path,
            without_dots(names),
            0,
            Seq::empty(),
        ),
        (Stage::Listed { path, names, index, listing }, backend::Said::FileInfo(facts)) if index
            < names.len() => next_entry(
            path,
            names,
            index + 1,
            placed(listing, EntryFacts { name: names[index as int], facts }),
        ),
        (Stage::ReplaceKnown { from, to }, backend::Said::FileInfo(_)) => Act::Ask(
            backend::Wish::Remove(to),
            Stage::ReplaceRemoved { from, to },
        ),
        (Stage::ReplaceRemoved { from, to }, backend::Said::Done) => Act::Ask(
            backend::Wish::Rename(from, to),
            Stage::Finished,
        ),
        (Stage::DeleteNames, backend::Said::Names(names)) => if without_dots(names).len() > 0 {
            failed(NtStatus::DirectoryNotEmpty)
        } else {
            Act::Reply(Shown::DeletePending(true))
        },
        (Stage::Read, backend::Said::Data(bytes)) => Act::Reply(Shown::Data(bytes)),
        (Stage::WriteEnd { path, descriptor, data }, backend::Said::FileInfo(facts)) => Act::Ask(
            backend::Wish::Write(descriptor, facts.size, data),
            Stage::Written { path },
        ),
        (Stage::Written { path }, backend::Said::Count(count)) => Act::Ask(
            backend::Wish::FileInfo(path),
            Stage::WrittenKnown { count },
        ),
        (Stage::WrittenKnown { count }, backend::Said::FileInfo(facts)) => Act::Reply(
            Shown::Written(count, info_of(facts)),
        ),
        (Stage::Volume { label }, backend::Said::DeviceInfo(facts)) => Act::Reply(
            Shown::Volume { total_size: facts.total_bytes, free_size: facts.free_bytes, label },
        ),
        (Stage::Target, backend::Said::FileInfo(facts)) => match facts.link_target {
            Some(target) => Act::Reply(Shown::Target(target)),
            None => failed(NtStatus::NotSupported),
        },
        (Stage::TargetRemoved { path, target }, backend::Said::Done) => Act::Ask(
            backend::Wish::Link(target, path, LinkType::Symlink),
            Stage::Finished,
        ),
        _ => failed(NtStatus::IoDeviceError),
    }
}

/// Whether an outcome is of the kind that an operation waits for.
pub open spec fn wants(stage: Stage, outcome: backend::Said) -> bool {
    ||| outcome is Failed
    ||| match stage {
        Stage::Security => outcome is FileInfo,
        Stage::OpenKnown { .. } => outcome is FileInfo,
        Stage::OpenOpened { .. } => outcome is Handle,
        Stage::Finished => outcome is Done,
        Stage::CreateMade { .. } => outcome is Done,
        Stage::CreateOpened { .. } => outcome is Handle,
        Stage::CreateKnown { .. } => outcome is FileInfo,
        Stage::Info => outcome is FileInfo,
        Stage::Changed { .. } => outcome is Done,
        Stage::Names { .. } => outcome is Names,
        Stage::Listed { .. } => outcome is FileInfo,
        Stage::ReplaceKnown { .. } => outcome is FileInfo,
        Stage::ReplaceRemoved { .. } => outcome is Done,
        Stage::DeleteNames => outcome is Names,
        Stage::Read => outcome is Data,
        Stage::WriteEnd { .. } => outcome is FileInfo,
        Stage::Written { .. } => outcome is Count,
        Stage::WrittenKnown { .. } => outcome is FileInfo,
        Stage::Volume { .. } => outcome is DeviceInfo,
        Stage::Target => outcome is FileInfo,
        Stage::TargetRemoved { .. } => outcome is Done,
    }
}

/// Whether what is asked for is what is then waited for.
pub open spec fn consistent(act: Act) -> bool {
    match act {
        Act::Ask(wish, stage) => forall|outcome: backend::Said|
            backend::fits(wish, outcome) ==> #[trigger] wants(stage, outcome),
        Act::Reply(_) => true,
    }
}

/// An operation only asks for what it then waits for, at every step.
pub proof fn law_steps_are_consistent(stage: Stage, outcome: backend::Said)
    ensures
        consistent(resumed(stage, outcome)),
{
}

/// A request that fails ends its operation at once, with the NTSTATUS of the failure; only what a
/// renaming would replace may be unknown.
pub proof fn law_failures_are_answered(stage: Stage, failure: error::Failure)
    requires
        !(stage is ReplaceKnown),
    ensures
        resumed(stage, backend::Said::Failed(failure)) == failed(failure_status(failure)),
{
}

/// A directory is marked for removal only where it holds nothing.
pub proof fn law_only_empty_directories_go(names: Seq<Seq<char>>, name: Seq<char>)
    requires
        names.contains(name),
        !is_dots(name),
    ensures
        resumed(Stage::DeleteNames, backend::Said::Names(names)) == failed(
            NtStatus::DirectoryNotEmpty,
        ),
    decreases names.len(),
{
    let k = choose|k: int| 0 <= k < names.len() && names[k] == name;
    if k < names.len() - 1 {
        assert(names.drop_last()[k] == name);
        law_only_empty_directories_go(names.drop_last(), name);
    }
}

/// A renaming that may replace an object removes what it finds there, and goes on where it finds
/// nothing.
pub proof fn law_renaming_replaces(
    from: Seq<char>,
    to: Seq<char>,
    facts: afc::FileFacts,
    failure: error::Failure,
)
    ensures
        ({
            let rename = Act::Ask(backend::Wish::Rename(from, to), Stage::Finished);
            &&& resumed(Stage::ReplaceKnown { from, to }, backend::Said::FileInfo(facts))
                matches Act::Ask(wish, stage) && wish == backend::Wish::Remove(to) && resumed(
                stage,
                backend::Said::Done,
            ) == rename
            &&& resumed(Stage::ReplaceKnown { from, to }, backend::Said::Failed(failure)) == rename
        }),
{
}

/// The entries that the reading of a directory ends with, where the device knows all of them.
pub open spec fn read_entries(
    path: Seq<char>,
    names: Seq<Seq<char>>,
    index: nat,
    listing: Seq<EntryFacts>,
    facts: spec_fn(Seq<char>) -> afc::FileFacts,
) -> Option<Seq<EntryFacts>>
    decreases names.len() - index,
{
    match next_entry(path, names, index, listing) {
        Act::Reply(Shown::Entries(all)) => Some(all),
        Act::Ask(backend::Wish::FileInfo(there), stage) if index < names.len() => {
            let more = placed(
                listing,
                EntryFacts { name: names[index as int], facts: facts(there) },
            );
            if resumed(stage, backend::Said::FileInfo(facts(there))) == next_entry(
                path,
                names,
                index + 1,
                more,
            ) {
                read_entries(path, names, index + 1, more, facts)
            } else {
                None
            }
        },
        _ => None,
    }
}

/// The reading of a directory ends with all its entries: each name that the device lists, with what
/// the device knows of it, in the order of the names.
pub proof fn law_directory_is_read_whole(
    path: Seq<char>,
    names: Seq<Seq<char>>,
    index: nat,
    listing: Seq<EntryFacts>,
    facts: spec_fn(Seq<char>) -> afc::FileFacts,
)
    requires
        index <= names.len(),
        sorting::in_order(entry_names(listing)),
    ensures
        match read_entries(path, names, index, listing, facts) {
            Some(all) => {
                &&& sorting::in_order(entry_names(all))
                &&& all.to_multiset() == listing.to_multiset().add(
                    names.skip(index as int).map_values(
                        |name: Seq<char>|
                            EntryFacts { name, facts: facts(inode::child_path(path, name)) },
                    ).to_multiset(),
                )
            },
            None => false,
        },
    decreases names.len() - index,
{
    broadcast use vstd::multiset::group_multiset_axioms;

    let known = |name: Seq<char>|
        EntryFacts { name, facts: facts(inode::child_path(path, name)) };
    let rest = names.skip(index as int).map_values(known);
    if index < names.len() {
        let name = names[index as int];
        let entry = known(name);
        let more = placed(listing, entry);
        sorting::law_rank_keeps_order(entry_names(listing), name);
        let r = sorting::rank(entry_names(listing), name) as int;
        assert(entry_names(more) =~= entry_names(listing).insert(r, name));
        vstd::seq_lib::to_multiset_insert(listing, r, entry);
        law_directory_is_read_whole(path, names, index + 1, more, facts);
        let later = names.skip((index + 1) as int).map_values(known);
        assert(rest =~= later.insert(0, entry));
        vstd::seq_lib::to_multiset_insert(later, 0, entry);
        assert(listing.to_multiset().insert(entry).add(later.to_multiset())
            =~= listing.to_multiset().add(later.to_multiset().insert(entry)));
    } else {
        assert(rest =~= Seq::<EntryFacts>::empty());
        listing.to_multiset_ensures();
        rest.to_multiset_ensures();
        assert(rest.to_multiset() =~= vstd::multiset::Multiset::empty());
        assert(listing.to_multiset().add(rest.to_multiset()) =~= listing.to_multiset());
    }
}

/// How a directory is read; what was read before is shown where a marker says where to go on.
pub open spec fn reading(context: Context, has_marker: bool) -> Act {
    if !context.directory {
        failed(NtStatus::NotADirectory)
    } else if has_marker {
        Act::Reply(Shown::KeptEntries)
    } else {
        Act::Ask(backend::Wish::ListDir(context.path), Stage::Names { path: context.path })
    }
}

/// A directory is read as a whole. What is no directory is refused. Without a marker the device is
/// asked for the names, and then for what it knows of each but the two of dots; all of them are
/// shown in the order of their names. With a marker the device is not asked, and of what was read
/// before exactly the entries after the marker are shown. A buffer that takes them all ends with
/// the mark that ends a directory.
pub proof fn law_directory_is_shown_whole(
    context: Context,
    names: Seq<Seq<char>>,
    facts: spec_fn(Seq<char>) -> afc::FileFacts,
    marker: Seq<char>,
    fits: spec_fn(nat) -> bool,
)
    requires
        sorting::in_order(entry_names(context.kept())),
        forall|i: nat| #[trigger] fits(i),
    ensures
        !context.directory ==> reading(context, true) == failed(NtStatus::NotADirectory) && reading(
            context,
            false,
        ) == failed(NtStatus::NotADirectory),
        context.directory ==> {
            &&& reading(context, false) == Act::Ask(
                backend::Wish::ListDir(context.path),
                Stage::Names { path: context.path },
            )
            &&& resumed(Stage::Names { path: context.path }, backend::Said::Names(names))
                == next_entry(context.path, without_dots(names), 0, Seq::empty())
            &&& read_entries(context.path, without_dots(names), 0, Seq::empty(), facts) matches Some(
                all,
            )
            &&& sorting::in_order(entry_names(all))
            &&& all.to_multiset() == without_dots(names).map_values(
                |name: Seq<char>|
                    EntryFacts { name, facts: facts(inode::child_path(context.path, name)) },
            ).to_multiset()
            &&& filled(shown_after(all, None), 0, true, fits) == (shown_facts(all), true)
        },
        context.directory ==> {
            let kept = context.kept();
            let start = start_after(kept, Some(marker));
            &&& reading(context, true) == Act::Reply(Shown::KeptEntries)
            &&& start <= kept.len()
            &&& forall|i: int|
                0 <= i < kept.len() ==> (!text::not_after((#[trigger] kept[i]).name, marker) <==> i
                    >= start)
            &&& filled(shown_after(kept, Some(marker)), 0, true, fits) == (
                shown_facts(kept.skip(start as int)),
                true,
            )
        },
{
    let none = Seq::<EntryFacts>::empty();
    let kept = context.kept();
    let rest = shown_after(kept, Some(marker));
    let undotted = without_dots(names);
    let known = |name: Seq<char>|
        EntryFacts { name, facts: facts(inode::child_path(context.path, name)) };
    law_directory_is_read_whole(context.path, undotted, 0, none, facts);
    let all = read_entries(context.path, undotted, 0, none, facts)->0;
    assert(undotted.skip(0) =~= undotted);
    none.to_multiset_ensures();
    assert(none.to_multiset() =~= vstd::multiset::Multiset::empty());
    assert(vstd::multiset::Multiset::empty().add(undotted.map_values(known).to_multiset())
        =~= undotted.map_values(known).to_multiset());
    law_marker_parts_a_listing(kept, marker);
    law_marker_parts_a_listing(all, marker);
    law_buffer_holds_what_fits(rest, rest.len(), fits);
    law_buffer_holds_what_fits(shown_after(all, None), shown_after(all, None).len(), fits);
    assert(rest.take(rest.len() as int) =~= rest);
    assert(shown_after(all, None).take(shown_after(all, None).len() as int) =~= shown_after(
        all,
        None,
    ));
}

/// A failed operation.
fn fail(e: &Error) -> (r: Step)
    ensures
        r@ == failed(failure_status(error::failure_of(*e))),
{
    Step::Reply(Response::Failed(error::map_backend_error(e)))
}

/// The names in a directory but for those of the directory itself and of its parent.
fn undotted(names: Vec<String>) -> (r: Vec<String>)
    ensures
        afc::texts(r@) == without_dots(afc::texts(names@)),
{
    proof {
        reveal_strlit(".");
        reveal_strlit("..");
        assert("."@ =~= seq!['.']);
        assert(".."@ =~= seq!['.', '.']);
    }
    let ghost all = afc::texts(names@);
    let mut out: Vec<String> = Vec::new();
    let mut i: usize = 0;
    assert(all.take(0) =~= Seq::<Seq<char>>::empty());
    assert(afc::texts(out@) =~= Seq::<Seq<char>>::empty());
    while i < names.len()
        invariant
            i <= names@.len(),
            all == afc::texts(names@),
            "."@ == seq!['.'],
            ".."@ == seq!['.', '.'],
            afc::texts(out@) == without_dots(all.take(i as int)),
        decreases names.len() - i,
    {
        let ghost before = out@;
        assert(all.take(i + 1).drop_last() =~= all.take(i as int));
        assert(all.take(i + 1).last() == names@[i as int]@);
        if !text::same(names[i].as_str(), ".") && !text::same(names[i].as_str(), "..") {
            let name: String = names[i].clone();
            out.push(name);
            assert(afc::texts(out@) =~= afc::texts(before).push(name@));
        }
        i += 1;
    }
    assert(all.take(i as int) =~= all);
    out
}

/// How the reading of a directory goes on with the name at a position.
fn entry_step(path: String, names: Vec<String>, index: usize, listing: Listing) -> (r: Step)
    ensures
        r@ == next_entry(path@, afc::texts(names@), index as nat, listing@),
{
    if index < names.len() {
        let there: String = join_afc_path(path.as_str(), names[index].as_str());
        Step::Ask(Command::FileInfo(there), Continuation::Listed { path, names, index, listing })
    } else {
        Step::Reply(Response::Entries(listing))
    }
}

/// Goes on with an operation once its last request has an outcome.
pub fn resume(continuation: Continuation, outcome: error::Result<Answer>) -> (r: Step)
    ensures
        consistent(r@),
        r@ == resumed(continuation@, backend::said(outcome)),
{
    match (continuation, outcome) {
        (Continuation::ReplaceKnown { from, to }, Err(_)) => Step::Ask(
            Command::Rename(from, to),
            Continuation::Finished,
        ),
        (_, Err(e)) => fail(&e),
        (Continuation::Security, Ok(Answer::FileInfo(info))) => Step::Reply(
            Response::Security {
                reparse: info.kind == RemoteFileType::Symlink,
                attributes: file_attributes(&info),
            },
        ),
        (Continuation::OpenKnown { path, access }, Ok(Answer::FileInfo(info))) => {
            let shown: FileInfo = file_info(&info);
            if info.kind == RemoteFileType::Directory {
                Step::Reply(Response::Opened(create_context(path, true, None), shown))
            } else {
                Step::Ask(
                    Command::Open(path.clone(), access_mode(access)),
                    Continuation::OpenOpened { path, info: shown },
                )
            }
        },
        (Continuation::OpenOpened { path, info }, Ok(Answer::Handle(handle))) => Step::Reply(
            Response::Opened(create_context(path, false, Some(handle)), info),
        ),
        (Continuation::Finished, Ok(Answer::Done)) => Step::Reply(Response::Done),
        (Continuation::CreateMade { path, directory, descriptor }, Ok(Answer::Done)) => Step::Ask(
            Command::FileInfo(path.clone()),
            Continuation::CreateKnown { path, directory, descriptor },
        ),
        (Continuation::CreateOpened { path, allocation_size }, Ok(Answer::Handle(handle))) => {
            if allocation_size != 0 {
                Step::Ask(
                    Command::TruncateHandle(handle, allocation_size),
                    Continuation::CreateMade { path, directory: false, descriptor: Some(handle) },
                )
            } else {
                Step::Ask(
                    Command::FileInfo(path.clone()),
                    Continuation::CreateKnown { path, directory: false, descriptor: Some(handle) },
                )
            }
        },
        (
            Continuation::CreateKnown { path, directory, descriptor },
            Ok(Answer::FileInfo(info)),
        ) => {
            let shown: FileInfo = file_info(&info);
            Step::Reply(Response::Opened(create_context(path, directory, descriptor), shown))
        },
        (Continuation::Info, Ok(Answer::FileInfo(info))) => Step::Reply(
            Response::Info(file_info(&info)),
        ),
        (Continuation::Changed { path }, Ok(Answer::Done)) => Step::Ask(
            Command::FileInfo(path),
            Continuation::Info,
        ),
        (Continuation::Names { path }, Ok(Answer::Names(names))) => entry_step(
            path,
            undotted(names),
            0,
            Listing::new(),
        ),
        (Continuation::Listed { path, names, index, listing }, Ok(Answer::FileInfo(info))) => {
            if index >= names.len() {
                return Step::Reply(Response::Failed(NtStatus::IoDeviceError));
            }
            let entry = DirectoryEntry { name: names[index].clone(), info };
            entry_step(path, names, index + 1, listing.with(entry))
        },
        (Continuation::ReplaceKnown { from, to }, Ok(Answer::FileInfo(_))) => Step::Ask(
            Command::Remove(to.clone()),
            Continuation::ReplaceRemoved { from, to },
        ),
        (Continuation::ReplaceRemoved { from, to }, Ok(Answer::Done)) => Step::Ask(
            Command::Rename(from, to),
            Continuation::Finished,
        ),
        (Continuation::DeleteNames, Ok(Answer::Names(names))) => {
            let rest: Vec<String> = undotted(names);
            assert(afc::texts(rest@).len() == rest@.len());
            if rest.len() > 0 {
                Step::Reply(Response::Failed(NtStatus::DirectoryNotEmpty))
            } else {
                Step::Reply(Response::DeletePending(true))
            }
        },
        (Continuation::Read, Ok(Answer::Data(bytes))) => Step::Reply(Response::Data(bytes)),
        (Continuation::WriteEnd { path, descriptor, data }, Ok(Answer::FileInfo(info))) =>
            Step::Ask(
            Command::Write(descriptor, info.size, data),
            Continuation::Written { path },
        ),
        (Continuation::Written { path }, Ok(Answer::Count(count))) => Step::Ask(
            Command::FileInfo(path),
            Continuation::WrittenKnown { count },
        ),
        (Continuation::WrittenKnown { count }, Ok(Answer::FileInfo(info))) => Step::Reply(
            Response::Written(count, file_info(&info)),
        ),
        (Continuation::Volume { label }, Ok(Answer::DeviceInfo(info))) => Step::Reply(
            Response::Volume {
                total_size: info.total_bytes,
                free_size: info.free_bytes,
                label,
            },
        ),
        (Continuation::Target, Ok(Answer::FileInfo(info))) => match info.link_target {
            Some(target) => Step::Reply(Response::Target(target)),
            None => Step::Reply(Response::Failed(NtStatus::NotSupported)),
        },
        (Continuation::TargetRemoved { path, target }, Ok(Answer::Done)) => Step::Ask(
            Command::Link(target, path, LinkType::Symlink),
            Continuation::Finished,
        ),
        _ => Step::Reply(Response::Failed(NtStatus::IoDeviceError)),
    }
}

/// How an operation on an open file begins; a directory has nothing to operate on.
pub open spec fn on_descriptor(context: Context, act: spec_fn(u64) -> Act) -> Act {
    match context.descriptor {
        Some(descriptor) => act(descriptor),
        None => failed(NtStatus::FileIsADirectory),
    }
}

/// The filesystem that WinFsp is shown.
#[derive(Debug)]
pub struct IfuseFilesystem {
    pub volume_label: String,
}

impl IfuseFilesystem {
    /// The filesystem of a new mount.
    pub fn new(volume_label: String) -> (r: Self)
        ensures
            r.volume_label == volume_label,
    {
        IfuseFilesystem { volume_label }
    }

    /// Asks what the object at a path is, and goes on from there.
    fn stat(path: &String, next: Continuation) -> (r: Step)
        ensures
            r@ == Act::Ask(backend::Wish::FileInfo(path@), next@),
    {
        Step::Ask(Command::FileInfo(path.clone()), next)
    }

    /// Tells what kind of object a name leads to.
    pub fn get_security_by_name(&self, file_name: &[u16]) -> (r: Step)
        ensures
            consistent(r@),
            r@ == Act::Ask(backend::Wish::FileInfo(mount_path(file_name@)), Stage::Security),
    {
        Step::Ask(Command::FileInfo(afc_path(file_name)), Continuation::Security)
    }

    /// Opens an object.
    pub fn open(&self, file_name: &[u16], granted_access: u32) -> (r: Step)
        ensures
            consistent(r@),
            r@ == Act::Ask(
                backend::Wish::FileInfo(mount_path(file_name@)),
                Stage::OpenKnown { path: mount_path(file_name@), access: granted_access },
            ),
    {
        let path: String = afc_path(file_name);
        Self::stat(&path, Continuation::OpenKnown { path: path.clone(), access: granted_access })
    }

    /// Closes an object.
    pub fn close(&self, context: IfuseFileContext) -> (r: Step)
        ensures
            consistent(r@),
            r@ == (match context@.descriptor {
                Some(descriptor) => Act::Ask(backend::Wish::Close(descriptor), Stage::Finished),
                None => Act::Reply(Shown::Done),
            }),
    {
        match context.descriptor {
            Some(descriptor) => Step::Ask(Command::Close(descriptor), Continuation::Finished),
            None => Step::Reply(Response::Done),
        }
    }

    /// Makes an object and opens it: a link where a reparse point is given, a directory where the
    /// options ask for one, and a file otherwise.
    pub fn create(
        &self,
        file_name: &[u16],
        create_options: u32,
        allocation_size: u64,
        extra_buffer: Option<&[u8]>,
        extra_buffer_is_reparse_point: bool,
    ) -> (r: Step)
        ensures
            consistent(r@),
            ({
                let path = mount_path(file_name@);
                let extra = match extra_buffer {
                    Some(bytes) => bytes@,
                    None => Seq::empty(),
                };
                r@ == (if extra_buffer_is_reparse_point {
                    match reparse::symlink_target(extra) {
                        Ok(target) => Act::Ask(
                            backend::Wish::Link(target, path, LinkType::Symlink),
                            Stage::CreateMade { path, directory: false, descriptor: None },
                        ),
                        Err(status) => failed(status),
                    }
                } else if create_options & FILE_DIRECTORY_FILE != 0 {
                    Act::Ask(
                        backend::Wish::Mkdir(path),
                        Stage::CreateMade { path, directory: true, descriptor: None },
                    )
                } else {
                    Act::Ask(
                        backend::Wish::Open(path, AfcFopenMode::Wr),
                        Stage::CreateOpened { path, allocation_size },
                    )
                })
            }),
    {
        let path: String = afc_path(file_name);
        if extra_buffer_is_reparse_point {
            let none: Vec<u8> = Vec::new();
            let extra: &[u8] = match extra_buffer {
                Some(bytes) => bytes,
                None => none.as_slice(),
            };
            assert(none@ =~= Seq::<u8>::empty());
            return match reparse::parse_symlink_reparse(extra) {
                Ok(target) => Step::Ask(
                    Command::Link(target, path.clone(), LinkType::Symlink),
                    Continuation::CreateMade { path, directory: false, descriptor: None },
                ),
                Err(status) => Step::Reply(Response::Failed(status)),
            };
        }
        if create_options & FILE_DIRECTORY_FILE != 0 {
            return Step::Ask(
                Command::Mkdir(path.clone()),
                Continuation::CreateMade { path, directory: true, descriptor: None },
            );
        }
        Step::Ask(
            Command::Open(path.clone(), AfcFopenMode::Wr),
            Continuation::CreateOpened { path, allocation_size },
        )
    }

    /// Removes an object that is marked for removal.
    pub fn cleanup(&self, context: &IfuseFileContext) -> (r: Step)
        ensures
            consistent(r@),
            r@ == (if context@.delete_pending {
                Act::Ask(backend::Wish::Remove(context@.path), Stage::Finished)
            } else {
                Act::Reply(Shown::Done)
            }),
    {
        if context.delete_pending {
            Step::Ask(Command::Remove(context.path.clone()), Continuation::Finished)
        } else {
            Step::Reply(Response::Done)
        }
    }

    /// Tells what an object is once it is flushed; every write has reached the device by then.
    pub fn flush(&self, context: Option<&IfuseFileContext>) -> (r: Step)
        ensures
            consistent(r@),
            r@ == (match context {
                Some(context) => Act::Ask(backend::Wish::FileInfo(context@.path), Stage::Info),
                None => Act::Reply(Shown::Done),
            }),
    {
        match context {
            Some(context) => Self::stat(&context.path, Continuation::Info),
            None => Step::Reply(Response::Done),
        }
    }

    /// Tells what an object is.
    pub fn get_file_info(&self, context: &IfuseFileContext) -> (r: Step)
        ensures
            consistent(r@),
            r@ == Act::Ask(backend::Wish::FileInfo(context@.path), Stage::Info),
    {
        Self::stat(&context.path, Continuation::Info)
    }

    /// Gives a file that is written anew a size.
    pub fn overwrite(&self, context: &IfuseFileContext, allocation_size: u64) -> (r: Step)
        ensures
            consistent(r@),
            r@ == on_descriptor(
                context@,
                |descriptor: u64|
                    Act::Ask(
                        backend::Wish::TruncateHandle(descriptor, allocation_size),
                        Stage::Changed { path: context@.path },
                    ),
            ),
    {
        self.set_file_size(context, allocation_size)
    }

    /// Reads a directory; what was read before is shown where a marker says where to go on.
    pub fn read_directory(&self, context: &IfuseFileContext, has_marker: bool) -> (r: Step)
        ensures
            consistent(r@),
            r@ == reading(context@, has_marker),
    {
        if !context.directory {
            Step::Reply(Response::Failed(NtStatus::NotADirectory))
        } else if has_marker {
            Step::Reply(Response::KeptEntries)
        } else {
            Step::Ask(
                Command::ListDir(context.path.clone()),
                Continuation::Names { path: context.path.clone() },
            )
        }
    }

    /// Renames an object, and removes what has the new name before where it may be replaced.
    pub fn rename(
        &self,
        file_name: &[u16],
        new_file_name: &[u16],
        replace_if_exists: bool,
    ) -> (r: Step)
        ensures
            consistent(r@),
            ({
                let from = mount_path(file_name@);
                let to = mount_path(new_file_name@);
                r@ == (if replace_if_exists {
                    Act::Ask(backend::Wish::FileInfo(to), Stage::ReplaceKnown { from, to })
                } else {
                    Act::Ask(backend::Wish::Rename(from, to), Stage::Finished)
                })
            }),
    {
        let from: String = afc_path(file_name);
        let to: String = afc_path(new_file_name);
        if replace_if_exists {
            Step::Ask(Command::FileInfo(to.clone()), Continuation::ReplaceKnown { from, to })
        } else {
            Step::Ask(Command::Rename(from, to), Continuation::Finished)
        }
    }

    /// Sets the time of modification of an object, where one is given.
    pub fn set_basic_info(&self, context: &IfuseFileContext, last_write_time: u64) -> (r: Step)
        ensures
            consistent(r@),
            r@ == (if last_write_time != 0 {
                Act::Ask(
                    backend::Wish::SetMtime(
                        context@.path,
                        Mtime::At(Some(unix_nanos(last_write_time) as u128)),
                    ),
                    Stage::Changed { path: context@.path },
                )
            } else {
                Act::Ask(backend::Wish::FileInfo(context@.path), Stage::Info)
            }),
    {
        if last_write_time != 0 {
            let nanos: u64 = windows_time_to_unix_nanos(last_write_time);
            Step::Ask(
                Command::SetMtime(context.path.clone(), Mtime::At(Some(nanos as u128))),
                Continuation::Changed { path: context.path.clone() },
            )
        } else {
            Self::stat(&context.path, Continuation::Info)
        }
    }

    /// Marks an object for removal, or takes the mark away; a directory must be empty for it.
    pub fn set_delete(&self, context: &IfuseFileContext, delete_file: bool) -> (r: Step)
        ensures
            consistent(r@),
            r@ == (if delete_file && context@.directory {
                Act::Ask(backend::Wish::ListDir(context@.path), Stage::DeleteNames)
            } else {
                Act::Reply(Shown::DeletePending(delete_file))
            }),
    {
        if delete_file && context.directory {
            Step::Ask(Command::ListDir(context.path.clone()), Continuation::DeleteNames)
        } else {
            Step::Reply(Response::DeletePending(delete_file))
        }
    }

    /// Gives a file a size.
    pub fn set_file_size(&self, context: &IfuseFileContext, new_size: u64) -> (r: Step)
        ensures
            consistent(r@),
            r@ == on_descriptor(
                context@,
                |descriptor: u64|
                    Act::Ask(
                        backend::Wish::TruncateHandle(descriptor, new_size),
                        Stage::Changed { path: context@.path },
                    ),
            ),
    {
        match descriptor(context) {
            Ok(descriptor) => Step::Ask(
                Command::TruncateHandle(descriptor, new_size),
                Continuation::Changed { path: context.path.clone() },
            ),
            Err(status) => Step::Reply(Response::Failed(status)),
        }
    }

    /// Reads from a file as much as a buffer holds.
    pub fn read(&self, context: &IfuseFileContext, buffer_len: usize, offset: u64) -> (r: Step)
        ensures
            consistent(r@),
            r@ == on_descriptor(
                context@,
                |descriptor: u64|
                    Act::Ask(
                        backend::Wish::Read(
                            descriptor,
                            offset,
                            if buffer_len <= u32::MAX {
                                buffer_len as u32
                            } else {
                                u32::MAX
                            },
                        ),
                        Stage::Read,
                    ),
            ),
    {
        match descriptor(context) {
            Ok(descriptor) => {
                let size: u32 = if buffer_len as u64 <= 0xffff_ffff {
                    buffer_len as u32
                } else {
                    0xffff_ffff
                };
                Step::Ask(Command::Read(descriptor, offset, size), Continuation::Read)
            },
            Err(status) => Step::Reply(Response::Failed(status)),
        }
    }

    /// Writes to a file, at an offset or at its end.
    pub fn write(
        &self,
        context: &IfuseFileContext,
        data: Vec<u8>,
        offset: u64,
        write_to_eof: bool,
    ) -> (r: Step)
        ensures
            consistent(r@),
            r@ == on_descriptor(
                context@,
                |descriptor: u64|
                    if write_to_eof {
                        Act::Ask(
                            backend::Wish::FileInfo(context@.path),
                            Stage::WriteEnd { path: context@.path, descriptor, data: data@ },
                        )
                    } else {
                        Act::Ask(
                            backend::Wish::Write(descriptor, offset, data@),
                            Stage::Written { path: context@.path },
                        )
                    },
            ),
    {
        match descriptor(context) {
            Ok(descriptor) => {
                let path: String = context.path.clone();
                if write_to_eof {
                    Self::stat(&context.path, Continuation::WriteEnd { path, descriptor, data })
                } else {
                    Step::Ask(
                        Command::Write(descriptor, offset, data),
                        Continuation::Written { path },
                    )
                }
            },
            Err(status) => Step::Reply(Response::Failed(status)),
        }
    }

    /// Tells what the volume is.
    pub fn get_volume_info(&self) -> (r: Step)
        ensures
            consistent(r@),
            r@ == Act::Ask(
                backend::Wish::DeviceInfo,
                Stage::Volume { label: self.volume_label@ },
            ),
    {
        Step::Ask(
            Command::DeviceInfo,
            Continuation::Volume { label: self.volume_label.clone() },
        )
    }

    /// Gives the volume a label.
    pub fn set_volume_label(&mut self, volume_label: &[u16]) -> (r: Step)
        ensures
            consistent(r@),
            final(self).volume_label@ == utf16::decoded(volume_label@),
            r@ == Act::Ask(
                backend::Wish::DeviceInfo,
                Stage::Volume { label: utf16::decoded(volume_label@) },
            ),
    {
        self.volume_label = wide_string(volume_label);
        self.get_volume_info()
    }

    /// Tells where a link leads, by its name.
    pub fn get_reparse_point_by_name(&self, file_name: &[u16]) -> (r: Step)
        ensures
            consistent(r@),
            r@ == Act::Ask(backend::Wish::FileInfo(mount_path(file_name@)), Stage::Target),
    {
        Step::Ask(Command::FileInfo(afc_path(file_name)), Continuation::Target)
    }

    /// Tells where a link leads.
    pub fn get_reparse_point(&self, context: &IfuseFileContext) -> (r: Step)
        ensures
            consistent(r@),
            r@ == Act::Ask(backend::Wish::FileInfo(context@.path), Stage::Target),
    {
        Self::stat(&context.path, Continuation::Target)
    }

    /// Makes an object a link anew.
    pub fn set_reparse_point(&self, context: &IfuseFileContext, buffer: &[u8]) -> (r: Step)
        ensures
            consistent(r@),
            r@ == (match reparse::symlink_target(buffer@) {
                Ok(target) => Act::Ask(
                    backend::Wish::Remove(context@.path),
                    Stage::TargetRemoved { path: context@.path, target },
                ),
                Err(status) => failed(status),
            }),
    {
        match reparse::parse_symlink_reparse(buffer) {
            Ok(target) => Step::Ask(
                Command::Remove(context.path.clone()),
                Continuation::TargetRemoved { path: context.path.clone(), target },
            ),
            Err(status) => Step::Reply(Response::Failed(status)),
        }
    }
}

} // verus!
