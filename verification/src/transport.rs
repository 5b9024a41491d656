//! Requests to the device as packets, and the exchanges that they start.

use vstd::prelude::*;
use vstd::string::*;

use crate::afc;
use crate::backend;
use crate::backend::{Answer, Command};
use crate::error;
use crate::error::{AfcError, DeviceError, Error, Result};
use crate::le;
use crate::text;

verus! {

/// The most bytes that one packet reads or writes.
pub const MAX_TRANSFER: usize = 1_048_576;

/// The operations of the file protocol that a mount uses.
#[derive(Clone, Copy, Debug, PartialEq, Eq, Structural)]
pub enum AfcOpcode {
    Status,
    ReadDir,
    Truncate,
    RemovePath,
    MakeDir,
    GetFileInfo,
    GetDevInfo,
    FileOpen,
    Read,
    Write,
    FileSeek,
    FileClose,
    FileSetSize,
    RenamePath,
    MakeLink,
    SetFileTime,
}

impl AfcOpcode {
    /// The number that stands for this operation in a packet.
    pub open spec fn number(self) -> u64 {
        match self {
            AfcOpcode::Status => 0x1,
            AfcOpcode::ReadDir => 0x3,
            AfcOpcode::Truncate => 0x7,
            AfcOpcode::RemovePath => 0x8,
            AfcOpcode::MakeDir => 0x9,
            AfcOpcode::GetFileInfo => 0xa,
            AfcOpcode::GetDevInfo => 0xb,
            AfcOpcode::FileOpen => 0xd,
            AfcOpcode::Read => 0xf,
            AfcOpcode::Write => 0x10,
            AfcOpcode::FileSeek => 0x11,
            AfcOpcode::FileClose => 0x14,
            AfcOpcode::FileSetSize => 0x15,
            AfcOpcode::RenamePath => 0x18,
            AfcOpcode::MakeLink => 0x1c,
            AfcOpcode::SetFileTime => 0x1e,
        }
    }

    /// The number that stands for this operation in a packet.
    pub fn code(self) -> (r: u64)
        ensures
            r == self.number(),
    {
        match self {
            AfcOpcode::Status => 0x1,
            AfcOpcode::ReadDir => 0x3,
            AfcOpcode::Truncate => 0x7,
            AfcOpcode::RemovePath => 0x8,
            AfcOpcode::MakeDir => 0x9,
            AfcOpcode::GetFileInfo => 0xa,
            AfcOpcode::GetDevInfo => 0xb,
            AfcOpcode::FileOpen => 0xd,
            AfcOpcode::Read => 0xf,
            AfcOpcode::Write => 0x10,
            AfcOpcode::FileSeek => 0x11,
            AfcOpcode::FileClose => 0x14,
            AfcOpcode::FileSetSize => 0x15,
            AfcOpcode::RenamePath => 0x18,
            AfcOpcode::MakeLink => 0x1c,
            AfcOpcode::SetFileTime => 0x1e,
        }
    }
}

/// How a file is opened.
#[derive(Clone, Copy, Debug, PartialEq, Eq, Structural)]
pub enum AfcFopenMode {
    RdOnly,
    Rw,
    WrOnly,
    Wr,
    Append,
    RdAppend,
}

/// How a link leads to its target.
#[derive(Clone, Copy, Debug, PartialEq, Eq, Structural)]
pub enum LinkType {
    Hardlink,
    Symlink,
}

impl AfcFopenMode {
    /// The number that stands for this mode in a packet.
    pub open spec fn number(self) -> u64 {
        match self {
            AfcFopenMode::RdOnly => 1,
            AfcFopenMode::Rw => 2,
            AfcFopenMode::WrOnly => 3,
            AfcFopenMode::Wr => 4,
            AfcFopenMode::Append => 5,
            AfcFopenMode::RdAppend => 6,
        }
    }
}

impl LinkType {
    /// The number that stands for this kind of link in a packet.
    pub open spec fn number(self) -> u64 {
        match self {
            LinkType::Hardlink => 1,
            LinkType::Symlink => 2,
        }
    }
}

/// The numbers that `idevice::afc::opcode::AfcFopenMode` gives the modes: one to six, in the order
/// in which they are declared.
#[verifier::external_body]
fn mode_code(mode: AfcFopenMode) -> (r: u64)
    ensures
        r == mode.number(),
{
    (match mode {
        AfcFopenMode::RdOnly => idevice::afc::opcode::AfcFopenMode::RdOnly,
        AfcFopenMode::Rw => idevice::afc::opcode::AfcFopenMode::Rw,
        AfcFopenMode::WrOnly => idevice::afc::opcode::AfcFopenMode::WrOnly,
        AfcFopenMode::Wr => idevice::afc::opcode::AfcFopenMode::Wr,
        AfcFopenMode::Append => idevice::afc::opcode::AfcFopenMode::Append,
        AfcFopenMode::RdAppend => idevice::afc::opcode::AfcFopenMode::RdAppend,
    }) as u64
}

/// The numbers that `idevice::afc::opcode::LinkType` gives the kinds of link: one for a hard link
/// and two for a symbolic one.
#[verifier::external_body]
fn link_code(kind: LinkType) -> (r: u64)
    ensures
        r == kind.number(),
{
    (match kind {
        LinkType::Hardlink => idevice::afc::opcode::LinkType::Hardlink,
        LinkType::Symlink => idevice::afc::opcode::LinkType::Symlink,
    }) as u64
}

/// The number that every packet starts with.
pub const MAGIC: u64 = 0x4141504c36414643;

/// The length of a packet's header.
pub const HEADER_LEN: u64 = 40;

/// `idevice::afc::packet::AfcPacketHeader::LEN` is the length of a packet's header: five numbers of
/// eight bytes each.
#[verifier::external_body]
fn header_len() -> (r: u64)
    ensures
        r == HEADER_LEN,
{
    idevice::afc::packet::AfcPacketHeader::LEN
}

/// A number as a packet holds it.
pub open spec fn word(value: nat) -> Seq<u8> {
    le::le_bytes(value, 8)
}

/// `idevice::afc::packet::AfcPacket::serialize` writes a packet: the magic number, the two lengths,
/// the packet's number and the number of its operation, each as eight bytes with the lowest first,
/// then what belongs to the header, then the payload. `idevice::afc::opcode::AfcOpcode::try_from`
/// knows the operations from 1 to 0x1e, each under its number.
#[verifier::external_body]
fn serialized(
    entire_len: u64,
    header_payload_len: u64,
    packet_num: u64,
    operation: u64,
    header_payload: Vec<u8>,
    payload: Vec<u8>,
) -> (r: Vec<u8>)
    requires
        1 <= operation <= 0x1e,
    ensures
        r@ == word(MAGIC as nat) + word(entire_len as nat) + word(header_payload_len as nat) + word(
            packet_num as nat,
        ) + word(operation as nat) + header_payload@ + payload@,
{
    let header = idevice::afc::packet::AfcPacketHeader {
        magic: idevice::afc::MAGIC,
        entire_len,
        header_payload_len,
        packet_num,
        operation: idevice::afc::opcode::AfcOpcode::try_from(operation).unwrap(),
    };
    idevice::afc::packet::AfcPacket { header, header_payload, payload }.serialize()
}

/// The bytes of a packet.
pub open spec fn packet(
    number: u64,
    operation: AfcOpcode,
    header_payload: Seq<u8>,
    payload: Seq<u8>,
) -> Seq<u8> {
    word(MAGIC as nat) + word(HEADER_LEN as nat + header_payload.len() + payload.len()) + word(
        HEADER_LEN as nat + header_payload.len(),
    ) + word(number as nat) + word(operation.number() as nat) + header_payload + payload
}

/// The number of the packet after one.
pub open spec fn next_number(number: u64) -> u64 {
    if number == u64::MAX {
        0
    } else {
        (number + 1) as u64
    }
}

/// A text without the separators at its end.
pub open spec fn without_end_separators(s: Seq<char>) -> Seq<char>
    decreases s.len(),
{
    if s.len() > 0 && s.last() == '/' {
        without_end_separators(s.drop_last())
    } else {
        s
    }
}

/// Where a path of the mount lies on the device, below the root that the mount shows.
pub open spec fn remote_path(root: Seq<char>, path: Seq<char>) -> Seq<char> {
    if root == seq!['/'] {
        if path.len() > 0 && path[0] == '/' {
            path
        } else {
            seq!['/'] + path
        }
    } else if path == seq!['/'] || path.len() == 0 {
        root
    } else {
        without_end_separators(root) + path
    }
}

/// What an exchange waits for.
#[derive(Debug)]
pub enum Pending {
    Names,
    FileInfo,
    DeviceInfo,
    Done,
    Handle,
    /// The position to read from.
    SeekRead { handle: u64, size: u32 },
    /// So many bytes of those that remain to be read.
    Read { handle: u64, amount: usize, remaining: usize, output: Vec<u8> },
    /// The position to write to.
    SeekWrite { handle: u64, bytes: Vec<u8> },
    /// That the bytes up to `sent` are written.
    Write { handle: u64, bytes: Vec<u8>, sent: usize },
}

/// What an exchange waits for.
pub ghost enum Await {
    Names,
    FileInfo,
    DeviceInfo,
    Done,
    Handle,
    SeekRead { handle: u64, size: nat },
    Read { handle: u64, amount: nat, remaining: nat, output: Seq<u8> },
    SeekWrite { handle: u64, bytes: Seq<u8> },
    Write { handle: u64, bytes: Seq<u8>, sent: nat },
}

impl View for Pending {
    type V = Await;

    open spec fn view(&self) -> Await {
        match *self {
            Pending::Names => Await::Names,
            Pending::FileInfo => Await::FileInfo,
            Pending::DeviceInfo => Await::DeviceInfo,
            Pending::Done => Await::Done,
            Pending::Handle => Await::Handle,
            Pending::SeekRead { handle, size } => Await::SeekRead { handle, size: size as nat },
            Pending::Read { handle, amount, remaining, output } => Await::Read {
                handle,
                amount: amount as nat,
                remaining: remaining as nat,
                output: output@,
            },
            Pending::SeekWrite { handle, bytes } => Await::SeekWrite { handle, bytes: bytes@ },
            Pending::Write { handle, bytes, sent } => Await::Write {
                handle,
                bytes: bytes@,
                sent: sent as nat,
            },
        }
    }
}

/// A packet to send, and what its answer is waited for.
#[derive(Debug)]
pub struct Request {
    pub packet: Vec<u8>,
    pub pending: Pending,
}

/// A packet that the device sent.
#[derive(Debug)]
pub struct Reply {
    pub operation: u64,
    pub header_payload: Vec<u8>,
    pub payload: Vec<u8>,
}

/// What a packet of the device holds.
pub ghost struct Heard {
    pub operation: u64,
    pub header_payload: Seq<u8>,
    pub payload: Seq<u8>,
}

impl View for Reply {
    type V = Heard;

    open spec fn view(&self) -> Heard {
        Heard {
            operation: self.operation,
            header_payload: self.header_payload@,
            payload: self.payload@,
        }
    }
}

/// What to do next in an exchange.
#[derive(Debug)]
pub enum Exchange {
    Send(Request),
    Finished(Result<Answer>),
}

/// What to do next in an exchange.
pub ghost enum Turn {
    Send { packet: Seq<u8>, pending: Await },
    Finished(backend::Said),
}

impl View for Exchange {
    type V = Turn;

    open spec fn view(&self) -> Turn {
        match *self {
            Exchange::Send(request) => Turn::Send {
                packet: request.packet@,
                pending: request.pending@,
            },
            Exchange::Finished(outcome) => Turn::Finished(backend::said(outcome)),
        }
    }
}

/// What is wrong with a reply, whatever was asked: a status that tells of a failure, or one that
/// tells nothing.
pub open spec fn status_failure(reply: Heard) -> Option<error::Failure> {
    if reply.operation != AfcOpcode::Status.number() {
        None
    } else if reply.header_payload.len() < 8 {
        Some(error::Failure::Invalid("status packet has no error code"@))
    } else {
        let status = error::status_of(le::le_value(reply.header_payload.take(8)) as u64);
        if status == AfcError::Success {
            None
        } else {
            Some(error::Failure::Refused(status))
        }
    }
}

/// The packet that sets the position of a file.
pub open spec fn seek_packet(number: u64, handle: u64, offset: u64) -> Seq<u8> {
    packet(
        number,
        AfcOpcode::FileSeek,
        word(handle as nat) + word(0) + word(offset as nat),
        Seq::empty(),
    )
}

/// The packet that reads from a file.
pub open spec fn read_packet(number: u64, handle: u64, amount: nat) -> Seq<u8> {
    packet(number, AfcOpcode::Read, word(handle as nat) + word(amount), Seq::empty())
}

/// The packet that writes to a file.
pub open spec fn write_packet(number: u64, handle: u64, chunk: Seq<u8>) -> Seq<u8> {
    packet(number, AfcOpcode::Write, word(handle as nat), chunk)
}

/// The lesser of a number and the most that one packet transfers.
pub open spec fn transfer(amount: nat) -> nat {
    if amount <= MAX_TRANSFER {
        amount
    } else {
        MAX_TRANSFER as nat
    }
}

/// How a read goes on while so many bytes remain.
pub open spec fn read_turn(number: u64, handle: u64, remaining: nat, output: Seq<u8>) -> Turn {
    if remaining == 0 {
        Turn::Finished(backend::Said::Data(output))
    } else {
        Turn::Send {
            packet: read_packet(number, handle, transfer(remaining)),
            pending: Await::Read { handle, amount: transfer(remaining), remaining, output },
        }
    }
}

/// How a write goes on once the bytes up to `sent` are written.
pub open spec fn write_turn(number: u64, handle: u64, bytes: Seq<u8>, sent: nat) -> Turn {
    if sent >= bytes.len() {
        Turn::Finished(backend::Said::Count(bytes.len() as u32))
    } else {
        let next = sent + transfer((bytes.len() - sent) as nat);
        Turn::Send {
            packet: write_packet(number, handle, bytes.subrange(sent as int, next as int)),
            pending: Await::Write { handle, bytes, sent: next },
        }
    }
}

/// What a reply leads to, where the next packet has the given number.
pub open spec fn turn(number: u64, pending: Await, reply: Heard) -> Turn {
    match (status_failure(reply), pending) {
        (Some(failure), _) => Turn::Finished(backend::Said::Failed(failure)),
        (None, Await::Names) => Turn::Finished(
            backend::Said::Names(afc::listed(reply.payload)),
        ),
        (None, Await::FileInfo) => Turn::Finished(
            match afc::file_answer(reply.payload) {
                Ok(facts) => backend::Said::FileInfo(facts),
                Err(words) => backend::Said::Failed(error::Failure::Invalid(words)),
            },
        ),
        (None, Await::DeviceInfo) => Turn::Finished(
            match afc::device_answer(reply.payload) {
                Ok(facts) => backend::Said::DeviceInfo(facts),
                Err(words) => backend::Said::Failed(error::Failure::Invalid(words)),
            },
        ),
        (None, Await::Done) => Turn::Finished(backend::Said::Done),
        (None, Await::Handle) => Turn::Finished(
            if reply.header_payload.len() < 8 {
                backend::Said::Failed(
                    error::Failure::Invalid("file-open response has no descriptor"@),
                )
            } else {
                backend::Said::Handle(le::le_value(reply.header_payload.take(8)) as u64)
            },
        ),
        (None, Await::SeekRead { handle, size }) => read_turn(number, handle, size, Seq::empty()),
        (None, Await::Read { handle, amount, remaining, output }) => {
            let count = reply.payload.len();
            if count == 0 || count < amount {
                Turn::Finished(backend::Said::Data(output + reply.payload))
            } else {
                read_turn(number, handle, (remaining - count) as nat, output + reply.payload)
            }
        },
        (None, Await::SeekWrite { handle, bytes }) => write_turn(number, handle, bytes, 0),
        (None, Await::Write { handle, bytes, sent }) => write_turn(number, handle, bytes, sent),
    }
}

/// Whether a reply that tells of no failure holds no more bytes than remain to be read.
pub open spec fn in_bounds(pending: Await, reply: Heard) -> bool {
    match pending {
        Await::Read { remaining, .. } => status_failure(reply) is Some || reply.payload.len()
            <= remaining,
        _ => true,
    }
}

/// The device's end of a mount: the number of the next packet, and the directory of the device that
/// the mount shows.
#[derive(Debug)]
pub struct AfcTransport {
    pub packet_number: u64,
    pub root: String,
}

/// Whether a request asks for an operation, as the next packet of a connection.
pub open spec fn asks(
    before: AfcTransport,
    after: AfcTransport,
    request: Request,
    operation: AfcOpcode,
    header_payload: Seq<u8>,
    pending: Await,
) -> bool {
    &&& request.packet@ == packet(
        before.packet_number,
        operation,
        header_payload,
        Seq::<u8>::empty(),
    )
    &&& request.pending@ == pending
    &&& after.packet_number == next_number(before.packet_number)
    &&& after.root@ == before.root@
}

/// The failure that a reply tells of, whatever was asked.
fn failure(reply: &Reply) -> (r: Option<Error>)
    ensures
        match r {
            Some(e) => status_failure(reply@) == Some(error::failure_of(e)),
            None => status_failure(reply@) is None,
        },
{
    if reply.operation != AfcOpcode::Status.code() {
        return None;
    }
    match eight(reply.header_payload.as_slice()) {
        None => Some(Error::InvalidAfcResponse("status packet has no error code".to_owned())),
        Some(code) => {
            let status = AfcError::from_code(code);
            if status == AfcError::Success {
                None
            } else {
                Some(Error::Device(DeviceError::Afc(status)))
            }
        },
    }
}

/// The number that the first eight bytes stand for.
fn eight(bytes: &[u8]) -> (r: Option<u64>)
    ensures
        r == (if bytes@.len() < 8 {
            None
        } else {
            Some(le::le_value(bytes@.take(8)) as u64)
        }),
{
    if bytes.len() < 8 {
        return None;
    }
    assert(bytes@.subrange(0, 8) =~= bytes@.take(8));
    Some(le::get(bytes, 0, 8))
}

/// Whether a reply that tells of no failure holds no more bytes than remain to be read.
pub fn fits(pending: &Pending, reply: &Reply) -> (r: bool)
    ensures
        r == in_bounds(pending@, reply@),
{
    match pending {
        Pending::Read { remaining, .. } => reply.payload.len() <= *remaining || failure(
            reply,
        ).is_some(),
        _ => true,
    }
}

/// The lesser of a number and the most that one packet transfers.
fn at_most_one_packet(amount: usize) -> (r: usize)
    ensures
        r == transfer(amount as nat),
{
    if amount <= MAX_TRANSFER {
        amount
    } else {
        MAX_TRANSFER
    }
}

/// Two byte strings, one after the other.
fn followed_by(first: Vec<u8>, second: &[u8]) -> (r: Vec<u8>)
    ensures
        r@ == first@ + second@,
{
    let mut out: Vec<u8> = first;
    out.extend_from_slice(second);
    assert(out@ =~= first@ + second@);
    out
}

impl AfcTransport {
    /// A new connection, of which the mount shows the directory `root`.
    pub fn new<S: Into<String>>(root: S) -> (r: Self)
        ensures
            r.packet_number == 0,
            call_ensures(<S as Into<String>>::into, (root,), r.root),
    {
        AfcTransport { packet_number: 0, root: root.into() }
    }

    /// Where a path of the mount lies on the device.
    pub fn path(&self, path: &str) -> (r: String)
        ensures
            r@ == remote_path(self.root@, path@),
    {
        proof {
            reveal_strlit("/");
            assert("/"@ =~= seq!['/']);
        }
        if text::same(self.root.as_str(), "/") {
            let list: Vec<char> = text::chars(path);
            if list.len() > 0 && list[0] == '/' {
                path.to_owned()
            } else {
                text::joined("/", path)
            }
        } else {
            let list: Vec<char> = text::chars(path);
            if list.len() == 0 || text::same(path, "/") {
                self.root.clone()
            } else {
                let root: Vec<char> = text::chars(self.root.as_str());
                let mut end: usize = root.len();
                assert(root@.take(end as int) =~= self.root@);
                while end > 0 && root[end - 1] == '/'
                    invariant
                        end <= root@.len(),
                        root@ == self.root@,
                        without_end_separators(root@.take(end as int)) == without_end_separators(
                            self.root@,
                        ),
                    decreases end,
                {
                    assert(root@.take(end as int).drop_last() =~= root@.take(end - 1));
                    end -= 1;
                }
                assert(root@.subrange(0, end as int) =~= root@.take(end as int));
                let kept = text::text(vstd::slice::slice_subrange(root.as_slice(), 0, end));
                text::joined(kept.as_str(), path)
            }
        }
    }

    /// The next packet, for an operation.
    fn request(
        &mut self,
        operation: AfcOpcode,
        header_payload: Vec<u8>,
        payload: Vec<u8>,
        pending: Pending,
    ) -> (r: Request)
        ensures
            r.packet@ == packet(
                old(self).packet_number,
                operation,
                header_payload@,
                payload@,
            ),
            r.pending == pending,
            final(self).packet_number == next_number(old(self).packet_number),
            final(self).root == old(self).root,
    {
        let header_payload_len: u64 = header_len().wrapping_add(header_payload.len() as u64);
        let entire_len: u64 = header_payload_len.wrapping_add(payload.len() as u64);
        proof {
            le::lemma_le_limits();
            let header = (HEADER_LEN + header_payload@.len()) as nat;
            le::lemma_le_bytes_low(header, 8);
            le::lemma_le_bytes_low((header + payload@.len()) as nat, 8);
            le::lemma_le_bytes_low(header_payload_len as nat, 8);
            le::lemma_le_bytes_low(entire_len as nat, 8);
            assert(header_payload_len as nat == header % 0x1_0000_0000_0000_0000);
            assert(entire_len as nat == ((header + payload@.len()) as nat)
                % 0x1_0000_0000_0000_0000);
        }
        let packet: Vec<u8> = serialized(
            entire_len,
            header_payload_len,
            self.packet_number,
            operation.code(),
            header_payload,
            payload,
        );
        self.packet_number = self.packet_number.wrapping_add(1);
        Request { packet, pending }
    }

    /// Asks for the names of a directory's entries.
    pub fn list_dir(&mut self, path: &str) -> (r: Request)
        ensures
            asks(
                *old(self),
                *final(self),
                r,
                AfcOpcode::ReadDir,
                afc::zero_ended(remote_path(old(self).root@, path@)),
                Await::Names,
            ),
    {
        let data: Vec<u8> = afc::nul(self.path(path));
        self.request(AfcOpcode::ReadDir, data, Vec::new(), Pending::Names)
    }

    /// Asks what a path leads to.
    pub fn file_info(&mut self, path: &str) -> (r: Request)
        ensures
            asks(
                *old(self),
                *final(self),
                r,
                AfcOpcode::GetFileInfo,
                afc::zero_ended(remote_path(old(self).root@, path@)),
                Await::FileInfo,
            ),
    {
        let data: Vec<u8> = afc::nul(self.path(path));
        self.request(AfcOpcode::GetFileInfo, data, Vec::new(), Pending::FileInfo)
    }

    /// Asks what the device is.
    pub fn device_info(&mut self) -> (r: Request)
        ensures
            asks(
                *old(self),
                *final(self),
                r,
                AfcOpcode::GetDevInfo,
                Seq::empty(),
                Await::DeviceInfo,
            ),
    {
        self.request(AfcOpcode::GetDevInfo, Vec::new(), Vec::new(), Pending::DeviceInfo)
    }

    /// Asks for a new directory.
    pub fn mkdir(&mut self, path: &str) -> (r: Request)
        ensures
            asks(
                *old(self),
                *final(self),
                r,
                AfcOpcode::MakeDir,
                afc::zero_ended(remote_path(old(self).root@, path@)),
                Await::Done,
            ),
    {
        let data: Vec<u8> = afc::nul(self.path(path));
        self.request(AfcOpcode::MakeDir, data, Vec::new(), Pending::Done)
    }

    /// Asks for a path to be removed.
    pub fn remove(&mut self, path: &str) -> (r: Request)
        ensures
            asks(
                *old(self),
                *final(self),
                r,
                AfcOpcode::RemovePath,
                afc::zero_ended(remote_path(old(self).root@, path@)),
                Await::Done,
            ),
    {
        let data: Vec<u8> = afc::nul(self.path(path));
        self.request(AfcOpcode::RemovePath, data, Vec::new(), Pending::Done)
    }

    /// Asks for a path to be renamed.
    pub fn rename(&mut self, from: &str, to: &str) -> (r: Request)
        ensures
            asks(
                *old(self),
                *final(self),
                r,
                AfcOpcode::RenamePath,
                afc::zero_ended(remote_path(old(self).root@, from@)) + afc::zero_ended(
                    remote_path(old(self).root@, to@),
                ),
                Await::Done,
            ),
    {
        let target: Vec<u8> = afc::nul(self.path(to));
        let data: Vec<u8> = followed_by(afc::nul(self.path(from)), target.as_slice());
        self.request(AfcOpcode::RenamePath, data, Vec::new(), Pending::Done)
    }

    /// Asks for a link to a target.
    pub fn link(&mut self, target: &str, link: &str, kind: LinkType) -> (r: Request)
        ensures
            asks(
                *old(self),
                *final(self),
                r,
                AfcOpcode::MakeLink,
                word(kind.number() as nat) + afc::zero_ended(remote_path(old(self).root@, target@))
                    + afc::zero_ended(remote_path(old(self).root@, link@)),
                Await::Done,
            ),
    {
        let first: Vec<u8> = afc::nul(self.path(target));
        let second: Vec<u8> = afc::nul(self.path(link));
        let data: Vec<u8> = followed_by(
            followed_by(le::eight_bytes(link_code(kind)), first.as_slice()),
            second.as_slice(),
        );
        self.request(AfcOpcode::MakeLink, data, Vec::new(), Pending::Done)
    }

    /// Asks for a file to be opened.
    pub fn open(&mut self, path: &str, mode: AfcFopenMode) -> (r: Request)
        ensures
            asks(
                *old(self),
                *final(self),
                r,
                AfcOpcode::FileOpen,
                word(mode.number() as nat) + afc::zero_ended(remote_path(old(self).root@, path@)),
                Await::Handle,
            ),
    {
        let name: Vec<u8> = afc::nul(self.path(path));
        let data: Vec<u8> = followed_by(le::eight_bytes(mode_code(mode)), name.as_slice());
        self.request(AfcOpcode::FileOpen, data, Vec::new(), Pending::Handle)
    }

    fn seek(&mut self, handle: u64, offset: u64, pending: Pending) -> (r: Request)
        ensures
            r.packet@ == seek_packet(old(self).packet_number, handle, offset),
            r.pending == pending,
            final(self).packet_number == next_number(old(self).packet_number),
            final(self).root == old(self).root,
    {
        let zero: Vec<u8> = le::eight_bytes(0);
        let place: Vec<u8> = le::eight_bytes(offset);
        let data: Vec<u8> = followed_by(
            followed_by(le::eight_bytes(handle), zero.as_slice()),
            place.as_slice(),
        );
        self.request(AfcOpcode::FileSeek, data, Vec::new(), pending)
    }

    /// Starts to read from a file.
    pub fn read(&mut self, handle: u64, offset: u64, size: u32) -> (r: Request)
        ensures
            asks(
                *old(self),
                *final(self),
                r,
                AfcOpcode::FileSeek,
                word(handle as nat) + word(0) + word(offset as nat),
                Await::SeekRead { handle, size: size as nat },
            ),
    {
        self.seek(handle, offset, Pending::SeekRead { handle, size })
    }

    /// Starts to write to a file.
    pub fn write(&mut self, handle: u64, offset: u64, bytes: Vec<u8>) -> (r: Request)
        ensures
            asks(
                *old(self),
                *final(self),
                r,
                AfcOpcode::FileSeek,
                word(handle as nat) + word(0) + word(offset as nat),
                Await::SeekWrite { handle, bytes: bytes@ },
            ),
    {
        self.seek(handle, offset, Pending::SeekWrite { handle, bytes })
    }

    /// Asks for a file to be closed.
    pub fn close(&mut self, handle: u64) -> (r: Request)
        ensures
            asks(
                *old(self),
                *final(self),
                r,
                AfcOpcode::FileClose,
                word(handle as nat),
                Await::Done,
            ),
    {
        self.request(AfcOpcode::FileClose, le::eight_bytes(handle), Vec::new(), Pending::Done)
    }

    /// Asks for the file at a path to be given a size.
    pub fn truncate(&mut self, path: &str, size: u64) -> (r: Request)
        ensures
            asks(
                *old(self),
                *final(self),
                r,
                AfcOpcode::Truncate,
                word(size as nat) + afc::zero_ended(remote_path(old(self).root@, path@)),
                Await::Done,
            ),
    {
        let name: Vec<u8> = afc::nul(self.path(path));
        let data: Vec<u8> = followed_by(le::eight_bytes(size), name.as_slice());
        self.request(AfcOpcode::Truncate, data, Vec::new(), Pending::Done)
    }

    /// Asks for an open file to be given a size.
    pub fn truncate_handle(&mut self, handle: u64, size: u64) -> (r: Request)
        ensures
            asks(
                *old(self),
                *final(self),
                r,
                AfcOpcode::FileSetSize,
                word(handle as nat) + word(size as nat),
                Await::Done,
            ),
    {
        let length: Vec<u8> = le::eight_bytes(size);
        let data: Vec<u8> = followed_by(le::eight_bytes(handle), length.as_slice());
        self.request(AfcOpcode::FileSetSize, data, Vec::new(), Pending::Done)
    }

    /// Asks for the file at a path to be given a time of modification.
    pub fn set_mtime(&mut self, path: &str, nanos: u64) -> (r: Request)
        ensures
            asks(
                *old(self),
                *final(self),
                r,
                AfcOpcode::SetFileTime,
                word(nanos as nat) + afc::zero_ended(remote_path(old(self).root@, path@)),
                Await::Done,
            ),
    {
        let name: Vec<u8> = afc::nul(self.path(path));
        let data: Vec<u8> = followed_by(le::eight_bytes(nanos), name.as_slice());
        self.request(AfcOpcode::SetFileTime, data, Vec::new(), Pending::Done)
    }

    fn read_more(&mut self, handle: u64, remaining: usize, output: Vec<u8>) -> (r: Exchange)
        ensures
            r@ == read_turn(old(self).packet_number, handle, remaining as nat, output@),
            final(self).packet_number == (if r is Send {
                next_number(old(self).packet_number)
            } else {
                old(self).packet_number
            }),
            final(self).root == old(self).root,
    {
        if remaining == 0 {
            return Exchange::Finished(Ok(Answer::Data(output)));
        }
        let amount: usize = at_most_one_packet(remaining);
        let length: Vec<u8> = le::eight_bytes(amount as u64);
        let data: Vec<u8> = followed_by(le::eight_bytes(handle), length.as_slice());
        Exchange::Send(
            self.request(
                AfcOpcode::Read,
                data,
                Vec::new(),
                Pending::Read { handle, amount, remaining, output },
            ),
        )
    }

    fn write_more(&mut self, handle: u64, bytes: Vec<u8>, sent: usize) -> (r: Exchange)
        ensures
            r@ == write_turn(old(self).packet_number, handle, bytes@, sent as nat),
            final(self).packet_number == (if r is Send {
                next_number(old(self).packet_number)
            } else {
                old(self).packet_number
            }),
            final(self).root == old(self).root,
    {
        if sent >= bytes.len() {
            return Exchange::Finished(Ok(Answer::Count(bytes.len() as u32)));
        }
        let next: usize = sent + at_most_one_packet(bytes.len() - sent);
        let chunk: Vec<u8> = vstd::slice::slice_to_vec(
            vstd::slice::slice_subrange(bytes.as_slice(), sent, next),
        );
        Exchange::Send(
            self.request(
                AfcOpcode::Write,
                le::eight_bytes(handle),
                chunk,
                Pending::Write { handle, bytes, sent: next },
            ),
        )
    }

    /// Goes on with an exchange once the device has replied.
    pub fn resume(&mut self, pending: Pending, reply: Reply) -> (r: Exchange)
        requires
            in_bounds(pending@, reply@),
        ensures
            r@ == turn(old(self).packet_number, pending@, reply@),
            final(self).packet_number == (if r is Send {
                next_number(old(self).packet_number)
            } else {
                old(self).packet_number
            }),
            final(self).root@ == old(self).root@,
    {
        if let Some(e) = failure(&reply) {
            return Exchange::Finished(Err(e));
        }
        match pending {
            Pending::Names => Exchange::Finished(
                Ok(Answer::Names(afc::strings(reply.payload.as_slice()))),
            ),
            Pending::FileInfo => Exchange::Finished(
                match afc::read_file_info(reply.payload.as_slice()) {
                    Ok(info) => Ok(Answer::FileInfo(info)),
                    Err(e) => Err(e),
                },
            ),
            Pending::DeviceInfo => Exchange::Finished(
                match afc::read_device_info(reply.payload.as_slice()) {
                    Ok(info) => Ok(Answer::DeviceInfo(info)),
                    Err(e) => Err(e),
                },
            ),
            Pending::Done => Exchange::Finished(Ok(Answer::Done)),
            Pending::Handle => Exchange::Finished(
                match eight(reply.header_payload.as_slice()) {
                    Some(handle) => Ok(Answer::Handle(handle)),
                    None => Err(
                        Error::InvalidAfcResponse(
                            "file-open response has no descriptor".to_owned(),
                        ),
                    ),
                },
            ),
            Pending::SeekRead { handle, size } => self.read_more(
                handle,
                size as usize,
                Vec::new(),
            ),
            Pending::Read { handle, amount, remaining, output } => {
                let count: usize = reply.payload.len();
                let all: Vec<u8> = followed_by(output, reply.payload.as_slice());
                if count == 0 || count < amount {
                    Exchange::Finished(Ok(Answer::Data(all)))
                } else {
                    self.read_more(handle, remaining - count, all)
                }
            },
            Pending::SeekWrite { handle, bytes } => self.write_more(handle, bytes, 0),
            Pending::Write { handle, bytes, sent } => self.write_more(handle, bytes, sent),
        }
    }

    /// Starts what a command asks for, where the clock reads `now`; `None` where it asks for the
    /// end of the connection.
    pub fn start(&mut self, command: Command, now: Option<u128>) -> (r: Option<Request>)
        ensures
            match opening(command@, old(self).root@, now) {
                Some((operation, header_payload, pending)) => r matches Some(request) && asks(
                    *old(self),
                    *final(self),
                    request,
                    operation,
                    header_payload,
                    pending,
                ),
                None => {
                    &&& r is None
                    &&& final(self).packet_number == old(self).packet_number
                    &&& final(self).root@ == old(self).root@
                },
            },
    {
        Some(
            match command {
                Command::DeviceInfo => self.device_info(),
                Command::FileInfo(path) => self.file_info(path.as_str()),
                Command::ListDir(path) => self.list_dir(path.as_str()),
                Command::Mkdir(path) => self.mkdir(path.as_str()),
                Command::Remove(path) => self.remove(path.as_str()),
                Command::Rename(from, to) => self.rename(from.as_str(), to.as_str()),
                Command::Link(target, link, kind) => self.link(
                    target.as_str(),
                    link.as_str(),
                    kind,
                ),
                Command::Open(path, mode) => self.open(path.as_str(), mode),
                Command::Read(handle, offset, size) => self.read(handle, offset, size),
                Command::Write(handle, offset, bytes) => self.write(handle, offset, bytes),
                Command::Close(handle) => self.close(handle),
                Command::Truncate(path, size) => self.truncate(path.as_str(), size),
                Command::TruncateHandle(handle, size) => self.truncate_handle(handle, size),
                Command::SetMtime(path, time) => self.set_mtime(
                    path.as_str(),
                    backend::nanos(time.resolve(now)),
                ),
                Command::Shutdown => {
                    return None;
                },
            },
        )
    }
}

/// A reply that says that something was done.
pub open spec fn done_reply() -> Heard {
    Heard {
        operation: AfcOpcode::Status.number(),
        header_payload: word(0),
        payload: Seq::empty(),
    }
}

/// A reply that holds what was read.
pub open spec fn data_reply(payload: Seq<u8>) -> Heard {
    Heard { operation: 2, header_payload: Seq::empty(), payload }
}

/// A reply that refuses what was asked, with the number of a status.
pub open spec fn refusal(code: u64) -> Heard {
    Heard {
        operation: AfcOpcode::Status.number(),
        header_payload: word(code as nat),
        payload: Seq::empty(),
    }
}

/// A refusal ends every exchange at once, with the status that the device gave for it.
pub proof fn law_refusal_ends_exchange(number: u64, pending: Await, status: AfcError)
    requires
        status != AfcError::Success,
    ensures
        turn(number, pending, refusal(status.code())) == Turn::Finished(
            backend::Said::Failed(error::Failure::Refused(status)),
        ),
{
    lemma_status_word(status.code());
    error::lemma_status_of(status);
}

proof fn lemma_status_word(code: u64)
    ensures
        word(code as nat).len() == 8,
        le::le_value(word(code as nat).take(8)) == code,
{
    le::lemma_le_bytes_len(code as nat, 8);
    le::lemma_le_limits();
    le::law_le_read_back(code as nat, 8);
    assert(word(code as nat).take(8) =~= word(code as nat));
}

proof fn lemma_done_reply()
    ensures
        status_failure(done_reply()) is None,
{
    lemma_status_word(0);
    error::lemma_status_of(AfcError::Success);
}

/// The bytes that a read gives, where the device answers every packet with as many bytes as it asks
/// for, as far as the file, from the position on that is read next, has them.
pub open spec fn served(number: u64, pending: Await, file: Seq<u8>) -> Seq<u8>
    decreases
            (match pending {
                Await::Read { remaining, .. } => remaining,
                _ => 0,
            }),
{
    match pending {
        Await::Read { amount, remaining, .. } if 0 < amount <= remaining => {
            let count = if file.len() < amount {
                file.len()
            } else {
                amount
            };
            match turn(number, pending, data_reply(file.take(count as int))) {
                Turn::Finished(backend::Said::Data(output)) => output,
                Turn::Send { pending: Await::Read { handle, amount, remaining: left, output }, .. }
                    if left < remaining => served(
                    next_number(number),
                    Await::Read { handle, amount, remaining: left, output },
                    file.skip(count as int),
                ),
                _ => Seq::empty(),
            }
        },
        _ => Seq::empty(),
    }
}

proof fn lemma_served(number: u64, handle: u64, remaining: nat, output: Seq<u8>, file: Seq<u8>)
    requires
        0 < remaining,
    ensures
        served(
            number,
            Await::Read { handle, amount: transfer(remaining), remaining, output },
            file,
        ) == output + file.take(
            (if file.len() < remaining {
                file.len()
            } else {
                remaining
            }) as int,
        ),
    decreases remaining,
{
    let amount = transfer(remaining);
    let count = if file.len() < amount {
        file.len()
    } else {
        amount
    };
    let part = file.take(count as int);
    if count == amount && remaining > amount {
        lemma_served(
            next_number(number),
            handle,
            (remaining - count) as nat,
            output + part,
            file.skip(count as int),
        );
        let rest = file.skip(count as int);
        let left = (remaining - count) as nat;
        let more = if rest.len() < left {
            rest.len()
        } else {
            left
        };
        assert((output + part) + rest.take(more as int) =~= output + file.take(
            (count + more) as int,
        ));
    }
}

/// A read gives exactly the bytes that were asked for, as far as the file has them, however many
/// packets it takes: where the position was set, the device is asked packet by packet until the
/// bytes are there, and a read of nothing asks for nothing.
pub proof fn law_read_serves_file(number: u64, handle: u64, size: nat, file: Seq<u8>)
    ensures
        match turn(number, Await::SeekRead { handle, size }, done_reply()) {
            Turn::Finished(outcome) => size == 0 && outcome == backend::Said::Data(Seq::empty()),
            Turn::Send { packet, pending } => {
                &&& size > 0
                &&& packet == read_packet(number, handle, transfer(size))
                &&& served(next_number(number), pending, file) == file.take(
                    (if file.len() < size {
                        file.len()
                    } else {
                        size
                    }) as int,
                )
            },
        },
{
    lemma_done_reply();
    if size > 0 {
        lemma_served(next_number(number), handle, size, Seq::empty(), file);
    }
}

/// Bytes in parts of which each fills a packet, but for the last.
pub open spec fn chunks(bytes: Seq<u8>) -> Seq<Seq<u8>>
    decreases bytes.len(),
{
    if bytes.len() == 0 {
        Seq::empty()
    } else {
        let count = transfer(bytes.len()) as int;
        seq![bytes.take(count)] + chunks(bytes.skip(count))
    }
}

/// Several byte strings, one after the other.
pub open spec fn concatenated(parts: Seq<Seq<u8>>) -> Seq<u8>
    decreases parts.len(),
{
    if parts.len() == 0 {
        Seq::empty()
    } else {
        parts[0] + concatenated(parts.skip(1))
    }
}

/// The parts of a byte string hold its bytes in order, and each fits a packet.
pub proof fn law_chunks_lose_nothing(bytes: Seq<u8>)
    ensures
        concatenated(chunks(bytes)) == bytes,
        forall|i: int|
            0 <= i < chunks(bytes).len() ==> 0 < (#[trigger] chunks(bytes)[i]).len()
                <= MAX_TRANSFER,
    decreases bytes.len(),
{
    if bytes.len() > 0 {
        let count = transfer(bytes.len()) as int;
        law_chunks_lose_nothing(bytes.skip(count));
        assert(chunks(bytes).skip(1) =~= chunks(bytes.skip(count)));
        assert(bytes.take(count) + bytes.skip(count) =~= bytes);
        assert forall|i: int| 0 <= i < chunks(bytes).len() implies 0 < (#[trigger] chunks(
            bytes,
        )[i]).len() <= MAX_TRANSFER by {
            if i > 0 {
                assert(chunks(bytes)[i] == chunks(bytes.skip(count))[i - 1]);
            }
        }
    } else {
        assert(concatenated(Seq::<Seq<u8>>::empty()) =~= Seq::<u8>::empty());
    }
}

/// The packets that write the parts of a byte string.
pub open spec fn write_packets(number: u64, handle: u64, parts: Seq<Seq<u8>>) -> Seq<Seq<u8>>
    decreases parts.len(),
{
    if parts.len() == 0 {
        Seq::empty()
    } else {
        seq![write_packet(number, handle, parts[0])] + write_packets(
            next_number(number),
            handle,
            parts.skip(1),
        )
    }
}

/// The packets that an exchange still sends, where the device does all that it is asked, and what
/// the exchange ends with.
pub open spec fn write_run(number: u64, pending: Await) -> (Seq<Seq<u8>>, backend::Said)
    decreases
            (match pending {
                Await::Write { bytes, sent, .. } => bytes.len() - sent,
                _ => 0,
            }),
{
    match (pending, turn(number, pending, done_reply())) {
        (Await::Write { sent, bytes, .. }, Turn::Send { packet, pending: next }) => match next {
            Await::Write { handle, bytes: all, sent: after } if sent < after <= bytes.len() && all
                == bytes => {
                let rest = write_run(
                    next_number(number),
                    Await::Write { handle, bytes: all, sent: after },
                );
                (seq![packet] + rest.0, rest.1)
            },
            _ => (Seq::empty(), backend::Said::Done),
        },
        (_, Turn::Finished(outcome)) => (Seq::empty(), outcome),
        _ => (Seq::empty(), backend::Said::Done),
    }
}

proof fn lemma_write_run(number: u64, handle: u64, bytes: Seq<u8>, sent: nat)
    requires
        sent <= bytes.len(),
    ensures
        write_run(number, Await::Write { handle, bytes, sent }) == (
            write_packets(number, handle, chunks(bytes.skip(sent as int))),
            backend::Said::Count(bytes.len() as u32),
        ),
    decreases bytes.len() - sent,
{
    lemma_done_reply();
    let rest = bytes.skip(sent as int);
    if sent < bytes.len() {
        let count = transfer(rest.len());
        lemma_write_run(next_number(number), handle, bytes, sent + count);
        assert(bytes.subrange(sent as int, (sent + count) as int) =~= rest.take(count as int));
        assert(rest.skip(count as int) =~= bytes.skip((sent + count) as int));
        assert(chunks(rest).skip(1) =~= chunks(rest.skip(count as int)));
        assert(chunks(rest)[0] == rest.take(count as int));
    } else {
        assert(chunks(rest) =~= Seq::<Seq<u8>>::empty());
        assert(write_packets(number, handle, Seq::<Seq<u8>>::empty()) =~= Seq::<Seq<u8>>::empty());
    }
}

/// A write sends all its bytes in order and once, in as many packets as they fill, and says how
/// many they were: where the position was set, one packet for each part of the bytes is sent, and
/// none where there is nothing to write.
pub proof fn law_write_sends_all(number: u64, handle: u64, bytes: Seq<u8>)
    ensures
        match turn(number, Await::SeekWrite { handle, bytes }, done_reply()) {
            Turn::Finished(outcome) => bytes.len() == 0 && outcome == backend::Said::Count(0),
            Turn::Send { packet, pending } => {
                let rest = write_run(next_number(number), pending);
                &&& seq![packet] + rest.0 == write_packets(number, handle, chunks(bytes))
                &&& rest.1 == backend::Said::Count(bytes.len() as u32)
            },
        },
{
    lemma_done_reply();
    assert(bytes.skip(0) =~= bytes);
    if bytes.len() > 0 {
        let count = transfer(bytes.len());
        lemma_write_run(next_number(number), handle, bytes, count);
        assert(bytes.subrange(0, count as int) =~= bytes.take(count as int));
        assert(chunks(bytes).skip(1) =~= chunks(bytes.skip(count as int)));
        assert(chunks(bytes)[0] == bytes.take(count as int));
    }
}

/// A packet says how long it is, and tells its header from its payload.
pub proof fn law_packet_measures_itself(
    number: u64,
    operation: AfcOpcode,
    header_payload: Seq<u8>,
    payload: Seq<u8>,
)
    requires
        HEADER_LEN + header_payload.len() + payload.len() <= u64::MAX,
    ensures
        ({
            let bytes = packet(number, operation, header_payload, payload);
            let header = HEADER_LEN + header_payload.len();
            &&& bytes.len() == header + payload.len()
            &&& le::le_value(bytes.subrange(0, 8)) == MAGIC
            &&& le::le_value(bytes.subrange(8, 16)) == bytes.len()
            &&& le::le_value(bytes.subrange(16, 24)) == header
            &&& le::le_value(bytes.subrange(24, 32)) == number
            &&& le::le_value(bytes.subrange(32, 40)) == operation.number()
            &&& bytes.subrange(HEADER_LEN as int, header as int) == header_payload
            &&& bytes.skip(header as int) == payload
        }),
{
    let bytes = packet(number, operation, header_payload, payload);
    let header = (HEADER_LEN + header_payload.len()) as nat;
    let entire = header + payload.len();
    lemma_status_word(MAGIC);
    lemma_status_word(entire as u64);
    lemma_status_word(header as u64);
    lemma_status_word(number);
    lemma_status_word(operation.number());
    assert(bytes.subrange(0, 8) =~= word(MAGIC as nat).take(8));
    assert(bytes.subrange(8, 16) =~= word(entire).take(8));
    assert(bytes.subrange(16, 24) =~= word(header).take(8));
    assert(bytes.subrange(24, 32) =~= word(number as nat).take(8));
    assert(bytes.subrange(32, 40) =~= word(operation.number() as nat).take(8));
    assert(bytes.subrange(HEADER_LEN as int, header as int) =~= header_payload);
    assert(bytes.skip(header as int) =~= payload);
}

proof fn lemma_without_end_separators(s: Seq<char>)
    ensures
        text::has_prefix(s, without_end_separators(s)),
        s.len() > 0 && s.last() != '/' ==> without_end_separators(s) == s,
    decreases s.len(),
{
    let kept = without_end_separators(s);
    if s.len() > 0 && s.last() == '/' {
        lemma_without_end_separators(s.drop_last());
        assert(s.take(kept.len() as int) =~= s.drop_last().take(kept.len() as int));
    } else {
        assert(s.take(kept.len() as int) =~= kept);
    }
}

/// Every path of the mount lies below the root that the mount shows, and the mount's own root is
/// that directory.
pub proof fn law_paths_stay_below_root(root: Seq<char>, path: Seq<char>)
    requires
        root.len() > 0,
    ensures
        remote_path(root, seq!['/']) == root,
        text::has_prefix(remote_path(root, path), without_end_separators(root)),
        root == seq!['/'] && path.len() > 0 && path[0] == '/' ==> remote_path(root, path) == path,
{
    lemma_without_end_separators(root);
    let kept = without_end_separators(root);
    let there = remote_path(root, path);
    if root == seq!['/'] {
        assert(root.drop_last() =~= Seq::<char>::empty());
        assert(without_end_separators(Seq::<char>::empty()) =~= Seq::<char>::empty());
        assert(there.take(0) =~= Seq::<char>::empty());
    } else if !(path == seq!['/'] || path.len() == 0) {
        assert(there.take(kept.len() as int) =~= kept);
    }
}

/// Two paths of the mount never meet on the device, where the mount shows the device's root or a
/// directory whose name ends in no separator.
pub proof fn law_paths_stay_apart(root: Seq<char>, a: Seq<char>, b: Seq<char>)
    requires
        root == seq!['/'] || (root.len() > 0 && root.last() != '/'),
        a.len() > 0 && a[0] == '/',
        b.len() > 0 && b[0] == '/',
        remote_path(root, a) == remote_path(root, b),
    ensures
        a == b,
{
    lemma_without_end_separators(root);
    if root != seq!['/'] {
        if a == seq!['/'] && b != seq!['/'] {
            assert((root + b).len() == root.len());
        } else if b == seq!['/'] && a != seq!['/'] {
            assert((root + a).len() == root.len());
        } else if a != seq!['/'] {
            assert(a =~= (root + a).skip(root.len() as int));
            assert(b =~= (root + b).skip(root.len() as int));
        }
    }
}

/// Whether an exchange that waits for something can only end with an answer to a request.
pub open spec fn leads_to(pending: Await, wish: backend::Wish) -> bool {
    match pending {
        Await::Names => wish is ListDir,
        Await::FileInfo => wish is FileInfo,
        Await::DeviceInfo => wish is DeviceInfo,
        Await::Done => !(wish is ListDir || wish is FileInfo || wish is DeviceInfo || wish is Open
            || wish is Read || wish is Write || wish is Shutdown),
        Await::Handle => wish is Open,
        Await::SeekRead { .. } => wish is Read,
        Await::Read { .. } => wish is Read,
        Await::SeekWrite { .. } => wish is Write,
        Await::Write { .. } => wish is Write,
    }
}

/// Every request is answered in kind: whatever the device replies, an exchange that was started for
/// a request goes on for that request or ends with an outcome of the kind that was asked for.
pub proof fn law_requests_are_answered_in_kind(
    wish: backend::Wish,
    root: Seq<char>,
    now: Option<u128>,
    number: u64,
    pending: Await,
    reply: Heard,
)
    ensures
        opening(wish, root, now) matches Some(first) ==> leads_to(first.2, wish),
        leads_to(pending, wish) ==> match turn(number, pending, reply) {
            Turn::Send { pending: next, .. } => leads_to(next, wish),
            Turn::Finished(outcome) => backend::fits(wish, outcome),
        },
{
}

/// A request for the time at which it is made means that time, whatever the clock reads when the
/// request is served.
pub proof fn law_time_is_that_of_the_request(
    wish: backend::Wish,
    root: Seq<char>,
    now: Option<u128>,
    later: Option<u128>,
)
    ensures
        opening(wish.at(now), root, later) == opening(wish, root, now),
{
}

/// The first packet for a request: its operation, what its header holds, and what is waited for.
/// A request for the end of the connection needs none.
pub open spec fn opening(wish: backend::Wish, root: Seq<char>, now: Option<u128>) -> Option<
    (AfcOpcode, Seq<u8>, Await),
> {
    match wish {
        backend::Wish::DeviceInfo => Some((AfcOpcode::GetDevInfo, Seq::empty(), Await::DeviceInfo)),
        backend::Wish::FileInfo(path) => Some(
            (AfcOpcode::GetFileInfo, afc::zero_ended(remote_path(root, path)), Await::FileInfo),
        ),
        backend::Wish::ListDir(path) => Some(
            (AfcOpcode::ReadDir, afc::zero_ended(remote_path(root, path)), Await::Names),
        ),
        backend::Wish::Mkdir(path) => Some(
            (AfcOpcode::MakeDir, afc::zero_ended(remote_path(root, path)), Await::Done),
        ),
        backend::Wish::Remove(path) => Some(
            (AfcOpcode::RemovePath, afc::zero_ended(remote_path(root, path)), Await::Done),
        ),
        backend::Wish::Rename(from, to) => Some(
            (
                AfcOpcode::RenamePath,
                afc::zero_ended(remote_path(root, from)) + afc::zero_ended(remote_path(root, to)),
                Await::Done,
            ),
        ),
        backend::Wish::Link(target, link, kind) => Some(
            (
                AfcOpcode::MakeLink,
                word(kind.number() as nat) + afc::zero_ended(remote_path(root, target))
                    + afc::zero_ended(remote_path(root, link)),
                Await::Done,
            ),
        ),
        backend::Wish::Open(path, mode) => Some(
            (
                AfcOpcode::FileOpen,
                word(mode.number() as nat) + afc::zero_ended(remote_path(root, path)),
                Await::Handle,
            ),
        ),
        backend::Wish::Read(handle, offset, size) => Some(
            (
                AfcOpcode::FileSeek,
                word(handle as nat) + word(0) + word(offset as nat),
                Await::SeekRead { handle, size: size as nat },
            ),
        ),
        backend::Wish::Write(handle, offset, bytes) => Some(
            (
                AfcOpcode::FileSeek,
                word(handle as nat) + word(0) + word(offset as nat),
                Await::SeekWrite { handle, bytes },
            ),
        ),
        backend::Wish::Close(handle) => Some(
            (AfcOpcode::FileClose, word(handle as nat), Await::Done),
        ),
        backend::Wish::Truncate(path, size) => Some(
            (
                AfcOpcode::Truncate,
                word(size as nat) + afc::zero_ended(remote_path(root, path)),
                Await::Done,
            ),
        ),
        backend::Wish::TruncateHandle(handle, size) => Some(
            (AfcOpcode::FileSetSize, word(handle as nat) + word(size as nat), Await::Done),
        ),
        backend::Wish::SetMtime(path, time) => Some(
            (
                AfcOpcode::SetFileTime,
                word(backend::clamped_nanos(time.read(now)) as nat) + afc::zero_ended(
                    remote_path(root, path),
                ),
                Await::Done,
            ),
        ),
        backend::Wish::Shutdown => None,
    }
}

} // verus!
