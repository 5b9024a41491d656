//! What the device is sent for each command, byte by byte, and what its packets lead to.

use vstd::prelude::*;
use vstd::string::*;

use crate::afc;
use crate::backend;
use crate::backend::{Answer, Command, Mtime};
use crate::error;
use crate::error::{AfcError, DeviceError, Error};
use crate::le;
use crate::text;
use crate::transport;
use crate::transport::{
    AfcFopenMode, AfcTransport, Exchange, LinkType, Pending, Reply, Request,
};

verus! {

/// The number that eight bytes of a packet hold, the lowest byte first.
pub open spec fn number_at(bytes: Seq<u8>, at: int) -> nat {
    le::le_value(bytes.subrange(at, at + 8))
}

/// The bytes of a text: its UTF-8, and a zero byte.
pub open spec fn ended(s: Seq<char>) -> Seq<u8> {
    vstd::utf8::encode_utf8(s) + seq![0u8]
}

/// Whether bytes are a packet without payload: the eight letters that every packet starts with, the
/// length of the packet twice, its number, and the number of its operation.
pub open spec fn is_packet(bytes: Seq<u8>, number: u64, operation: nat) -> bool {
    &&& bytes.len() >= 40
    &&& bytes.take(8) == seq![0x43u8, 0x46u8, 0x41u8, 0x36u8, 0x4cu8, 0x50u8, 0x41u8, 0x41u8]
    &&& number_at(bytes, 8) == bytes.len()
    &&& number_at(bytes, 16) == bytes.len()
    &&& number_at(bytes, 24) == number
    &&& number_at(bytes, 32) == operation
}

proof fn lemma_letters()
    ensures
        transport::word(0x4141504c36414643nat) == seq![
            0x43u8,
            0x46u8,
            0x41u8,
            0x36u8,
            0x4cu8,
            0x50u8,
            0x41u8,
            0x41u8,
        ],
{
    reveal_with_fuel(le::le_bytes, 9);
    assert(le::le_bytes(0x4141504c36414643nat, 8) =~= seq![
        0x43u8,
        0x46u8,
        0x41u8,
        0x36u8,
        0x4cu8,
        0x50u8,
        0x41u8,
        0x41u8,
    ]);
}

proof fn lemma_word(value: u64)
    ensures
        transport::word(value as nat).len() == 8,
        le::le_value(transport::word(value as nat)) == value,
{
    le::lemma_le_bytes_len(value as nat, 8);
    le::lemma_le_limits();
    le::law_le_read_back(value as nat, 8);
}

proof fn lemma_packet(number: u64, operation: transport::AfcOpcode, header: Seq<u8>)
    requires
        40 + header.len() <= u64::MAX,
    ensures
        is_packet(
            transport::packet(number, operation, header, Seq::empty()),
            number,
            operation.number() as nat,
        ),
        transport::packet(number, operation, header, Seq::empty()).skip(40) == header,
        transport::packet(number, operation, header, Seq::empty()).len() == 40 + header.len(),
{
    let bytes = transport::packet(number, operation, header, Seq::empty());
    transport::law_packet_measures_itself(number, operation, header, Seq::empty());
    lemma_letters();
    lemma_word(transport::MAGIC);
    lemma_word((40 + header.len()) as u64);
    lemma_word(number);
    lemma_word(operation.number());
    assert(bytes.take(8) =~= transport::word(0x4141504c36414643nat));
    assert(bytes.skip(40) =~= bytes.subrange(40, 40 + header.len() as int));
}

proof fn lemma_behind_word(bytes: Seq<u8>, value: u64, rest: Seq<u8>)
    requires
        bytes.len() >= 40,
        bytes.skip(40) == transport::word(value as nat) + rest,
    ensures
        bytes.len() == 48 + rest.len(),
        number_at(bytes, 40) == value,
        bytes.skip(48) == rest,
{
    lemma_word(value);
    let tail = bytes.skip(40);
    assert(tail.len() == bytes.len() - 40);
    assert(bytes.subrange(40, 48) =~= transport::word(value as nat)) by {
        assert forall|i: int| 0 <= i < 8 implies bytes.subrange(40, 48)[i] == transport::word(
            value as nat,
        )[i] by {
            assert(bytes.subrange(40, 48)[i] == tail[i]);
        }
    }
    assert(bytes.skip(48) =~= rest) by {
        assert forall|i: int| 0 <= i < rest.len() implies bytes.skip(48)[i] == rest[i] by {
            assert(bytes.skip(48)[i] == tail[8 + i]);
        }
    }
}

/// The number that stands for a way to open a file.
pub open spec fn mode_number(mode: AfcFopenMode) -> nat {
    match mode {
        AfcFopenMode::RdOnly => 1,
        AfcFopenMode::Rw => 2,
        AfcFopenMode::WrOnly => 3,
        AfcFopenMode::Wr => 4,
        AfcFopenMode::Append => 5,
        AfcFopenMode::RdAppend => 6,
    }
}

/// The nanoseconds since 1970 that a time is sent as: all of them, as far as sixty-four bits hold
/// them, and none for a time before 1970.
pub open spec fn is_time(sent: nat, time: Option<u128>) -> bool {
    match time {
        Some(nanos) => if nanos <= 0xffff_ffff_ffff_ffff {
            sent == nanos
        } else {
            sent == 0xffff_ffff_ffff_ffff
        },
        None => sent == 0,
    }
}

/// What the device is sent for a command that names paths: one packet with the number of the
/// operation, and behind its header what the operation needs. Numbers are sent in full, and paths
/// as they are on the device.
pub proof fn law_commands_on_paths_are_sent_whole(
    end: &mut AfcTransport,
    command: Command,
    now: Option<u128>,
    r: Option<Request>,
)
    requires
        call_ensures(AfcTransport::start, (end, command, now), r),
        r matches Some(request) ==> request.packet@.len() <= u64::MAX,
    ensures
        ({
            let number = old(end).packet_number;
            let root = old(end).root@;
            match command {
                Command::DeviceInfo => r matches Some(request) && is_packet(
                    request.packet@,
                    number,
                    0xb,
                ) && request.packet@.len() == 40,
                Command::FileInfo(path) => r matches Some(request) && is_packet(
                    request.packet@,
                    number,
                    0xa,
                ) && request.packet@.skip(40) == ended(transport::remote_path(root, path@)),
                Command::ListDir(path) => r matches Some(request) && is_packet(
                    request.packet@,
                    number,
                    0x3,
                ) && request.packet@.skip(40) == ended(transport::remote_path(root, path@)),
                Command::Mkdir(path) => r matches Some(request) && is_packet(
                    request.packet@,
                    number,
                    0x9,
                ) && request.packet@.skip(40) == ended(transport::remote_path(root, path@)),
                Command::Remove(path) => r matches Some(request) && is_packet(
                    request.packet@,
                    number,
                    0x8,
                ) && request.packet@.skip(40) == ended(transport::remote_path(root, path@)),
                Command::Rename(from, to) => r matches Some(request) && is_packet(
                    request.packet@,
                    number,
                    0x18,
                ) && request.packet@.skip(40) == ended(transport::remote_path(root, from@)) + ended(
                    transport::remote_path(root, to@),
                ),
                Command::Link(target, link, kind) => r matches Some(request) && is_packet(
                    request.packet@,
                    number,
                    0x1c,
                ) && number_at(request.packet@, 40) == (match kind {
                    LinkType::Hardlink => 1nat,
                    LinkType::Symlink => 2nat,
                }) && request.packet@.skip(48) == ended(transport::remote_path(root, target@))
                    + ended(transport::remote_path(root, link@)),
                Command::Open(path, mode) => r matches Some(request) && is_packet(
                    request.packet@,
                    number,
                    0xd,
                ) && number_at(request.packet@, 40) == mode_number(mode) && request.packet@.skip(48)
                    == ended(transport::remote_path(root, path@)),
                Command::Truncate(path, size) => r matches Some(request) && is_packet(
                    request.packet@,
                    number,
                    0x7,
                ) && number_at(request.packet@, 40) == size && request.packet@.skip(48) == ended(
                    transport::remote_path(root, path@),
                ),
                Command::SetMtime(path, time) => r matches Some(request) && is_packet(
                    request.packet@,
                    number,
                    0x1e,
                ) && is_time(
                    number_at(request.packet@, 40),
                    match time {
                        Mtime::At(time) => time,
                        Mtime::Now => now,
                    },
                ) && request.packet@.skip(48) == ended(transport::remote_path(root, path@)),
                Command::Shutdown => r is None,
                _ => r is Some,
            }
        }),
{
    if let Some((operation, header, _)) = transport::opening(command@, old(end).root@, now) {
        let number = old(end).packet_number;
        let root = old(end).root@;
        let bytes = transport::packet(number, operation, header, Seq::empty());
        lemma_word(number);
        lemma_word(operation.number());
        lemma_word(transport::MAGIC);
        le::lemma_le_bytes_len(40 + header.len(), 8);
        assert(bytes.len() == 40 + header.len());
        lemma_packet(number, operation, header);
        match command {
            Command::FileInfo(path) => {
                assert(header =~= ended(transport::remote_path(root, path@)));
            },
            Command::ListDir(path) => {
                assert(header =~= ended(transport::remote_path(root, path@)));
            },
            Command::Mkdir(path) => {
                assert(header =~= ended(transport::remote_path(root, path@)));
            },
            Command::Remove(path) => {
                assert(header =~= ended(transport::remote_path(root, path@)));
            },
            Command::Rename(from, to) => {
                assert(header =~= ended(transport::remote_path(root, from@)) + ended(
                    transport::remote_path(root, to@),
                ));
            },
            Command::Link(target, link, kind) => {
                let rest = ended(transport::remote_path(root, target@)) + ended(
                    transport::remote_path(root, link@),
                );
                assert(header =~= transport::word(kind.number() as nat) + rest);
                lemma_behind_word(bytes, kind.number(), rest);
            },
            Command::Open(path, mode) => {
                let rest = ended(transport::remote_path(root, path@));
                assert(header =~= transport::word(mode.number() as nat) + rest);
                lemma_behind_word(bytes, mode.number(), rest);
            },
            Command::Truncate(path, size) => {
                let rest = ended(transport::remote_path(root, path@));
                assert(header =~= transport::word(size as nat) + rest);
                lemma_behind_word(bytes, size, rest);
            },
            Command::SetMtime(path, time) => {
                let rest = ended(transport::remote_path(root, path@));
                let sent = backend::clamped_nanos(time.read(now));
                assert(header =~= transport::word(sent as nat) + rest);
                lemma_behind_word(bytes, sent, rest);
            },
            _ => {},
        }
    }
}

/// What the device is sent for a command on an open file: the number of the file and what else the
/// operation needs, in full. A read and a write begin with setting the position.
pub proof fn law_commands_on_open_files_are_sent_whole(
    end: &mut AfcTransport,
    command: Command,
    now: Option<u128>,
    r: Option<Request>,
)
    requires
        call_ensures(AfcTransport::start, (end, command, now), r),
    ensures
        ({
            let number = old(end).packet_number;
            match command {
                Command::Close(handle) => r matches Some(request) && is_packet(
                    request.packet@,
                    number,
                    0x14,
                ) && request.packet@.len() == 48 && number_at(request.packet@, 40) == handle,
                Command::TruncateHandle(handle, size) => r matches Some(request) && is_packet(
                    request.packet@,
                    number,
                    0x15,
                ) && request.packet@.len() == 56 && number_at(request.packet@, 40) == handle
                    && number_at(request.packet@, 48) == size,
                Command::Read(handle, offset, _) => r matches Some(request) && is_packet(
                    request.packet@,
                    number,
                    0x11,
                ) && request.packet@.len() == 64 && number_at(request.packet@, 40) == handle
                    && number_at(request.packet@, 48) == 0 && number_at(request.packet@, 56)
                    == offset,
                Command::Write(handle, offset, _) => r matches Some(request) && is_packet(
                    request.packet@,
                    number,
                    0x11,
                ) && request.packet@.len() == 64 && number_at(request.packet@, 40) == handle
                    && number_at(request.packet@, 48) == 0 && number_at(request.packet@, 56)
                    == offset,
                _ => true,
            }
        }),
{
    if let Some((operation, header, _)) = transport::opening(command@, old(end).root@, now) {
        let number = old(end).packet_number;
        let bytes = transport::packet(number, operation, header, Seq::empty());
        match command {
            Command::Close(handle) => {
                lemma_word(handle);
                lemma_packet(number, operation, header);
                assert(header =~= transport::word(handle as nat) + Seq::<u8>::empty());
                lemma_behind_word(bytes, handle, Seq::empty());
            },
            Command::TruncateHandle(handle, size) => {
                lemma_word(handle);
                lemma_word(size);
                lemma_packet(number, operation, header);
                lemma_behind_word(bytes, handle, transport::word(size as nat));
                assert(bytes.subrange(48, 56) =~= bytes.skip(48));
            },
            Command::Read(handle, offset, _) => {
                lemma_seek(bytes, number, handle, offset);
            },
            Command::Write(handle, offset, _) => {
                lemma_seek(bytes, number, handle, offset);
            },
            _ => {},
        }
    }
}

proof fn lemma_seek(bytes: Seq<u8>, number: u64, handle: u64, offset: u64)
    requires
        bytes == transport::seek_packet(number, handle, offset),
    ensures
        is_packet(bytes, number, transport::AfcOpcode::FileSeek.number() as nat),
        bytes.len() == 64,
        number_at(bytes, 40) == handle,
        number_at(bytes, 48) == 0,
        number_at(bytes, 56) == offset,
{
    let header = transport::word(handle as nat) + transport::word(0) + transport::word(
        offset as nat,
    );
    lemma_word(handle);
    lemma_word(0);
    lemma_word(offset);
    lemma_packet(number, transport::AfcOpcode::FileSeek, header);
    let rest = transport::word(0) + transport::word(offset as nat);
    assert(header =~= transport::word(handle as nat) + rest);
    lemma_behind_word(bytes, handle, rest);
    assert(bytes.subrange(48, 56) =~= bytes.skip(48).subrange(0, 8));
    assert(bytes.skip(48).subrange(0, 8) =~= transport::word(0));
    assert(bytes.subrange(56, 64) =~= bytes.skip(48).subrange(8, 16));
    assert(bytes.skip(48).subrange(8, 16) =~= transport::word(offset as nat));
}

/// A time that the device reported for a file is the time that the file is given where it is set
/// to it: what a file is said to have been modified at, in nanoseconds since 1970, is what the
/// packet that sets the time holds behind its header.
pub proof fn law_reported_times_are_set_again(
    end: &mut AfcTransport,
    path: String,
    nanos: u64,
    now: Option<u128>,
    r: Option<Request>,
)
    requires
        call_ensures(
            AfcTransport::start,
            (end, Command::SetMtime(path, Mtime::At(Some(nanos as u128))), now),
            r,
        ),
        r matches Some(request) ==> request.packet@.len() <= u64::MAX,
    ensures
        r matches Some(request) && number_at(request.packet@, 40) == nanos,
{
    let number = old(end).packet_number;
    let rest = afc::zero_ended(transport::remote_path(old(end).root@, path@));
    let header = transport::word(nanos as nat) + rest;
    let bytes = transport::packet(
        number,
        transport::AfcOpcode::SetFileTime,
        header,
        Seq::empty(),
    );
    lemma_word(number);
    lemma_word(transport::AfcOpcode::SetFileTime.number());
    lemma_word(transport::MAGIC);
    le::lemma_le_bytes_len(40 + header.len(), 8);
    assert(bytes.len() == 40 + header.len());
    lemma_packet(number, transport::AfcOpcode::SetFileTime, header);
    lemma_behind_word(bytes, nanos, rest);
}

/// Whether a packet of the device tells of no failure: it brings something, or a status that says
/// that what was asked was done.
pub open spec fn goes_well(reply: Reply) -> bool {
    reply.operation != 1 || (reply.header_payload@.len() >= 8 && number_at(reply.header_payload@, 0)
        == 0)
}

/// Whether a packet of the device refuses what was asked, with the number of a status.
pub open spec fn refuses_with(reply: Reply, code: nat) -> bool {
    reply.operation == 1 && reply.header_payload@.len() >= 8 && number_at(reply.header_payload@, 0)
        == code && code != 0
}

proof fn lemma_status(reply: Reply)
    ensures
        goes_well(reply) ==> transport::status_failure(reply@) is None,
        forall|status: AfcError| #[trigger]
            refuses_with(reply, status.code() as nat) ==> transport::status_failure(reply@) == Some(
                error::Failure::Refused(status),
            ),
{
    let header = reply.header_payload@;
    if header.len() >= 8 {
        assert(header.subrange(0, 8) =~= header.take(8));
        le::lemma_le_limits();
    }
    error::lemma_status_of(AfcError::Success);
    assert forall|status: AfcError| #[trigger]
        refuses_with(reply, status.code() as nat) implies transport::status_failure(reply@) == Some(
        error::Failure::Refused(status),
    ) by {
        error::lemma_status_of(status);
    }
}

/// A refusal ends every exchange with the error for its status, whatever was asked: the status of
/// the number that the device gave, or the unknown error, whose number is one, where that number has
/// no meaning.
pub proof fn law_refusals_are_told(
    end: &mut AfcTransport,
    pending: Pending,
    reply: Reply,
    code: nat,
    r: Exchange,
)
    requires
        call_ensures(AfcTransport::resume, (end, pending, reply), r),
        refuses_with(reply, code),
    ensures
        r matches Exchange::Finished(Err(Error::Device(DeviceError::Afc(told)))) && told.code() == (
        if code <= 23 || 30 <= code <= 36 {
            code
        } else {
            1
        }),
        final(end).packet_number == old(end).packet_number,
{
    let header = reply.header_payload@;
    assert(header.subrange(0, 8) =~= header.take(8));
    le::lemma_le_limits();
    le::lemma_le_value_bound(header.take(8));
    error::law_every_number_stands_for_a_status(code as u64);
}

/// What was asked for and done is told to be done; a file that was opened is told by the number
/// that the device gave it.
pub proof fn law_short_exchanges_end_at_once(
    end: &mut AfcTransport,
    pending: Pending,
    reply: Reply,
    r: Exchange,
)
    requires
        call_ensures(AfcTransport::resume, (end, pending, reply), r),
    ensures
        goes_well(reply) && pending is Done ==> (r matches Exchange::Finished(Ok(Answer::Done))),
        goes_well(reply) && pending is Handle && reply.header_payload@.len() >= 8 ==> (
        r matches Exchange::Finished(Ok(Answer::Handle(handle))) && handle == number_at(
            reply.header_payload@,
            0,
        )),
        goes_well(reply) && pending is Handle && reply.header_payload@.len() < 8 ==> (
        r matches Exchange::Finished(Err(Error::InvalidAfcResponse(words))) && words@
            == "file-open response has no descriptor"@),
        reply.operation == 1 && reply.header_payload@.len() < 8 ==> (r matches Exchange::Finished(
            Err(Error::InvalidAfcResponse(words)),
        ) && words@ == "status packet has no error code"@),
{
    lemma_status(reply);
    let header = reply.header_payload@;
    if header.len() >= 8 {
        assert(header.subrange(0, 8) =~= header.take(8));
        le::lemma_le_limits();
        le::lemma_le_value_bound(header.take(8));
    }
}

/// What the device says of a directory, of an object or of itself is the answer.
pub proof fn law_descriptions_are_answers(
    end: &mut AfcTransport,
    pending: Pending,
    reply: Reply,
    r: Exchange,
)
    requires
        call_ensures(AfcTransport::resume, (end, pending, reply), r),
        goes_well(reply),
    ensures
        pending is Names ==> (r matches Exchange::Finished(Ok(Answer::Names(names))) && afc::texts(
            names@,
        ) == afc::listed(reply.payload@)),
        pending is FileInfo ==> match afc::file_answer(reply.payload@) {
            Ok(facts) => r matches Exchange::Finished(Ok(Answer::FileInfo(info))) && info@ == facts,
            Err(words) => r matches Exchange::Finished(Err(Error::InvalidAfcResponse(said)))
                && said@ == words,
        },
        pending is DeviceInfo ==> match afc::device_answer(reply.payload@) {
            Ok(facts) => r matches Exchange::Finished(Ok(Answer::DeviceInfo(info))) && info@
                == facts,
            Err(words) => r matches Exchange::Finished(Err(Error::InvalidAfcResponse(said)))
                && said@ == words,
        },
{
    lemma_status(reply);
}

/// The most bytes that one packet asks for or brings: a mebibyte, or what is left.
pub open spec fn at_once(left: int) -> int {
    if left < 1_048_576 {
        left
    } else {
        1_048_576
    }
}

/// Whether a packet asks for bytes of an open file from its position on.
pub open spec fn asks_for(bytes: Seq<u8>, number: u64, handle: u64, amount: int) -> bool {
    &&& is_packet(bytes, number, 0xf)
    &&& bytes.len() == 56
    &&& number_at(bytes, 40) == handle
    &&& number_at(bytes, 48) == amount
}

proof fn lemma_read_packet(number: u64, handle: u64, amount: nat)
    requires
        amount <= u64::MAX,
    ensures
        asks_for(transport::read_packet(number, handle, amount), number, handle, amount as int),
{
    let bytes = transport::read_packet(number, handle, amount);
    let header = transport::word(handle as nat) + transport::word(amount);
    lemma_word(handle);
    lemma_word(amount as u64);
    lemma_packet(number, transport::AfcOpcode::Read, header);
    lemma_behind_word(bytes, handle, transport::word(amount));
    assert(bytes.subrange(48, 56) =~= bytes.skip(48));
}

/// A read asks for as many bytes as are left to be read, a mebibyte at most at once, and puts what
/// comes behind what it has. It ends where all are there, or where fewer come than were asked for.
pub proof fn law_reads_go_on_until_all_is_there(
    end: &mut AfcTransport,
    pending: Pending,
    reply: Reply,
    r: Exchange,
)
    requires
        call_ensures(AfcTransport::resume, (end, pending, reply), r),
        transport::in_bounds(pending@, reply@),
    ensures
        ({
            let number = old(end).packet_number;
            match pending {
                Pending::SeekRead { handle, size } => goes_well(reply) ==> if size == 0 {
                    r matches Exchange::Finished(Ok(Answer::Data(bytes))) && bytes@.len() == 0
                } else {
                    r matches Exchange::Send(request) && asks_for(
                        request.packet@,
                        number,
                        handle,
                        at_once(size as int),
                    ) && (request.pending matches Pending::Read {
                        handle: h,
                        amount,
                        remaining,
                        output,
                    } && h == handle && amount == at_once(size as int) && remaining == size
                        && output@.len() == 0)
                },
                Pending::Read { handle, amount, remaining, output } => goes_well(reply)
                    ==> {
                    let all = output@ + reply.payload@;
                    let left = remaining - reply.payload@.len();
                    if reply.payload@.len() == 0 || reply.payload@.len() < amount || left == 0 {
                        r matches Exchange::Finished(Ok(Answer::Data(bytes))) && bytes@ == all
                    } else {
                        r matches Exchange::Send(request) && asks_for(
                            request.packet@,
                            number,
                            handle,
                            at_once(left),
                        ) && (request.pending matches Pending::Read {
                            handle: h,
                            amount: next,
                            remaining: rest,
                            output: kept,
                        } && h == handle && next == at_once(left) && rest == left && kept@ == all)
                    }
                },
                _ => true,
            }
        }),
{
    lemma_status(reply);
    let number = old(end).packet_number;
    match pending {
        Pending::SeekRead { handle, size } => {
            lemma_read_packet(number, handle, transport::transfer(size as nat));
        },
        Pending::Read { handle, amount, remaining, output } => {
            let left = remaining - reply.payload@.len();
            if left > 0 {
                lemma_read_packet(number, handle, transport::transfer(left as nat));
            }
        },
        _ => {},
    }
}

/// Whether a packet brings bytes for an open file at its position.
pub open spec fn brings(bytes: Seq<u8>, number: u64, handle: u64, part: Seq<u8>) -> bool {
    &&& bytes.len() == 48 + part.len()
    &&& bytes.take(8) == seq![0x43u8, 0x46u8, 0x41u8, 0x36u8, 0x4cu8, 0x50u8, 0x41u8, 0x41u8]
    &&& number_at(bytes, 8) == bytes.len()
    &&& number_at(bytes, 16) == 48
    &&& number_at(bytes, 24) == number
    &&& number_at(bytes, 32) == 0x10
    &&& number_at(bytes, 40) == handle
    &&& bytes.skip(48) == part
}

proof fn lemma_write_packet(number: u64, handle: u64, part: Seq<u8>)
    requires
        part.len() <= 1_048_576,
    ensures
        brings(transport::write_packet(number, handle, part), number, handle, part),
{
    let bytes = transport::write_packet(number, handle, part);
    let header = transport::word(handle as nat);
    lemma_word(handle);
    lemma_word(number);
    lemma_word(transport::MAGIC);
    lemma_word(48);
    lemma_word((48 + part.len()) as u64);
    lemma_letters();
    transport::law_packet_measures_itself(number, transport::AfcOpcode::Write, header, part);
    assert(bytes.take(8) =~= transport::word(0x4141504c36414643nat));
    assert(bytes.subrange(40, 48) =~= header);
}

/// A write brings the device all bytes in their order, a mebibyte at most at once, each part behind
/// the one before, and says how many they were.
pub proof fn law_writes_go_on_until_all_is_sent(
    end: &mut AfcTransport,
    pending: Pending,
    reply: Reply,
    r: Exchange,
)
    requires
        call_ensures(AfcTransport::resume, (end, pending, reply), r),
        goes_well(reply),
    ensures
        ({
            let number = old(end).packet_number;
            match pending {
                Pending::SeekWrite { handle, bytes } => writes_on(r, number, handle, bytes@, 0),
                Pending::Write { handle, bytes, sent } => writes_on(
                    r,
                    number,
                    handle,
                    bytes@,
                    sent as int,
                ),
                _ => true,
            }
        }),
{
    lemma_status(reply);
    let number = old(end).packet_number;
    match pending {
        Pending::SeekWrite { handle, bytes } => {
            if bytes@.len() > 0 {
                let next = transport::transfer(bytes@.len()) as int;
                lemma_write_packet(number, handle, bytes@.subrange(0, next));
            }
        },
        Pending::Write { handle, bytes, sent } => {
            if sent < bytes@.len() {
                let next = sent + transport::transfer((bytes@.len() - sent) as nat);
                lemma_write_packet(number, handle, bytes@.subrange(sent as int, next));
            }
        },
        _ => {},
    }
}

/// Whether a write goes on behind the bytes that were sent, or ends where all were.
pub open spec fn writes_on(
    r: Exchange,
    number: u64,
    handle: u64,
    bytes: Seq<u8>,
    sent: int,
) -> bool {
    if sent >= bytes.len() {
        r matches Exchange::Finished(Ok(Answer::Count(count))) && (bytes.len() <= 0xffff_ffff
            ==> count == bytes.len())
    } else {
        let next = sent + at_once(bytes.len() - sent);
        r matches Exchange::Send(request) && brings(
            request.packet@,
            number,
            handle,
            bytes.subrange(sent, next),
        ) && (request.pending matches Pending::Write { handle: h, bytes: kept, sent: after } && h
            == handle && kept@ == bytes && after == next)
    }
}

/// What is waited for behind the first packet of a command is what the command asks for: for a read
/// as many bytes as it names, and for a write the bytes that it brings.
pub proof fn law_first_packets_lead_to_the_whole(
    end: &mut AfcTransport,
    command: Command,
    now: Option<u128>,
    r: Option<Request>,
)
    requires
        call_ensures(AfcTransport::start, (end, command, now), r),
    ensures
        match command {
            Command::Read(handle, _, size) => r matches Some(request) && (
            request.pending matches Pending::SeekRead { handle: h, size: s } && h == handle && s
                == size),
            Command::Write(handle, _, bytes) => r matches Some(request) && (
            request.pending matches Pending::SeekWrite { handle: h, bytes: kept } && h == handle
                && kept@ == bytes@),
            Command::ListDir(_) => r matches Some(request) && request.pending is Names,
            Command::FileInfo(_) => r matches Some(request) && request.pending is FileInfo,
            Command::DeviceInfo => r matches Some(request) && request.pending is DeviceInfo,
            Command::Open(_, _) => r matches Some(request) && request.pending is Handle,
            Command::Shutdown => r is None,
            _ => r matches Some(request) && request.pending is Done,
        },
        final(end).root@ == old(end).root@,
        final(end).packet_number == (if command is Shutdown {
            old(end).packet_number as int
        } else if old(end).packet_number == 0xffff_ffff_ffff_ffff {
            0
        } else {
            old(end).packet_number + 1
        }),
{
}

/// Where a path of the mount lies on the device: where the device's root is shown, at the path
/// itself, with a separator in front where it has none; else behind the directory that is shown,
/// whose separators at the end do not count, and which is the mount's own root.
pub proof fn law_paths_on_the_device(root: Seq<char>, path: Seq<char>)
    ensures
        path.len() > 0 && path[0] == '/' ==> transport::remote_path(seq!['/'], path) == path,
        path.len() == 0 || path[0] != '/' ==> transport::remote_path(seq!['/'], path) == seq!['/']
            + path,
        root.len() > 0 && root.last() != '/' ==> {
            &&& transport::remote_path(root, seq!['/']) == root
            &&& transport::remote_path(root, Seq::empty()) == root
            &&& path.len() > 0 && path != seq!['/'] ==> transport::remote_path(root, path) == root
                + path && transport::remote_path(root.push('/'), path) == root + path
        },
{
    if root.len() > 0 && root.last() != '/' {
        assert(seq!['/'].last() == '/');
        assert(root != seq!['/']);
        assert(root.push('/').len() == root.len() + 1);
        assert(seq!['/'].len() == 1);
        assert(root.push('/') != seq!['/']);
        assert(root.push('/').drop_last() =~= root);
        assert(transport::without_end_separators(root) == root);
        assert(transport::without_end_separators(root.push('/')) == root);
    }
}

/// Every command can be sent, and every packet of the device is heard that brings no more bytes than
/// were asked for.
pub proof fn law_commands_and_replies_are_taken(
    sending: &mut AfcTransport,
    command: Command,
    now: Option<u128>,
    hearing: &mut AfcTransport,
    pending: Pending,
    reply: Reply,
    bytes: &[u8],
)
    ensures
        call_requires(AfcTransport::start, (sending, command, now)),
        match pending {
            Pending::Read { remaining, .. } => reply.payload@.len() <= remaining,
            _ => true,
        } ==> call_requires(AfcTransport::resume, (hearing, pending, reply)),
        call_requires(afc::strings, (bytes,)),
        call_requires(afc::read_file_info, (bytes,)),
        call_requires(afc::read_device_info, (bytes,)),
{
}

} // verus!
