//! Everything that can go wrong, and how each failure is answered: as an errno on Linux and as an
//! NTSTATUS on Windows.

use std::path::PathBuf;
use vstd::prelude::*;

verus! {

/// A path of the host, carried through as it was given.
#[verifier::external_type_specification]
#[verifier::external_body]
pub struct ExPathBuf(PathBuf);

/// The status that the device answers an AFC request with.
#[derive(Clone, Copy, Debug, PartialEq, Eq, Structural)]
pub enum AfcError {
    Success,
    UnknownError,
    OpHeaderInvalid,
    NoResources,
    ReadError,
    WriteError,
    UnknownPacketType,
    InvalidArg,
    ObjectNotFound,
    ObjectIsDir,
    PermDenied,
    ServiceNotConnected,
    OpTimeout,
    TooMuchData,
    EndOfData,
    OpNotSupported,
    ObjectExists,
    ObjectBusy,
    NoSpaceLeft,
    OpWouldBlock,
    IoError,
    OpInterrupted,
    OpInProgress,
    InternalError,
    MuxError,
    NoMem,
    NotEnoughData,
    DirNotEmpty,
    UnknownOpcode,
    InvalidMagic,
    MissingAttribute,
}

/// The codes that AFC gives a meaning of its own.
pub open spec fn is_known_code(code: u64) -> bool {
    code <= 23 || 30 <= code <= 36
}

/// `idevice::afc::errors::AfcError::from` turns a status code into a status: a code with no
/// meaning of its own becomes the unknown error, whose number is 1, and every other keeps its
/// number. What comes back is the number of the status.
#[verifier::external_body]
fn status_number(code: u64) -> (r: u64)
    ensures
        r == (if is_known_code(code) {
            code
        } else {
            1
        }),
{
    idevice::afc::errors::AfcError::from(code) as u64
}

/// The status that a code from the device stands for; a code with no meaning of its own stands
/// for the unknown error.
pub open spec fn status_of(code: u64) -> AfcError {
    choose|status: AfcError|
        #[trigger] status.code() == (if is_known_code(code) {
            code
        } else {
            1
        })
}

impl AfcError {
    /// The number that stands for this status in a packet.
    pub open spec fn code(self) -> u64 {
        match self {
            AfcError::Success => 0,
            AfcError::UnknownError => 1,
            AfcError::OpHeaderInvalid => 2,
            AfcError::NoResources => 3,
            AfcError::ReadError => 4,
            AfcError::WriteError => 5,
            AfcError::UnknownPacketType => 6,
            AfcError::InvalidArg => 7,
            AfcError::ObjectNotFound => 8,
            AfcError::ObjectIsDir => 9,
            AfcError::PermDenied => 10,
            AfcError::ServiceNotConnected => 11,
            AfcError::OpTimeout => 12,
            AfcError::TooMuchData => 13,
            AfcError::EndOfData => 14,
            AfcError::OpNotSupported => 15,
            AfcError::ObjectExists => 16,
            AfcError::ObjectBusy => 17,
            AfcError::NoSpaceLeft => 18,
            AfcError::OpWouldBlock => 19,
            AfcError::IoError => 20,
            AfcError::OpInterrupted => 21,
            AfcError::OpInProgress => 22,
            AfcError::InternalError => 23,
            AfcError::MuxError => 30,
            AfcError::NoMem => 31,
            AfcError::NotEnoughData => 32,
            AfcError::DirNotEmpty => 33,
            AfcError::UnknownOpcode => 34,
            AfcError::InvalidMagic => 35,
            AfcError::MissingAttribute => 36,
        }
    }

    /// The status that a code from the device stands for; a code with no meaning of its own
    /// stands for the unknown error.
    pub fn from_code(code: u64) -> (r: AfcError)
        ensures
            r.code() == (if is_known_code(code) {
                code
            } else {
                1
            }),
            r == status_of(code),
    {
        let number: u64 = status_number(code);
        let status = Self::from_number(number);
        proof {
            law_status_numbers_distinct(status, status_of(code));
        }
        status
    }

    /// The number that stands for this status in a packet.
    pub fn number(self) -> (r: u64)
        ensures
            r == self.code(),
    {
        match self {
            AfcError::Success => 0,
            AfcError::UnknownError => 1,
            AfcError::OpHeaderInvalid => 2,
            AfcError::NoResources => 3,
            AfcError::ReadError => 4,
            AfcError::WriteError => 5,
            AfcError::UnknownPacketType => 6,
            AfcError::InvalidArg => 7,
            AfcError::ObjectNotFound => 8,
            AfcError::ObjectIsDir => 9,
            AfcError::PermDenied => 10,
            AfcError::ServiceNotConnected => 11,
            AfcError::OpTimeout => 12,
            AfcError::TooMuchData => 13,
            AfcError::EndOfData => 14,
            AfcError::OpNotSupported => 15,
            AfcError::ObjectExists => 16,
            AfcError::ObjectBusy => 17,
            AfcError::NoSpaceLeft => 18,
            AfcError::OpWouldBlock => 19,
            AfcError::IoError => 20,
            AfcError::OpInterrupted => 21,
            AfcError::OpInProgress => 22,
            AfcError::InternalError => 23,
            AfcError::MuxError => 30,
            AfcError::NoMem => 31,
            AfcError::NotEnoughData => 32,
            AfcError::DirNotEmpty => 33,
            AfcError::UnknownOpcode => 34,
            AfcError::InvalidMagic => 35,
            AfcError::MissingAttribute => 36,
        }
    }

    fn from_number(number: u64) -> (r: AfcError)
        requires
            is_known_code(number),
        ensures
            r.code() == number,
    {
        match number {
            0 => AfcError::Success,
            1 => AfcError::UnknownError,
            2 => AfcError::OpHeaderInvalid,
            3 => AfcError::NoResources,
            4 => AfcError::ReadError,
            5 => AfcError::WriteError,
            6 => AfcError::UnknownPacketType,
            7 => AfcError::InvalidArg,
            8 => AfcError::ObjectNotFound,
            9 => AfcError::ObjectIsDir,
            10 => AfcError::PermDenied,
            11 => AfcError::ServiceNotConnected,
            12 => AfcError::OpTimeout,
            13 => AfcError::TooMuchData,
            14 => AfcError::EndOfData,
            15 => AfcError::OpNotSupported,
            16 => AfcError::ObjectExists,
            17 => AfcError::ObjectBusy,
            18 => AfcError::NoSpaceLeft,
            19 => AfcError::OpWouldBlock,
            20 => AfcError::IoError,
            21 => AfcError::OpInterrupted,
            22 => AfcError::OpInProgress,
            23 => AfcError::InternalError,
            30 => AfcError::MuxError,
            31 => AfcError::NoMem,
            32 => AfcError::NotEnoughData,
            33 => AfcError::DirNotEmpty,
            34 => AfcError::UnknownOpcode,
            35 => AfcError::InvalidMagic,
            _ => AfcError::MissingAttribute,
        }
    }
}

/// Every status has a number of its own, so the number tells the status.
pub proof fn law_status_numbers_distinct(a: AfcError, b: AfcError)
    requires
        a.code() == b.code(),
    ensures
        a == b,
{
}

/// The number of a status stands for that status.
pub proof fn lemma_status_of(status: AfcError)
    ensures
        status_of(status.code()) == status,
{
    let found = status_of(status.code());
    assert(is_known_code(status.code()));
    law_status_numbers_distinct(found, status);
}

/// Every number of the device stands for a status: for the one that has it, or for the unknown error,
/// whose number is one, where none has.
pub proof fn law_every_number_stands_for_a_status(code: u64)
    ensures
        code <= 23 || 30 <= code <= 36 ==> status_of(code).code() == code,
        23 < code < 30 || code > 36 ==> status_of(code).code() == 1,
        status_of(code) == AfcError::Success <==> code == 0,
{
    let number = if is_known_code(code) {
        code
    } else {
        1
    };
    assert(AfcError::UnknownError.code() == 1);
    let found = status_with(number);
    assert(found.code() == number);
}

/// The status that has a number.
spec fn status_with(number: u64) -> AfcError {
    if number == 0 {
        AfcError::Success
    } else if number == 1 {
        AfcError::UnknownError
    } else if number == 2 {
        AfcError::OpHeaderInvalid
    } else if number == 3 {
        AfcError::NoResources
    } else if number == 4 {
        AfcError::ReadError
    } else if number == 5 {
        AfcError::WriteError
    } else if number == 6 {
        AfcError::UnknownPacketType
    } else if number == 7 {
        AfcError::InvalidArg
    } else if number == 8 {
        AfcError::ObjectNotFound
    } else if number == 9 {
        AfcError::ObjectIsDir
    } else if number == 10 {
        AfcError::PermDenied
    } else if number == 11 {
        AfcError::ServiceNotConnected
    } else if number == 12 {
        AfcError::OpTimeout
    } else if number == 13 {
        AfcError::TooMuchData
    } else if number == 14 {
        AfcError::EndOfData
    } else if number == 15 {
        AfcError::OpNotSupported
    } else if number == 16 {
        AfcError::ObjectExists
    } else if number == 17 {
        AfcError::ObjectBusy
    } else if number == 18 {
        AfcError::NoSpaceLeft
    } else if number == 19 {
        AfcError::OpWouldBlock
    } else if number == 20 {
        AfcError::IoError
    } else if number == 21 {
        AfcError::OpInterrupted
    } else if number == 22 {
        AfcError::OpInProgress
    } else if number == 23 {
        AfcError::InternalError
    } else if number == 30 {
        AfcError::MuxError
    } else if number == 31 {
        AfcError::NoMem
    } else if number == 32 {
        AfcError::NotEnoughData
    } else if number == 33 {
        AfcError::DirNotEmpty
    } else if number == 34 {
        AfcError::UnknownOpcode
    } else if number == 35 {
        AfcError::InvalidMagic
    } else {
        AfcError::MissingAttribute
    }
}

/// A failure of the communication with the device.
#[derive(Debug)]
pub enum DeviceError {
    /// The device refused a file request.
    Afc(AfcError),
    DeviceNotFound,
    NoEstablishedConnection,
    Timeout,
    /// Any other failure, in words.
    Other(String),
}

/// Everything that can go wrong with a mount.
#[derive(Debug)]
pub enum Error {
    MountpointRequired,
    MountpointMissing(PathBuf),
    MountpointNotDirectory(PathBuf),
    MountpointExists(PathBuf),
    EmptyUdid,
    EmptyBundleId,
    EmptyPairingFile,
    EmptyVolumeLabel,
    InvalidNetworkAddress(String),
    WindowsMountOptions,
    InvalidMountOption(String),
    DeviceNotFound,
    Device(DeviceError),
    /// A failed operation of FUSE, in words.
    Fuse(String),
    /// A worker that could not be started, in words.
    ThreadSpawn(String),
    BackendStopped,
    AlreadyUnmounted,
    InvalidAfcResponse(String),
    NonUtf8Path(PathBuf),
    /// A failed operation of WinFsp, in words.
    WinFsp(String),
}

pub type Result<T> = std::result::Result<T, Error>;

/// What an error tells of an exchange with the device.
pub ghost enum Failure {
    /// The device answered with something that cannot be understood.
    Invalid(Seq<char>),
    /// The device refused.
    Refused(AfcError),
    /// Something else went wrong.
    Other(Error),
}

/// What an error tells of an exchange with the device.
pub open spec fn failure_of(error: Error) -> Failure {
    match error {
        Error::InvalidAfcResponse(words) => Failure::Invalid(words@),
        Error::Device(DeviceError::Afc(status)) => Failure::Refused(status),
        _ => Failure::Other(error),
    }
}

/// Whether an error tells of an answer that cannot be understood, in the given words.
pub open spec fn complains(error: Error, words: Seq<char>) -> bool {
    failure_of(error) == Failure::Invalid(words)
}

/// The errno values that file operations are answered with on Linux.
#[derive(Clone, Copy, Debug, PartialEq, Eq, Structural)]
pub enum Errno {
    EMFILE,
    ENOTDIR,
    EINVAL,
    ENOENT,
    EISDIR,
    ENOTEMPTY,
    EPERM,
    ENXIO,
    ETIMEDOUT,
    EFBIG,
    ENODATA,
    ENOSYS,
    EEXIST,
    EBUSY,
    ENOSPC,
    EWOULDBLOCK,
    EINTR,
    EALREADY,
    EILSEQ,
    EIO,
}

/// The errno that a status of the device is answered with.
pub open spec fn status_errno(status: AfcError) -> Errno {
    match status {
        AfcError::NoResources => Errno::EMFILE,
        AfcError::ReadError => Errno::ENOTDIR,
        AfcError::InvalidArg => Errno::EINVAL,
        AfcError::ObjectNotFound => Errno::ENOENT,
        AfcError::ObjectIsDir => Errno::EISDIR,
        AfcError::DirNotEmpty => Errno::ENOTEMPTY,
        AfcError::PermDenied => Errno::EPERM,
        AfcError::ServiceNotConnected => Errno::ENXIO,
        AfcError::OpTimeout => Errno::ETIMEDOUT,
        AfcError::TooMuchData => Errno::EFBIG,
        AfcError::EndOfData => Errno::ENODATA,
        AfcError::OpNotSupported => Errno::ENOSYS,
        AfcError::ObjectExists => Errno::EEXIST,
        AfcError::ObjectBusy => Errno::EBUSY,
        AfcError::NoSpaceLeft => Errno::ENOSPC,
        AfcError::OpWouldBlock => Errno::EWOULDBLOCK,
        AfcError::OpInterrupted => Errno::EINTR,
        AfcError::OpInProgress => Errno::EALREADY,
        _ => Errno::EIO,
    }
}

/// The errno that an error is answered with.
pub open spec fn errno_of(error: Error) -> Errno {
    match error {
        Error::Device(DeviceError::Afc(status)) => status_errno(status),
        Error::NonUtf8Path(_) => Errno::EILSEQ,
        Error::BackendStopped => Errno::ENXIO,
        Error::DeviceNotFound => Errno::ENXIO,
        _ => Errno::EIO,
    }
}

/// The errno that a failure is answered with.
pub open spec fn failure_errno(failure: Failure) -> Errno {
    match failure {
        Failure::Invalid(_) => Errno::EIO,
        Failure::Refused(status) => status_errno(status),
        Failure::Other(error) => errno_of(error),
    }
}

/// The errno that an error is answered with.
pub fn errno(error: &Error) -> (r: Errno)
    ensures
        r == errno_of(*error),
        r == failure_errno(failure_of(*error)),
{
    match error {
        Error::Device(DeviceError::Afc(status)) => match *status {
            AfcError::NoResources => Errno::EMFILE,
            AfcError::ReadError => Errno::ENOTDIR,
            AfcError::InvalidArg => Errno::EINVAL,
            AfcError::ObjectNotFound => Errno::ENOENT,
            AfcError::ObjectIsDir => Errno::EISDIR,
            AfcError::DirNotEmpty => Errno::ENOTEMPTY,
            AfcError::PermDenied => Errno::EPERM,
            AfcError::ServiceNotConnected => Errno::ENXIO,
            AfcError::OpTimeout => Errno::ETIMEDOUT,
            AfcError::TooMuchData => Errno::EFBIG,
            AfcError::EndOfData => Errno::ENODATA,
            AfcError::OpNotSupported => Errno::ENOSYS,
            AfcError::ObjectExists => Errno::EEXIST,
            AfcError::ObjectBusy => Errno::EBUSY,
            AfcError::NoSpaceLeft => Errno::ENOSPC,
            AfcError::OpWouldBlock => Errno::EWOULDBLOCK,
            AfcError::OpInterrupted => Errno::EINTR,
            AfcError::OpInProgress => Errno::EALREADY,
            _ => Errno::EIO,
        },
        Error::NonUtf8Path(_) => Errno::EILSEQ,
        Error::BackendStopped => Errno::ENXIO,
        Error::DeviceNotFound => Errno::ENXIO,
        _ => Errno::EIO,
    }
}

/// The NTSTATUS values that file operations are answered with on Windows.
#[derive(Clone, Copy, Debug, PartialEq, Eq, Structural)]
pub enum NtStatus {
    AccessDenied,
    DeviceNotConnected,
    DirectoryNotEmpty,
    DiskFull,
    FileIsADirectory,
    FileNotAvailable,
    InvalidParameter,
    IoDeviceError,
    NotADirectory,
    NotFound,
    NotSupported,
    ObjectNameCollision,
}

/// The NTSTATUS that an error is answered with.
pub open spec fn nt_status_of(error: Error) -> NtStatus {
    match error {
        Error::Device(DeviceError::Afc(AfcError::ObjectNotFound)) => NtStatus::NotFound,
        Error::Device(DeviceError::DeviceNotFound) => NtStatus::NotFound,
        Error::Device(DeviceError::Afc(AfcError::ObjectExists)) => NtStatus::ObjectNameCollision,
        Error::Device(DeviceError::Afc(AfcError::ObjectIsDir)) => NtStatus::FileIsADirectory,
        Error::Device(DeviceError::Afc(AfcError::PermDenied)) => NtStatus::AccessDenied,
        Error::Device(DeviceError::Afc(AfcError::NoSpaceLeft)) => NtStatus::DiskFull,
        Error::Device(DeviceError::Afc(AfcError::DirNotEmpty)) => NtStatus::DirectoryNotEmpty,
        Error::Device(DeviceError::Afc(AfcError::InvalidArg)) => NtStatus::InvalidParameter,
        Error::Device(DeviceError::Afc(AfcError::OpNotSupported)) => NtStatus::NotSupported,
        Error::Device(DeviceError::Afc(AfcError::ServiceNotConnected)) => {
            NtStatus::DeviceNotConnected
        },
        Error::Device(DeviceError::NoEstablishedConnection) => NtStatus::DeviceNotConnected,
        Error::BackendStopped => NtStatus::DeviceNotConnected,
        Error::DeviceNotFound => NtStatus::DeviceNotConnected,
        Error::Device(DeviceError::Timeout) => NtStatus::FileNotAvailable,
        Error::Device(DeviceError::Afc(AfcError::OpTimeout)) => NtStatus::FileNotAvailable,
        _ => NtStatus::IoDeviceError,
    }
}

/// The NTSTATUS that an error is answered with.
pub fn map_backend_error(error: &Error) -> (r: NtStatus)
    ensures
        r == nt_status_of(*error),
{
    match error {
        Error::Device(DeviceError::Afc(status)) => match *status {
            AfcError::ObjectNotFound => NtStatus::NotFound,
            AfcError::ObjectExists => NtStatus::ObjectNameCollision,
            AfcError::ObjectIsDir => NtStatus::FileIsADirectory,
            AfcError::PermDenied => NtStatus::AccessDenied,
            AfcError::NoSpaceLeft => NtStatus::DiskFull,
            AfcError::DirNotEmpty => NtStatus::DirectoryNotEmpty,
            AfcError::InvalidArg => NtStatus::InvalidParameter,
            AfcError::OpNotSupported => NtStatus::NotSupported,
            AfcError::ServiceNotConnected => NtStatus::DeviceNotConnected,
            AfcError::OpTimeout => NtStatus::FileNotAvailable,
            _ => NtStatus::IoDeviceError,
        },
        Error::Device(DeviceError::DeviceNotFound) => NtStatus::NotFound,
        Error::Device(DeviceError::NoEstablishedConnection) => NtStatus::DeviceNotConnected,
        Error::Device(DeviceError::Timeout) => NtStatus::FileNotAvailable,
        Error::BackendStopped => NtStatus::DeviceNotConnected,
        Error::DeviceNotFound => NtStatus::DeviceNotConnected,
        _ => NtStatus::IoDeviceError,
    }
}

} // verus!
