//! How the device's numbers for what went wrong reach Linux and Windows.

use vstd::prelude::*;

use crate::error;
use crate::error::{AfcError, DeviceError, Errno, Error, NtStatus};

verus! {

/// Whether an error is a refusal of the device, with a number of the file protocol.
pub open spec fn is_refusal(error: Error, number: int) -> bool {
    error matches Error::Device(DeviceError::Afc(status)) && status.code() == number
}

/// A number that the device answers with is kept where the file protocol gives it a meaning, and is
/// the unknown error, whose number is one, where it does not; the number of a status stands for it.
pub proof fn law_numbers_of_the_device_are_kept(code: u64, status: AfcError, number: u64)
    requires
        call_ensures(AfcError::from_code, (code,), status),
        call_ensures(AfcError::number, (status,), number),
    ensures
        code <= 23 || 30 <= code <= 36 ==> number == code,
        23 < code < 30 || code > 36 ==> number == 1,
        status is Success <==> code == 0,
        status is ReadError <==> code == 4,
        status is WriteError <==> code == 5,
        status is ObjectNotFound <==> code == 8,
        status is ObjectIsDir <==> code == 9,
        status is PermDenied <==> code == 10,
        status is EndOfData <==> code == 14,
        status is ObjectExists <==> code == 16,
        status is NoSpaceLeft <==> code == 18,
        status is DirNotEmpty <==> code == 33,
        status.code() == number,
{
}

/// Linux is told what the device says: each errno stands for one number of the file protocol. A
/// connection that is gone is no such device, a name that is no text is an illegal sequence, and
/// everything else is an error of input or output.
pub proof fn law_errnos_tell_what_the_device_says(error: Error, r: Errno)
    requires
        call_ensures(error::errno, (&error,), r),
    ensures
        r is EMFILE <==> is_refusal(error, 3),
        r is ENOTDIR <==> is_refusal(error, 4),
        r is EINVAL <==> is_refusal(error, 7),
        r is ENOENT <==> is_refusal(error, 8),
        r is EISDIR <==> is_refusal(error, 9),
        r is EPERM <==> is_refusal(error, 10),
        r is ENXIO <==> is_refusal(error, 11) || error is BackendStopped || error is DeviceNotFound,
        r is ETIMEDOUT <==> is_refusal(error, 12),
        r is EFBIG <==> is_refusal(error, 13),
        r is ENODATA <==> is_refusal(error, 14),
        r is ENOSYS <==> is_refusal(error, 15),
        r is EEXIST <==> is_refusal(error, 16),
        r is EBUSY <==> is_refusal(error, 17),
        r is ENOSPC <==> is_refusal(error, 18),
        r is EWOULDBLOCK <==> is_refusal(error, 19),
        r is EINTR <==> is_refusal(error, 21),
        r is EALREADY <==> is_refusal(error, 22),
        r is ENOTEMPTY <==> is_refusal(error, 33),
        r is EILSEQ <==> error is NonUtf8Path,
{
}

/// Windows is told what the device says, in fewer words: what is not found, exists already, is a
/// directory, is denied, has no space, is not empty, is not valid or not supported, is not
/// connected, or takes too long; everything else is an error of the device.
pub proof fn law_statuses_tell_what_the_device_says(error: Error, r: NtStatus)
    requires
        call_ensures(error::map_backend_error, (&error,), r),
    ensures
        r is NotFound <==> is_refusal(error, 8) || (
        error matches Error::Device(DeviceError::DeviceNotFound)),
        r is ObjectNameCollision <==> is_refusal(error, 16),
        r is FileIsADirectory <==> is_refusal(error, 9),
        r is AccessDenied <==> is_refusal(error, 10),
        r is DiskFull <==> is_refusal(error, 18),
        r is DirectoryNotEmpty <==> is_refusal(error, 33),
        r is InvalidParameter <==> is_refusal(error, 7),
        r is NotSupported <==> is_refusal(error, 15),
        r is DeviceNotConnected <==> is_refusal(error, 11) || (
        error matches Error::Device(DeviceError::NoEstablishedConnection)) || error
            is BackendStopped || error is DeviceNotFound,
        r is FileNotAvailable <==> is_refusal(error, 12) || (
        error matches Error::Device(DeviceError::Timeout)),
        !(r is NotADirectory),
{
}

} // verus!
