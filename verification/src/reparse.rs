//! Symbolic links as Windows keeps them: in reparse points that hold the target twice, once to be
//! followed and once to be shown.

use vstd::prelude::*;

use crate::error::NtStatus;
use crate::le;
use crate::text;
use crate::utf16;

verus! {

/// The tag of a reparse point that is a symbolic link.
pub const IO_REPARSE_TAG_SYMLINK: u32 = 0xa000000c;

/// The bytes of UTF-16 units, the lower byte of each first.
pub open spec fn unit_bytes(units: Seq<u16>) -> Seq<u8> {
    Seq::new(2 * units.len(), |i: int| le::le_bytes(units[i / 2] as nat, 2)[i % 2])
}

/// The UTF-16 units whose bytes are given; an odd byte at the end is left out.
pub open spec fn byte_units(bytes: Seq<u8>) -> Seq<u16> {
    Seq::new(
        bytes.len() / 2,
        |i: int| le::le_value(bytes.subrange(2 * i, 2 * i + 2)) as u16,
    )
}

/// The units under which Windows keeps a link target: its separators are backslashes.
pub open spec fn target_units(target: Seq<char>) -> Seq<u16> {
    utf16::encoded(text::replaced(target, '/', seq!['\\']))
}

/// The bytes of the reparse point of a link whose target is kept under `units`. The fields that
/// follow the tag are 16 bits wide and keep the lowest 16 bits of what they hold: the length of
/// what follows them, a reserved zero, then the offset and the length of the target to follow and
/// of the one to show. A 32-bit flag says that the target is relative.
pub open spec fn symlink_reparse(units: Seq<u16>) -> Seq<u8> {
    let path_bytes = 2 * units.len();
    le::le_bytes(IO_REPARSE_TAG_SYMLINK as nat, 4) + le::le_bytes(12 + 2 * path_bytes, 2)
        + le::le_bytes(0, 2) + le::le_bytes(0, 2) + le::le_bytes(path_bytes, 2) + le::le_bytes(
        path_bytes,
        2,
    ) + le::le_bytes(path_bytes, 2) + le::le_bytes(1, 4) + unit_bytes(units) + unit_bytes(units)
}

/// The target that a reparse point holds, as it is shown.
pub open spec fn symlink_target(bytes: Seq<u8>) -> Result<Seq<char>, NtStatus> {
    if bytes.len() < 20 || le::le_value(bytes.subrange(0, 4)) != IO_REPARSE_TAG_SYMLINK {
        Err(NtStatus::NotSupported)
    } else {
        let start = 20 + le::le_value(bytes.subrange(12, 14));
        let length = le::le_value(bytes.subrange(14, 16));
        if start + length > bytes.len() || length % 2 != 0 {
            Err(NtStatus::InvalidParameter)
        } else {
            let units = byte_units(bytes.subrange(start as int, (start + length) as int));
            Ok(text::replaced(utf16::decoded(units), '\\', seq!['/']))
        }
    }
}

/// The header and both copies of the target have the length that is announced.
pub proof fn lemma_symlink_reparse_len(units: Seq<u16>)
    ensures
        symlink_reparse(units).len() == 20 + 4 * units.len(),
{
    let path_bytes = 2 * units.len();
    le::lemma_le_bytes_len(IO_REPARSE_TAG_SYMLINK as nat, 4);
    le::lemma_le_bytes_len(12 + 2 * path_bytes, 2);
    le::lemma_le_bytes_len(0, 2);
    le::lemma_le_bytes_len(path_bytes, 2);
    le::lemma_le_bytes_len(1, 4);
}

/// Reading back the bytes of units gives the units.
pub proof fn lemma_units_read_back(units: Seq<u16>)
    ensures
        byte_units(unit_bytes(units)) == units,
{
    let bytes = unit_bytes(units);
    assert forall|i: int| 0 <= i < units.len() implies #[trigger] byte_units(bytes)[i]
        == units[i] by {
        let unit = units[i];
        le::lemma_le_bytes_len(unit as nat, 2);
        le::lemma_le_limits();
        le::law_le_read_back(unit as nat, 2);
        assert(bytes.subrange(2 * i, 2 * i + 2) =~= le::le_bytes(unit as nat, 2)) by {
            assert((2 * i) / 2 == i && (2 * i) % 2 == 0);
            assert((2 * i + 1) / 2 == i && (2 * i + 1) % 2 == 1);
        }
    }
    assert(byte_units(bytes) =~= units);
}

proof fn lemma_replace_back(s: Seq<char>)
    ensures
        text::replaced(text::replaced(s, '/', seq!['\\']), '\\', seq!['/']) == text::replaced(
            s,
            '\\',
            seq!['/'],
        ),
    decreases s.len(),
{
    if s.len() > 0 {
        lemma_replace_back(s.drop_last());
        let inner = text::replaced(s, '/', seq!['\\']);
        let before = text::replaced(s.drop_last(), '/', seq!['\\']);
        assert(inner.drop_last() =~= before);
        assert(inner.last() == (if s.last() == '/' {
            '\\'
        } else {
            s.last()
        }));
        if s.last() == '/' {
            assert(text::replaced(inner, '\\', seq!['/']) =~= text::replaced(s, '\\', seq!['/']));
        }
    }
}

proof fn lemma_replace_none(s: Seq<char>, from: char, to: Seq<char>)
    requires
        !s.contains(from),
    ensures
        text::replaced(s, from, to) == s,
    decreases s.len(),
{
    if s.len() > 0 {
        assert(s.last() == s[s.len() - 1]);
        assert(!s.drop_last().contains(from)) by {
            if s.drop_last().contains(from) {
                let k = choose|k: int| 0 <= k < s.drop_last().len() && s.drop_last()[k] == from;
                assert(s[k] == from);
            }
        }
        lemma_replace_none(s.drop_last(), from, to);
        assert(s =~= s.drop_last().push(s.last()));
    }
}

/// The target that is read from the reparse point written for a link is the target of the link,
/// with slashes in place of backslashes: the very target where it holds no backslash. The fields
/// of a reparse point are too narrow for a target of 32768 units or more.
pub proof fn law_symlink_reparse_round_trip(target: Seq<char>)
    requires
        target_units(target).len() < 0x8000,
    ensures
        symlink_target(symlink_reparse(target_units(target))) == Ok::<Seq<char>, NtStatus>(
            text::replaced(target, '\\', seq!['/']),
        ),
        !target.contains('\\') ==> symlink_target(symlink_reparse(target_units(target))) == Ok::<
            Seq<char>,
            NtStatus,
        >(target),
{
    let units = target_units(target);
    let path_bytes = 2 * units.len();
    let bytes = symlink_reparse(units);
    lemma_symlink_reparse_len(units);
    le::lemma_le_limits();
    le::lemma_le_bytes_len(IO_REPARSE_TAG_SYMLINK as nat, 4);
    le::lemma_le_bytes_len(12 + 2 * path_bytes, 2);
    le::lemma_le_bytes_len(0, 2);
    le::lemma_le_bytes_len(path_bytes, 2);
    le::lemma_le_bytes_len(1, 4);
    le::law_le_read_back(IO_REPARSE_TAG_SYMLINK as nat, 4);
    le::law_le_read_back(path_bytes, 2);
    assert(bytes.subrange(0, 4) =~= le::le_bytes(IO_REPARSE_TAG_SYMLINK as nat, 4));
    assert(bytes.subrange(12, 14) =~= le::le_bytes(path_bytes, 2));
    assert(bytes.subrange(14, 16) =~= le::le_bytes(path_bytes, 2));
    assert(bytes.subrange(20 + path_bytes as int, 20 + 2 * path_bytes as int) =~= unit_bytes(
        units,
    ));
    lemma_units_read_back(units);
    utf16::law_utf16_read_back(text::replaced(target, '/', seq!['\\']));
    lemma_replace_back(target);
    if !target.contains('\\') {
        lemma_replace_none(target, '\\', seq!['/']);
    }
}

fn put_units(out: &mut Vec<u8>, units: &[u16])
    ensures
        final(out)@ == old(out)@ + unit_bytes(units@),
{
    let mut i: usize = 0;
    let ghost whole = unit_bytes(units@);
    assert(out@ + whole.take(0) =~= out@);
    while i < units.len()
        invariant
            i <= units@.len(),
            whole == unit_bytes(units@),
            out@ == old(out)@ + whole.take(2 * i),
        decreases units.len() - i,
    {
        le::put(out, units[i] as u64, 2);
        proof {
            let unit = units@[i as int];
            le::lemma_le_bytes_len(unit as nat, 2);
            assert((2 * i) / 2 == i && (2 * i) % 2 == 0);
            assert((2 * i + 1) / 2 == i && (2 * i + 1) % 2 == 1);
            assert(whole.take(2 * (i + 1)) =~= whole.take(2 * i) + le::le_bytes(unit as nat, 2));
            assert(out@ =~= old(out)@ + whole.take(2 * (i + 1)));
        }
        i += 1;
    }
    assert(whole.take(2 * i) =~= whole);
}

/// Writes the reparse point of a link with the given target at the start of `buffer`, and gives
/// the number of bytes written. A buffer that is too short is left as it is.
pub fn write_symlink_reparse(target: &str, buffer: &mut [u8]) -> (r: Result<u64, NtStatus>)
    ensures
        match r {
            Ok(total) => {
                let bytes = symlink_reparse(target_units(target@));
                &&& total == bytes.len()
                &&& bytes.len() <= old(buffer)@.len()
                &&& final(buffer)@ == bytes + old(buffer)@.skip(bytes.len() as int)
            },
            Err(status) => {
                &&& status == NtStatus::InvalidParameter
                &&& old(buffer)@.len() < symlink_reparse(target_units(target@)).len()
                &&& final(buffer)@ == old(buffer)@
            },
        },
{
    proof {
        reveal_strlit("\\");
        assert("\\"@ =~= seq!['\\']);
    }
    let kept: String = text::replace(target, '/', "\\");
    let kept_chars: Vec<char> = text::chars(kept.as_str());
    let units: Vec<u16> = utf16::encode(kept_chars.as_slice());
    let ghost bytes = symlink_reparse(units@);
    proof {
        lemma_symlink_reparse_len(units@);
    }
    let size: usize = buffer.len();
    if size < 20 || units.len() > (size - 20) / 4 {
        return Err(NtStatus::InvalidParameter);
    }
    let path_bytes: u64 = 2 * units.len() as u64;
    let mut out: Vec<u8> = Vec::new();
    le::put(&mut out, IO_REPARSE_TAG_SYMLINK as u64, 4);
    le::put(&mut out, 12 + 2 * path_bytes, 2);
    le::put(&mut out, 0, 2);
    le::put(&mut out, 0, 2);
    le::put(&mut out, path_bytes, 2);
    le::put(&mut out, path_bytes, 2);
    le::put(&mut out, path_bytes, 2);
    le::put(&mut out, 1, 4);
    put_units(&mut out, units.as_slice());
    put_units(&mut out, units.as_slice());
    assert(out@ =~= bytes);
    let mut i: usize = 0;
    assert(buffer@ =~= out@.take(0) + old(buffer)@.skip(0));
    while i < out.len()
        invariant
            i <= out@.len() <= old(buffer)@.len(),
            buffer@ == out@.take(i as int) + old(buffer)@.skip(i as int),
        decreases out.len() - i,
    {
        buffer[i] = out[i];
        i += 1;
        assert(buffer@ =~= out@.take(i as int) + old(buffer)@.skip(i as int));
    }
    assert(out@.take(i as int) =~= out@);
    Ok(out.len() as u64)
}

/// The target that a reparse point holds, as it is shown.
pub fn parse_symlink_reparse(buffer: &[u8]) -> (r: Result<String, NtStatus>)
    ensures
        match (r, symlink_target(buffer@)) {
            (Ok(target), Ok(expected)) => target@ == expected,
            (Err(status), Err(expected)) => status == expected,
            _ => false,
        },
{
    if buffer.len() < 20 || le::get(buffer, 0, 4) != IO_REPARSE_TAG_SYMLINK as u64 {
        return Err(NtStatus::NotSupported);
    }
    proof {
        le::lemma_le_limits();
        reveal_strlit("/");
        assert("/"@ =~= seq!['/']);
    }
    let offset: usize = le::get(buffer, 12, 2) as usize;
    let length: usize = le::get(buffer, 14, 2) as usize;
    let start: usize = 20 + offset;
    let end: usize = start + length;
    if end > buffer.len() || length % 2 != 0 {
        return Err(NtStatus::InvalidParameter);
    }
    let ghost part = buffer@.subrange(start as int, end as int);
    let mut units: Vec<u16> = Vec::new();
    let mut i: usize = 0;
    while i < length / 2
        invariant
            i <= length / 2,
            end == start + length,
            end <= buffer@.len(),
            part == buffer@.subrange(start as int, end as int),
            units@ == byte_units(part).take(i as int),
        decreases length / 2 - i,
    {
        proof {
            le::lemma_le_limits();
            assert(part.subrange(2 * i as int, 2 * i + 2) =~= buffer@.subrange(
                start + 2 * i,
                start + 2 * i + 2,
            ));
        }
        units.push(le::get(buffer, start + 2 * i, 2) as u16);
        i += 1;
        assert(units@ =~= byte_units(part).take(i as int));
    }
    assert(units@ =~= byte_units(part));
    let list: Vec<char> = utf16::decode(units.as_slice());
    let shown: String = text::text(list.as_slice());
    Ok(text::replace(shown.as_str(), '\\', "/"))
}

/// A reparse point has the layout that Windows gives it: the tag of a link, how many bytes follow
/// the first eight, then where the target to follow and the one to show begin and how long they are,
/// the mark of a relative target, and the two targets, one behind the other. A buffer that is too
/// short for it is refused and left as it is.
pub proof fn law_reparse_points_have_their_layout(
    target: &str,
    buffer: &mut [u8],
    r: Result<u64, NtStatus>,
)
    requires
        call_ensures(write_symlink_reparse, (target, buffer), r),
        utf16::encoded(text::replaced(target@, '/', seq!['\\'])).len() <= 0x3ffc,
    ensures
        ({
            let units = utf16::encoded(text::replaced(target@, '/', seq!['\\']));
            let size = 2 * units.len() as int;
            let bytes = final(buffer)@;
            match r {
                Ok(total) => {
                    &&& total == 20 + 2 * size
                    &&& old(buffer)@.len() >= total
                    &&& bytes.len() == old(buffer)@.len()
                    &&& le::le_value(bytes.subrange(0, 4)) == 0xa000000c
                    &&& le::le_value(bytes.subrange(4, 6)) == total - 8
                    &&& le::le_value(bytes.subrange(6, 8)) == 0
                    &&& le::le_value(bytes.subrange(8, 10)) == 0
                    &&& le::le_value(bytes.subrange(10, 12)) == size
                    &&& le::le_value(bytes.subrange(12, 14)) == size
                    &&& le::le_value(bytes.subrange(14, 16)) == size
                    &&& le::le_value(bytes.subrange(16, 20)) == 1
                    &&& byte_units(bytes.subrange(20, 20 + size)) == units
                    &&& byte_units(bytes.subrange(20 + size, 20 + 2 * size)) == units
                    &&& bytes.skip(total as int) == old(buffer)@.skip(total as int)
                },
                Err(status) => status is InvalidParameter && old(buffer)@.len() < 20 + 2 * size
                    && bytes == old(buffer)@,
            }
        }),
{
    let units = target_units(target@);
    let path_bytes = 2 * units.len();
    let point = symlink_reparse(units);
    let bytes = final(buffer)@;
    lemma_symlink_reparse_len(units);
    le::lemma_le_limits();
    le::lemma_le_bytes_len(IO_REPARSE_TAG_SYMLINK as nat, 4);
    le::lemma_le_bytes_len(12 + 2 * path_bytes, 2);
    le::lemma_le_bytes_len(0, 2);
    le::lemma_le_bytes_len(path_bytes, 2);
    le::lemma_le_bytes_len(1, 4);
    le::law_le_read_back(IO_REPARSE_TAG_SYMLINK as nat, 4);
    le::law_le_read_back(12 + 2 * path_bytes, 2);
    le::law_le_read_back(0, 2);
    le::law_le_read_back(path_bytes, 2);
    le::law_le_read_back(1, 4);
    lemma_units_read_back(units);
    if r is Ok {
        let size = path_bytes as int;
        assert(bytes.subrange(0, 4) =~= le::le_bytes(IO_REPARSE_TAG_SYMLINK as nat, 4));
        assert(bytes.subrange(4, 6) =~= le::le_bytes(12 + 2 * path_bytes, 2));
        assert(bytes.subrange(6, 8) =~= le::le_bytes(0, 2));
        assert(bytes.subrange(8, 10) =~= le::le_bytes(0, 2));
        assert(bytes.subrange(10, 12) =~= le::le_bytes(path_bytes, 2));
        assert(bytes.subrange(12, 14) =~= le::le_bytes(path_bytes, 2));
        assert(bytes.subrange(14, 16) =~= le::le_bytes(path_bytes, 2));
        assert(bytes.subrange(16, 20) =~= le::le_bytes(1, 4));
        assert(bytes.subrange(20, 20 + size) =~= unit_bytes(units));
        assert(bytes.subrange(20 + size, 20 + 2 * size) =~= unit_bytes(units));
        assert(bytes.skip(20 + 2 * size) =~= old(buffer)@.skip(20 + 2 * size));
    }
}

/// A reparse point is read as Windows lays it out: what is none of a link is not supported; the
/// target to show is taken from where it is said to begin, as long as it is said to be, and must lie
/// inside and be whole; its separators become those of the device.
pub proof fn law_reparse_points_are_read_by_their_layout(
    buffer: &[u8],
    r: Result<String, NtStatus>,
)
    requires
        call_ensures(parse_symlink_reparse, (buffer,), r),
    ensures
        buffer@.len() < 20 || le::le_value(buffer@.subrange(0, 4)) != 0xa000000c ==> r matches Err(
            NtStatus::NotSupported,
        ),
        buffer@.len() >= 20 && le::le_value(buffer@.subrange(0, 4)) == 0xa000000c ==> {
            let start = 20 + le::le_value(buffer@.subrange(12, 14));
            let size = le::le_value(buffer@.subrange(14, 16));
            if start + size > buffer@.len() || size % 2 != 0 {
                r matches Err(NtStatus::InvalidParameter)
            } else {
                r matches Ok(target) && target@ == text::replaced(
                    utf16::decoded(
                        byte_units(buffer@.subrange(start as int, (start + size) as int)),
                    ),
                    '\\',
                    seq!['/'],
                )
            }
        },
{
}

} // verus!
