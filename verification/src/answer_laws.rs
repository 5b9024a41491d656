//! What the device's own words and numbers become: laws from the bytes of an answer to what is
//! known.

use vstd::prelude::*;
use vstd::string::*;

use crate::afc;
use crate::afc::{RemoteDeviceInfo, RemoteFileInfo, RemoteFileType};
use crate::error::{Error, Result};
use crate::text;

verus! {

/// Whether a list of keys and values, one behind the other, gives a key a value: the last value
/// that stands behind the key counts.
pub open spec fn says(list: Seq<Seq<char>>, key: Seq<char>, value: Seq<char>) -> bool {
    exists|k: int|
        0 <= k && 2 * k + 1 < list.len() && #[trigger] list[2 * k] == key && list[2 * k + 1]
            == value && forall|j: int|
            k < j && 2 * j + 1 < list.len() ==> #[trigger] list[2 * j] != key
}

/// Whether a list of keys and values says nothing of a key.
pub open spec fn is_silent(list: Seq<Seq<char>>, key: Seq<char>) -> bool {
    forall|k: int| 0 <= k && 2 * k + 1 < list.len() ==> #[trigger] list[2 * k] != key
}

/// Whether a list can be the content of an answer: pairs of texts, none of them empty, and none
/// with a NUL character.
pub open spec fn is_answer(list: Seq<Seq<char>>) -> bool {
    &&& list.len() % 2 == 0
    &&& forall|i: int| 0 <= i < list.len() ==> (#[trigger] list[i]).len() > 0
    &&& forall|i: int, j: int|
        0 <= i < list.len() && 0 <= j < list[i].len() ==> #[trigger] list[i][j] as u32 != 0
}

proof fn lemma_paired(list: Seq<Seq<char>>, key: Seq<char>)
    requires
        list.len() % 2 == 0,
    ensures
        is_silent(list, key) ==> !afc::paired(list).contains_key(key),
        forall|value: Seq<char>| #[trigger]
            says(list, key, value) ==> afc::paired(list).contains_key(key) && afc::paired(list)[key]
                == value,
    decreases list.len(),
{
    if list.len() >= 2 {
        let n = list.len() as int;
        let last = (n - 2) / 2;
        let rest = list.take(n - 2);
        lemma_paired(rest, key);
        assert(2 * last == n - 2);
        if is_silent(list, key) {
            assert(list[2 * last] != key);
            assert forall|k: int| 0 <= k && 2 * k + 1 < rest.len() implies #[trigger] rest[2 * k]
                != key by {
                assert(list[2 * k] != key);
            }
        }
        assert forall|value: Seq<char>| #[trigger]
            says(list, key, value) implies afc::paired(list).contains_key(key) && afc::paired(
            list,
        )[key] == value by {
            let k = choose|k: int|
                0 <= k && 2 * k + 1 < list.len() && #[trigger] list[2 * k] == key && list[2 * k + 1]
                    == value && forall|j: int|
                    k < j && 2 * j + 1 < list.len() ==> #[trigger] list[2 * j] != key;
            if k < last {
                assert(list[2 * last] != key);
                assert(rest[2 * k] == key && rest[2 * k + 1] == value);
                assert forall|j: int|
                    k < j && 2 * j + 1 < rest.len() implies #[trigger] rest[2 * j] != key by {
                    assert(list[2 * j] != key);
                }
                assert(says(rest, key, value));
            } else {
                assert(k == last);
            }
        }
    }
}

/// The device is known as it describes itself, however large it is: the numbers of bytes up to what
/// sixty-four bits hold, the size of a block up to what thirty-two bits hold, and the model in its
/// own words. What it says besides does not matter, nor in which order it says it.
pub proof fn law_device_is_known_as_it_says(
    payload: &[u8],
    list: Seq<Seq<char>>,
    total: u64,
    free: u64,
    block: u32,
    model: Option<Seq<char>>,
    r: Result<RemoteDeviceInfo>,
)
    requires
        payload@ == afc::zero_ended_list(list),
        is_answer(list),
        says(list, "FSTotalBytes"@, text::decimal(total as nat)),
        says(list, "FSFreeBytes"@, text::decimal(free as nat)),
        says(list, "FSBlockSize"@, text::decimal(block as nat)),
        match model {
            Some(words) => says(list, "Model"@, words),
            None => is_silent(list, "Model"@),
        },
        call_ensures(afc::read_device_info, (payload,), r),
    ensures
        r matches Ok(info) && info.total_bytes == total && info.free_bytes == free
            && info.block_size == block && info.model@ == (match model {
            Some(words) => words,
            None => Seq::<char>::empty(),
        }),
{
    afc::law_list_read_back(list);
    lemma_paired(list, "FSTotalBytes"@);
    lemma_paired(list, "FSFreeBytes"@);
    lemma_paired(list, "FSBlockSize"@);
    lemma_paired(list, "Model"@);
    text::law_decimal_read_back(total as nat, u64::MAX as nat);
    text::law_decimal_read_back(free as nat, u64::MAX as nat);
    text::law_decimal_read_back(block as nat, u32::MAX as nat);
}

/// Whether an answer cannot be understood, and the error says so in the given words.
pub open spec fn is_refused<V>(r: Result<V>, words: Seq<char>) -> bool {
    r matches Err(Error::InvalidAfcResponse(said)) && said@ == words
}

/// Whether a text that may be missing is there and is the given one.
pub open spec fn is_text(found: Option<String>, words: Seq<char>) -> bool {
    found matches Some(text) && text@ == words
}

/// Whether a list gives a key no number up to the largest that can be held, and the words in which
/// that is refused.
pub open spec fn has_no_number(
    list: Seq<Seq<char>>,
    key: Seq<char>,
    value: Seq<char>,
    max: nat,
    words: Seq<char>,
) -> bool {
    ||| is_silent(list, key) && words == "missing "@ + key
    ||| says(list, key, value) && text::unsigned_value(value, max) is None && words == "invalid "@
        + key
}

/// A device that leaves out one of its three numbers, or says something there that is no number or
/// a number that is too large, is refused, and the error names the first of them that is at fault.
pub proof fn law_device_that_leaves_out_numbers_is_refused(
    payload: &[u8],
    list: Seq<Seq<char>>,
    total: u64,
    free: u64,
    value: Seq<char>,
    words: Seq<char>,
    r: Result<RemoteDeviceInfo>,
)
    requires
        payload@ == afc::zero_ended_list(list),
        is_answer(list),
        call_ensures(afc::read_device_info, (payload,), r),
    ensures
        has_no_number(list, "FSTotalBytes"@, value, 0xffff_ffff_ffff_ffff, words) ==> is_refused(
            r,
            words,
        ),
        says(list, "FSTotalBytes"@, text::decimal(total as nat)) ==> {
            &&& has_no_number(list, "FSFreeBytes"@, value, 0xffff_ffff_ffff_ffff, words)
                ==> is_refused(r, words)
            &&& says(list, "FSFreeBytes"@, text::decimal(free as nat)) && has_no_number(
                list,
                "FSBlockSize"@,
                value,
                0xffff_ffff,
                words,
            ) ==> is_refused(r, words)
        },
{
    afc::law_list_read_back(list);
    lemma_paired(list, "FSTotalBytes"@);
    lemma_paired(list, "FSFreeBytes"@);
    lemma_paired(list, "FSBlockSize"@);
    text::law_decimal_read_back(total as nat, u64::MAX as nat);
    text::law_decimal_read_back(free as nat, u64::MAX as nat);
}

/// The word with which the device tells each kind of object.
pub open spec fn kind_word(kind: RemoteFileType) -> Seq<char> {
    match kind {
        RemoteFileType::RegularFile => "S_IFREG"@,
        RemoteFileType::Directory => "S_IFDIR"@,
        RemoteFileType::Symlink => "S_IFLNK"@,
        RemoteFileType::BlockDevice => "S_IFBLK"@,
        RemoteFileType::CharDevice => "S_IFCHR"@,
        RemoteFileType::NamedPipe => "S_IFIFO"@,
        RemoteFileType::Socket => "S_IFSOCK"@,
    }
}

/// Every kind of object has a word of its own, and no other word is one of a kind.
pub proof fn law_kinds_have_words(kind: RemoteFileType, word: Seq<char>)
    ensures
        afc::kind_of(kind_word(kind)) == Some(kind),
        afc::kind_of(word) matches Some(found) ==> word == kind_word(found),
{
    reveal_strlit("S_IFREG");
    reveal_strlit("S_IFDIR");
    reveal_strlit("S_IFLNK");
    reveal_strlit("S_IFBLK");
    reveal_strlit("S_IFCHR");
    reveal_strlit("S_IFIFO");
    reveal_strlit("S_IFSOCK");
    assert("S_IFREG"@.len() == 7 && "S_IFDIR"@.len() == 7 && "S_IFLNK"@.len() == 7
        && "S_IFBLK"@.len() == 7 && "S_IFCHR"@.len() == 7 && "S_IFIFO"@.len() == 7
        && "S_IFSOCK"@.len() == 8);
    assert("S_IFREG"@[4] == 'R' && "S_IFDIR"@[4] == 'D' && "S_IFLNK"@[4] == 'L' && "S_IFBLK"@[4]
        == 'B' && "S_IFCHR"@[4] == 'C' && "S_IFIFO"@[4] == 'I');
}

/// Whether an answer describes an object by its kind and its own numbers: sizes and times in full.
pub open spec fn describes(list: Seq<Seq<char>>, facts: afc::FileFacts) -> bool {
    &&& is_answer(list)
    &&& says(list, "st_ifmt"@, kind_word(facts.kind))
    &&& says(list, "st_size"@, text::decimal(facts.size as nat))
    &&& says(list, "st_blocks"@, text::decimal(facts.blocks as nat))
    &&& says(list, "st_nlink"@, text::decimal(facts.nlink as nat))
    &&& says(list, "st_mtime"@, text::decimal(facts.modified as nat))
    &&& says(list, "st_birthtime"@, text::decimal(facts.created as nat))
}

/// An object is known as the device describes it: its kind, its size and its blocks, how many links
/// lead to it, and its times in nanoseconds since 1970, all in full.
pub proof fn law_object_is_known_as_the_device_says(
    payload: &[u8],
    list: Seq<Seq<char>>,
    facts: afc::FileFacts,
    r: Result<RemoteFileInfo>,
)
    requires
        payload@ == afc::zero_ended_list(list),
        describes(list, facts),
        call_ensures(afc::read_file_info, (payload,), r),
    ensures
        r matches Ok(info) && info.kind == facts.kind && info.size == facts.size && info.blocks
            == facts.blocks && info.nlink == facts.nlink && info.modified == facts.modified
            && info.created == facts.created,
{
    afc::law_list_read_back(list);
    law_kinds_have_words(facts.kind, Seq::empty());
    lemma_paired(list, "st_ifmt"@);
    lemma_paired(list, "st_size"@);
    lemma_paired(list, "st_blocks"@);
    lemma_paired(list, "st_nlink"@);
    lemma_paired(list, "st_mtime"@);
    lemma_paired(list, "st_birthtime"@);
    text::law_decimal_read_back(facts.size as nat, u64::MAX as nat);
    text::law_decimal_read_back(facts.blocks as nat, u64::MAX as nat);
    text::law_decimal_read_back(facts.nlink as nat, u32::MAX as nat);
    text::law_decimal_read_back(facts.modified as nat, u64::MAX as nat);
    text::law_decimal_read_back(facts.created as nat, u64::MAX as nat);
}

/// A link leads where the device says, in either of its two words for that, of which the first
/// counts; and what the device says no target of has none.
pub proof fn law_link_target_is_known_as_the_device_says(
    payload: &[u8],
    list: Seq<Seq<char>>,
    target: Seq<char>,
    r: Result<RemoteFileInfo>,
)
    requires
        payload@ == afc::zero_ended_list(list),
        is_answer(list),
        call_ensures(afc::read_file_info, (payload,), r),
    ensures
        r matches Ok(info) ==> {
            &&& says(list, "LinkTarget"@, target) ==> is_text(info.link_target, target)
            &&& is_silent(list, "LinkTarget"@) && says(list, "st_link_target"@, target)
                ==> is_text(info.link_target, target)
            &&& is_silent(list, "LinkTarget"@) && is_silent(list, "st_link_target"@)
                ==> info.link_target is None
        },
{
    afc::law_list_read_back(list);
    lemma_paired(list, "LinkTarget"@);
    lemma_paired(list, "st_link_target"@);
}

/// A time that the device leaves out, or that is no number of nanoseconds that can be held, is the
/// start of 1970.
pub proof fn law_unknown_times_are_the_start(
    payload: &[u8],
    list: Seq<Seq<char>>,
    value: Seq<char>,
    words: Seq<char>,
    r: Result<RemoteFileInfo>,
)
    requires
        payload@ == afc::zero_ended_list(list),
        is_answer(list),
        call_ensures(afc::read_file_info, (payload,), r),
    ensures
        r matches Ok(info) ==> {
            &&& has_no_number(list, "st_mtime"@, value, 0xffff_ffff_ffff_ffff, words)
                ==> info.modified == 0
            &&& has_no_number(list, "st_birthtime"@, value, 0xffff_ffff_ffff_ffff, words)
                ==> info.created == 0
        },
{
    afc::law_list_read_back(list);
    lemma_paired(list, "st_mtime"@);
    lemma_paired(list, "st_birthtime"@);
}

/// An object is refused where the device leaves out its kind or one of its numbers, gives it a kind
/// that is none, or says something that is no number or too large a number; the error names the
/// first of them that is at fault. What the device says of times and targets is never at fault.
pub proof fn law_object_that_is_not_described_is_refused(
    payload: &[u8],
    list: Seq<Seq<char>>,
    kind: RemoteFileType,
    word: Seq<char>,
    size: u64,
    blocks: u64,
    value: Seq<char>,
    words: Seq<char>,
    r: Result<RemoteFileInfo>,
)
    requires
        payload@ == afc::zero_ended_list(list),
        is_answer(list),
        call_ensures(afc::read_file_info, (payload,), r),
    ensures
        is_silent(list, "st_ifmt"@) ==> is_refused(r, "missing "@ + "st_ifmt"@),
        says(list, "st_ifmt"@, word) && (forall|known: RemoteFileType| #[trigger]
            kind_word(known) != word) ==> is_refused(r, "unknown file type "@ + word),
        says(list, "st_ifmt"@, kind_word(kind)) ==> {
            &&& has_no_number(list, "st_size"@, value, 0xffff_ffff_ffff_ffff, words) ==> is_refused(
                r,
                words,
            )
            &&& says(list, "st_size"@, text::decimal(size as nat)) ==> {
                &&& has_no_number(list, "st_blocks"@, value, 0xffff_ffff_ffff_ffff, words)
                    ==> is_refused(r, words)
                &&& says(list, "st_blocks"@, text::decimal(blocks as nat)) && has_no_number(
                    list,
                    "st_nlink"@,
                    value,
                    0xffff_ffff,
                    words,
                ) ==> is_refused(r, words)
            }
        },
{
    afc::law_list_read_back(list);
    law_kinds_have_words(kind, word);
    if let Some(found) = afc::kind_of(word) {
        assert(kind_word(found) == word);
    }
    lemma_paired(list, "st_ifmt"@);
    lemma_paired(list, "st_size"@);
    lemma_paired(list, "st_blocks"@);
    lemma_paired(list, "st_nlink"@);
    text::law_decimal_read_back(size as nat, u64::MAX as nat);
    text::law_decimal_read_back(blocks as nat, u64::MAX as nat);
}

/// An answer in which a key has no value is refused, whatever was asked.
pub proof fn law_half_pairs_are_refused(
    payload: &[u8],
    list: Seq<Seq<char>>,
    file: Result<RemoteFileInfo>,
    device: Result<RemoteDeviceInfo>,
)
    requires
        payload@ == afc::zero_ended_list(list),
        list.len() % 2 == 1,
        forall|i: int| 0 <= i < list.len() ==> (#[trigger] list[i]).len() > 0,
        forall|i: int, j: int|
            0 <= i < list.len() && 0 <= j < list[i].len() ==> #[trigger] list[i][j] as u32 != 0,
        call_ensures(afc::read_file_info, (payload,), file),
        call_ensures(afc::read_device_info, (payload,), device),
    ensures
        is_refused(file, "malformed key/value data"@),
        is_refused(device, "malformed key/value data"@),
{
    afc::law_list_read_back(list);
}

/// The names in a directory are those that the device lists, in its order.
pub proof fn law_names_are_those_of_the_device(
    payload: &[u8],
    list: Seq<Seq<char>>,
    r: Vec<String>,
)
    requires
        payload@ == afc::zero_ended_list(list),
        forall|i: int| 0 <= i < list.len() ==> (#[trigger] list[i]).len() > 0,
        forall|i: int, j: int|
            0 <= i < list.len() && 0 <= j < list[i].len() ==> #[trigger] list[i][j] as u32 != 0,
        call_ensures(afc::strings, (payload,), r),
    ensures
        r@.len() == list.len(),
        forall|i: int| 0 <= i < list.len() ==> (#[trigger] r@[i])@ == list[i],
{
    afc::law_list_read_back(list);
    assert forall|i: int| 0 <= i < list.len() implies (#[trigger] r@[i])@ == list[i] by {
        assert(afc::texts(r@)[i] == r@[i]@);
    }
    assert(afc::texts(r@).len() == r@.len());
}

} // verus!
