//! The file protocol of the device: requests as packets, and what the device answers them with.

use vstd::hash_map::StringHashMap;
use vstd::prelude::*;
use vstd::string::*;

use crate::error;
use crate::error::{Error, Result};
use crate::text;

verus! {

/// What kind of object a path of the device leads to.
#[derive(Clone, Copy, Debug, PartialEq, Eq, Structural)]
pub enum RemoteFileType {
    RegularFile,
    Directory,
    Symlink,
    BlockDevice,
    CharDevice,
    NamedPipe,
    Socket,
}

/// What the device says of a path. Times are in nanoseconds since 1970.
#[derive(Clone, Debug)]
pub struct RemoteFileInfo {
    pub size: u64,
    pub blocks: u64,
    pub created: u64,
    pub modified: u64,
    pub nlink: u32,
    pub kind: RemoteFileType,
    pub link_target: Option<String>,
}

/// What the device says of itself.
#[derive(Clone, Debug)]
pub struct RemoteDeviceInfo {
    pub total_bytes: u64,
    pub free_bytes: u64,
    pub block_size: u32,
    pub model: String,
}

/// What is known of a path.
pub ghost struct FileFacts {
    pub size: u64,
    pub blocks: u64,
    pub created: u64,
    pub modified: u64,
    pub nlink: u32,
    pub kind: RemoteFileType,
    pub link_target: Option<Seq<char>>,
}

/// What is known of the device.
pub ghost struct DeviceFacts {
    pub total_bytes: u64,
    pub free_bytes: u64,
    pub block_size: u32,
    pub model: Seq<char>,
}

/// The characters of a text that may be missing.
pub open spec fn optional_text(value: Option<String>) -> Option<Seq<char>> {
    match value {
        Some(s) => Some(s@),
        None => None,
    }
}

impl View for RemoteFileInfo {
    type V = FileFacts;

    open spec fn view(&self) -> FileFacts {
        FileFacts {
            size: self.size,
            blocks: self.blocks,
            created: self.created,
            modified: self.modified,
            nlink: self.nlink,
            kind: self.kind,
            link_target: optional_text(self.link_target),
        }
    }
}

impl View for RemoteDeviceInfo {
    type V = DeviceFacts;

    open spec fn view(&self) -> DeviceFacts {
        DeviceFacts {
            total_bytes: self.total_bytes,
            free_bytes: self.free_bytes,
            block_size: self.block_size,
            model: self.model@,
        }
    }
}

/// What `String::from_utf8_lossy` makes of bytes.
pub uninterp spec fn utf8_lossy(bytes: Seq<u8>) -> Seq<char>;

/// The text that bytes stand for: UTF-8, with something in place of what is no UTF-8.
pub open spec fn lossy_text(bytes: Seq<u8>) -> Seq<char> {
    if vstd::utf8::valid_utf8(bytes) {
        vstd::utf8::decode_utf8(bytes)
    } else {
        utf8_lossy(bytes)
    }
}

/// `String::from_utf8_lossy` reads bytes as UTF-8. Valid UTF-8 becomes the text that it encodes;
/// in other bytes each sequence that is no UTF-8 becomes a replacement character. Where such a
/// sequence ends is a matter of the bytes alone and is left open here. Either way some text comes
/// of any byte, and a NUL character comes of a zero byte only.
#[verifier::external_body]
fn lossy(bytes: &[u8]) -> (r: String)
    ensures
        r@ == (if vstd::utf8::valid_utf8(bytes@) {
            vstd::utf8::decode_utf8(bytes@)
        } else {
            utf8_lossy(bytes@)
        }),
        bytes@.len() > 0 ==> r@.len() > 0,
        !bytes@.contains(0u8) ==> !r@.contains('\0'),
{
    String::from_utf8_lossy(bytes).into_owned()
}

/// The characters of each of several strings.
pub open spec fn texts(list: Seq<String>) -> Seq<Seq<char>> {
    list.map_values(|s: String| s@)
}

/// The pieces that are not empty, as text.
pub open spec fn kept_texts(parts: Seq<Seq<u8>>) -> Seq<Seq<char>>
    decreases parts.len(),
{
    if parts.len() == 0 {
        Seq::empty()
    } else if parts.last().len() == 0 {
        kept_texts(parts.drop_last())
    } else {
        kept_texts(parts.drop_last()).push(lossy_text(parts.last()))
    }
}

/// The texts in a list whose entries end with zero bytes; empty entries do not count.
pub open spec fn listed(bytes: Seq<u8>) -> Seq<Seq<char>> {
    kept_texts(text::pieces(bytes, 0u8))
}

/// A text as the device expects it: UTF-8, then a zero byte.
pub open spec fn zero_ended(s: Seq<char>) -> Seq<u8> {
    vstd::utf8::encode_utf8(s).push(0)
}

/// The bytes of several texts, each ended by a zero byte.
pub open spec fn zero_ended_list(list: Seq<Seq<char>>) -> Seq<u8>
    decreases list.len(),
{
    if list.len() == 0 {
        Seq::empty()
    } else {
        zero_ended_list(list.drop_last()) + zero_ended(list.last())
    }
}

proof fn lemma_no_zero_byte(s: Seq<char>)
    requires
        forall|i: int| 0 <= i < s.len() ==> #[trigger] s[i] as u32 != 0,
    ensures
        forall|i: int|
            0 <= i < vstd::utf8::encode_utf8(s).len() ==> #[trigger] vstd::utf8::encode_utf8(s)[i]
                != 0,
        s.len() > 0 ==> vstd::utf8::encode_utf8(s).len() > 0,
    decreases s.len(),
{
    if s.len() > 0 {
        let rest = s.drop_first();
        assert forall|i: int| 0 <= i < rest.len() implies #[trigger] rest[i] as u32 != 0 by {
            assert(rest[i] == s[i + 1]);
        }
        lemma_no_zero_byte(rest);
        let c = s[0] as u32;
        vstd::utf8::char_is_scalar(s[0]);
        assert(c != 0 && c <= 0x7f ==> (c & 0x7f) as u8 != 0) by (bit_vector);
        assert(0xC0u8 | ((c >> 6) & 0x1F) as u8 != 0) by (bit_vector);
        assert(0xE0u8 | ((c >> 12) & 0x0F) as u8 != 0) by (bit_vector);
        assert(0xF0u8 | ((c >> 18) & 0x7) as u8 != 0) by (bit_vector);
        assert(0x80u8 | (c & 0x3F) as u8 != 0) by (bit_vector);
        assert(0x80u8 | ((c >> 6) & 0x3F) as u8 != 0) by (bit_vector);
        assert(0x80u8 | ((c >> 12) & 0x3F) as u8 != 0) by (bit_vector);
        let first = vstd::utf8::encode_scalar(c);
        let more = vstd::utf8::encode_utf8(rest);
        assert(vstd::utf8::encode_utf8(s) == first + more);
        assert forall|i: int| 0 <= i < (first + more).len() implies #[trigger] (first + more)[i]
            != 0 by {
            if i >= first.len() {
                assert((first + more)[i] == more[i - first.len()]);
            }
        }
    }
}

proof fn lemma_pieces_extended(head: Seq<u8>, tail: Seq<u8>)
    requires
        text::pieces(head, 0u8).last().len() == 0,
        forall|i: int| 0 <= i < tail.len() ==> #[trigger] tail[i] != 0,
    ensures
        text::pieces(head + tail, 0u8) == text::pieces(head, 0u8).drop_last().push(tail),
    decreases tail.len(),
{
    text::law_pieces_join(head, 0u8);
    let p = text::pieces(head, 0u8);
    if tail.len() == 0 {
        assert(head + tail =~= head);
        assert(p.last() =~= tail);
        assert(p =~= p.drop_last().push(tail));
    } else {
        assert forall|i: int| 0 <= i < tail.drop_last().len() implies #[trigger] tail.drop_last()[i]
            != 0 by {
            assert(tail.drop_last()[i] == tail[i]);
        }
        lemma_pieces_extended(head, tail.drop_last());
        assert((head + tail).drop_last() =~= head + tail.drop_last());
        assert((head + tail).last() == tail.last());
        assert(tail[tail.len() - 1] != 0);
        assert(tail.drop_last().push(tail.last()) =~= tail);
        let q = p.drop_last().push(tail.drop_last());
        assert(q.drop_last() =~= p.drop_last());
        assert(text::pieces(head + tail, 0u8) =~= p.drop_last().push(tail));
    }
}

proof fn lemma_list_read_back(list: Seq<Seq<char>>)
    requires
        forall|i: int| 0 <= i < list.len() ==> (#[trigger] list[i]).len() > 0,
        forall|i: int, j: int|
            0 <= i < list.len() && 0 <= j < list[i].len() ==> #[trigger] list[i][j] as u32 != 0,
    ensures
        listed(zero_ended_list(list)) == list,
        text::pieces(zero_ended_list(list), 0u8).last().len() == 0,
    decreases list.len(),
{
    let bytes = zero_ended_list(list);
    if list.len() == 0 {
        let none = Seq::<Seq<u8>>::empty();
        assert(text::pieces(bytes, 0u8) == seq![Seq::<u8>::empty()]);
        assert(seq![Seq::<u8>::empty()].drop_last() =~= none);
        assert(kept_texts(none) =~= Seq::<Seq<char>>::empty());
    } else {
        let rest = list.drop_last();
        assert forall|i: int| 0 <= i < rest.len() implies (#[trigger] rest[i]).len() > 0 by {
            assert(rest[i] == list[i]);
        }
        assert forall|i: int, j: int|
            0 <= i < rest.len() && 0 <= j < rest[i].len() implies #[trigger] rest[i][j] as u32
            != 0 by {
            assert(rest[i] == list[i]);
            assert(list[i][j] as u32 != 0);
        }
        lemma_list_read_back(rest);
        let head = zero_ended_list(rest);
        let s = list.last();
        let tail = vstd::utf8::encode_utf8(s);
        assert forall|j: int| 0 <= j < s.len() implies #[trigger] s[j] as u32 != 0 by {
            assert(list[list.len() - 1][j] as u32 != 0);
        }
        assert(list[list.len() - 1].len() > 0);
        lemma_no_zero_byte(s);
        lemma_pieces_extended(head, tail);
        vstd::utf8::encode_utf8_valid_utf8(s);
        vstd::utf8::encode_utf8_decode_utf8(s);
        text::law_pieces_join(head, 0u8);
        let p = text::pieces(head, 0u8);
        assert(bytes =~= (head + tail).push(0));
        assert(bytes.drop_last() =~= head + tail);
        let q = p.drop_last().push(tail);
        let all = text::pieces(bytes, 0u8);
        assert(all == q.push(Seq::empty()));
        assert(all.drop_last() =~= q);
        assert(q.drop_last() =~= p.drop_last());
        assert(kept_texts(p) == kept_texts(p.drop_last()));
        assert(kept_texts(q) == kept_texts(p.drop_last()).push(s));
        assert(rest.push(s) =~= list);
    }
}

/// Several zero bytes.
pub open spec fn zeros(count: nat) -> Seq<u8> {
    Seq::new(count, |i: int| 0u8)
}

proof fn lemma_kept_texts_joined(a: Seq<Seq<u8>>, b: Seq<Seq<u8>>)
    ensures
        kept_texts(a + b) == kept_texts(a) + kept_texts(b),
    decreases b.len(),
{
    if b.len() == 0 {
        assert(a + b =~= a);
        assert(kept_texts(a) + kept_texts(b) =~= kept_texts(a));
    } else {
        lemma_kept_texts_joined(a, b.drop_last());
        assert((a + b).drop_last() =~= a + b.drop_last());
        assert((a + b).last() == b.last());
        assert(kept_texts(a + b) =~= kept_texts(a) + kept_texts(b));
    }
}

/// A zero byte only separates: the texts before it and the texts behind it do not depend on each
/// other.
pub proof fn law_zero_byte_separates(a: Seq<u8>, b: Seq<u8>)
    ensures
        listed(a + seq![0u8] + b) == listed(a) + listed(b),
{
    text::law_pieces_of_joined(a, b, 0u8);
    lemma_kept_texts_joined(text::pieces(a, 0u8), text::pieces(b, 0u8));
}

proof fn lemma_nothing_listed()
    ensures
        listed(Seq::<u8>::empty()) == Seq::<Seq<char>>::empty(),
{
    let none = Seq::<Seq<u8>>::empty();
    assert(text::pieces(Seq::<u8>::empty(), 0u8) == seq![Seq::<u8>::empty()]);
    assert(seq![Seq::<u8>::empty()].drop_last() =~= none);
    assert(kept_texts(none) =~= Seq::<Seq<char>>::empty());
}

/// How many zero bytes stand before the texts, between two texts or behind them does not matter,
/// and behind them there need be none.
pub proof fn law_more_zero_bytes_do_not_matter(a: Seq<u8>, count: nat, b: Seq<u8>)
    ensures
        listed(zeros(count) + b) == listed(b),
        listed(a + zeros(count)) == listed(a),
        count > 0 ==> listed(a + zeros(count) + b) == listed(a + seq![0u8] + b),
    decreases count,
{
    let none = Seq::<u8>::empty();
    lemma_nothing_listed();
    if count == 0 {
        assert(zeros(count) + b =~= b);
        assert(a + zeros(count) =~= a);
    } else {
        let fewer = (count - 1) as nat;
        law_more_zero_bytes_do_not_matter(a, fewer, b);
        law_zero_byte_separates(none, zeros(fewer) + b);
        law_zero_byte_separates(a + zeros(fewer), none);
        law_zero_byte_separates(a, zeros(fewer) + b);
        law_zero_byte_separates(a, b);
        assert(zeros(count) + b =~= none + seq![0u8] + (zeros(fewer) + b));
        assert(a + zeros(count) =~= a + zeros(fewer) + seq![0u8] + none);
        assert(a + zeros(count) + b =~= a + seq![0u8] + (zeros(fewer) + b));
        assert(Seq::<Seq<char>>::empty() + listed(zeros(fewer) + b) =~= listed(zeros(fewer) + b));
        assert(listed(a + zeros(fewer)) + Seq::<Seq<char>>::empty() =~= listed(a + zeros(fewer)));
    }
}

/// The bytes of several texts with zero bytes around them: `counts[0]` before the first, and
/// `counts[i + 1]` behind text `i`.
pub open spec fn padded_list(list: Seq<Seq<char>>, counts: Seq<nat>) -> Seq<u8>
    decreases list.len(),
{
    if list.len() == 0 {
        zeros(counts[0])
    } else {
        padded_list(list.drop_last(), counts.drop_last()) + vstd::utf8::encode_utf8(list.last())
            + zeros(counts.last())
    }
}

proof fn lemma_one_text_listed(s: Seq<char>)
    requires
        s.len() > 0,
        forall|j: int| 0 <= j < s.len() ==> #[trigger] s[j] as u32 != 0,
    ensures
        listed(vstd::utf8::encode_utf8(s)) == seq![s],
{
    let bytes = vstd::utf8::encode_utf8(s);
    lemma_no_zero_byte(s);
    assert(!bytes.contains(0u8));
    text::law_join_is_split(seq![bytes], 0u8);
    vstd::utf8::encode_utf8_valid_utf8(s);
    vstd::utf8::encode_utf8_decode_utf8(s);
    assert(seq![bytes].drop_last() =~= Seq::<Seq<u8>>::empty());
    assert(kept_texts(Seq::<Seq<u8>>::empty()) =~= Seq::<Seq<char>>::empty());
    assert(listed(bytes) =~= seq![s]);
}

/// A list of texts that are not empty and hold no NUL character is read back from its bytes,
/// however many zero bytes stand before the first text, behind the last, and, where there is at
/// least one, between two.
pub proof fn law_padded_list_read_back(list: Seq<Seq<char>>, counts: Seq<nat>)
    requires
        counts.len() == list.len() + 1,
        forall|i: int| 0 < i < list.len() ==> #[trigger] counts[i] > 0,
        forall|i: int| 0 <= i < list.len() ==> (#[trigger] list[i]).len() > 0,
        forall|i: int, j: int|
            0 <= i < list.len() && 0 <= j < list[i].len() ==> #[trigger] list[i][j] as u32 != 0,
    ensures
        listed(padded_list(list, counts)) == list,
    decreases list.len(),
{
    let none = Seq::<u8>::empty();
    if list.len() == 0 {
        lemma_nothing_listed();
        law_more_zero_bytes_do_not_matter(none, counts[0], none);
        assert(zeros(counts[0]) + none =~= zeros(counts[0]));
        assert(list =~= Seq::<Seq<char>>::empty());
    } else {
        let rest = list.drop_last();
        let s = list.last();
        let bytes = vstd::utf8::encode_utf8(s);
        let end = counts.last();
        let front = counts.drop_last();
        assert(s == list[list.len() - 1]);
        assert forall|j: int| 0 <= j < s.len() implies #[trigger] s[j] as u32 != 0 by {
            assert(list[list.len() - 1][j] as u32 != 0);
        }
        lemma_one_text_listed(s);
        law_more_zero_bytes_do_not_matter(bytes, end, none);
        assert forall|i: int| 0 <= i < rest.len() implies (#[trigger] rest[i]).len() > 0 by {
            assert(rest[i] == list[i]);
        }
        assert forall|i: int, j: int|
            0 <= i < rest.len() && 0 <= j < rest[i].len() implies #[trigger] rest[i][j] as u32
            != 0 by {
            assert(list[i][j] as u32 != 0);
        }
        if rest.len() == 0 {
            law_more_zero_bytes_do_not_matter(none, front[0], bytes + zeros(end));
            assert(padded_list(rest, front) == zeros(front[0]));
            assert(padded_list(list, counts) =~= zeros(front[0]) + (bytes + zeros(end)));
            assert(list =~= seq![s]);
        } else {
            assert(counts[list.len() - 1] > 0);
            let fewer = front.update(front.len() - 1, (front.last() - 1) as nat);
            assert forall|i: int| 0 < i < rest.len() implies #[trigger] fewer[i] > 0 by {
                assert(fewer[i] == counts[i]);
            }
            law_padded_list_read_back(rest, fewer);
            let head = padded_list(rest, fewer);
            assert(fewer.drop_last() =~= front.drop_last());
            assert(zeros(front.last()) =~= zeros(fewer.last()) + seq![0u8]);
            assert(padded_list(rest, front) =~= head + seq![0u8]);
            law_zero_byte_separates(head, bytes + zeros(end));
            assert(padded_list(list, counts) =~= head + seq![0u8] + (bytes + zeros(end)));
            assert(rest + seq![s] =~= list);
        }
    }
}

/// A list that was written entry by entry, each ended by a zero byte, is read back entry by entry,
/// where no entry is empty or holds a zero character.
pub proof fn law_list_read_back(list: Seq<Seq<char>>)
    requires
        forall|i: int| 0 <= i < list.len() ==> (#[trigger] list[i]).len() > 0,
        forall|i: int, j: int|
            0 <= i < list.len() && 0 <= j < list[i].len() ==> #[trigger] list[i][j] as u32 != 0,
    ensures
        listed(zero_ended_list(list)) == list,
{
    lemma_list_read_back(list);
}

/// A dictionary that was written key by value is read back with the values under their keys.
pub proof fn law_dictionary_read_back(
    list: Seq<Seq<char>>,
    key: Seq<char>,
    value: Seq<char>,
)
    requires
        list.len() % 2 == 0,
        forall|i: int| 0 <= i < list.len() ==> (#[trigger] list[i]).len() > 0,
        forall|i: int, j: int|
            0 <= i < list.len() && 0 <= j < list[i].len() ==> #[trigger] list[i][j] as u32 != 0,
        key.len() > 0,
        value.len() > 0,
        forall|j: int| 0 <= j < key.len() ==> #[trigger] key[j] as u32 != 0,
        forall|j: int| 0 <= j < value.len() ==> #[trigger] value[j] as u32 != 0,
    ensures
        ({
            let before = zero_ended_list(list);
            let after = before + zero_ended(key) + zero_ended(value);
            paired(listed(after)) == paired(listed(before)).insert(key, value)
        }),
{
    let longer = list.push(key);
    let whole = longer.push(value);
    assert(longer.drop_last() =~= list);
    assert(whole.drop_last() =~= longer);
    law_list_read_back(list);
    assert forall|i: int| 0 <= i < whole.len() implies (#[trigger] whole[i]).len() > 0 by {
        if i < list.len() {
            assert(whole[i] == list[i]);
        }
    }
    assert forall|i: int, j: int|
        0 <= i < whole.len() && 0 <= j < whole[i].len() implies #[trigger] whole[i][j] as u32
        != 0 by {
        if i < list.len() {
            assert(whole[i] == list[i]);
            assert(list[i][j] as u32 != 0);
        } else if i == list.len() {
            assert(key[j] as u32 != 0);
        } else {
            assert(value[j] as u32 != 0);
        }
    }
    law_list_read_back(whole);
    assert(longer.last() == key && whole.last() == value);
    assert(zero_ended_list(longer) == zero_ended_list(list) + zero_ended(key));
    assert(zero_ended_list(whole) == zero_ended_list(longer) + zero_ended(value));
    assert(whole.take(whole.len() - 2) =~= list);
}

/// A text as the device expects it: UTF-8, then a zero byte.
pub fn nul(value: String) -> (r: Vec<u8>)
    ensures
        r@ == zero_ended(value@),
{
    let mut bytes: Vec<u8> = vstd::slice::slice_to_vec(value.as_str().as_bytes());
    bytes.push(0);
    bytes
}

/// The texts in a list whose entries end with zero bytes; empty entries do not count.
/// None of the texts is empty, and none holds a NUL character, whatever the bytes are.
pub fn strings(bytes: &[u8]) -> (r: Vec<String>)
    ensures
        texts(r@) == listed(bytes@),
        forall|k: int|
            0 <= k < r@.len() ==> (#[trigger] r@[k])@.len() > 0 && !r@[k]@.contains('\0'),
{
    let mut out: Vec<String> = Vec::new();
    let mut start: usize = 0;
    let mut i: usize = 0;
    while i < bytes.len()
        invariant
            start <= i <= bytes@.len(),
            text::pieces(bytes@.take(i as int), 0u8).len() > 0,
            texts(out@) == kept_texts(text::pieces(bytes@.take(i as int), 0u8).drop_last()),
            bytes@.subrange(start as int, i as int) == text::pieces(
                bytes@.take(i as int),
                0u8,
            ).last(),
            forall|k: int|
                0 <= k < out@.len() ==> (#[trigger] out@[k])@.len() > 0 && !out@[k]@.contains('\0'),
        decreases bytes.len() - i,
    {
        proof {
            text::law_pieces_join(bytes@.take(i as int), 0u8);
        }
        let ghost before = text::pieces(bytes@.take(i as int), 0u8);
        let ghost after = text::pieces(bytes@.take(i + 1), 0u8);
        assert(bytes@.take(i + 1).drop_last() =~= bytes@.take(i as int));
        if bytes[i] == 0 {
            let ghost old_out = out@;
            if start < i {
                let item: String = lossy(vstd::slice::slice_subrange(bytes, start, i));
                out.push(item);
                assert(texts(out@) =~= texts(old_out).push(item@));
            }
            start = i + 1;
            assert(after.drop_last() =~= before);
            assert(bytes@.subrange(start as int, i + 1) =~= after.last());
        } else {
            assert(after.drop_last() =~= before.drop_last());
            assert(bytes@.subrange(start as int, i + 1) =~= after.last());
        }
        i += 1;
    }
    assert(bytes@.take(i as int) =~= bytes@);
    proof {
        text::law_pieces_join(bytes@, 0u8);
    }
    let ghost old_out = out@;
    if start < i {
        let item: String = lossy(vstd::slice::slice_subrange(bytes, start, i));
        out.push(item);
        assert(texts(out@) =~= texts(old_out).push(item@));
    }
    out
}

/// The entries of a list that pairs keys with values; of two values for one key the later counts.
pub open spec fn paired(list: Seq<Seq<char>>) -> Map<Seq<char>, Seq<char>>
    decreases list.len(),
{
    if list.len() < 2 {
        Map::empty()
    } else {
        paired(list.take(list.len() - 2)).insert(list[list.len() - 2], list[list.len() - 1])
    }
}

/// The entries that a table of strings holds.
pub open spec fn entries(values: StringHashMap<String>) -> Map<Seq<char>, Seq<char>> {
    values@.map_values(|s: String| s@)
}

/// The entries of a dictionary that the device sent.
pub fn dictionary(bytes: &[u8]) -> (r: Result<StringHashMap<String>>)
    ensures
        match r {
            Ok(values) => listed(bytes@).len() % 2 == 0 && entries(values) == paired(listed(bytes@)),
            Err(e) => listed(bytes@).len() % 2 != 0 && error::complains(
                e,
                "malformed key/value data"@,
            ),
        },
{
    let list: Vec<String> = strings(bytes);
    assert(listed(bytes@).len() == list@.len());
    if list.len() % 2 != 0 {
        return Err(Error::InvalidAfcResponse("malformed key/value data".to_owned()));
    }
    let mut values: StringHashMap<String> = StringHashMap::new();
    let mut i: usize = 0;
    assert(entries(values) =~= Map::<Seq<char>, Seq<char>>::empty());
    while i < list.len()
        invariant
            i <= list@.len(),
            i % 2 == 0,
            list@.len() % 2 == 0,
            entries(values) == paired(texts(list@).take(i as int)),
        decreases list.len() - i,
    {
        let ghost before = values;
        values.insert(list[i].clone(), list[i + 1].clone());
        proof {
            let part = texts(list@).take(i + 2);
            assert(part.take(part.len() - 2) =~= texts(list@).take(i as int));
            assert(entries(values) =~= entries(before).insert(list@[i as int]@, list@[i + 1]@));
        }
        i += 2;
    }
    assert(texts(list@).take(i as int) =~= texts(list@));
    Ok(values)
}

/// Takes the value of a key out of a dictionary.
pub fn take(values: &mut StringHashMap<String>, key: &str) -> (r: Result<String>)
    ensures
        match r {
            Ok(value) => {
                &&& entries(*old(values)).contains_key(key@)
                &&& value@ == entries(*old(values))[key@]
                &&& entries(*final(values)) == entries(*old(values)).remove(key@)
            },
            Err(e) => {
                &&& !entries(*old(values)).contains_key(key@)
                &&& error::complains(e, "missing "@ + key@)
                &&& entries(*final(values)) == entries(*old(values))
            },
        },
{
    let found: Option<String> = match values.get(key) {
        Some(value) => Some(value.clone()),
        None => None,
    };
    match found {
        Some(value) => {
            values.remove(key);
            assert(entries(*values) =~= entries(*old(values)).remove(key@));
            Ok(value)
        },
        None => Err(Error::InvalidAfcResponse(text::joined("missing ", key))),
    }
}

/// The number that stands under a key of a dictionary, or the words for its absence.
pub open spec fn number_in(
    values: Map<Seq<char>, Seq<char>>,
    key: Seq<char>,
    max: nat,
) -> std::result::Result<nat, Seq<char>> {
    if !values.contains_key(key) {
        Err("missing "@ + key)
    } else {
        match text::unsigned_value(values[key], max) {
            Some(value) => Ok(value),
            None => Err("invalid "@ + key),
        }
    }
}

/// Takes the value of a key out of a dictionary and reads it as a number not above `max`.
pub fn parse(values: &mut StringHashMap<String>, key: &str, max: u64) -> (r: Result<u64>)
    ensures
        match number_in(entries(*old(values)), key@, max as nat) {
            Ok(value) => r == Ok::<u64, Error>(value as u64) && value <= max,
            Err(words) => r matches Err(e) && error::complains(e, words),
        },
        entries(*final(values)) == entries(*old(values)).remove(key@),
{
    match take(values, key) {
        Ok(value) => {
            let digits: Vec<char> = text::chars(value.as_str());
            match text::parse_unsigned(digits.as_slice(), max) {
                Some(number) => Ok(number),
                None => Err(Error::InvalidAfcResponse(text::joined("invalid ", key))),
            }
        },
        Err(e) => {
            assert(entries(*values) =~= entries(*old(values)).remove(key@));
            Err(e)
        },
    }
}

/// The time that a value of a dictionary stands for, in nanoseconds since 1970: the start of 1970
/// where it stands for none.
pub open spec fn time_of(value: Option<Seq<char>>) -> u64 {
    match value {
        Some(digits) => match text::unsigned_value(digits, u64::MAX as nat) {
            Some(nanos) => nanos as u64,
            None => 0,
        },
        None => 0,
    }
}

/// The time that a value of a dictionary stands for.
pub fn timestamp(value: Option<String>) -> (r: u64)
    ensures
        r == time_of(optional_text(value)),
{
    match value {
        Some(value) => {
            let digits: Vec<char> = text::chars(value.as_str());
            match text::parse_unsigned(digits.as_slice(), u64::MAX) {
                Some(nanos) => nanos,
                None => 0,
            }
        },
        None => 0,
    }
}

/// The value of a key of a dictionary, where it has one.
pub open spec fn value_in(values: Map<Seq<char>, Seq<char>>, key: Seq<char>) -> Option<Seq<char>> {
    if values.contains_key(key) {
        Some(values[key])
    } else {
        None
    }
}

/// Takes the value of a key out of a dictionary, where it has one.
fn remove(values: &mut StringHashMap<String>, key: &str) -> (r: Option<String>)
    ensures
        optional_text(r) == value_in(entries(*old(values)), key@),
        entries(*final(values)) == entries(*old(values)).remove(key@),
{
    match take(values, key) {
        Ok(value) => Some(value),
        Err(_) => {
            assert(entries(*values) =~= entries(*old(values)).remove(key@));
            None
        },
    }
}

/// The kind of object that a word of the device stands for.
pub open spec fn kind_of(word: Seq<char>) -> Option<RemoteFileType> {
    if word == "S_IFREG"@ {
        Some(RemoteFileType::RegularFile)
    } else if word == "S_IFDIR"@ {
        Some(RemoteFileType::Directory)
    } else if word == "S_IFLNK"@ {
        Some(RemoteFileType::Symlink)
    } else if word == "S_IFBLK"@ {
        Some(RemoteFileType::BlockDevice)
    } else if word == "S_IFCHR"@ {
        Some(RemoteFileType::CharDevice)
    } else if word == "S_IFIFO"@ {
        Some(RemoteFileType::NamedPipe)
    } else if word == "S_IFSOCK"@ {
        Some(RemoteFileType::Socket)
    } else {
        None
    }
}

/// The kind of object that a word of the device stands for.
fn kind(word: &str) -> (r: Option<RemoteFileType>)
    ensures
        r == kind_of(word@),
{
    if text::same(word, "S_IFREG") {
        Some(RemoteFileType::RegularFile)
    } else if text::same(word, "S_IFDIR") {
        Some(RemoteFileType::Directory)
    } else if text::same(word, "S_IFLNK") {
        Some(RemoteFileType::Symlink)
    } else if text::same(word, "S_IFBLK") {
        Some(RemoteFileType::BlockDevice)
    } else if text::same(word, "S_IFCHR") {
        Some(RemoteFileType::CharDevice)
    } else if text::same(word, "S_IFIFO") {
        Some(RemoteFileType::NamedPipe)
    } else if text::same(word, "S_IFSOCK") {
        Some(RemoteFileType::Socket)
    } else {
        None
    }
}

/// What a dictionary says of a path, or the words for what is wrong with it.
pub open spec fn file_facts(values: Map<Seq<char>, Seq<char>>) -> std::result::Result<
    FileFacts,
    Seq<char>,
> {
    if !values.contains_key("st_ifmt"@) {
        Err("missing "@ + "st_ifmt"@)
    } else {
        match (
            kind_of(values["st_ifmt"@]),
            number_in(values, "st_size"@, u64::MAX as nat),
            number_in(values, "st_blocks"@, u64::MAX as nat),
            number_in(values, "st_nlink"@, u32::MAX as nat),
        ) {
            (None, _, _, _) => Err("unknown file type "@ + values["st_ifmt"@]),
            (Some(_), Err(words), _, _) => Err(words),
            (Some(_), Ok(_), Err(words), _) => Err(words),
            (Some(_), Ok(_), Ok(_), Err(words)) => Err(words),
            (Some(kind), Ok(size), Ok(blocks), Ok(nlink)) => Ok(
                FileFacts {
                    size: size as u64,
                    blocks: blocks as u64,
                    created: time_of(value_in(values, "st_birthtime"@)),
                    modified: time_of(value_in(values, "st_mtime"@)),
                    nlink: nlink as u32,
                    kind,
                    link_target: if values.contains_key("LinkTarget"@) {
                        Some(values["LinkTarget"@])
                    } else {
                        value_in(values, "st_link_target"@)
                    },
                },
            ),
        }
    }
}

/// What an answer to a question for a path says, or the words for what is wrong with it.
pub open spec fn file_answer(payload: Seq<u8>) -> std::result::Result<FileFacts, Seq<char>> {
    if listed(payload).len() % 2 != 0 {
        Err("malformed key/value data"@)
    } else {
        file_facts(paired(listed(payload)))
    }
}

/// What a dictionary says of the device, or the words for what is wrong with it.
pub open spec fn device_facts(values: Map<Seq<char>, Seq<char>>) -> std::result::Result<
    DeviceFacts,
    Seq<char>,
> {
    match (
        number_in(values, "FSTotalBytes"@, u64::MAX as nat),
        number_in(values, "FSFreeBytes"@, u64::MAX as nat),
        number_in(values, "FSBlockSize"@, u32::MAX as nat),
    ) {
        (Err(words), _, _) => Err(words),
        (Ok(_), Err(words), _) => Err(words),
        (Ok(_), Ok(_), Err(words)) => Err(words),
        (Ok(total), Ok(free), Ok(block)) => Ok(
            DeviceFacts {
                total_bytes: total as u64,
                free_bytes: free as u64,
                block_size: block as u32,
                model: if values.contains_key("Model"@) {
                    values["Model"@]
                } else {
                    Seq::empty()
                },
            },
        ),
    }
}

/// What an answer to a question for the device says, or the words for what is wrong with it.
pub open spec fn device_answer(payload: Seq<u8>) -> std::result::Result<DeviceFacts, Seq<char>> {
    if listed(payload).len() % 2 != 0 {
        Err("malformed key/value data"@)
    } else {
        device_facts(paired(listed(payload)))
    }
}

proof fn lemma_keys_distinct()
    ensures
        "st_ifmt"@ != "st_size"@,
        "st_ifmt"@ != "st_blocks"@,
        "st_ifmt"@ != "st_birthtime"@,
        "st_ifmt"@ != "st_mtime"@,
        "st_ifmt"@ != "st_nlink"@,
        "st_ifmt"@ != "LinkTarget"@,
        "st_ifmt"@ != "st_link_target"@,
        "st_size"@ != "st_blocks"@,
        "st_size"@ != "st_birthtime"@,
        "st_size"@ != "st_mtime"@,
        "st_size"@ != "st_nlink"@,
        "st_size"@ != "LinkTarget"@,
        "st_size"@ != "st_link_target"@,
        "st_blocks"@ != "st_birthtime"@,
        "st_blocks"@ != "st_mtime"@,
        "st_blocks"@ != "st_nlink"@,
        "st_blocks"@ != "LinkTarget"@,
        "st_blocks"@ != "st_link_target"@,
        "st_birthtime"@ != "st_mtime"@,
        "st_birthtime"@ != "st_nlink"@,
        "st_birthtime"@ != "LinkTarget"@,
        "st_birthtime"@ != "st_link_target"@,
        "st_mtime"@ != "st_nlink"@,
        "st_mtime"@ != "LinkTarget"@,
        "st_mtime"@ != "st_link_target"@,
        "st_nlink"@ != "LinkTarget"@,
        "st_nlink"@ != "st_link_target"@,
        "LinkTarget"@ != "st_link_target"@,
        "FSTotalBytes"@ != "FSFreeBytes"@,
        "FSTotalBytes"@ != "FSBlockSize"@,
        "FSTotalBytes"@ != "Model"@,
        "FSFreeBytes"@ != "FSBlockSize"@,
        "FSFreeBytes"@ != "Model"@,
        "FSBlockSize"@ != "Model"@,
{
    reveal_strlit("st_ifmt");
    reveal_strlit("st_size");
    reveal_strlit("st_blocks");
    reveal_strlit("st_birthtime");
    reveal_strlit("st_mtime");
    reveal_strlit("st_nlink");
    reveal_strlit("LinkTarget");
    reveal_strlit("st_link_target");
    reveal_strlit("FSTotalBytes");
    reveal_strlit("FSFreeBytes");
    reveal_strlit("FSBlockSize");
    reveal_strlit("Model");
    assert("st_ifmt"@.len() == 7);
    assert("st_size"@.len() == 7);
    assert("st_blocks"@.len() == 9);
    assert("st_birthtime"@.len() == 12);
    assert("st_mtime"@.len() == 8);
    assert("st_nlink"@.len() == 8);
    assert("LinkTarget"@.len() == 10);
    assert("st_link_target"@.len() == 14);
    assert("FSTotalBytes"@.len() == 12);
    assert("FSFreeBytes"@.len() == 11);
    assert("FSBlockSize"@.len() == 11);
    assert("Model"@.len() == 5);
    assert("st_ifmt"@[3] != "st_size"@[3]);
    assert("st_mtime"@[3] != "st_nlink"@[3]);
    assert("FSFreeBytes"@[2] != "FSBlockSize"@[2]);
}

/// The dictionary in which the device says something of a path, with a word for its kind.
pub open spec fn file_dictionary(facts: FileFacts, word: Seq<char>) -> Map<Seq<char>, Seq<char>> {
    let values = Map::<Seq<char>, Seq<char>>::empty().insert("st_ifmt"@, word).insert(
        "st_size"@,
        text::decimal(facts.size as nat),
    ).insert("st_blocks"@, text::decimal(facts.blocks as nat)).insert(
        "st_nlink"@,
        text::decimal(facts.nlink as nat),
    ).insert("st_birthtime"@, text::decimal(facts.created as nat)).insert(
        "st_mtime"@,
        text::decimal(facts.modified as nat),
    );
    match facts.link_target {
        Some(target) => values.insert("LinkTarget"@, target),
        None => values,
    }
}

/// What the device says of a path in a dictionary is what is known of the path.
pub proof fn law_file_facts_read_back(facts: FileFacts, word: Seq<char>)
    requires
        kind_of(word) == Some(facts.kind),
    ensures
        file_facts(file_dictionary(facts, word)) == Ok::<FileFacts, Seq<char>>(facts),
{
    lemma_keys_distinct();
    text::law_decimal_read_back(facts.size as nat, u64::MAX as nat);
    text::law_decimal_read_back(facts.blocks as nat, u64::MAX as nat);
    text::law_decimal_read_back(facts.nlink as nat, u32::MAX as nat);
    text::law_decimal_read_back(facts.created as nat, u64::MAX as nat);
    text::law_decimal_read_back(facts.modified as nat, u64::MAX as nat);
}

/// What an answer to a question for a path says of it.
pub fn read_file_info(payload: &[u8]) -> (r: Result<RemoteFileInfo>)
    ensures
        match file_answer(payload@) {
            Ok(facts) => r matches Ok(info) && info@ == facts,
            Err(words) => r matches Err(e) && error::complains(e, words),
        },
{
    proof {
        lemma_keys_distinct();
    }
    let mut values: StringHashMap<String> = match dictionary(payload) {
        Ok(values) => values,
        Err(e) => return Err(e),
    };
    let word: String = match take(&mut values, "st_ifmt") {
        Ok(word) => word,
        Err(e) => return Err(e),
    };
    let kind: RemoteFileType = match kind(word.as_str()) {
        Some(kind) => kind,
        None => {
            return Err(
                Error::InvalidAfcResponse(text::joined("unknown file type ", word.as_str())),
            );
        },
    };
    let size: u64 = match parse(&mut values, "st_size", u64::MAX) {
        Ok(size) => size,
        Err(e) => return Err(e),
    };
    let blocks: u64 = match parse(&mut values, "st_blocks", u64::MAX) {
        Ok(blocks) => blocks,
        Err(e) => return Err(e),
    };
    let created: u64 = timestamp(remove(&mut values, "st_birthtime"));
    let modified: u64 = timestamp(remove(&mut values, "st_mtime"));
    let nlink: u64 = match parse(&mut values, "st_nlink", 0xffff_ffff) {
        Ok(nlink) => nlink,
        Err(e) => return Err(e),
    };
    let link_target: Option<String> = match remove(&mut values, "LinkTarget") {
        Some(target) => Some(target),
        None => remove(&mut values, "st_link_target"),
    };
    Ok(RemoteFileInfo { size, blocks, created, modified, nlink: nlink as u32, kind, link_target })
}

/// What an answer to a question for the device says of it.
pub fn read_device_info(payload: &[u8]) -> (r: Result<RemoteDeviceInfo>)
    ensures
        match device_answer(payload@) {
            Ok(facts) => r matches Ok(info) && info@ == facts,
            Err(words) => r matches Err(e) && error::complains(e, words),
        },
{
    proof {
        lemma_keys_distinct();
    }
    let mut values: StringHashMap<String> = match dictionary(payload) {
        Ok(values) => values,
        Err(e) => return Err(e),
    };
    let total_bytes: u64 = match parse(&mut values, "FSTotalBytes", u64::MAX) {
        Ok(total) => total,
        Err(e) => return Err(e),
    };
    let free_bytes: u64 = match parse(&mut values, "FSFreeBytes", u64::MAX) {
        Ok(free) => free,
        Err(e) => return Err(e),
    };
    let block_size: u64 = match parse(&mut values, "FSBlockSize", 0xffff_ffff) {
        Ok(block) => block,
        Err(e) => return Err(e),
    };
    let model: String = match remove(&mut values, "Model") {
        Some(model) => model,
        None => String::new(),
    };
    Ok(RemoteDeviceInfo { total_bytes, free_bytes, block_size: block_size as u32, model })
}

} // verus!
