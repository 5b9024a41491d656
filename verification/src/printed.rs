//! How network addresses are printed, and that what is printed is read back.

use vstd::prelude::*;

use crate::address;
use crate::address::IpAddress;
use crate::error::{Error, Result};
use crate::text;

verus! {

/// The lower-case hexadecimal digit of a number below sixteen.
pub open spec fn hex_char(digit: nat) -> char {
    if digit < 10 {
        (0x30 + digit) as char
    } else {
        (0x61 + digit - 10) as char
    }
}

/// A number in hexadecimal notation, without leading zeros.
pub open spec fn hex(n: nat) -> Seq<char>
    decreases n,
{
    if n < 16 {
        seq![hex_char(n)]
    } else {
        hex(n / 16).push(hex_char(n % 16))
    }
}

/// The hexadecimal notations of several groups.
pub open spec fn hex_parts(all: Seq<u16>) -> Seq<Seq<char>> {
    all.map_values(|group: u16| hex(group as nat))
}

/// Groups in hexadecimal notation, with a colon between any two.
pub open spec fn colon_text(all: Seq<u16>) -> Seq<char> {
    text::join(hex_parts(all), ':')
}

/// The decimal notations of several octets.
pub open spec fn decimal_parts(octets: Seq<u8>) -> Seq<Seq<char>> {
    octets.map_values(|octet: u8| text::decimal(octet as nat))
}

/// Octets in decimal notation, with a dot between any two.
pub open spec fn dotted_text(octets: Seq<u8>) -> Seq<char> {
    text::join(decimal_parts(octets), '.')
}

/// How many zero groups stand side by side from a position on.
pub open spec fn zeros_from(all: Seq<u16>, start: int) -> nat
    decreases all.len() - start,
{
    if 0 <= start < all.len() && all[start] == 0 {
        1 + zeros_from(all, start + 1)
    } else {
        0
    }
}

/// Where the longest run of zero groups that starts at `start` or later starts; the first of
/// those that are equally long.
pub open spec fn longest_zeros(all: Seq<u16>, start: int) -> int
    decreases all.len() - start,
{
    if start >= all.len() {
        start
    } else {
        let later = longest_zeros(all, start + 1);
        if zeros_from(all, start) >= zeros_from(all, later) {
            start
        } else {
            later
        }
    }
}

/// Whether eight groups hold an address of four octets: five zero groups, a group of ones, and
/// the octets.
pub open spec fn is_mapped(all: Seq<u16>) -> bool {
    all.take(6) == seq![0u16, 0u16, 0u16, 0u16, 0u16, 0xffffu16]
}

/// The four octets that two groups hold.
pub open spec fn group_octets(high: u16, low: u16) -> Seq<u8> {
    seq![(high / 256) as u8, (high % 256) as u8, (low / 256) as u8, (low % 256) as u8]
}

/// Eight groups as `Display` of `Ipv6Addr` prints them: a mapped address with its octets between
/// dots; else the longest run of at least two zero groups as two colons; else all eight.
pub open spec fn groups_text(all: Seq<u16>) -> Seq<char> {
    let start = longest_zeros(all, 0);
    let count = zeros_from(all, start);
    if is_mapped(all) {
        seq![':', ':'] + colon_text(seq![0xffffu16]) + seq![':'] + dotted_text(
            group_octets(all[6], all[7]),
        )
    } else if count > 1 {
        colon_text(all.take(start)) + seq![':', ':'] + colon_text(all.skip(start + count))
    } else {
        colon_text(all)
    }
}

/// An address as `Display` of `IpAddr` prints it.
pub open spec fn ip_text(ip: address::Ip) -> Seq<char> {
    match ip {
        address::Ip::V4(octets) => dotted_text(octets),
        address::Ip::V6(all) => groups_text(all),
    }
}

/// An address, and behind a percent sign its scope where it has one.
pub open spec fn scoped_text(ip: address::Ip, scope: Option<u32>) -> Seq<char> {
    match scope {
        Some(number) => ip_text(ip) + seq!['%'] + text::decimal(number as nat),
        None => ip_text(ip),
    }
}

/// Whether an address has its four octets or its eight groups.
pub open spec fn is_complete(ip: address::Ip) -> bool {
    match ip {
        address::Ip::V4(octets) => octets.len() == 4,
        address::Ip::V6(all) => all.len() == 8,
    }
}

/// Whether a character can stand in a printed address: a hexadecimal digit, a colon or a dot.
spec fn is_address_char(c: char) -> bool {
    address::hex_digit(c) is Some || c == ':' || c == '.'
}

spec fn is_address_text(s: Seq<char>) -> bool {
    forall|i: int| 0 <= i < s.len() ==> is_address_char(#[trigger] s[i])
}

spec fn is_hex_text(s: Seq<char>) -> bool {
    forall|i: int| 0 <= i < s.len() ==> address::hex_digit(#[trigger] s[i]) is Some
}

proof fn lemma_hex(n: nat)
    ensures
        is_hex_text(hex(n)),
        address::hex_value(hex(n)) == Some(n),
        1 <= hex(n).len(),
        n < 16 ==> hex(n).len() == 1,
        n < 256 ==> hex(n).len() <= 2,
        n < 4096 ==> hex(n).len() <= 3,
        n < 65536 ==> hex(n).len() <= 4,
    decreases n,
{
    let low = hex_char(n % 16);
    assert(address::hex_digit(low) == Some(n % 16));
    assert(hex(n).last() == low);
    if n < 16 {
        assert(hex(n).drop_last() =~= Seq::<char>::empty());
        assert(address::hex_value(Seq::<char>::empty()) == Some(0nat));
    } else {
        lemma_hex(n / 16);
        assert(hex(n).drop_last() =~= hex(n / 16));
        assert(n / 16 * 16 + n % 16 == n);
    }
}

proof fn lemma_hex_text_holds_no_mark(s: Seq<char>)
    requires
        is_hex_text(s),
    ensures
        !s.contains(':'),
        !s.contains('.'),
        is_address_text(s),
{
    assert(address::hex_digit(':') is None);
    assert(address::hex_digit('.') is None);
}

proof fn lemma_groups_of_hex(all: Seq<u16>)
    ensures
        address::groups(hex_parts(all)) == Some(all),
    decreases all.len(),
{
    if all.len() == 0 {
        assert(all =~= Seq::<u16>::empty());
    } else {
        lemma_groups_of_hex(all.drop_last());
        lemma_hex(all.last() as nat);
        assert(hex_parts(all).drop_last() =~= hex_parts(all.drop_last()));
        assert(hex_parts(all).last() == hex(all.last() as nat));
        assert(all.drop_last().push(all.last()) =~= all);
    }
}

proof fn lemma_pieces_of_colon_text(all: Seq<u16>)
    requires
        all.len() > 0,
    ensures
        text::pieces(colon_text(all), ':') == hex_parts(all),
{
    let parts = hex_parts(all);
    assert forall|i: int| 0 <= i < parts.len() implies !(#[trigger] parts[i]).contains(':') by {
        lemma_hex(all[i] as nat);
        lemma_hex_text_holds_no_mark(parts[i]);
    }
    text::law_join_is_split(parts, ':');
}

proof fn lemma_one_piece_is_no_ipv4(s: Seq<char>)
    requires
        !s.contains('.'),
    ensures
        address::ipv4(s) is None,
{
    text::law_join_is_split(seq![s], '.');
}

proof fn lemma_colon_text_read(all: Seq<u16>)
    requires
        all.len() > 0,
    ensures
        address::mixed_groups(colon_text(all)) == Some(all),
        address::groups(text::pieces(colon_text(all), ':')) == Some(all),
{
    lemma_pieces_of_colon_text(all);
    lemma_groups_of_hex(all);
    lemma_hex(all.last() as nat);
    lemma_hex_text_holds_no_mark(hex(all.last() as nat));
    lemma_one_piece_is_no_ipv4(hex_parts(all).last());
}

proof fn lemma_decimal_octet(octet: u8)
    ensures
        address::octet(text::decimal(octet as nat)) == Some(octet),
        is_hex_text(text::decimal(octet as nat)),
        text::decimal(octet as nat).len() > 0,
{
    let s = text::decimal(octet as nat);
    text::lemma_decimal_digits(octet as nat);
    assert forall|i: int| 0 <= i < s.len() implies address::hex_digit(#[trigger] s[i]) is Some by {
        assert(text::digit_value(s[i]) is Some);
    }
}

proof fn lemma_dotted_text_read(octets: Seq<u8>)
    requires
        octets.len() == 4,
    ensures
        address::ipv4(dotted_text(octets)) == Some(octets),
        !dotted_text(octets).contains(':'),
        is_address_text(dotted_text(octets)),
        dotted_text(octets).len() > 0,
{
    let parts = decimal_parts(octets);
    assert forall|i: int| 0 <= i < parts.len() implies !(#[trigger] parts[i]).contains('.') by {
        lemma_decimal_octet(octets[i]);
        lemma_hex_text_holds_no_mark(parts[i]);
    }
    text::law_join_is_split(parts, '.');
    lemma_decimal_octet(octets[0]);
    lemma_decimal_octet(octets[1]);
    lemma_decimal_octet(octets[2]);
    lemma_decimal_octet(octets[3]);
    assert(seq![octets[0], octets[1], octets[2], octets[3]] =~= octets);
    assert(parts.take(1) =~= seq![parts[0]]);
    assert(parts.take(2).drop_last() =~= parts.take(1));
    assert(parts.take(3).drop_last() =~= parts.take(2));
    assert(parts.take(4).drop_last() =~= parts.take(3));
    assert(parts.take(4) =~= parts);
    let one = text::join(parts.take(1), '.');
    let two = text::join(parts.take(2), '.');
    let three = text::join(parts.take(3), '.');
    assert(one == parts[0]);
    assert(two == one + seq!['.'] + parts[1]);
    assert(three == two + seq!['.'] + parts[2]);
    assert(dotted_text(octets) == three + seq!['.'] + parts[3]);
    assert(address::hex_digit(':') is None);
    assert forall|i: int| 0 <= i < dotted_text(octets).len() implies is_address_char(
        #[trigger] dotted_text(octets)[i],
    ) && dotted_text(octets)[i] != ':' by {
    }
}

/// Whether no two colons stand next to each other, none stands first and none last.
spec fn is_closed(s: Seq<char>) -> bool {
    &&& s.len() > 0
    &&& s[0] != ':'
    &&& s.last() != ':'
    &&& forall|i: int| 0 <= i < s.len() - 1 && #[trigger] s[i] == ':' ==> s[i + 1] != ':'
}

proof fn lemma_colon_text_shape(all: Seq<u16>)
    requires
        all.len() > 0,
    ensures
        is_closed(colon_text(all)),
        is_address_text(colon_text(all)),
        all.len() > 1 ==> colon_text(all).contains(':'),
    decreases all.len(),
{
    let parts = hex_parts(all);
    let last = hex(all.last() as nat);
    lemma_hex(all.last() as nat);
    lemma_hex_text_holds_no_mark(last);
    assert(address::hex_digit(':') is None);
    assert(parts.last() == last);
    if all.len() == 1 {
        assert(colon_text(all) == last);
    } else {
        lemma_colon_text_shape(all.drop_last());
        assert(parts.drop_last() =~= hex_parts(all.drop_last()));
        let head = colon_text(all.drop_last());
        assert(colon_text(all) == head.push(':') + last);
        assert(colon_text(all)[head.len() as int] == ':');
        assert forall|i: int| 0 <= i < colon_text(all).len() implies is_address_char(
            #[trigger] colon_text(all)[i],
        ) by {
            if i < head.len() {
                assert(colon_text(all)[i] == head[i]);
            } else if i > head.len() {
                assert(colon_text(all)[i] == last[i - head.len() - 1]);
            }
        }
        assert forall|i: int|
            0 <= i < colon_text(all).len() - 1 && #[trigger] colon_text(all)[i]
                == ':' implies colon_text(all)[i + 1] != ':' by {
            if i < head.len() {
                assert(head[i] == ':');
                assert(i < head.len() - 1);
                assert(head[i + 1] != ':');
            } else {
                assert(colon_text(all)[i + 1] == last[i - head.len()]);
            }
        }
    }
}

proof fn lemma_closed_text_has_no_gap(s: Seq<char>)
    requires
        forall|i: int| 0 <= i < s.len() - 1 && #[trigger] s[i] == ':' ==> s[i + 1] != ':',
    ensures
        address::first_gap(s) is None,
    decreases s.len(),
{
    if s.len() >= 2 {
        assert(!(s[0] == ':' && s[1] == ':'));
        let rest = s.skip(1);
        assert forall|i: int| 0 <= i < rest.len() - 1 && #[trigger] rest[i] == ':' implies rest[i
            + 1] != ':' by {
            assert(s[i + 1] == ':');
        }
        lemma_closed_text_has_no_gap(rest);
    }
}

proof fn lemma_gap_after(head: Seq<char>, tail: Seq<char>)
    requires
        head.len() > 0 ==> head.last() != ':',
        forall|i: int| 0 <= i < head.len() - 1 && #[trigger] head[i] == ':' ==> head[i + 1] != ':',
    ensures
        address::first_gap(head + seq![':', ':'] + tail) == Some(head.len() as int),
    decreases head.len(),
{
    let whole = head + seq![':', ':'] + tail;
    if head.len() == 0 {
        assert(whole[0] == ':' && whole[1] == ':');
    } else {
        let rest = head.skip(1);
        assert(whole[0] == head[0]);
        if head.len() > 1 {
            assert(whole[1] == head[1]);
            assert(rest.last() == head.last());
        } else {
            assert(head[0] == head.last());
        }
        assert(!(whole[0] == ':' && whole[1] == ':'));
        assert forall|i: int| 0 <= i < rest.len() - 1 && #[trigger] rest[i] == ':' implies rest[i
            + 1] != ':' by {
            assert(head[i + 1] == ':');
        }
        lemma_gap_after(rest, tail);
        assert(whole.skip(1) =~= rest + seq![':', ':'] + tail);
    }
}

proof fn lemma_zeros_from(all: Seq<u16>, start: int)
    requires
        0 <= start <= all.len(),
    ensures
        start + zeros_from(all, start) <= all.len(),
        forall|i: int| start <= i < start + zeros_from(all, start) ==> all[i] == 0,
    decreases all.len() - start,
{
    if start < all.len() && all[start] == 0 {
        lemma_zeros_from(all, start + 1);
    }
}

proof fn lemma_longest_zeros(all: Seq<u16>, start: int)
    requires
        0 <= start <= all.len(),
    ensures
        start <= longest_zeros(all, start) <= all.len(),
    decreases all.len() - start,
{
    if start < all.len() {
        lemma_longest_zeros(all, start + 1);
    }
}

/// The text before a gap, or behind it: no groups where there is no text.
proof fn lemma_colon_text_is_empty_for_none(all: Seq<u16>)
    ensures
        all.len() == 0 <==> colon_text(all).len() == 0,
        all.len() == 0 ==> colon_text(all) == Seq::<char>::empty(),
{
    if all.len() > 0 {
        lemma_colon_text_shape(all);
    } else {
        assert(colon_text(all) =~= Seq::<char>::empty());
    }
}

proof fn lemma_mapped_text_read(all: Seq<u16>)
    requires
        all.len() == 8,
        is_mapped(all),
    ensures
        address::ipv6(groups_text(all)) == Some(all),
        is_address_text(groups_text(all)),
        groups_text(all).contains(':'),
        groups_text(all).len() > 0,
{
    let octets = group_octets(all[6], all[7]);
    let head = Seq::<char>::empty();
    let ones = colon_text(seq![0xffffu16]);
    let dotted = dotted_text(octets);
    let tail = ones + seq![':'] + dotted;
    let whole = groups_text(all);
    lemma_dotted_text_read(octets);
    lemma_colon_text_shape(seq![0xffffu16]);
    lemma_pieces_of_colon_text(seq![0xffffu16]);
    lemma_groups_of_hex(seq![0xffffu16]);
    lemma_gap_after(head, tail);
    assert(whole =~= head + seq![':', ':'] + tail);
    assert(whole.skip(2) =~= tail);
    text::law_pieces_of_joined(ones, dotted, ':');
    text::law_join_is_split(seq![dotted], ':');
    assert(text::pieces(dotted, ':') == seq![dotted]);
    let parts = text::pieces(tail, ':');
    assert(parts == hex_parts(seq![0xffffu16]) + seq![dotted]);
    assert(parts.drop_last() =~= hex_parts(seq![0xffffu16]));
    assert(parts.last() == dotted);
    assert(address::mixed_groups(tail) == Some(seq![0xffffu16] + address::octet_groups(octets)));
    assert(address::octet_groups(octets) =~= seq![all[6], all[7]]);
    assert forall|i: int| 0 <= i < 6 implies all[i] == #[trigger] all.take(6)[i] by {
    }
    let found = Seq::<u16>::empty() + Seq::new(5, |i: int| 0u16) + (seq![0xffffu16]
        + address::octet_groups(octets));
    assert(all.take(6)[0] == 0 && all.take(6)[1] == 0 && all.take(6)[2] == 0 && all.take(6)[3] == 0
        && all.take(6)[4] == 0 && all.take(6)[5] == 0xffff);
    assert(found =~= all);
    assert(whole[0] == ':');
    assert forall|i: int| 0 <= i < whole.len() implies is_address_char(#[trigger] whole[i]) by {
        if i >= 2 && i < 2 + ones.len() {
            assert(whole[i] == ones[i - 2]);
        } else if i > 2 + ones.len() {
            assert(whole[i] == dotted[i - 3 - ones.len()]);
        }
    }
}

proof fn lemma_shortened_text_read(all: Seq<u16>, start: int, count: int)
    requires
        all.len() == 8,
        0 <= start,
        1 < count,
        start + count <= 8,
        forall|i: int| start <= i < start + count ==> all[i] == 0,
    ensures
        address::ipv6(
            colon_text(all.take(start)) + seq![':', ':'] + colon_text(all.skip(start + count)),
        ) == Some(all),
        is_address_text(
            colon_text(all.take(start)) + seq![':', ':'] + colon_text(all.skip(start + count)),
        ),
        (colon_text(all.take(start)) + seq![':', ':'] + colon_text(
            all.skip(start + count),
        )).contains(':'),
{
    let before = all.take(start);
    let after = all.skip(start + count);
    let head = colon_text(before);
    let tail = colon_text(after);
    let whole = head + seq![':', ':'] + tail;
    law_missing_groups_are_zeros(before, after);
    assert(before + Seq::new((8 - before.len() - after.len()) as nat, |i: int| 0u16) + after
        =~= all);
    lemma_shortened_text_shape(before, after);
}

proof fn lemma_shortened_text_shape(before: Seq<u16>, after: Seq<u16>)
    ensures
        is_address_text(colon_text(before) + seq![':', ':'] + colon_text(after)),
        (colon_text(before) + seq![':', ':'] + colon_text(after)).contains(':'),
{
    let head = colon_text(before);
    let tail = colon_text(after);
    let whole = head + seq![':', ':'] + tail;
    lemma_colon_text_is_empty_for_none(before);
    lemma_colon_text_is_empty_for_none(after);
    if before.len() > 0 {
        lemma_colon_text_shape(before);
    }
    if after.len() > 0 {
        lemma_colon_text_shape(after);
    }
    assert(whole[head.len() as int] == ':');
    assert forall|i: int| 0 <= i < whole.len() implies is_address_char(#[trigger] whole[i]) by {
        if i < head.len() {
            assert(whole[i] == head[i]);
        } else if i >= head.len() + 2 {
            assert(whole[i] == tail[i - head.len() - 2]);
        }
    }
}

proof fn lemma_groups_text_read(all: Seq<u16>)
    requires
        all.len() == 8,
    ensures
        address::ipv6(groups_text(all)) == Some(all),
        is_address_text(groups_text(all)),
        groups_text(all).contains(':'),
{
    let start = longest_zeros(all, 0);
    let count = zeros_from(all, start);
    lemma_longest_zeros(all, 0);
    lemma_zeros_from(all, start);
    if is_mapped(all) {
        lemma_mapped_text_read(all);
    } else if count > 1 {
        lemma_shortened_text_read(all, start, count as int);
    } else {
        lemma_colon_text_shape(all);
        lemma_closed_text_has_no_gap(colon_text(all));
        lemma_colon_text_read(all);
    }
}

proof fn lemma_digits_only(s: Seq<char>, i: int)
    requires
        0 <= i < s.len(),
        text::digits_value(s) is Some,
    ensures
        text::digit_value(s[i]) is Some,
    decreases s.len(),
{
    if i < s.len() - 1 {
        lemma_digits_only(s.drop_last(), i);
        assert(s.drop_last()[i] == s[i]);
    }
}

proof fn lemma_octet_holds_no_colon(s: Seq<char>)
    requires
        address::octet(s) is Some,
    ensures
        !s.contains(':'),
{
    if s.contains(':') {
        let i = choose|i: int| 0 <= i < s.len() && s[i] == ':';
        lemma_digits_only(s, i);
        assert(text::digit_value(':') is None);
    }
}

proof fn lemma_colon_is_in_a_piece(s: Seq<char>, separator: char)
    requires
        s.contains(':'),
        separator != ':',
    ensures
        exists|i: int|
            0 <= i < text::pieces(s, separator).len() && (#[trigger] text::pieces(
                s,
                separator,
            )[i]).contains(':'),
{
    let parts = text::pieces(s, separator);
    text::law_pieces_join(s, separator);
    if forall|i: int| 0 <= i < parts.len() ==> !(#[trigger] parts[i]).contains(':') {
        lemma_join_holds_no_other(parts, separator, ':');
    }
}

proof fn lemma_join_holds_no_other(parts: Seq<Seq<char>>, separator: char, other: char)
    requires
        separator != other,
        forall|i: int| 0 <= i < parts.len() ==> !(#[trigger] parts[i]).contains(other),
    ensures
        !text::join(parts, separator).contains(other),
    decreases parts.len(),
{
    if parts.len() > 1 {
        let rest = parts.drop_last();
        assert forall|i: int| 0 <= i < rest.len() implies !(#[trigger] rest[i]).contains(other) by {
            assert(rest[i] == parts[i]);
        }
        lemma_join_holds_no_other(rest, separator, other);
        let head = text::join(rest, separator);
        let whole = head.push(separator) + parts.last();
        assert(!parts[parts.len() - 1].contains(other));
        if whole.contains(other) {
            let i = choose|i: int| 0 <= i < whole.len() && whole[i] == other;
            if i < head.len() {
                assert(head[i] == other);
            } else if i > head.len() {
                assert(parts.last()[i - head.len() - 1] == other);
            }
        }
    }
}

proof fn lemma_colon_is_no_ipv4(s: Seq<char>)
    requires
        s.contains(':'),
    ensures
        address::ipv4(s) is None,
{
    let parts = text::pieces(s, '.');
    lemma_colon_is_in_a_piece(s, '.');
    if address::ipv4(s) is Some {
        lemma_octet_holds_no_colon(parts[0]);
        lemma_octet_holds_no_colon(parts[1]);
        lemma_octet_holds_no_colon(parts[2]);
        lemma_octet_holds_no_colon(parts[3]);
        let i = choose|i: int| 0 <= i < parts.len() && (#[trigger] parts[i]).contains(':');
        assert(i == 0 || i == 1 || i == 2 || i == 3);
    }
}

proof fn lemma_ip_text_read(ip: address::Ip)
    requires
        is_complete(ip),
    ensures
        address::ip(ip_text(ip)) == Some(ip),
        is_address_text(ip_text(ip)),
        ip_text(ip).len() > 0,
        ip is V6 ==> ip_text(ip).contains(':'),
{
    match ip {
        address::Ip::V4(octets) => {
            lemma_dotted_text_read(octets);
        },
        address::Ip::V6(all) => {
            lemma_groups_text_read(all);
            lemma_colon_is_no_ipv4(groups_text(all));
        },
    }
}

proof fn lemma_address_char_is_plain(c: char)
    requires
        is_address_char(c) || c == '%',
    ensures
        !text::is_white_space(c),
        c != '[',
        is_address_char(c) ==> c != '%',
{
    assert(address::hex_digit('%') is None);
    assert(address::hex_digit('[') is None);
}

/// White space around a text does not change the address that it stands for.
pub proof fn law_white_space_does_not_matter(before: Seq<char>, s: Seq<char>, after: Seq<char>)
    requires
        text::is_blank(before),
        text::is_blank(after),
    ensures
        address::network_address(before + s + after) == address::network_address(s),
{
    text::law_trimming_forgets_white_space(before, s, after);
}

proof fn lemma_bare_text(ip: address::Ip)
    requires
        is_complete(ip),
    ensures
        ({
            let s = ip_text(ip);
            &&& text::last_index(s, '%') is None
            &&& s.len() > 0
            &&& s[0] != '['
            &&& text::trimmed(s) == s
            &&& address::ip(s) == Some(ip)
            &&& ip is V6 ==> s.contains(':')
            &&& !text::is_white_space(s[0])
        }),
{
    let s = ip_text(ip);
    lemma_ip_text_read(ip);
    assert(is_address_char(s[0]));
    assert(is_address_char(s[s.len() - 1]));
    lemma_address_char_is_plain(s[0]);
    lemma_address_char_is_plain(s.last());
    text::lemma_last_index(s, '%');
    if let Some(k) = text::last_index(s, '%') {
        assert(is_address_char(s[k]));
        lemma_address_char_is_plain(s[k]);
    }
}

proof fn lemma_text_behind_scope_sign(ip: address::Ip, words: Seq<char>)
    requires
        is_complete(ip),
        ip is V6,
        !words.contains('%'),
        words.len() > 0 ==> !text::is_white_space(words.last()),
    ensures
        ({
            let s = ip_text(ip) + seq!['%'] + words;
            let k = ip_text(ip).len() as int;
            &&& text::last_index(s, '%') == Some(k)
            &&& s.take(k) == ip_text(ip)
            &&& s.skip(k + 1) == words
            &&& s.len() > 0
            &&& text::trimmed(s) == s
            &&& address::unbracketed(s) == s
            &&& s[0] != '['
        }),
{
    let bare = ip_text(ip);
    let s = bare + seq!['%'] + words;
    lemma_bare_text(ip);
    text::lemma_last_index(s, '%');
    assert(s[bare.len() as int] == '%');
    assert forall|i: int| bare.len() < i < s.len() implies #[trigger] s[i] != '%' by {
        assert(s[i] == words[i - bare.len() - 1]);
    }
    assert(s.take(bare.len() as int) =~= bare);
    assert(s.skip(bare.len() as int + 1) =~= words);
    assert(s[0] == bare[0]);
    if words.len() > 0 {
        assert(s.last() == words.last());
    } else {
        assert(s.last() == '%');
    }
    assert(!text::is_white_space(s.last()));
    assert(text::trimmed(s) == s);
}

proof fn lemma_scoped_text(ip: address::Ip, scope: Option<u32>)
    requires
        is_complete(ip),
        scope is Some ==> ip is V6,
    ensures
        ({
            let s = scoped_text(ip, scope);
            &&& s.len() > 0
            &&& text::trimmed(s) == s
            &&& address::unbracketed(s) == s
            &&& address::network_address(s) == Ok::<(address::Ip, Option<u32>), Seq<char>>(
                (ip, scope),
            )
        }),
{
    let s = scoped_text(ip, scope);
    lemma_bare_text(ip);
    if let Some(number) = scope {
        let digits = text::decimal(number as nat);
        text::lemma_decimal_digits(number as nat);
        text::law_decimal_read_back(number as nat, u32::MAX as nat);
        assert(text::digit_value('%') is None);
        assert(!digits.contains('%')) by {
            if digits.contains('%') {
                let i = choose|i: int| 0 <= i < digits.len() && digits[i] == '%';
                assert(text::digit_value(digits[i]) is Some);
            }
        }
        assert(text::digit_value(digits[digits.len() - 1]) is Some);
        lemma_text_behind_scope_sign(ip, digits);
    }
}

/// The text of an address, with its scope where it has one, stands for that address and that
/// scope, also between square brackets, and with white space around either.
pub proof fn law_printed_address_is_read_back(
    ip: address::Ip,
    scope: Option<u32>,
    before: Seq<char>,
    after: Seq<char>,
)
    requires
        is_complete(ip),
        scope is Some ==> ip is V6,
        text::is_blank(before),
        text::is_blank(after),
    ensures
        address::network_address(before + scoped_text(ip, scope) + after) == Ok::<
            (address::Ip, Option<u32>),
            Seq<char>,
        >((ip, scope)),
        address::network_address(
            before + (seq!['['] + scoped_text(ip, scope) + seq![']']) + after,
        ) == Ok::<(address::Ip, Option<u32>), Seq<char>>((ip, scope)),
{
    let s = scoped_text(ip, scope);
    lemma_scoped_text(ip, scope);
    address::law_brackets_do_not_matter(s);
    law_white_space_does_not_matter(before, s, after);
    law_white_space_does_not_matter(before, seq!['['] + s + seq![']'], after);
}

/// What is printed of an address is parsed as that address: between square brackets or not, with its
/// scope where it has one, and with white space around it.
pub proof fn law_printed_addresses_are_parsed(
    ip: address::Ip,
    scope: Option<u32>,
    before: Seq<char>,
    after: Seq<char>,
    bare: &str,
    bracketed: &str,
    a: Result<(IpAddress, Option<u32>)>,
    b: Result<(IpAddress, Option<u32>)>,
)
    requires
        is_complete(ip),
        scope is Some ==> ip is V6,
        text::is_blank(before),
        text::is_blank(after),
        bare@ == before + scoped_text(ip, scope) + after,
        bracketed@ == before + (seq!['['] + scoped_text(ip, scope) + seq![']']) + after,
        call_ensures(address::parse_network_address, (bare,), a),
        call_ensures(address::parse_network_address, (bracketed,), b),
    ensures
        a matches Ok(found) && found.0@ == ip && found.1 == scope,
        b matches Ok(found) && found.0@ == ip && found.1 == scope,
{
    law_printed_address_is_read_back(ip, scope, before, after);
}

/// Numbers in decimal notation, with a dot between any two.
pub open spec fn dotted_numbers(numbers: Seq<nat>) -> Seq<char> {
    text::join(numbers.map_values(|n: nat| text::decimal(n)), '.')
}

proof fn lemma_decimal_is_hex_text(n: nat)
    ensures
        is_hex_text(text::decimal(n)),
        text::decimal(n).len() > 0,
        address::octet(text::decimal(n)) == (if n <= 255 {
            Some(n as u8)
        } else {
            None
        }),
{
    let s = text::decimal(n);
    text::lemma_decimal_digits(n);
    assert forall|i: int| 0 <= i < s.len() implies address::hex_digit(#[trigger] s[i]) is Some by {
        assert(text::digit_value(s[i]) is Some);
    }
}

/// Four numbers with dots between them are an address where none of them is above 255, and only
/// there; any other count of numbers is none.
pub proof fn law_octets_are_four_numbers_up_to_255(numbers: Seq<nat>)
    requires
        numbers.len() > 0,
    ensures
        ({
            let s = dotted_numbers(numbers);
            if numbers.len() == 4 && numbers[0] <= 255 && numbers[1] <= 255 && numbers[2] <= 255
                && numbers[3] <= 255 {
                address::ipv4(s) == Some(
                    seq![numbers[0] as u8, numbers[1] as u8, numbers[2] as u8, numbers[3] as u8],
                )
            } else {
                address::ipv4(s) is None
            }
        }),
{
    let parts = numbers.map_values(|n: nat| text::decimal(n));
    assert forall|i: int| 0 <= i < parts.len() implies !(#[trigger] parts[i]).contains('.') by {
        lemma_decimal_is_hex_text(numbers[i]);
        lemma_hex_text_holds_no_mark(parts[i]);
    }
    text::law_join_is_split(parts, '.');
    if numbers.len() == 4 {
        lemma_decimal_is_hex_text(numbers[0]);
        lemma_decimal_is_hex_text(numbers[1]);
        lemma_decimal_is_hex_text(numbers[2]);
        lemma_decimal_is_hex_text(numbers[3]);
    }
}

/// A leading zero, or no digit at all, makes no octet.
pub proof fn law_octets_have_no_leading_zero(s: Seq<char>)
    ensures
        s.len() > 1 && s[0] == '0' ==> address::octet(s) is None,
        s.len() == 0 || s.len() > 3 ==> address::octet(s) is None,
{
}

/// A group is one to four hexadecimal digits, in letters of either case.
pub proof fn law_groups_are_up_to_four_digits(n: nat, s: Seq<char>, digit: nat)
    requires
        10 <= digit < 16,
    ensures
        n <= 0xffff ==> address::group(hex(n)) == Some(n as u16),
        n > 0xffff ==> address::group(hex(n)) is None,
        s.len() == 0 || s.len() > 4 ==> address::group(s) is None,
        address::hex_digit((0x41 + digit - 10) as char) == Some(digit),
        address::hex_digit((0x61 + digit - 10) as char) == Some(digit),
{
    lemma_hex(n);
    lemma_hex_length(n);
}

proof fn lemma_hex_length(n: nat)
    ensures
        n >= 16 ==> hex(n).len() >= 2,
        n >= 256 ==> hex(n).len() >= 3,
        n >= 4096 ==> hex(n).len() >= 4,
        n >= 65536 ==> hex(n).len() >= 5,
        hex(n).len() >= 1,
    decreases n,
{
    if n >= 16 {
        lemma_hex_length(n / 16);
    }
}

/// Groups with colons between them are an address where there are eight. Two colons side by side
/// stand for as many zero groups as are missing, where at least one is.
pub proof fn law_missing_groups_are_zeros(head: Seq<u16>, tail: Seq<u16>)
    ensures
        head.len() > 0 ==> address::ipv6(colon_text(head)) == (if head.len() == 8 {
            Some(head)
        } else {
            None
        }),
        address::ipv6(colon_text(head) + seq![':', ':'] + colon_text(tail)) == (if head.len()
            + tail.len() <= 7 {
            Some(head + Seq::new((8 - head.len() - tail.len()) as nat, |i: int| 0u16) + tail)
        } else {
            None
        }),
{
    let first = colon_text(head);
    let second = colon_text(tail);
    let whole = first + seq![':', ':'] + second;
    lemma_colon_text_is_empty_for_none(head);
    lemma_colon_text_is_empty_for_none(tail);
    if head.len() > 0 {
        lemma_colon_text_shape(head);
        lemma_colon_text_read(head);
        lemma_closed_text_has_no_gap(first);
    } else {
        assert(head =~= Seq::<u16>::empty());
    }
    if tail.len() > 0 {
        lemma_colon_text_shape(tail);
        lemma_colon_text_read(tail);
    } else {
        assert(tail =~= Seq::<u16>::empty());
    }
    lemma_gap_after(first, second);
    assert(whole.take(first.len() as int) =~= first);
    assert(whole.skip(first.len() as int + 2) =~= second);
}

/// What is no address is refused, and the error says why: nothing is written, the scope is no
/// number that fits, or the text itself, without white space and brackets around it.
pub proof fn law_what_is_no_address_is_refused(
    input: &str,
    r: Result<(IpAddress, Option<u32>)>,
    ip: address::Ip,
    words: Seq<char>,
)
    requires
        call_ensures(address::parse_network_address, (input,), r),
    ensures
        r matches Err(e) ==> e is InvalidNetworkAddress,
        text::is_blank(input@) ==> (r matches Err(Error::InvalidNetworkAddress(said)) && said@
            == "network address cannot be empty"@),
        ip is V6 && is_complete(ip) && input@ == ip_text(ip) + seq!['%'] + words && (words.len() == 0
            || (!words.contains('%') && !text::is_white_space(words.last()))) && (
        text::unsigned_value(words, 0xffff_ffff) is None) ==> (r matches Err(
            Error::InvalidNetworkAddress(said),
        ) && said@ == "IPv6 scope must be a numeric interface ID"@),
{
    text::law_blank_is_trimmed_away(input@);
    if ip is V6 && is_complete(ip) && input@ == ip_text(ip) + seq!['%'] + words && (words.len() == 0
        || (!words.contains('%') && !text::is_white_space(words.last()))) {
        lemma_bare_text(ip);
        lemma_text_behind_scope_sign(ip, words);
    }
}

} // verus!
