//! Network addresses as they are written.

use vstd::prelude::*;
use vstd::string::*;

use crate::error::{Error, Result};
use crate::text;

verus! {

/// An address of the Internet Protocol: four octets, or eight groups of sixteen bits.
#[derive(Clone, Copy, Debug, PartialEq, Eq)]
pub enum IpAddress {
    V4([u8; 4]),
    V6([u16; 8]),
}

/// The octets or the groups of an address.
pub ghost enum Ip {
    V4(Seq<u8>),
    V6(Seq<u16>),
}

impl View for IpAddress {
    type V = Ip;

    open spec fn view(&self) -> Ip {
        match *self {
            IpAddress::V4(octets) => Ip::V4(octets@),
            IpAddress::V6(groups) => Ip::V6(groups@),
        }
    }
}

/// The octet that up to three decimal digits without a leading zero stand for.
pub open spec fn octet(s: Seq<char>) -> Option<u8> {
    match text::digits_value(s) {
        Some(value) if 1 <= s.len() <= 3 && (s.len() == 1 || s[0] != '0') && value <= 255 => Some(
            value as u8,
        ),
        _ => None,
    }
}

/// The octets that stand between dots, where there are four.
pub open spec fn ipv4(s: Seq<char>) -> Option<Seq<u8>> {
    let parts = text::pieces(s, '.');
    if parts.len() == 4 {
        match (octet(parts[0]), octet(parts[1]), octet(parts[2]), octet(parts[3])) {
            (Some(a), Some(b), Some(c), Some(d)) => Some(seq![a, b, c, d]),
            _ => None,
        }
    } else {
        None
    }
}

/// The value of a hexadecimal digit.
pub open spec fn hex_digit(c: char) -> Option<nat> {
    let n = c as u32;
    if 0x30 <= n <= 0x39 {
        Some((n - 0x30) as nat)
    } else if 0x61 <= n <= 0x66 {
        Some((n - 0x61 + 10) as nat)
    } else if 0x41 <= n <= 0x46 {
        Some((n - 0x41 + 10) as nat)
    } else {
        None
    }
}

/// The number that a sequence of hexadecimal digits stands for; `None` where another character
/// occurs.
pub open spec fn hex_value(s: Seq<char>) -> Option<nat>
    decreases s.len(),
{
    if s.len() == 0 {
        Some(0)
    } else {
        match (hex_value(s.drop_last()), hex_digit(s.last())) {
            (Some(high), Some(low)) => Some(high * 16 + low),
            _ => None,
        }
    }
}

/// The group that one to four hexadecimal digits stand for.
pub open spec fn group(s: Seq<char>) -> Option<u16> {
    match hex_value(s) {
        Some(value) if 1 <= s.len() <= 4 => Some(value as u16),
        _ => None,
    }
}

/// The groups that several texts stand for, where each stands for one.
pub open spec fn groups(parts: Seq<Seq<char>>) -> Option<Seq<u16>>
    decreases parts.len(),
{
    if parts.len() == 0 {
        Some(Seq::empty())
    } else {
        match (groups(parts.drop_last()), group(parts.last())) {
            (Some(before), Some(last)) => Some(before.push(last)),
            _ => None,
        }
    }
}

/// The two groups that four octets make.
pub open spec fn octet_groups(octets: Seq<u8>) -> Seq<u16> {
    seq![(octets[0] * 256 + octets[1]) as u16, (octets[2] * 256 + octets[3]) as u16]
}

/// The groups that stand between colons; four octets between dots may stand in place of the last
/// two.
pub open spec fn mixed_groups(s: Seq<char>) -> Option<Seq<u16>> {
    let parts = text::pieces(s, ':');
    match (groups(parts.drop_last()), ipv4(parts.last())) {
        (Some(before), Some(octets)) => Some(before + octet_groups(octets)),
        _ => groups(parts),
    }
}

/// Where two colons stand next to each other for the first time.
pub open spec fn first_gap(s: Seq<char>) -> Option<int>
    decreases s.len(),
{
    if s.len() < 2 {
        None
    } else if s[0] == ':' && s[1] == ':' {
        Some(0)
    } else {
        match first_gap(s.skip(1)) {
            Some(k) => Some(k + 1),
            None => None,
        }
    }
}

/// The eight groups of an address: all of them, or what stands before and after two colons, which
/// stand for one zero group or more.
pub open spec fn ipv6(s: Seq<char>) -> Option<Seq<u16>> {
    match first_gap(s) {
        None => match mixed_groups(s) {
            Some(all) if all.len() == 8 => Some(all),
            _ => None,
        },
        Some(k) => {
            let head = if k == 0 {
                Some(Seq::empty())
            } else {
                groups(text::pieces(s.take(k), ':'))
            };
            let tail = if k + 2 == s.len() {
                Some(Seq::empty())
            } else {
                mixed_groups(s.skip(k + 2))
            };
            match (head, tail) {
                (Some(h), Some(t)) if h.len() + t.len() <= 7 => Some(
                    h + Seq::new((8 - h.len() - t.len()) as nat, |i: int| 0u16) + t,
                ),
                _ => None,
            }
        },
    }
}

/// The address that a text stands for.
pub open spec fn ip(s: Seq<char>) -> Option<Ip> {
    match (ipv4(s), ipv6(s)) {
        (Some(octets), _) => Some(Ip::V4(octets)),
        (None, Some(all)) => Some(Ip::V6(all)),
        (None, None) => None,
    }
}

/// A text without the square brackets around it.
pub open spec fn unbracketed(s: Seq<char>) -> Seq<char> {
    if s.len() >= 2 && s[0] == '[' && s.last() == ']' {
        s.subrange(1, s.len() - 1)
    } else {
        s
    }
}

/// The address and the scope that a text stands for, or the words for why it stands for none.
pub open spec fn network_address(input: Seq<char>) -> std::result::Result<
    (Ip, Option<u32>),
    Seq<char>,
> {
    let s = unbracketed(text::trimmed(input));
    if text::trimmed(input).len() == 0 {
        Err("network address cannot be empty"@)
    } else {
        match text::last_index(s, '%') {
            Some(k) if s.take(k).contains(':') => match (
                text::unsigned_value(s.skip(k + 1), u32::MAX as nat),
                ip(s.take(k)),
            ) {
                (None, _) => Err("IPv6 scope must be a numeric interface ID"@),
                (Some(_), None) => Err(s),
                (Some(_), Some(Ip::V4(_))) => Err(
                    "scope IDs are only valid for IPv6 addresses"@,
                ),
                (Some(scope), Some(address)) => Ok((address, Some(scope as u32))),
            },
            _ => match ip(s) {
                Some(address) => Ok((address, None)),
                None => Err(s),
            },
        }
    }
}

/// An address is complete: four octets, or eight groups.
pub proof fn law_addresses_are_complete(s: Seq<char>)
    ensures
        match ip(s) {
            Some(Ip::V4(octets)) => octets.len() == 4,
            Some(Ip::V6(all)) => all.len() == 8,
            None => true,
        },
{
}

/// Only an address with groups can have a scope, and every scope is read as a number.
pub proof fn law_scope_needs_groups(input: Seq<char>)
    ensures
        match network_address(input) {
            Ok((address, Some(scope))) => address is V6,
            _ => true,
        },
{
}

/// Square brackets around an address do not change it.
pub proof fn law_brackets_do_not_matter(s: Seq<char>)
    requires
        s.len() > 0,
        text::trimmed(s) == s,
        unbracketed(s) == s,
    ensures
        network_address(seq!['['] + s + seq![']']) == network_address(s),
{
    let whole = seq!['['] + s + seq![']'];
    assert(whole[0] == '[');
    assert(whole.last() == ']');
    assert(!text::is_white_space('['));
    assert(!text::is_white_space(']'));
    assert(text::trimmed(whole) == whole);
    assert(whole.subrange(1, whole.len() - 1) =~= s);
}

/// The octet that up to three decimal digits without a leading zero stand for.
fn read_octet(s: &[char]) -> (r: Option<u8>)
    ensures
        r == octet(s@),
{
    if s.len() == 0 || s.len() > 3 || (s.len() > 1 && s[0] == '0') || s[0] == '+' {
        proof {
            if s@.len() > 0 && s@[0] == '+' {
                lemma_plus_is_no_digit(s@);
            }
        }
        return None;
    }
    match text::parse_unsigned(s, 255) {
        Some(value) => Some(value as u8),
        None => None,
    }
}

proof fn lemma_plus_is_no_digit(s: Seq<char>)
    requires
        s.len() > 0,
        s[0] == '+',
    ensures
        text::digits_value(s) is None,
    decreases s.len(),
{
    if s.len() > 1 {
        lemma_plus_is_no_digit(s.drop_last());
    }
}

/// The octets that stand between dots, where there are four.
fn read_ipv4(s: &[char]) -> (r: Option<[u8; 4]>)
    ensures
        match r {
            Some(octets) => ipv4(s@) == Some(octets@),
            None => ipv4(s@) is None,
        },
{
    let parts: Vec<Vec<char>> = text::split(s, '.');
    if parts.len() != 4 {
        return None;
    }
    match (
        read_octet(parts[0].as_slice()),
        read_octet(parts[1].as_slice()),
        read_octet(parts[2].as_slice()),
        read_octet(parts[3].as_slice()),
    ) {
        (Some(a), Some(b), Some(c), Some(d)) => {
            let octets: [u8; 4] = [a, b, c, d];
            assert(octets@ =~= seq![a, b, c, d]);
            Some(octets)
        },
        _ => None,
    }
}

/// The value of a hexadecimal digit.
fn read_hex_digit(c: char) -> (r: Option<u32>)
    ensures
        match hex_digit(c) {
            Some(value) => r == Some(value as u32) && value < 16,
            None => r is None,
        },
{
    let n: u32 = c as u32;
    if 0x30 <= n && n <= 0x39 {
        Some(n - 0x30)
    } else if 0x61 <= n && n <= 0x66 {
        Some(n - 0x61 + 10)
    } else if 0x41 <= n && n <= 0x46 {
        Some(n - 0x41 + 10)
    } else {
        None
    }
}

proof fn lemma_hex_prefix_none(s: Seq<char>, k: int)
    requires
        0 <= k <= s.len(),
        hex_value(s.take(k)) is None,
    ensures
        hex_value(s) is None,
    decreases s.len() - k,
{
    if k < s.len() {
        assert(s.take(k + 1).drop_last() =~= s.take(k));
        lemma_hex_prefix_none(s, k + 1);
    } else {
        assert(s.take(k) =~= s);
    }
}

/// The group that one to four hexadecimal digits stand for.
fn read_group(s: &[char]) -> (r: Option<u16>)
    ensures
        r == group(s@),
{
    if s.len() == 0 || s.len() > 4 {
        return None;
    }
    let mut value: u32 = 0;
    let mut i: usize = 0;
    assert(s@.take(0) =~= Seq::<char>::empty());
    while i < s.len()
        invariant
            i <= s@.len() <= 4,
            hex_value(s@.take(i as int)) == Some(value as nat),
            i == 0 ==> value < 1,
            i == 1 ==> value < 0x10,
            i == 2 ==> value < 0x100,
            i == 3 ==> value < 0x1000,
            i == 4 ==> value < 0x10000,
        decreases s.len() - i,
    {
        assert(s@.take(i + 1).drop_last() =~= s@.take(i as int));
        match read_hex_digit(s[i]) {
            Some(digit) => {
                value = value * 16 + digit;
            },
            None => {
                proof {
                    lemma_hex_prefix_none(s@, i + 1);
                }
                return None;
            },
        }
        i += 1;
    }
    assert(s@.take(i as int) =~= s@);
    Some(value as u16)
}

/// The texts of several lists of characters.
spec fn lists(parts: Seq<Vec<char>>) -> Seq<Seq<char>> {
    parts.map_values(|list: Vec<char>| list@)
}

proof fn lemma_groups_prefix_none(parts: Seq<Seq<char>>, k: int)
    requires
        0 <= k <= parts.len(),
        groups(parts.take(k)) is None,
    ensures
        groups(parts) is None,
    decreases parts.len() - k,
{
    if k < parts.len() {
        assert(parts.take(k + 1).drop_last() =~= parts.take(k));
        lemma_groups_prefix_none(parts, k + 1);
    } else {
        assert(parts.take(k) =~= parts);
    }
}

/// The groups that the first `count` texts stand for.
fn read_groups(parts: &Vec<Vec<char>>, count: usize) -> (r: Option<Vec<u16>>)
    requires
        count <= parts@.len(),
    ensures
        match r {
            Some(list) => groups(lists(parts@).take(count as int)) == Some(list@),
            None => groups(lists(parts@).take(count as int)) is None,
        },
{
    let ghost all = lists(parts@).take(count as int);
    let mut out: Vec<u16> = Vec::new();
    let mut i: usize = 0;
    assert(all.take(0) =~= Seq::<Seq<char>>::empty());
    assert(out@ =~= Seq::<u16>::empty());
    while i < count
        invariant
            i <= count <= parts@.len(),
            all == lists(parts@).take(count as int),
            groups(all.take(i as int)) == Some(out@),
        decreases count - i,
    {
        assert(all.take(i + 1).drop_last() =~= all.take(i as int));
        assert(all.take(i + 1).last() == parts@[i as int]@);
        match read_group(parts[i].as_slice()) {
            Some(group) => out.push(group),
            None => {
                proof {
                    lemma_groups_prefix_none(all, i + 1);
                }
                return None;
            },
        }
        i += 1;
    }
    assert(all.take(i as int) =~= all);
    Some(out)
}

/// The groups that stand between colons; four octets between dots may stand in place of the last
/// two.
fn read_mixed_groups(s: &[char]) -> (r: Option<Vec<u16>>)
    ensures
        match r {
            Some(list) => mixed_groups(s@) == Some(list@),
            None => mixed_groups(s@) is None,
        },
{
    let parts: Vec<Vec<char>> = text::split(s, ':');
    let ghost all = text::pieces(s@, ':');
    proof {
        text::law_pieces_join(s@, ':');
        assert(lists(parts@) =~= all);
        assert(lists(parts@).take(parts@.len() - 1) =~= all.drop_last());
        assert(lists(parts@).take(parts@.len() as int) =~= all);
    }
    let last: usize = parts.len() - 1;
    if let Some(octets) = read_ipv4(parts[last].as_slice()) {
        if let Some(mut list) = read_groups(&parts, last) {
            let ghost before = list@;
            list.push(octets[0] as u16 * 256 + octets[1] as u16);
            list.push(octets[2] as u16 * 256 + octets[3] as u16);
            assert(list@ =~= before + octet_groups(octets@));
            return Some(list);
        }
    }
    read_groups(&parts, parts.len())
}

/// Where two colons stand next to each other for the first time.
fn find_gap(s: &[char]) -> (r: Option<usize>)
    ensures
        match r {
            Some(k) => first_gap(s@) == Some(k as int) && k + 2 <= s@.len(),
            None => first_gap(s@) is None,
        },
{
    let mut i: usize = 0;
    assert(s@.skip(0) =~= s@);
    while i < s.len() && i + 1 < s.len()
        invariant
            i <= s@.len(),
            match first_gap(s@.skip(i as int)) {
                Some(k) => first_gap(s@) == Some(k + i),
                None => first_gap(s@) is None,
            },
        decreases s.len() - i,
    {
        if s[i] == ':' && s[i + 1] == ':' {
            return Some(i);
        }
        assert(s@.skip(i as int).skip(1) =~= s@.skip(i + 1));
        i += 1;
    }
    None
}

/// Eight groups: a head, zero groups, and a tail.
fn filled(head: &Vec<u16>, tail: &Vec<u16>) -> (r: [u16; 8])
    requires
        head@.len() + tail@.len() <= 8,
    ensures
        r@ == head@ + Seq::new((8 - head@.len() - tail@.len()) as nat, |i: int| 0u16) + tail@,
{
    let mut out: [u16; 8] = [0, 0, 0, 0, 0, 0, 0, 0];
    let mut i: usize = 0;
    while i < head.len()
        invariant
            i <= head@.len() <= 8,
            out@.len() == 8,
            forall|j: int| 0 <= j < i ==> out@[j] == head@[j],
            forall|j: int| i <= j < 8 ==> out@[j] == 0,
        decreases head.len() - i,
    {
        out[i] = head[i];
        i += 1;
    }
    let start: usize = 8 - tail.len();
    let mut k: usize = 0;
    while k < tail.len()
        invariant
            k <= tail@.len(),
            start + tail@.len() == 8,
            head@.len() <= start,
            out@.len() == 8,
            forall|j: int| 0 <= j < head@.len() ==> out@[j] == head@[j],
            forall|j: int| head@.len() <= j < start ==> out@[j] == 0,
            forall|j: int| start <= j < start + k ==> out@[j] == tail@[j - start],
        decreases tail.len() - k,
    {
        out[start + k] = tail[k];
        k += 1;
    }
    assert(out@ =~= head@ + Seq::new((8 - head@.len() - tail@.len()) as nat, |i: int| 0u16)
        + tail@);
    out
}

/// The eight groups of an address.
fn read_ipv6(s: &[char]) -> (r: Option<[u16; 8]>)
    ensures
        match r {
            Some(all) => ipv6(s@) == Some(all@),
            None => ipv6(s@) is None,
        },
{
    match find_gap(s) {
        None => match read_mixed_groups(s) {
            Some(list) if list.len() == 8 => {
                let all: [u16; 8] = filled(&list, &Vec::new());
                assert(all@ =~= list@);
                Some(all)
            },
            _ => None,
        },
        Some(k) => {
            assert(k + 2 <= s.len());
            let head: Vec<u16> = if k == 0 {
                Vec::new()
            } else {
                let before: &[char] = vstd::slice::slice_subrange(s, 0, k);
                let parts: Vec<Vec<char>> = text::split(before, ':');
                proof {
                    assert(before@ =~= s@.take(k as int));
                    assert(lists(parts@) =~= text::pieces(s@.take(k as int), ':'));
                    assert(lists(parts@).take(parts@.len() as int) =~= lists(parts@));
                }
                match read_groups(&parts, parts.len()) {
                    Some(list) => list,
                    None => return None,
                }
            };
            let tail: Vec<u16> = if k + 2 == s.len() {
                Vec::new()
            } else {
                let after: &[char] = vstd::slice::slice_subrange(s, k + 2, s.len());
                assert(after@ =~= s@.skip(k + 2));
                match read_mixed_groups(after) {
                    Some(list) => list,
                    None => return None,
                }
            };
            if head.len() <= 7 && tail.len() <= 7 - head.len() {
                Some(filled(&head, &tail))
            } else {
                None
            }
        },
    }
}

/// The address that a text stands for.
fn read_ip(s: &[char]) -> (r: Option<IpAddress>)
    ensures
        match r {
            Some(address) => ip(s@) == Some(address@),
            None => ip(s@) is None,
        },
{
    match read_ipv4(s) {
        Some(octets) => Some(IpAddress::V4(octets)),
        None => match read_ipv6(s) {
            Some(all) => Some(IpAddress::V6(all)),
            None => None,
        },
    }
}

/// Whether a character occurs in a text.
fn occurs(s: &[char], c: char) -> (r: bool)
    ensures
        r == s@.contains(c),
{
    let mut i: usize = 0;
    while i < s.len()
        invariant
            i <= s@.len(),
            forall|j: int| 0 <= j < i ==> s@[j] != c,
        decreases s.len() - i,
    {
        if s[i] == c {
            assert(s@[i as int] == c);
            return true;
        }
        i += 1;
    }
    false
}

/// The address and the scope that a text stands for.
pub fn parse_network_address(input: &str) -> (r: Result<(IpAddress, Option<u32>)>)
    ensures
        match network_address(input@) {
            Ok((address, scope)) => r matches Ok(found) && found.0@ == address && found.1 == scope,
            Err(words) => r matches Err(Error::InvalidNetworkAddress(said)) && said@ == words,
        },
{
    let list: Vec<char> = text::chars(input);
    let trimmed: &[char] = text::trim(list.as_slice());
    if trimmed.len() == 0 {
        return Err(Error::InvalidNetworkAddress("network address cannot be empty".to_owned()));
    }
    let s: &[char] = if trimmed.len() >= 2 && trimmed[0] == '[' && trimmed[trimmed.len() - 1]
        == ']' {
        vstd::slice::slice_subrange(trimmed, 1, trimmed.len() - 1)
    } else {
        trimmed
    };
    proof {
        text::lemma_last_index(s@, '%');
    }
    if let Some(k) = text::rfind(s, '%') {
        let address: &[char] = vstd::slice::slice_subrange(s, 0, k);
        assert(address@ =~= s@.take(k as int));
        if occurs(address, ':') {
            let scope: &[char] = vstd::slice::slice_subrange(s, k + 1, s.len());
            assert(scope@ =~= s@.skip(k + 1));
            return match text::parse_unsigned(scope, 0xffff_ffff) {
                None => Err(
                    Error::InvalidNetworkAddress(
                        "IPv6 scope must be a numeric interface ID".to_owned(),
                    ),
                ),
                Some(scope) => match read_ip(address) {
                    None => Err(Error::InvalidNetworkAddress(text::text(s))),
                    Some(IpAddress::V4(_)) => Err(
                        Error::InvalidNetworkAddress(
                            "scope IDs are only valid for IPv6 addresses".to_owned(),
                        ),
                    ),
                    Some(address) => Ok((address, Some(scope as u32))),
                },
            };
        }
    }
    match read_ip(s) {
        Some(address) => Ok((address, None)),
        None => Err(Error::InvalidNetworkAddress(text::text(s))),
    }
}

} // verus!
